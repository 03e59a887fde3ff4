use gmbm::exit::{CallError, Exit};
use gmbm::func::{upvalue_index, CallOutcome, NativeDispatch, Rets};
use gmbm::types::StdType;
use gmbm::state::Lua;
use gmbm::value::Value;

const ADD: u64 = 1;
const RAISE: u64 = 2;
const THREE: u64 = 3;
const UPVALUES: u64 = 4;
const OUTER: u64 = 5;

struct Disp;

impl NativeDispatch for Disp {
    fn invoke(&mut self, lua: &mut Lua, func: u64) -> CallOutcome {
        match func {
            ADD => {
                let a = f64::from_bits(match lua.check_number(1) {
                    Ok(b) => b,
                    Err(e) => return CallOutcome::Raise(e),
                });
                let b = f64::from_bits(match lua.check_number(2) {
                    Ok(b) => b,
                    Err(e) => return CallOutcome::Raise(e),
                });
                lua.push_number((a + b).to_bits());
                CallOutcome::Return(1)
            }
            RAISE => {
                let e = lua.throw_error(b"boom");
                CallOutcome::Raise(e)
            }
            THREE => {
                lua.push_number(1);
                lua.push_number(2);
                lua.push_number(3);
                CallOutcome::Return(3)
            }
            UPVALUES => {
                lua.push_upvalue(0);
                lua.push_upvalue(1);
                lua.push_upvalue(9);
                CallOutcome::Return(3)
            }
            OUTER => {
                // a native callable calling back into a protected call
                lua.push_c_function(ADD);
                lua.push_number(10.0f64.to_bits());
                lua.push_number(20.0f64.to_bits());
                match lua.pcall(self, 2, 1, 0) {
                    Ok(()) => CallOutcome::Return(1),
                    Err(_) => {
                        let e = lua.throw_error(b"inner call failed");
                        CallOutcome::Raise(e)
                    }
                }
            }
            _ => {
                let e = lua.throw_error(b"unknown native function");
                CallOutcome::Raise(e)
            }
        }
    }
}

#[test]
fn scripted_add_returns_five() {
    let mut lua = Lua::new();
    let mut d = Disp;
    // module open: the globals gain rust_hello = { Add = <native> }
    lua.push_globals();
    lua.create_table();
    lua.push_c_function(ADD);
    lua.set_field(-2, b"Add").unwrap();
    lua.set_field(-2, b"rust_hello").unwrap();
    lua.pop(1);
    // the scripted side runs: return rust_hello.Add(2, 3)
    lua.push_globals();
    lua.get_field(-1, b"rust_hello").unwrap();
    lua.get_field(-1, b"Add").unwrap();
    lua.push_number(2.0f64.to_bits());
    lua.push_number(3.0f64.to_bits());
    lua.pcall(&mut d, 2, 1, 0).unwrap();
    assert_eq!(f64::from_bits(lua.get_number(-1)), 5.0);
}

#[test]
fn pcall_failure_leaves_exactly_one_error() {
    let mut lua = Lua::new();
    let mut d = Disp;
    lua.push_bool(true); // sentinel below the call
    lua.push_c_function(RAISE);
    lua.push_number(0);
    let before = lua.top();
    assert_eq!(lua.pcall(&mut d, 1, 0, 0), Err(CallError));
    // callable and argument replaced by exactly one error value
    assert_eq!(lua.top(), before - 2 + 1);
    assert_eq!(lua.get_string(-1).unwrap(), b"boom".to_vec());
    assert_eq!(lua.value_at(1), Value::Bool(true));
}

#[test]
fn pcall_success_leaves_declared_results() {
    let mut lua = Lua::new();
    let mut d = Disp;
    // more results than asked: truncated to the declared count
    lua.push_c_function(THREE);
    lua.pcall(&mut d, 0, 2, 0).unwrap();
    assert_eq!(lua.top(), 2);
    assert_eq!(lua.value_at(1), Value::Number(1));
    assert_eq!(lua.value_at(2), Value::Number(2));
    lua.pop(2);
    // fewer results than asked: padded with nil
    lua.push_c_function(THREE);
    lua.pcall(&mut d, 0, 5, 0).unwrap();
    assert_eq!(lua.top(), 5);
    assert_eq!(lua.value_at(4), Value::Nil);
    assert_eq!(lua.value_at(5), Value::Nil);
}

#[test]
fn pcall_of_non_function_fails() {
    let mut lua = Lua::new();
    let mut d = Disp;
    lua.push_number(0);
    assert_eq!(lua.pcall(&mut d, 0, 0, 0), Err(CallError));
    assert_eq!(lua.top(), 1);
    assert_eq!(
        lua.get_string(-1).unwrap(),
        b"attempt to call a non-function value".to_vec()
    );
}

#[test]
fn unprotected_call_propagates_the_exit() {
    let mut lua = Lua::new();
    let mut d = Disp;
    lua.push_c_function(RAISE);
    let r = lua.call(&mut d, 0, 0);
    match r {
        Err(Exit::Thrown(Value::Str(_))) => {}
        other => panic!("expected a propagated exit, got {:?}", other),
    }
    assert_eq!(lua.top(), 0);
}

#[test]
fn closures_carry_upvalues() {
    let mut lua = Lua::new();
    let mut d = Disp;
    lua.push_number(7);
    lua.push_string(b"up");
    lua.push_c_closure(UPVALUES, 2);
    assert_eq!(lua.top(), 1);
    lua.pcall(&mut d, 0, 3, 0).unwrap();
    assert_eq!(lua.value_at(1), Value::Number(7));
    assert_eq!(lua.get_string(2).unwrap(), b"up".to_vec());
    // an upvalue index past the captured values reads as nil
    assert_eq!(lua.value_at(3), Value::Nil);
}

#[test]
fn native_calls_can_nest() {
    let mut lua = Lua::new();
    let mut d = Disp;
    lua.push_c_function(OUTER);
    lua.pcall(&mut d, 0, 1, 0).unwrap();
    assert_eq!(f64::from_bits(lua.get_number(-1)), 30.0);
    assert_eq!(lua.top(), 1);
}

#[test]
fn arguments_are_frame_relative() {
    let mut lua = Lua::new();
    let mut d = Disp;
    // junk below the call must not shift the callee's view of its arguments
    lua.push_string(b"junk");
    lua.push_bool(false);
    lua.push_c_function(ADD);
    lua.push_number(4.0f64.to_bits());
    lua.push_number(8.0f64.to_bits());
    lua.pcall(&mut d, 2, 1, 0).unwrap();
    assert_eq!(f64::from_bits(lua.get_number(-1)), 12.0);
    assert_eq!(lua.top(), 3);
}

#[test]
fn arg_error_objects_name_the_argument() {
    struct ArgRaiser;
    impl NativeDispatch for ArgRaiser {
        fn invoke(&mut self, lua: &mut Lua, _func: u64) -> CallOutcome {
            let e = lua.arg_error(2, b"number expected");
            CallOutcome::Raise(e)
        }
    }
    let mut lua = Lua::new();
    let mut d = ArgRaiser;
    lua.push_c_function(77);
    assert_eq!(lua.pcall(&mut d, 0, 0, 0), Err(CallError));
    assert_eq!(
        lua.get_string(-1).unwrap(),
        b"bad argument #2 (number expected)".to_vec()
    );
}

#[test]
fn bad_type_objects_name_position_and_type() {
    struct TypeRaiser;
    impl NativeDispatch for TypeRaiser {
        fn invoke(&mut self, lua: &mut Lua, _func: u64) -> CallOutcome {
            match lua.check_number(1) {
                Ok(_) => CallOutcome::Return(0),
                Err(e) => CallOutcome::Raise(e),
            }
        }
    }
    let mut lua = Lua::new();
    let mut d = TypeRaiser;
    lua.push_c_function(78);
    lua.push_string(b"not a number");
    assert_eq!(lua.pcall(&mut d, 1, 0, 0), Err(CallError));
    assert_eq!(
        lua.get_string(-1).unwrap(),
        b"bad type at position 1, expected type 3".to_vec()
    );
}

#[test]
fn empty_dispatch_raises_for_every_label() {
    let mut lua = Lua::new();
    let mut d = gmbm::func::NoNatives;
    lua.push_c_function(123456);
    assert_eq!(lua.pcall(&mut d, 0, 0, 0), Err(CallError));
    assert_eq!(
        lua.get_string(-1).unwrap(),
        b"unknown native function".to_vec()
    );
}

#[test]
fn type_names_follow_the_host() {
    let lua = Lua::new();
    assert_eq!(lua.get_type_name(StdType::Nil), b"nil".to_vec());
    assert_eq!(lua.get_type_name(StdType::UserData), b"userdata".to_vec());
    assert_eq!(StdType::Vector.get_type_name(), b"vector".to_vec());
}

#[test]
fn rets_clamps_to_the_host_count_type() {
    assert_eq!(Rets::zero().count(), 0);
    assert_eq!(Rets::new(5).count(), 5);
    assert_eq!(Rets::new(usize::MAX).count(), 0);
}

#[test]
fn upvalue_index_matches_the_host_layout() {
    assert_eq!(upvalue_index(0), -10003);
    assert_eq!(upvalue_index(1), -10004);
    assert_eq!(upvalue_index(255), -10258);
}

#[test]
fn push_value_reads_pseudo_indices() {
    let mut lua = Lua::new();
    lua.push_globals();
    lua.push_value(-10002);
    assert!(lua.equal(1, 2));
    lua.push_registry();
    lua.push_value(-10000);
    assert!(lua.equal(3, 4));
}
