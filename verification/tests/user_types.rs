use gmbm::exit::Exit;
use gmbm::func::{CallOutcome, NativeDispatch};
use gmbm::state::Lua;
use gmbm::user_types::{SelfCtx, UserTypeDesc};
use gmbm::value::Value;

const CTOR: u64 = 11;
const TOSTRING: u64 = 12;
const GC_HOOK: u64 = 13;

const MYTYPE_KEY: usize = 777;
const OTHER_KEY: usize = 778;

fn mytype_desc() -> UserTypeDesc {
    UserTypeDesc {
        id: b"user_types::MyType".to_vec(),
        key: MYTYPE_KEY,
        expected_err: b"MyType expected".to_vec(),
        needs_drop: true,
        gc_func: GC_HOOK,
    }
}

fn other_desc() -> UserTypeDesc {
    UserTypeDesc {
        id: b"user_types::Other".to_vec(),
        key: OTHER_KEY,
        expected_err: b"Other expected".to_vec(),
        needs_drop: false,
        gc_func: 0,
    }
}

fn encode_pair(x: f64, y: f64) -> Vec<u8> {
    let mut out = Vec::new();
    out.extend_from_slice(&x.to_bits().to_le_bytes());
    out.extend_from_slice(&y.to_bits().to_le_bytes());
    out
}

fn decode_pair(bytes: &[u8]) -> (f64, f64) {
    let mut xb = [0u8; 8];
    let mut yb = [0u8; 8];
    xb.copy_from_slice(&bytes[0..8]);
    yb.copy_from_slice(&bytes[8..16]);
    (f64::from_bits(u64::from_le_bytes(xb)), f64::from_bits(u64::from_le_bytes(yb)))
}

struct Disp {
    collected: Vec<Vec<u8>>,
}

impl NativeDispatch for Disp {
    fn invoke(&mut self, lua: &mut Lua, func: u64) -> CallOutcome {
        match func {
            CTOR => {
                let x = f64::from_bits(match lua.check_number(1) {
                    Ok(b) => b,
                    Err(e) => return CallOutcome::Raise(e),
                });
                let y = f64::from_bits(match lua.check_number(2) {
                    Ok(b) => b,
                    Err(e) => return CallOutcome::Raise(e),
                });
                let ty = match lua.user_type_of(MYTYPE_KEY) {
                    Ok(t) => t,
                    Err(e) => return CallOutcome::Raise(e),
                };
                lua.push_user_type(ty, encode_pair(x, y));
                CallOutcome::Return(1)
            }
            TOSTRING => {
                let cx = SelfCtx::from_upvalue(lua);
                let bytes = match cx.check_self(lua, b"MyType expected") {
                    Ok(b) => b,
                    Err(e) => return CallOutcome::Raise(e),
                };
                let (x, y) = decode_pair(&bytes);
                let text = format!("MyType {{ x: {}, y: {} }}", x, y);
                lua.push_string(text.as_bytes());
                CallOutcome::Return(1)
            }
            GC_HOOK => {
                let cx = SelfCtx::from_upvalue(lua);
                let bytes = match cx.check_self(lua, b"MyType expected") {
                    Ok(b) => b,
                    Err(e) => return CallOutcome::Raise(e),
                };
                self.collected.push(bytes);
                CallOutcome::Return(0)
            }
            _ => {
                let e = lua.throw_error(b"unknown native function");
                CallOutcome::Raise(e)
            }
        }
    }
}

#[test]
fn registration_caches_a_stable_identifier() {
    let mut lua = Lua::new();
    let ty = lua.register(&mytype_desc());
    lua.pop(1); // the metatable register leaves on top
    let first = lua.user_type_of(MYTYPE_KEY).unwrap();
    let second = lua.user_type_of(MYTYPE_KEY).unwrap();
    let third = lua.user_type_of(MYTYPE_KEY).unwrap();
    assert_eq!(first, ty);
    assert_eq!(second, ty);
    assert_eq!(third, ty);
}

#[test]
fn unregistered_lookup_raises() {
    let mut lua = Lua::new();
    let r = lua.user_type_of(MYTYPE_KEY);
    match r {
        Err(Exit::Thrown(Value::Str(id))) => {
            assert_eq!(
                lua.strings[id],
                b"type does not have an associated type ID in this Lua state".to_vec()
            );
        }
        other => panic!("expected a raised exit, got {:?}", other),
    }
}

#[test]
fn register_installs_a_collection_hook() {
    let mut lua = Lua::new();
    lua.register(&mytype_desc());
    // the metatable is on top; a __gc closure was installed for a type that
    // needs dropping
    lua.get_field(-1, b"__gc").unwrap();
    match lua.value_at(-1) {
        Value::Function(_) => {}
        other => panic!("expected the hook closure, got {:?}", other),
    }
    lua.pop(2);
    // a type without a destructor gets none
    lua.register(&other_desc());
    lua.get_field(-1, b"__gc").unwrap();
    assert_eq!(lua.value_at(-1), Value::Nil);
}

#[test]
fn downcasts_check_both_header_fields() {
    let mut lua = Lua::new();
    let ty = lua.register(&mytype_desc());
    lua.pop(1);
    let ty2 = lua.register(&other_desc());
    lua.pop(1);
    let payload = encode_pair(1.0, 2.0);
    lua.push_user_type(ty, payload.clone());
    // matching type hands the embedded value back
    assert_eq!(lua.test_ud(ty, -1), Some(payload.clone()));
    // a different registered type yields absence
    assert_eq!(lua.test_ud(ty2, -1), None);
    // the checked downcast raises an argument error instead
    assert!(lua.check_ud(ty, 1, b"MyType expected").is_ok());
    match lua.check_ud(ty2, 1, b"Other expected") {
        Err(Exit::ArgError { arg, .. }) => assert_eq!(arg, 1),
        other => panic!("expected an argument error, got {:?}", other),
    }
    // a non-userdata position yields absence too
    lua.push_bool(true);
    assert_eq!(lua.test_ud(ty, -1), None);
}

#[test]
fn plain_userdata_reads_as_userdata() {
    let mut lua = Lua::new();
    let id = lua.new_userdata(4);
    assert_eq!(lua.value_at(-1), Value::UserData(id));
    assert_eq!(lua.uds[id].data, vec![0u8; 4]);
    let ty = lua.get_type(-1);
    assert_eq!(ty.0, 7);
}

#[test]
fn set_user_type_replaces_the_payload() {
    let mut lua = Lua::new();
    let ty = lua.register(&other_desc());
    lua.pop(1);
    let id = lua.push_user_type(ty, vec![1, 2, 3]);
    lua.set_user_type(-1, vec![9, 9]);
    assert_eq!(lua.uds[id].data, vec![9, 9]);
    assert_eq!(lua.test_ud(ty, -1), Some(vec![9, 9]));
}

#[test]
fn pair_type_tostring() {
    let mut lua = Lua::new();
    let mut d = Disp { collected: Vec::new() };
    // module open: register the pair type and its string conversion
    let ty = lua.register(&mytype_desc());
    let cx = SelfCtx::new(ty);
    cx.push_method(&mut lua, TOSTRING);
    lua.set_field(-2, b"__tostring").unwrap();
    lua.pop(1);
    // expose a native constructor as a global
    lua.push_globals();
    lua.create_table();
    lua.push_c_function(CTOR);
    lua.set_field(-2, b"MyType").unwrap();
    lua.set_field(-2, b"rust_user_types").unwrap();
    lua.pop(1);
    // construct an instance with x = 3, y = 4
    lua.push_globals();
    lua.get_field(-1, b"rust_user_types").unwrap();
    lua.get_field(-1, b"MyType").unwrap();
    lua.push_number(3.0f64.to_bits());
    lua.push_number(4.0f64.to_bits());
    lua.pcall(&mut d, 2, 1, 0).unwrap();
    // request its string conversion through the metatable
    assert!(lua.get_metatable(-1));
    lua.get_field(-1, b"__tostring").unwrap();
    lua.push_value(-3);
    lua.pcall(&mut d, 1, 1, 0).unwrap();
    assert_eq!(lua.get_string(-1).unwrap(), b"MyType { x: 3, y: 4 }".to_vec());
}

#[test]
fn collection_runs_the_hook_then_destroys() {
    let mut lua = Lua::new();
    let mut d = Disp { collected: Vec::new() };
    let ty = lua.register(&mytype_desc());
    lua.pop(1);
    let payload = encode_pair(5.0, 6.0);
    let id = lua.push_user_type(ty, payload.clone());
    lua.pop(1);
    assert!(!lua.uds[id].finalized);
    lua.collect_user_type(&mut d, id).unwrap();
    // the hook saw the value while it was still intact
    assert_eq!(d.collected, vec![payload]);
    // then the embedded value was destroyed, exactly once
    assert!(lua.uds[id].finalized);
    assert!(lua.uds[id].data.is_empty());
    assert_eq!(lua.top(), 0);
}

#[test]
fn collection_without_a_hook_still_destroys() {
    let mut lua = Lua::new();
    let mut d = Disp { collected: Vec::new() };
    let ty = lua.register(&other_desc());
    lua.pop(1);
    let id = lua.push_user_type(ty, vec![1, 2, 3]);
    lua.pop(1);
    lua.collect_user_type(&mut d, id).unwrap();
    assert!(d.collected.is_empty());
    assert!(lua.uds[id].finalized);
    assert!(lua.uds[id].data.is_empty());
}

#[test]
fn method_context_recovers_the_type() {
    let mut lua = Lua::new();
    let mut d = Disp { collected: Vec::new() };
    let ty = lua.register(&mytype_desc());
    let cx = SelfCtx::new(ty);
    assert_eq!(cx.self_ty(), ty);
    cx.push_method(&mut lua, TOSTRING);
    lua.set_field(-2, b"__tostring").unwrap();
    lua.pop(1);
    // calling the method through the stack round-trips the identifier
    lua.push_user_type(ty, encode_pair(0.5, 0.25));
    assert!(lua.get_metatable(-1));
    lua.get_field(-1, b"__tostring").unwrap();
    lua.push_value(-3);
    lua.pcall(&mut d, 1, 1, 0).unwrap();
    assert_eq!(
        lua.get_string(-1).unwrap(),
        b"MyType { x: 0.5, y: 0.25 }".to_vec()
    );
}
