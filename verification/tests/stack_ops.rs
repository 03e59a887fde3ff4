use gmbm::state::Lua;
use gmbm::types::{Special, StdType, Type};
use gmbm::value::Value;
use gmbm::exit::Exit;

fn frame_values(lua: &Lua) -> Vec<Value> {
    let mut out = Vec::new();
    let top = lua.top();
    let mut i = 1i32;
    while i as u32 <= top {
        out.push(lua.value_at(i));
        i += 1;
    }
    out
}

#[test]
fn fresh_session_is_empty() {
    let lua = Lua::new();
    assert_eq!(lua.top(), 0);
}

#[test]
fn top_counts_pushes_and_pops() {
    let mut lua = Lua::new();
    lua.push_nil();
    lua.push_bool(true);
    lua.push_number(1.5f64.to_bits());
    assert_eq!(lua.top(), 3);
    lua.push_value(-2);
    assert_eq!(lua.top(), 4);
    assert_eq!(lua.value_at(-1), Value::Bool(true));
    lua.pop(2);
    assert_eq!(lua.top(), 2);
    lua.pop(0);
    assert_eq!(lua.top(), 2);
    lua.pop(2);
    assert_eq!(lua.top(), 0);
}

#[test]
fn push_value_duplicates_positions() {
    let mut lua = Lua::new();
    lua.push_bool(false);
    lua.push_number(2.0f64.to_bits());
    lua.push_value(1);
    assert_eq!(lua.value_at(-1), Value::Bool(false));
    lua.push_value(-2);
    assert_eq!(lua.value_at(-1), Value::Number(2.0f64.to_bits()));
}

#[test]
fn set_top_pads_and_truncates() {
    let mut lua = Lua::new();
    lua.push_bool(true);
    lua.push_bool(false);
    lua.set_top(4);
    assert_eq!(lua.top(), 4);
    assert_eq!(lua.value_at(3), Value::Nil);
    assert_eq!(lua.value_at(4), Value::Nil);
    lua.set_top(1);
    assert_eq!(lua.top(), 1);
    assert_eq!(lua.value_at(1), Value::Bool(true));
}

#[test]
fn set_top_is_idempotent() {
    let mut lua = Lua::new();
    lua.push_bool(true);
    lua.push_number(7u64);
    lua.push_nil();
    lua.set_top(5);
    let once = frame_values(&lua);
    lua.set_top(5);
    assert_eq!(frame_values(&lua), once);
    lua.set_top(2);
    let twice = frame_values(&lua);
    lua.set_top(2);
    assert_eq!(frame_values(&lua), twice);
}

#[test]
fn drain_to_only_truncates() {
    let mut lua = Lua::new();
    lua.push_bool(true);
    lua.push_bool(false);
    lua.drain_to(5);
    assert_eq!(lua.top(), 2);
    lua.drain_to(1);
    assert_eq!(lua.top(), 1);
    assert_eq!(lua.value_at(1), Value::Bool(true));
}

#[test]
fn insert_and_remove_shift_values() {
    let mut lua = Lua::new();
    lua.push_number(1u64);
    lua.push_number(2u64);
    lua.push_number(3u64);
    lua.insert(1);
    assert_eq!(
        frame_values(&lua),
        vec![Value::Number(3), Value::Number(1), Value::Number(2)]
    );
    lua.remove(2);
    assert_eq!(frame_values(&lua), vec![Value::Number(3), Value::Number(2)]);
}

#[test]
fn equal_and_raw_equal_compare_values() {
    let mut lua = Lua::new();
    lua.push_string(b"abc");
    lua.push_string(b"abc");
    lua.push_string(b"abd");
    assert!(lua.equal(1, 2));
    assert!(lua.raw_equal(1, 2));
    assert!(!lua.equal(1, 3));
    lua.push_number(5.0f64.to_bits());
    lua.push_number(5.0f64.to_bits());
    assert!(lua.equal(-1, -2));
}

#[test]
fn type_queries_follow_values() {
    let mut lua = Lua::new();
    lua.push_nil();
    lua.push_bool(true);
    lua.push_number(0);
    lua.push_string(b"s");
    assert_eq!(lua.get_type(1), Type::from_std(StdType::Nil));
    assert_eq!(lua.get_type(2), Type::from_std(StdType::Bool));
    assert_eq!(lua.get_type(3), Type::from_std(StdType::Number));
    assert_eq!(lua.get_type(4), Type::from_std(StdType::String));
    assert_eq!(lua.get_type(99), Type::from_std(StdType::NoneType));
    assert!(lua.is_type(2, Type::from_std(StdType::Bool)));
    assert!(!lua.is_type(2, Type::from_std(StdType::Number)));
}

#[test]
fn get_bool_is_truthiness() {
    let mut lua = Lua::new();
    lua.push_nil();
    lua.push_bool(false);
    lua.push_bool(true);
    lua.push_number(0);
    lua.push_string(b"");
    assert!(!lua.get_bool(1));
    assert!(!lua.get_bool(2));
    assert!(lua.get_bool(3));
    assert!(lua.get_bool(4));
    assert!(lua.get_bool(5));
}

#[test]
fn check_number_raises_bad_type() {
    let mut lua = Lua::new();
    lua.push_number(6.5f64.to_bits());
    lua.push_string(b"no");
    assert_eq!(lua.check_number(1), Ok(6.5f64.to_bits()));
    assert_eq!(
        lua.check_number(2),
        Err(Exit::BadType { pos: 2, expected: Type::from_std(StdType::Number) })
    );
}

#[test]
fn check_string_raises_bad_type() {
    let mut lua = Lua::new();
    lua.push_string(b"hey");
    lua.push_bool(true);
    assert_eq!(lua.check_string(1), Ok(b"hey".to_vec()));
    assert_eq!(
        lua.check_string(2),
        Err(Exit::BadType { pos: 2, expected: Type::from_std(StdType::String) })
    );
}

#[test]
fn check_type_reports_expected() {
    let mut lua = Lua::new();
    lua.push_bool(true);
    assert_eq!(lua.check_type(1, Type::from_std(StdType::Bool)), Ok(()));
    assert_eq!(
        lua.check_type(1, Type::from_std(StdType::Table)),
        Err(Exit::BadType { pos: 1, expected: Type::from_std(StdType::Table) })
    );
}

#[test]
fn references_anchor_values() {
    let mut lua = Lua::new();
    lua.push_string(b"anchored");
    let r = lua.create_ref();
    assert_eq!(lua.top(), 0);
    lua.push_ref(r);
    assert_eq!(lua.get_string(-1).unwrap(), b"anchored".to_vec());
    lua.pop(1);
    lua.free_ref(r);
    lua.push_ref(r);
    assert_eq!(lua.value_at(-1), Value::Nil);
}

#[test]
fn push_special_pushes_pseudo_tables() {
    let mut lua = Lua::new();
    lua.push_special(Special::Glob);
    lua.push_globals();
    assert!(lua.equal(1, 2));
    lua.push_special(Special::Registry);
    lua.push_registry();
    assert!(lua.equal(3, 4));
    lua.push_special(Special::Env);
    lua.push_environment();
    assert!(lua.equal(5, 6));
    assert!(!lua.equal(1, 3));
}

#[test]
fn throw_and_arg_error_build_exits() {
    let mut lua = Lua::new();
    let e = lua.throw_error(b"kaput");
    match e {
        Exit::Thrown(Value::Str(_)) => {}
        other => panic!("unexpected exit {:?}", other),
    }
    let a = lua.arg_error(2, b"number expected");
    match a {
        Exit::ArgError { arg, .. } => assert_eq!(arg, 2),
        other => panic!("unexpected exit {:?}", other),
    }
}
