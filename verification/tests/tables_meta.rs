use gmbm::exit::Exit;
use gmbm::state::Lua;
use gmbm::types::{StdType, Type};
use gmbm::value::Value;

#[test]
fn field_round_trip() {
    let mut lua = Lua::new();
    lua.create_table();
    lua.push_number(9.0f64.to_bits());
    lua.set_field(-2, b"nine").unwrap();
    lua.get_field(-1, b"nine").unwrap();
    assert_eq!(lua.get_number(-1), 9.0f64.to_bits());
    lua.pop(1);
    lua.get_field(-1, b"missing").unwrap();
    assert_eq!(lua.value_at(-1), Value::Nil);
}

#[test]
fn globals_keep_fields() {
    let mut lua = Lua::new();
    lua.push_globals();
    lua.push_string(b"Hello, host!");
    lua.set_field(-2, b"GREETING").unwrap();
    lua.pop(1);
    lua.push_globals();
    lua.get_field(-1, b"GREETING").unwrap();
    assert_eq!(lua.get_string(-1).unwrap(), b"Hello, host!".to_vec());
}

#[test]
fn raw_get_and_set_use_popped_keys() {
    let mut lua = Lua::new();
    lua.create_table();
    lua.push_number(1);
    lua.push_bool(true);
    lua.raw_set(-3);
    assert_eq!(lua.top(), 1);
    lua.push_number(1);
    lua.raw_get(-2);
    assert_eq!(lua.value_at(-1), Value::Bool(true));
    lua.pop(1);
    lua.push_number(2);
    lua.raw_get(-2);
    assert_eq!(lua.value_at(-1), Value::Nil);
}

#[test]
fn storing_nil_removes_a_key() {
    let mut lua = Lua::new();
    lua.create_table();
    lua.push_number(1);
    lua.push_bool(true);
    lua.raw_set(-3);
    lua.push_number(1);
    lua.push_nil();
    lua.raw_set(-3);
    lua.push_number(1);
    lua.raw_get(-2);
    assert_eq!(lua.value_at(-1), Value::Nil);
}

#[test]
fn get_table_and_set_table_dispatch() {
    let mut lua = Lua::new();
    lua.create_table();
    lua.push_string(b"k");
    lua.push_string(b"v");
    lua.set_table(-3).unwrap();
    lua.push_string(b"k");
    lua.get_table(-2).unwrap();
    assert_eq!(lua.get_string(-1).unwrap(), b"v".to_vec());
}

#[test]
fn indexing_a_non_table_raises() {
    let mut lua = Lua::new();
    lua.push_number(0);
    lua.push_string(b"k");
    assert!(lua.get_table(-2).is_err());
    // the key is still there after the aborted operation
    assert_eq!(lua.get_string(-1).unwrap(), b"k".to_vec());
    lua.push_string(b"v");
    assert!(lua.set_table(-3).is_err());
}

#[test]
fn set_table_rejects_nil_key() {
    let mut lua = Lua::new();
    lua.create_table();
    lua.push_nil();
    lua.push_bool(true);
    match lua.set_table(-3) {
        Err(Exit::Thrown(Value::Str(id))) => {
            assert_eq!(lua.strings[id], b"table index is nil".to_vec());
        }
        other => panic!("expected a raised exit, got {:?}", other),
    }
}

#[test]
fn next_enumerates_every_pair_once() {
    let mut lua = Lua::new();
    lua.create_table();
    lua.push_string(b"a");
    lua.push_number(1);
    lua.raw_set(-3);
    lua.push_string(b"b");
    lua.push_number(2);
    lua.raw_set(-3);
    let mut seen: Vec<(Value, Value)> = Vec::new();
    lua.push_nil();
    while lua.next(-2).unwrap() != 0 {
        seen.push((lua.value_at(-2), lua.value_at(-1)));
        lua.pop(1); // drop the value, keep the key for the next step
    }
    assert_eq!(seen.len(), 2);
    assert_eq!(seen[0].1, Value::Number(1));
    assert_eq!(seen[1].1, Value::Number(2));
    assert_eq!(lua.top(), 1); // only the table remains
    // a key that is not in the table raises
    lua.push_string(b"zzz");
    assert!(lua.next(-2).is_err());
}

#[test]
fn metatables_attach_and_detach() {
    let mut lua = Lua::new();
    lua.create_table();
    assert!(!lua.get_metatable(-1));
    lua.create_table();
    lua.set_metatable(-2).unwrap();
    assert!(lua.get_metatable(-1));
    lua.pop(1);
    lua.push_nil();
    lua.set_metatable(-2).unwrap();
    assert!(!lua.get_metatable(-1));
}

#[test]
fn create_metatable_is_stable_per_name() {
    let mut lua = Lua::new();
    let a = lua.create_metatable(b"demo::First");
    let b = lua.create_metatable(b"demo::First");
    let c = lua.create_metatable(b"demo::Second");
    assert_eq!(a, b);
    assert_ne!(a, c);
    // the same metatable object was pushed for the same name
    assert!(lua.equal(1, 2));
    assert!(!lua.equal(1, 3));
    // foreign identifiers sit above every pre-defined tag
    assert!(a.0 > StdType::SurfaceInfo.to_raw());
}

#[test]
fn push_metatable_finds_registered_types_only() {
    let mut lua = Lua::new();
    let ty = lua.create_metatable(b"demo::Known");
    lua.pop(1);
    assert!(lua.push_metatable(ty));
    assert!(!lua.push_metatable(Type(ty.0 + 1)));
    assert!(!lua.push_metatable(Type::from_std(StdType::Bool)));
}
