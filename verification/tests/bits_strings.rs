use gmbm::state::Lua;
use gmbm::value::Value;

#[test]
fn bits_round_trip_exact_patterns() {
    let patterns: Vec<u64> = vec![
        0,
        1,
        0x7fff_ffff_ffff_ffff,
        u64::MAX,
        3.0f64.to_bits(),
        (-0.0f64).to_bits(),
        f64::NAN.to_bits(),
        0xdead_beef_cafe_f00d,
    ];
    let mut lua = Lua::new();
    for &x in &patterns {
        lua.push_bits(x);
        assert_eq!(lua.get_bits(-1), x);
        assert_eq!(lua.check_bits(-1), Ok(x));
        lua.pop(1);
    }
}

#[test]
fn bits_are_numbers_on_the_stack() {
    let mut lua = Lua::new();
    lua.push_bits(42);
    assert_eq!(lua.value_at(-1), Value::Number(42));
    assert_eq!(lua.get_number(-1), 42);
}

#[test]
fn get_bits_of_non_number_is_zero() {
    let mut lua = Lua::new();
    lua.push_string(b"nope");
    assert_eq!(lua.get_bits(-1), 0);
}

#[test]
fn push_string_keeps_bytes_verbatim() {
    let mut lua = Lua::new();
    let payload = vec![0u8, 1, 2, 0, 255, 0];
    lua.push_string(&payload);
    assert_eq!(lua.get_string(-1).unwrap(), payload);
    assert_eq!(lua.obj_len(-1), payload.len() as i32);
}

#[test]
fn empty_string_has_length_zero() {
    let mut lua = Lua::new();
    lua.push_string(b"");
    assert_eq!(lua.obj_len(-1), 0);
    assert_eq!(lua.get_string(-1).unwrap(), Vec::<u8>::new());
}

#[test]
fn push_non_empty_bytes_matches_push_string() {
    let mut lua = Lua::new();
    lua.push_non_empty_bytes(b"xy");
    lua.push_string(b"xy");
    assert!(lua.equal(1, 2));
}

#[test]
fn push_c_string_pushes_text() {
    let mut lua = Lua::new();
    lua.push_c_string(b"hello");
    assert_eq!(lua.get_string(-1).unwrap(), b"hello".to_vec());
    assert_eq!(lua.obj_len(-1), 5);
}

#[test]
fn strings_are_interned() {
    let mut lua = Lua::new();
    let a = lua.push_string(b"same");
    let b = lua.push_string(b"same");
    let c = lua.push_string(b"other");
    assert_eq!(a, b);
    assert_ne!(a, c);
    assert_eq!(lua.value_at(1), lua.value_at(2));
}

#[test]
fn get_string_of_non_string_is_absent() {
    let mut lua = Lua::new();
    lua.push_number(1);
    assert_eq!(lua.get_string(-1), None);
}
