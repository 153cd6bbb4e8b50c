use luavm::binary_chunk::Prototype;
use luavm::errors::VmError;
use luavm::lua_state::LuaState;
use luavm::lua_table::LuaTable;
use luavm::lua_value::LuaValue;

fn empty_proto() -> Prototype {
    Prototype {
        source: String::new(),
        line_defined: 0,
        last_line_defined: 0,
        num_params: 0,
        is_vararg: 0,
        max_stack_size: 0,
        code: Vec::new(),
        constants: Vec::new(),
        upvalues: Vec::new(),
        protos: Vec::new(),
        line_info: Vec::new(),
        loc_vars: Vec::new(),
        upvalue_names: Vec::new(),
    }
}

fn s(text: &str) -> LuaValue {
    LuaValue::Str(String::from(text))
}

#[test]
fn migration_law() {
    let mut t = LuaTable::new(0, 0);
    t.put(&LuaValue::Integer(1), &s("one")).unwrap();
    t.put(&LuaValue::Integer(2), &s("two")).unwrap();
    t.put(&LuaValue::Integer(3), &s("three")).unwrap();
    assert_eq!(t.len(), 3);
    assert_eq!(t.hash_len(), 0);

    t.put(&LuaValue::Integer(3), &LuaValue::Nil).unwrap();
    assert_eq!(t.len(), 2);
    assert_eq!(t.get(&LuaValue::Integer(3)), LuaValue::Nil);

    t.put(&LuaValue::Integer(5), &s("five")).unwrap();
    assert_eq!(t.len(), 2);
    assert_eq!(t.hash_len(), 1);
    assert_eq!(t.get(&LuaValue::Integer(5)), s("five"));
}

#[test]
fn expansion_pulls_contiguous_keys() {
    let mut t = LuaTable::new(0, 0);
    t.put(&LuaValue::Integer(2), &s("two")).unwrap();
    t.put(&LuaValue::Integer(3), &s("three")).unwrap();
    assert_eq!(t.len(), 0);
    assert_eq!(t.hash_len(), 2);
    t.put(&LuaValue::Integer(1), &s("one")).unwrap();
    assert_eq!(t.len(), 3);
    assert_eq!(t.hash_len(), 0);
    assert_eq!(t.get(&LuaValue::Integer(2)), s("two"));
}

#[test]
fn float_keys_normalize_when_integral() {
    let mut t = LuaTable::new(0, 0);
    t.put(&LuaValue::Number(1.0f64.to_bits()), &s("one")).unwrap();
    assert_eq!(t.len(), 1);
    assert_eq!(t.get(&LuaValue::Integer(1)), s("one"));
    // a fractional key stays in the hash part
    t.put(&LuaValue::Number(2.5f64.to_bits()), &s("half")).unwrap();
    assert_eq!(t.len(), 1);
    assert_eq!(t.hash_len(), 1);
    assert_eq!(t.get(&LuaValue::Number(2.5f64.to_bits())), s("half"));
}

#[test]
fn rejected_keys() {
    let mut t = LuaTable::new(0, 0);
    assert_eq!(t.put(&LuaValue::Nil, &s("x")).unwrap_err(), VmError::TypeError);
    assert_eq!(
        t.put(&LuaValue::Number(f64::NAN.to_bits()), &s("x")).unwrap_err(),
        VmError::TypeError
    );
    // reading with a NaN key is not an error, it just finds nothing
    assert_eq!(t.get(&LuaValue::Number(f64::NAN.to_bits())), LuaValue::Nil);
}

#[test]
fn hash_part_updates_and_removals() {
    let mut t = LuaTable::new(0, 0);
    t.put(&s("k"), &LuaValue::Integer(1)).unwrap();
    t.put(&s("k"), &LuaValue::Integer(2)).unwrap();
    assert_eq!(t.hash_len(), 1);
    assert_eq!(t.get(&s("k")), LuaValue::Integer(2));
    t.put(&s("k"), &LuaValue::Nil).unwrap();
    assert_eq!(t.hash_len(), 0);
    assert_eq!(t.get(&s("k")), LuaValue::Nil);
    assert_eq!(t.get(&s("missing")), LuaValue::Nil);
}

#[test]
fn state_table_operations() {
    let mut ls = LuaState::new(16, empty_proto());
    ls.new_table().unwrap();
    assert!(ls.is_table(1));

    // set_field pops its value, so push one first
    ls.push_string(String::from("hi"));
    ls.set_field(1, "greeting").unwrap();
    let ty = ls.get_field(1, "greeting").unwrap();
    assert_eq!(ty, luavm::consts::LUA_TSTRING);
    assert_eq!(ls.stack.slots.last(), Some(&s("hi")));
    ls.pop(1).unwrap();

    ls.push_integer(99);
    ls.set_i(1, 7).unwrap();
    ls.get_i(1, 7).unwrap();
    assert_eq!(ls.stack.slots.last(), Some(&LuaValue::Integer(99)));
    ls.pop(1).unwrap();

    // a key and value through the stack
    ls.push_integer(1);
    ls.push_string(String::from("first"));
    ls.set_table(1).unwrap();
    ls.push_integer(1);
    let ty = ls.get_table(1).unwrap();
    assert_eq!(ty, luavm::consts::LUA_TSTRING);
    assert_eq!(ls.stack.slots.last(), Some(&s("first")));
}

#[test]
fn tables_share_by_handle() {
    let mut ls = LuaState::new(16, empty_proto());
    ls.new_table().unwrap();
    ls.push_value(1).unwrap(); // a second value for the same table
    ls.push_integer(5);
    ls.set_i(2, 1).unwrap(); // write through the copy
    ls.get_i(1, 1).unwrap(); // read through the original
    assert_eq!(ls.stack.slots.last(), Some(&LuaValue::Integer(5)));
    // identity equality: both values are the same table
    let a = ls.stack.slots[0].clone();
    let b = ls.stack.slots[1].clone();
    assert!(luavm::compare_ops::_eq(&a, &b));
    // two distinct tables are not equal
    ls.new_table().unwrap();
    let c = ls.stack.slots.last().unwrap().clone();
    assert!(!luavm::compare_ops::_eq(&a, &c));
}
