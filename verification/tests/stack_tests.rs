use luavm::binary_chunk::Prototype;
use luavm::lua_stack::LuaStack;
use luavm::lua_state::LuaState;
use luavm::lua_value::LuaValue;

fn empty_proto() -> Prototype {
    Prototype {
        source: String::new(),
        line_defined: 0,
        last_line_defined: 0,
        num_params: 0,
        is_vararg: 0,
        max_stack_size: 0,
        code: Vec::new(),
        constants: Vec::new(),
        upvalues: Vec::new(),
        protos: Vec::new(),
        line_info: Vec::new(),
        loc_vars: Vec::new(),
        upvalue_names: Vec::new(),
    }
}

fn state_with(vals: &[LuaValue]) -> LuaState {
    let mut ls = LuaState::new(16, empty_proto());
    for v in vals {
        match v {
            LuaValue::Nil => ls.push_nil(),
            LuaValue::Boolean(b) => ls.push_boolean(*b),
            LuaValue::Integer(i) => ls.push_integer(*i),
            LuaValue::Number(n) => ls.push_number(*n),
            LuaValue::Str(s) => ls.push_string(s.clone()),
            LuaValue::Table(_) => panic!("tables are made through the state"),
        }
    }
    ls
}

fn s(text: &str) -> LuaValue {
    LuaValue::Str(String::from(text))
}

#[test]
fn abs_index_law() {
    let ls = state_with(&[s("a"), s("b"), s("c"), s("d")]);
    let t = ls.get_top();
    assert_eq!(t, 4);
    for i in 1..=4isize {
        assert_eq!(ls.abs_index(i), Some((i - 1) as usize));
    }
    assert_eq!(ls.abs_index(-1), Some(t - 1));
    assert_eq!(ls.abs_index(-4), Some(0));
    assert_eq!(ls.abs_index(0), None);
    assert_eq!(ls.abs_index(5), None);
    assert_eq!(ls.abs_index(-5), None);
}

#[test]
fn rotate_matches_three_reversals() {
    // rotate(idx = 2, n = 1) on [a, b, c, d]
    let mut ls = state_with(&[s("a"), s("b"), s("c"), s("d")]);
    ls.rotate(2, 1).expect("rotate must succeed");
    assert_eq!(ls.stack.slots, vec![s("a"), s("d"), s("b"), s("c")]);

    // the same permutation out of the raw three-reversal decomposition:
    // reverse below the pivot, reverse from the pivot up, reverse all
    let mut st = LuaStack::new(8);
    for v in [s("a"), s("b"), s("c"), s("d")] {
        st.push(v);
    }
    st.reverse(2, 3); // slots 1..=2 (0-based), the part below the pivot
    st.reverse(4, 4); // the pivot part
    st.reverse(2, 4); // the whole slice
    assert_eq!(st.slots, ls.stack.slots);
}

#[test]
fn rotate_toward_bottom() {
    let mut ls = state_with(&[s("a"), s("b"), s("c"), s("d")]);
    ls.rotate(2, -1).expect("rotate must succeed");
    assert_eq!(ls.stack.slots, vec![s("a"), s("c"), s("d"), s("b")]);
}

#[test]
fn insert_and_remove() {
    let mut ls = state_with(&[s("a"), s("b"), s("c"), s("d")]);
    ls.insert(2).expect("insert must succeed");
    assert_eq!(ls.stack.slots, vec![s("a"), s("d"), s("b"), s("c")]);
    ls.remove(2).expect("remove must succeed");
    assert_eq!(ls.stack.slots, vec![s("a"), s("b"), s("c")]);
}

#[test]
fn set_top_pads_and_discards() {
    let mut ls = state_with(&[s("a"), s("b")]);
    ls.set_top(4).expect("growing must succeed");
    assert_eq!(
        ls.stack.slots,
        vec![s("a"), s("b"), LuaValue::Nil, LuaValue::Nil]
    );
    ls.set_top(-3).expect("negative indices count from the top");
    assert_eq!(ls.stack.slots, vec![s("a"), s("b")]);
    ls.set_top(0).expect("clearing must succeed");
    assert_eq!(ls.get_top(), 0);
    assert!(ls.set_top(-2).is_err());
}

#[test]
fn copy_replace_push_value() {
    let mut ls = state_with(&[]);
    ls.push_boolean(true);
    ls.push_integer(10);
    ls.push_nil();
    ls.push_string(String::from("hello"));
    ls.push_value(-4).expect("push_value");
    assert_eq!(
        ls.stack.slots,
        vec![
            LuaValue::Boolean(true),
            LuaValue::Integer(10),
            LuaValue::Nil,
            s("hello"),
            LuaValue::Boolean(true)
        ]
    );
    ls.replace(3).expect("replace");
    assert_eq!(
        ls.stack.slots,
        vec![
            LuaValue::Boolean(true),
            LuaValue::Integer(10),
            LuaValue::Boolean(true),
            s("hello")
        ]
    );
    ls.pop(2).expect("pop");
    assert_eq!(ls.get_top(), 2);
    assert!(ls.pop(3).is_err());
}

#[test]
fn type_queries() {
    let mut ls = state_with(&[LuaValue::Nil, LuaValue::Boolean(false), LuaValue::Integer(3)]);
    ls.push_number(1.5f64.to_bits());
    ls.push_string(String::from("x"));
    assert!(ls.is_nil(1));
    assert!(ls.is_boolean(2));
    assert!(ls.is_integer(3));
    assert!(!ls.is_integer(4));
    assert!(ls.is_string(5));
    assert!(ls.is_string(3)); // numbers count as strings
    assert!(ls.is_none(9));
    assert!(ls.is_none_or_nil(1));
    assert!(!ls.to_boolean(1));
    assert!(!ls.to_boolean(2));
    assert!(ls.to_boolean(3));
    assert!(!ls.to_boolean(42));
}

#[test]
fn test() {
    let ls = state_with(&[]);
    assert_eq!(ls.get_top(), 0);
}
