use luavm::arith_ops::{i_floor_div, i_mod, shift_left, shift_right};
use luavm::binary_chunk::Prototype;
use luavm::compare_ops::{_eq, _le, _lt};
use luavm::consts::{
    LUA_OPADD, LUA_OPBAND, LUA_OPBNOT, LUA_OPDIV, LUA_OPIDIV, LUA_OPMOD, LUA_OPSHL, LUA_OPUNM,
};
use luavm::errors::VmError;
use luavm::float_bits::{f64_bits_to_i64, f64_eq, f64_le, f64_lt, i64_to_f64_bits};
use luavm::lua_state::LuaState;
use luavm::lua_value::{parse_i64_bytes, LuaValue};
use luavm::number_ops::NumberOps;

/// The float kernel used when running tests: real binary64 arithmetic.
pub struct RealNum;

impl NumberOps for RealNum {
    fn add(&self, a: u64, b: u64) -> u64 {
        (f64::from_bits(a) + f64::from_bits(b)).to_bits()
    }
    fn sub(&self, a: u64, b: u64) -> u64 {
        (f64::from_bits(a) - f64::from_bits(b)).to_bits()
    }
    fn mul(&self, a: u64, b: u64) -> u64 {
        (f64::from_bits(a) * f64::from_bits(b)).to_bits()
    }
    fn div(&self, a: u64, b: u64) -> u64 {
        (f64::from_bits(a) / f64::from_bits(b)).to_bits()
    }
    fn pow(&self, a: u64, b: u64) -> u64 {
        f64::from_bits(a).powf(f64::from_bits(b)).to_bits()
    }
    fn floor(&self, a: u64) -> u64 {
        f64::from_bits(a).floor().to_bits()
    }
    fn parse_number(&self, s: &String) -> Option<u64> {
        s.parse::<f64>().ok().map(|x| x.to_bits())
    }
    fn number_text(&self, a: u64) -> String {
        format!("{}", f64::from_bits(a))
    }
}

fn empty_proto() -> Prototype {
    Prototype {
        source: String::new(),
        line_defined: 0,
        last_line_defined: 0,
        num_params: 0,
        is_vararg: 0,
        max_stack_size: 0,
        code: Vec::new(),
        constants: Vec::new(),
        upvalues: Vec::new(),
        protos: Vec::new(),
        line_info: Vec::new(),
        loc_vars: Vec::new(),
        upvalue_names: Vec::new(),
    }
}

#[test]
fn arith_coercion_table() {
    let k = RealNum;
    let mut ls = LuaState::new(16, empty_proto());

    ls.push_integer(7);
    ls.push_integer(2);
    ls.arith(LUA_OPADD, &k).expect("integer add");
    assert_eq!(ls.stack.slots, vec![LuaValue::Integer(9)]);
    ls.pop(1).unwrap();

    ls.push_integer(7);
    ls.push_number(2.5f64.to_bits());
    ls.arith(LUA_OPADD, &k).expect("mixed add");
    assert_eq!(ls.stack.slots, vec![LuaValue::Number(9.5f64.to_bits())]);
    ls.pop(1).unwrap();

    ls.push_string(String::from("3"));
    ls.push_integer(4);
    ls.arith(LUA_OPADD, &k).expect("string add");
    assert_eq!(ls.stack.slots, vec![LuaValue::Integer(7)]);
    ls.pop(1).unwrap();

    ls.push_integer(1);
    ls.push_number(2.5f64.to_bits());
    assert_eq!(ls.arith(LUA_OPBAND, &k).unwrap_err(), VmError::TypeError);
    assert_eq!(ls.stack.slots, vec![LuaValue::Integer(1), LuaValue::Number(2.5f64.to_bits())]);
}

#[test]
fn floor_div_and_mod_boundaries() {
    assert_eq!(i_floor_div(-7, 2), -4);
    assert_eq!(i_mod(-7, 2), 1);
    assert_eq!(i_floor_div(7, -2), -4);
    assert_eq!(i_mod(7, -2), -1);
    assert_eq!(i_floor_div(7, 2), 3);
    assert_eq!(i_mod(7, 2), 1);
    assert_eq!(i_floor_div(-7, -2), 3);
    assert_eq!(i_mod(-7, -2), -1);
    assert_eq!(i_floor_div(6, 3), 2);
    assert_eq!(i_mod(6, 3), 0);
}

#[test]
fn division_faults() {
    let k = RealNum;
    let mut ls = LuaState::new(16, empty_proto());
    ls.push_integer(5);
    ls.push_integer(0);
    assert_eq!(ls.arith(LUA_OPMOD, &k).unwrap_err(), VmError::TypeError);
    ls.pop(2).unwrap();
    ls.push_integer(i64::MIN);
    ls.push_integer(-1);
    assert_eq!(ls.arith(LUA_OPIDIV, &k).unwrap_err(), VmError::TypeError);
    ls.pop(2).unwrap();
    // the float division of the same pair goes through
    ls.push_integer(5);
    ls.push_integer(0);
    ls.arith(LUA_OPDIV, &k).expect("float division by zero is inf");
    assert_eq!(
        ls.stack.slots,
        vec![LuaValue::Number(f64::INFINITY.to_bits())]
    );
}

#[test]
fn unary_operators() {
    let k = RealNum;
    let mut ls = LuaState::new(16, empty_proto());
    ls.push_integer(5);
    ls.arith(LUA_OPUNM, &k).unwrap();
    assert_eq!(ls.stack.slots, vec![LuaValue::Integer(-5)]);
    ls.arith(LUA_OPBNOT, &k).unwrap();
    assert_eq!(ls.stack.slots, vec![LuaValue::Integer(4)]);
}

#[test]
fn shifts_are_logical_and_direction_aware() {
    assert_eq!(shift_left(1, 3), 8);
    assert_eq!(shift_left(8, -3), 1);
    assert_eq!(shift_left(1, 64), 0);
    assert_eq!(shift_left(1, -64), 0);
    assert_eq!(shift_right(-1, 1), i64::MAX);
    assert_eq!(shift_right(1, -3), 8);
    assert_eq!(shift_right(-1, 64), 0);
    let k = RealNum;
    let mut ls = LuaState::new(16, empty_proto());
    ls.push_integer(3);
    ls.push_integer(2);
    ls.arith(LUA_OPSHL, &k).unwrap();
    assert_eq!(ls.stack.slots, vec![LuaValue::Integer(12)]);
}

#[test]
fn integer_parsing() {
    assert_eq!(parse_i64_bytes(b"123"), Some(123));
    assert_eq!(parse_i64_bytes(b"+5"), Some(5));
    assert_eq!(parse_i64_bytes(b"-9223372036854775808"), Some(i64::MIN));
    assert_eq!(parse_i64_bytes(b"9223372036854775807"), Some(i64::MAX));
    assert_eq!(parse_i64_bytes(b"9223372036854775808"), None);
    assert_eq!(parse_i64_bytes(b"0000000000000000000001"), Some(1));
    assert_eq!(parse_i64_bytes(b""), None);
    assert_eq!(parse_i64_bytes(b"-"), None);
    assert_eq!(parse_i64_bytes(b"12a"), None);
    assert_eq!(parse_i64_bytes(b" 1"), None);
}

#[test]
fn float_bit_conversions() {
    assert_eq!(i64_to_f64_bits(0), 0.0f64.to_bits());
    assert_eq!(i64_to_f64_bits(5), 5.0f64.to_bits());
    assert_eq!(i64_to_f64_bits(-3), (-3.0f64).to_bits());
    assert_eq!(i64_to_f64_bits(i64::MIN), (i64::MIN as f64).to_bits());
    assert_eq!(i64_to_f64_bits(i64::MAX), (i64::MAX as f64).to_bits());
    for i in [1i64, 2, 1023, 1 << 52, (1 << 53) + 1, (1 << 60) + 12345, -987654321987654321] {
        assert_eq!(i64_to_f64_bits(i), (i as f64).to_bits(), "conversion of {}", i);
    }
    assert_eq!(f64_bits_to_i64(3.0f64.to_bits()), Some(3));
    assert_eq!(f64_bits_to_i64((-3.0f64).to_bits()), Some(-3));
    assert_eq!(f64_bits_to_i64(2.5f64.to_bits()), None);
    assert_eq!(f64_bits_to_i64(f64::NAN.to_bits()), None);
    assert_eq!(f64_bits_to_i64(f64::INFINITY.to_bits()), None);
    assert_eq!(f64_bits_to_i64((-0.0f64).to_bits()), Some(0));
    // the saturating-cast artifact at exactly 2^63
    assert_eq!(f64_bits_to_i64(9223372036854775808.0f64.to_bits()), Some(i64::MAX));
    assert_eq!(f64_bits_to_i64((-9223372036854775808.0f64).to_bits()), Some(i64::MIN));
}

#[test]
fn float_bit_comparisons() {
    assert!(f64_eq(0.0f64.to_bits(), (-0.0f64).to_bits()));
    assert!(!f64_eq(f64::NAN.to_bits(), f64::NAN.to_bits()));
    assert!(f64_lt(1.0f64.to_bits(), 2.0f64.to_bits()));
    assert!(f64_lt((-2.0f64).to_bits(), (-1.0f64).to_bits()));
    assert!(f64_le(2.0f64.to_bits(), 2.0f64.to_bits()));
    assert!(!f64_le(f64::NAN.to_bits(), f64::NAN.to_bits()));
    assert!(f64_lt(f64::NEG_INFINITY.to_bits(), f64::INFINITY.to_bits()));
}

#[test]
fn value_equality_and_order() {
    let two_int = LuaValue::Integer(2);
    let two_num = LuaValue::Number(2.0f64.to_bits());
    assert!(_eq(&two_int, &two_num));
    assert!(_eq(&two_num, &two_int));
    assert!(!_eq(&two_int, &LuaValue::Integer(3)));
    assert!(!_eq(&LuaValue::Nil, &LuaValue::Boolean(false)));
    assert!(_eq(&LuaValue::Nil, &LuaValue::Nil));
    let a = LuaValue::Str(String::from("abc"));
    let b = LuaValue::Str(String::from("abd"));
    assert_eq!(_lt(&a, &b), Some(true));
    assert_eq!(_lt(&b, &a), Some(false));
    assert_eq!(_le(&a, &a), Some(true));
    assert_eq!(_lt(&a, &two_int), None);
    assert_eq!(_lt(&two_int, &LuaValue::Number(2.5f64.to_bits())), Some(true));
}

#[test]
fn concat_and_len() {
    let k = RealNum;
    let mut ls = LuaState::new(16, empty_proto());
    ls.push_string(String::from("n = "));
    ls.push_integer(42);
    ls.concat(2, &k).expect("concat");
    assert_eq!(ls.stack.slots, vec![LuaValue::Str(String::from("n = 42"))]);
    ls.len(1).expect("len");
    assert_eq!(ls.stack.slots.last(), Some(&LuaValue::Integer(6)));
    ls.pop(2).unwrap();
    ls.push_boolean(true);
    assert_eq!(ls.len(1).unwrap_err(), VmError::TypeError);
    assert_eq!(ls.concat(0, &k), Ok(()));
    assert_eq!(ls.stack.slots.last(), Some(&LuaValue::Str(String::new())));
}

#[test]
fn test_test() {
    let ls = LuaState::new(16, empty_proto());
    assert_eq!(ls.get_top(), 0);
}
