//! Equality and ordering over dynamic values.
//!
//! Equality is structural within a type; integers and floats
//! cross-compare by converting the integer to the wider float
//! representation; tables compare by handle identity; any other
//! cross-type pair is unequal.  Ordering is defined only between two
//! strings (byte-wise lexicographic) and between numbers; every other
//! pairing has no order and yields `None`.

use vstd::prelude::*;

use crate::float_bits;
use crate::lua_value::LuaValue;

verus! {

/// Byte-wise lexicographic strict order.
pub open spec fn bytes_lt(x: Seq<u8>, y: Seq<u8>) -> bool
    decreases x.len(),
{
    if y.len() == 0 {
        false
    } else if x.len() == 0 {
        true
    } else if x[0] < y[0] {
        true
    } else if x[0] > y[0] {
        false
    } else {
        bytes_lt(x.skip(1), y.skip(1))
    }
}

/// Byte-wise lexicographic non-strict order.
pub open spec fn bytes_le(x: Seq<u8>, y: Seq<u8>) -> bool
    decreases x.len(),
{
    if x.len() == 0 {
        true
    } else if y.len() == 0 {
        false
    } else if x[0] < y[0] {
        true
    } else if x[0] > y[0] {
        false
    } else {
        bytes_le(x.skip(1), y.skip(1))
    }
}

/// The bit pattern a value compares as, when it is a number: a float's
/// own bits, an integer's nearest-even conversion.
pub open spec fn num_bits_of(v: LuaValue) -> Option<u64> {
    match v {
        LuaValue::Integer(i) => Some(float_bits::i64_to_bits_spec(i)),
        LuaValue::Number(n) => Some(n),
        _ => None,
    }
}

/// Equality of two values: nil equals only nil, booleans by value,
/// strings by text, numbers across both representations, tables by
/// handle identity, anything else unequal.
pub open spec fn eq_spec(a: LuaValue, b: LuaValue) -> bool {
    match (a, b) {
        (LuaValue::Nil, LuaValue::Nil) => true,
        (LuaValue::Boolean(x), LuaValue::Boolean(y)) => x == y,
        (LuaValue::Str(x), LuaValue::Str(y)) => x@ == y@,
        (LuaValue::Integer(x), LuaValue::Integer(y)) => x == y,
        (LuaValue::Integer(x), LuaValue::Number(y)) => float_bits::num_eq_bits(
            float_bits::i64_to_bits_spec(x),
            y,
        ),
        (LuaValue::Number(x), LuaValue::Integer(y)) => float_bits::num_eq_bits(
            x,
            float_bits::i64_to_bits_spec(y),
        ),
        (LuaValue::Number(x), LuaValue::Number(y)) => float_bits::num_eq_bits(x, y),
        (LuaValue::Table(x), LuaValue::Table(y)) => x == y,
        _ => false,
    }
}

/// Strict order of two values, where one is defined.
pub open spec fn lt_spec(a: LuaValue, b: LuaValue) -> Option<bool> {
    match (a, b) {
        (LuaValue::Str(x), LuaValue::Str(y)) => Some(
            bytes_lt(crate::lua_value::str_bytes(x), crate::lua_value::str_bytes(y)),
        ),
        (LuaValue::Integer(x), LuaValue::Integer(y)) => Some(x < y),
        _ => match (num_bits_of(a), num_bits_of(b)) {
            (Some(x), Some(y)) => Some(float_bits::num_lt_bits(x, y)),
            _ => None,
        },
    }
}

/// Non-strict order of two values, where one is defined.
pub open spec fn le_spec(a: LuaValue, b: LuaValue) -> Option<bool> {
    match (a, b) {
        (LuaValue::Str(x), LuaValue::Str(y)) => Some(
            bytes_le(crate::lua_value::str_bytes(x), crate::lua_value::str_bytes(y)),
        ),
        (LuaValue::Integer(x), LuaValue::Integer(y)) => Some(x <= y),
        _ => match (num_bits_of(a), num_bits_of(b)) {
            (Some(x), Some(y)) => Some(float_bits::num_le_bits(x, y)),
            _ => None,
        },
    }
}

/// Byte-wise lexicographic comparison of two byte slices: strict and
/// non-strict order at once.
fn bytes_compare(x: &[u8], y: &[u8]) -> (r: (bool, bool))
    ensures
        r.0 == bytes_lt(x@, y@),
        r.1 == bytes_le(x@, y@),
{
    let xn = x.len();
    let yn = y.len();
    let mut i: usize = 0;
    proof {
        assert(x@.skip(0) =~= x@);
        assert(y@.skip(0) =~= y@);
    }
    while i < xn && i < yn
        invariant
            i <= xn,
            i <= yn,
            xn == x@.len(),
            yn == y@.len(),
            bytes_lt(x@, y@) == bytes_lt(x@.skip(i as int), y@.skip(i as int)),
            bytes_le(x@, y@) == bytes_le(x@.skip(i as int), y@.skip(i as int)),
        decreases xn - i,
    {
        if x[i] < y[i] {
            return (true, true);
        }
        if x[i] > y[i] {
            return (false, false);
        }
        proof {
            assert(x@.skip(i as int).skip(1) =~= x@.skip(i as int + 1));
            assert(y@.skip(i as int).skip(1) =~= y@.skip(i as int + 1));
        }
        i = i + 1;
    }
    (xn < yn, xn <= yn)
}

/// Equality of two values, exactly per `eq_spec`.
pub fn _eq(a: &LuaValue, b: &LuaValue) -> (r: bool)
    ensures
        r == eq_spec(*a, *b),
{
    match (a, b) {
        (LuaValue::Nil, LuaValue::Nil) => true,
        (LuaValue::Boolean(x), LuaValue::Boolean(y)) => x == y,
        (LuaValue::Str(x), LuaValue::Str(y)) => x.eq(y),
        (LuaValue::Integer(x), LuaValue::Integer(y)) => x == y,
        (LuaValue::Integer(x), LuaValue::Number(y)) => float_bits::f64_eq(
            float_bits::i64_to_f64_bits(*x),
            *y,
        ),
        (LuaValue::Number(x), LuaValue::Integer(y)) => float_bits::f64_eq(
            *x,
            float_bits::i64_to_f64_bits(*y),
        ),
        (LuaValue::Number(x), LuaValue::Number(y)) => float_bits::f64_eq(*x, *y),
        (LuaValue::Table(x), LuaValue::Table(y)) => x == y,
        _ => false,
    }
}

/// Strict order of two values, exactly per `lt_spec`.
pub fn _lt(a: &LuaValue, b: &LuaValue) -> (r: Option<bool>)
    ensures
        r == lt_spec(*a, *b),
{
    match (a, b) {
        (LuaValue::Str(x), LuaValue::Str(y)) => {
            let (lt, _le) = bytes_compare(x.as_str().as_bytes(), y.as_str().as_bytes());
            Some(lt)
        },
        (LuaValue::Integer(x), LuaValue::Integer(y)) => Some(x < y),
        (LuaValue::Integer(x), LuaValue::Number(y)) => Some(
            float_bits::f64_lt(float_bits::i64_to_f64_bits(*x), *y),
        ),
        (LuaValue::Number(x), LuaValue::Integer(y)) => Some(
            float_bits::f64_lt(*x, float_bits::i64_to_f64_bits(*y)),
        ),
        (LuaValue::Number(x), LuaValue::Number(y)) => Some(float_bits::f64_lt(*x, *y)),
        _ => None,
    }
}

/// Non-strict order of two values, exactly per `le_spec`.
pub fn _le(a: &LuaValue, b: &LuaValue) -> (r: Option<bool>)
    ensures
        r == le_spec(*a, *b),
{
    match (a, b) {
        (LuaValue::Str(x), LuaValue::Str(y)) => {
            let (_lt, le) = bytes_compare(x.as_str().as_bytes(), y.as_str().as_bytes());
            Some(le)
        },
        (LuaValue::Integer(x), LuaValue::Integer(y)) => Some(x <= y),
        (LuaValue::Integer(x), LuaValue::Number(y)) => Some(
            float_bits::f64_le(float_bits::i64_to_f64_bits(*x), *y),
        ),
        (LuaValue::Number(x), LuaValue::Integer(y)) => Some(
            float_bits::f64_le(*x, float_bits::i64_to_f64_bits(*y)),
        ),
        (LuaValue::Number(x), LuaValue::Number(y)) => Some(float_bits::f64_le(*x, *y)),
        _ => None,
    }
}

} // verus!
