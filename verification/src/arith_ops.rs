//! The arithmetic operator set over dynamic values.
//!
//! Every operator has an integer form and/or a float form.  The integer
//! forms (add, sub, mul, modulo, floor division, the bitwise group,
//! negation) are implemented and verified here on 64-bit integers,
//! wrapping on overflow.  The float forms go through the embedder's
//! `NumberOps` kernel; what this module guarantees about them is the
//! shape of the result, not its bits.

use vstd::prelude::*;

use crate::consts;
use crate::float_bits;
use crate::lua_value::LuaValue;
use crate::number_ops::NumberOps;

verus! {

/// The integer form of the do-nothing slot in the operator table.
pub fn inone(_a: i64, _b: i64) -> (r: i64)
    ensures
        r == 0,
{
    0
}

/// Whether the bit pattern is positive infinity.
pub fn is_positive_infinite(n: u64) -> (r: bool)
    ensures
        r == (n == float_bits::F64_POS_INF),
{
    float_bits::f64_is_pos_inf(n)
}

/// Whether the bit pattern is negative infinity.
pub fn is_negative_infinite(n: u64) -> (r: bool)
    ensures
        r == (n == float_bits::F64_NEG_INF),
{
    float_bits::f64_is_neg_inf(n)
}

/// Division rounded toward negative infinity, on mathematical integers.
/// Spec division is Euclidean, which already rounds down for a positive
/// divisor; a negative divisor flips the sign and adjusts.
pub open spec fn floor_div_spec(a: int, b: int) -> int {
    if b > 0 {
        a / b
    } else {
        -(a / (-b)) - (if a % (-b) == 0 {
            0int
        } else {
            1int
        })
    }
}

/// The remainder that pairs with `floor_div_spec`: it takes the sign of
/// the divisor.
pub open spec fn floor_mod_spec(a: int, b: int) -> int {
    a - floor_div_spec(a, b) * b
}

/// The magnitude of a 64-bit integer.
fn mag_u64(i: i64) -> (r: u64)
    ensures
        r == float_bits::mag_of(i),
        r as int == if i >= 0 {
            i as int
        } else {
            -(i as int)
        },
        r <= 0x8000000000000000,
        i >= 0 ==> r <= i64::MAX,
        i != i64::MIN ==> r <= i64::MAX,
{
    if i == i64::MIN {
        0x8000000000000000
    } else if i < 0 {
        (-i) as u64
    } else {
        i as u64
    }
}

/// How the sign of the dividend turns a Euclidean quotient and remainder
/// of magnitudes into the Euclidean ones of the negated dividend.
proof fn lemma_euclid_neg(ua: int, c: int)
    requires
        c > 0,
        ua >= 0,
    ensures
        ua % c == 0 ==> (-ua) / c == -(ua / c) && (-ua) % c == 0,
        ua % c != 0 ==> (-ua) / c == -(ua / c) - 1 && (-ua) % c == c - ua % c,
{
    vstd::arithmetic::div_mod::lemma_fundamental_div_mod(ua, c);
    let q = ua / c;
    let rem = ua % c;
    if rem == 0 {
        assert((-ua) == (-q) * c + 0) by (nonlinear_arith)
            requires
                ua == c * q + rem,
                rem == 0,
        ;
        vstd::arithmetic::div_mod::lemma_fundamental_div_mod_converse(-ua, c, -q, 0);
    } else {
        assert((-ua) == (-q - 1) * c + (c - rem)) by (nonlinear_arith)
            requires
                ua == c * q + rem,
        ;
        vstd::arithmetic::div_mod::lemma_fundamental_div_mod_converse(-ua, c, -q - 1, c - rem);
    }
}

/// Facts shared by the floor-division routines: the quotient is bounded
/// by the dividend's magnitude, a unit divisor leaves no remainder, and
/// a bigger divisor halves the bound.
proof fn lemma_mag_div_facts(ua: int, ub: int)
    requires
        0 <= ua <= 0x8000000000000000,
        1 <= ub,
    ensures
        0 <= ua % ub < ub,
        ua == ub * (ua / ub) + ua % ub,
        0 <= ua / ub <= ua,
        ub == 1 ==> ua % ub == 0 && ua / ub == ua,
        ub >= 2 ==> ua / ub <= 0x4000000000000000,
{
    vstd::arithmetic::div_mod::lemma_fundamental_div_mod(ua, ub);
    let q = ua / ub;
    let rem = ua % ub;
    assert(q >= 0) by (nonlinear_arith)
        requires
            ua >= 0,
            ub >= 1,
            ua == ub * q + rem,
            0 <= rem < ub,
    ;
    assert(q <= ua) by (nonlinear_arith)
        requires
            q >= 0,
            ub >= 1,
            ua == ub * q + rem,
            rem >= 0,
    ;
    if ub == 1 {
        assert(ua % 1 == 0 && ua / 1 == ua) by {
            vstd::arithmetic::div_mod::lemma_fundamental_div_mod_converse(ua, 1, ua, 0);
        }
    }
    if ub >= 2 {
        assert(2 * q <= ua) by (nonlinear_arith)
            requires
                q >= 0,
                ub >= 2,
                ua == ub * q + rem,
                rem >= 0,
        ;
    }
}

/// Integer division rounded toward negative infinity.
pub fn i_floor_div(a: i64, b: i64) -> (r: i64)
    requires
        b != 0,
        !(a == i64::MIN && b == -1),
    ensures
        r == floor_div_spec(a as int, b as int),
{
    let ua = mag_u64(a);
    let ub = mag_u64(b);
    let q = ua / ub;
    let rem = ua % ub;
    proof {
        lemma_mag_div_facts(ua as int, ub as int);
        lemma_euclid_neg(ua as int, ub as int);
    }
    let neg = (a < 0) != (b < 0);
    if !neg {
        proof {
            if a < 0 && b < 0 {
                if ub == 1 {
                    assert(b == -1 && a != i64::MIN);
                }
            }
            assert(q <= i64::MAX as u64);
            assert(q == floor_div_spec(a as int, b as int));
        }
        q as i64
    } else {
        if rem == 0 {
            if q == 0x8000000000000000 {
                proof {
                    assert(a == i64::MIN && b == 1);
                    assert(i64::MIN == floor_div_spec(a as int, b as int));
                }
                i64::MIN
            } else {
                proof {
                    assert(-(q as int) == floor_div_spec(a as int, b as int));
                }
                -(q as i64)
            }
        } else {
            proof {
                assert(ub >= 2);
                assert(q + 1 <= i64::MAX as u64);
                assert(-(q as int) - 1 == floor_div_spec(a as int, b as int));
            }
            -((q + 1) as i64)
        }
    }
}

/// The modulo that pairs with floor division: `a - floor(a/b)*b`, so a
/// non-zero result takes the divisor's sign.
pub fn i_mod(a: i64, b: i64) -> (r: i64)
    requires
        b != 0,
        !(a == i64::MIN && b == -1),
    ensures
        r == floor_mod_spec(a as int, b as int),
        b > 0 ==> 0 <= r < b,
        b < 0 ==> b < r <= 0,
{
    let ua = mag_u64(a);
    let ub = mag_u64(b);
    let q = ua / ub;
    let rem = ua % ub;
    proof {
        vstd::arithmetic::div_mod::lemma_fundamental_div_mod(ua as int, ub as int);
        lemma_mag_div_facts(ua as int, ub as int);
        lemma_euclid_neg(ua as int, ub as int);
        assert(floor_mod_spec(a as int, b as int) == (a as int) - floor_div_spec(
            a as int,
            b as int,
        ) * (b as int));
        if a >= 0 && b > 0 {
            assert(floor_div_spec(a as int, b as int) == (a as int) / (b as int));
        } else if a < 0 && b > 0 {
            assert(floor_div_spec(a as int, b as int) == if rem == 0 {
                -(q as int)
            } else {
                -(q as int) - 1
            });
        } else if a >= 0 && b < 0 {
            assert(floor_div_spec(a as int, b as int) == if rem == 0 {
                -(q as int)
            } else {
                -(q as int) - 1
            });
        } else {
            assert(floor_div_spec(a as int, b as int) == q);
        }
        if a >= 0 && b > 0 {
            assert((a as int) - ((a as int) / (b as int)) * (b as int) == (a as int) % (
            b as int)) by (nonlinear_arith)
                requires
                    b > 0,
                    (a as int) == (b as int) * ((a as int) / (b as int)) + (a as int) % (b as int),
            ;
        } else if a < 0 && b > 0 {
            if rem != 0 {
                assert((a as int) - (-(q as int) - 1) * (b as int) == (b as int) - rem) by (nonlinear_arith)
                    requires
                        a as int == -(ua as int),
                        b as int == ub as int,
                        ua as int == (ub as int) * (q as int) + rem,
                ;
            } else {
                assert((a as int) - (-(q as int)) * (b as int) == 0) by (nonlinear_arith)
                    requires
                        a as int == -(ua as int),
                        b as int == ub as int,
                        ua as int == (ub as int) * (q as int) + rem,
                        rem == 0,
                ;
            }
        } else if a >= 0 && b < 0 {
            if rem != 0 {
                assert((a as int) - (-(q as int) - 1) * (b as int) == rem - (ub as int)) by (nonlinear_arith)
                    requires
                        b as int == -(ub as int),
                        ua as int == a as int,
                        ua as int == (ub as int) * (q as int) + rem,
                ;
            } else {
                assert((a as int) - (-(q as int)) * (b as int) == 0) by (nonlinear_arith)
                    requires
                        b as int == -(ub as int),
                        ua as int == a as int,
                        ua as int == (ub as int) * (q as int) + rem,
                        rem == 0,
                ;
            }
        } else {
            assert((a as int) - (q as int) * (b as int) == -rem) by (nonlinear_arith)
                requires
                    a as int == -(ua as int),
                    b as int == -(ub as int),
                    ua as int == (ub as int) * (q as int) + rem,
            ;
        }
    }
    let neg = (a < 0) != (b < 0);
    if !neg {
        if a >= 0 {
            rem as i64
        } else {
            -(rem as i64)
        }
    } else if rem == 0 {
        0
    } else if a < 0 {
        (ub - rem) as i64
    } else {
        -((ub - rem) as i64)
    }
}

/// A left shift on the 64-bit two's-complement pattern: a negative count
/// shifts right instead, counts of 64 and beyond give zero, vacated bits
/// fill with zero.
pub open spec fn shift_left_spec(a: i64, n: i64) -> i64 {
    if n <= -64 || n >= 64 {
        0
    } else if n >= 0 {
        float_bits::i64_from_u64(float_bits::u64_repr(a) << n as u64)
    } else {
        float_bits::i64_from_u64(float_bits::u64_repr(a) >> ((-n) as u64))
    }
}

/// A right shift on the 64-bit two's-complement pattern: logical (no
/// sign extension), a negative count shifts left instead, counts of 64
/// and beyond give zero.
pub open spec fn shift_right_spec(a: i64, n: i64) -> i64 {
    if n <= -64 || n >= 64 {
        0
    } else if n >= 0 {
        float_bits::i64_from_u64(float_bits::u64_repr(a) >> n as u64)
    } else {
        float_bits::i64_from_u64(float_bits::u64_repr(a) << ((-n) as u64))
    }
}

/// Shifts left; a negative count shifts right.
pub fn shift_left(a: i64, n: i64) -> (r: i64)
    ensures
        r == shift_left_spec(a, n),
{
    if n <= -64 || n >= 64 {
        proof {
            if n >= 64 {
                assert(float_bits::u64_repr(a) << n as u64 == 0) by (bit_vector)
                    requires
                        n as u64 >= 64,
                ;
            }
        }
        0
    } else if n >= 0 {
        float_bits::i64_of_u64(float_bits::u64_of_i64(a) << (n as u64))
    } else {
        float_bits::i64_of_u64(float_bits::u64_of_i64(a) >> ((-n) as u64))
    }
}

/// Shifts right logically; a negative count shifts left.
pub fn shift_right(a: i64, n: i64) -> (r: i64)
    ensures
        r == shift_right_spec(a, n),
{
    if n <= -64 || n >= 64 {
        0
    } else if n >= 0 {
        float_bits::i64_of_u64(float_bits::u64_of_i64(a) >> (n as u64))
    } else {
        float_bits::i64_of_u64(float_bits::u64_of_i64(a) << ((-n) as u64))
    }
}

/// Whether the operator has an integer form.
pub open spec fn has_int_form(op: u8) -> bool {
    op != consts::LUA_OPPOW && op != consts::LUA_OPDIV
}

/// Whether the operator has a float form.
pub open spec fn has_float_form(op: u8) -> bool {
    op == consts::LUA_OPADD || op == consts::LUA_OPSUB || op == consts::LUA_OPMUL || op
        == consts::LUA_OPMOD || op == consts::LUA_OPPOW || op == consts::LUA_OPDIV || op
        == consts::LUA_OPIDIV || op == consts::LUA_OPUNM
}

/// Whether the operator is a division or modulo whose integer form
/// faults on this divisor pair.
pub open spec fn int_form_faults(op: u8, x: i64, y: i64) -> bool {
    (op == consts::LUA_OPMOD || op == consts::LUA_OPIDIV) && (y == 0 || (x == i64::MIN && y
        == -1))
}

/// The integer form of each operator: wrapping arithmetic, floor
/// division and its modulo, the bitwise group, and the two unary forms
/// (which ignore the second operand).
pub open spec fn int_arith_spec(op: u8, x: i64, y: i64) -> i64 {
    if op == consts::LUA_OPADD {
        vstd::wrapping::i64_specs::wrapping_add(x, y)
    } else if op == consts::LUA_OPSUB {
        vstd::wrapping::i64_specs::wrapping_sub(x, y)
    } else if op == consts::LUA_OPMUL {
        vstd::wrapping::i64_specs::wrapping_mul(x, y)
    } else if op == consts::LUA_OPMOD {
        floor_mod_spec(x as int, y as int) as i64
    } else if op == consts::LUA_OPIDIV {
        floor_div_spec(x as int, y as int) as i64
    } else if op == consts::LUA_OPBAND {
        x & y
    } else if op == consts::LUA_OPBOR {
        x | y
    } else if op == consts::LUA_OPBXOR {
        x ^ y
    } else if op == consts::LUA_OPSHL {
        shift_left_spec(x, y)
    } else if op == consts::LUA_OPSHR {
        shift_right_spec(x, y)
    } else if op == consts::LUA_OPUNM {
        vstd::wrapping::i64_specs::wrapping_sub(0, x)
    } else if op == consts::LUA_OPBNOT {
        !x
    } else {
        0
    }
}

/// Runs one integer-form operator.
fn int_arith(op: u8, x: i64, y: i64) -> (r: i64)
    requires
        op <= consts::LUA_OPBNOT,
        has_int_form(op),
        !int_form_faults(op, x, y),
    ensures
        r == int_arith_spec(op, x, y),
{
    if op == consts::LUA_OPADD {
        x.wrapping_add(y)
    } else if op == consts::LUA_OPSUB {
        x.wrapping_sub(y)
    } else if op == consts::LUA_OPMUL {
        x.wrapping_mul(y)
    } else if op == consts::LUA_OPMOD {
        i_mod(x, y)
    } else if op == consts::LUA_OPIDIV {
        i_floor_div(x, y)
    } else if op == consts::LUA_OPBAND {
        x & y
    } else if op == consts::LUA_OPBOR {
        x | y
    } else if op == consts::LUA_OPBXOR {
        x ^ y
    } else if op == consts::LUA_OPSHL {
        shift_left(x, y)
    } else if op == consts::LUA_OPSHR {
        shift_right(x, y)
    } else if op == consts::LUA_OPUNM {
        0i64.wrapping_sub(x)
    } else {
        !x
    }
}

/// Runs one float-form operator through the kernel; `floor(a/b)` for
/// floor division and the documented infinite-divisor cases for modulo
/// are composed here from kernel primitives and verified bit tests.
fn float_arith<K: NumberOps>(op: u8, x: u64, y: u64, k: &K) -> (r: u64) {
    if op == consts::LUA_OPADD {
        k.add(x, y)
    } else if op == consts::LUA_OPSUB {
        k.sub(x, y)
    } else if op == consts::LUA_OPMUL {
        k.mul(x, y)
    } else if op == consts::LUA_OPMOD {
        f_mod(x, y, k)
    } else if op == consts::LUA_OPPOW {
        k.pow(x, y)
    } else if op == consts::LUA_OPDIV {
        k.div(x, y)
    } else if op == consts::LUA_OPIDIV {
        f_floor_div(x, y, k)
    } else {
        float_bits::f64_neg_bits(x)
    }
}

/// Float floor division: the floor of the true quotient.
fn f_floor_div<K: NumberOps>(a: u64, b: u64, k: &K) -> u64 {
    k.floor(k.div(a, b))
}

/// Float modulo: `a` when `a` and the infinite divisor share their sign,
/// the divisor when they differ, else `a - floor(a/b)*b`.
fn f_mod<K: NumberOps>(a: u64, b: u64, k: &K) -> u64 {
    let zero = float_bits::F64_ZERO;
    let a_pos = float_bits::f64_lt(zero, a);
    let a_neg = float_bits::f64_lt(a, zero);
    if a_pos && is_positive_infinite(b) || a_neg && is_negative_infinite(b) {
        a
    } else if a_pos && is_negative_infinite(b) || a_neg && is_positive_infinite(b) {
        b
    } else {
        k.sub(a, k.mul(k.floor(k.div(a, b)), b))
    }
}

/// Applies an arithmetic operator to two values, following the coercion
/// rules: integer-only operators need both operands to coerce to
/// integers; float-only operators need both to coerce to floats; the
/// rest prefer the integer form and fall back to the float form.  `None`
/// means no form applies, or the integer form faulted on its divisor.
pub fn _arith<K: NumberOps>(a: &LuaValue, b: &LuaValue, op: u8, k: &K) -> (r: Option<LuaValue>)
    requires
        op <= consts::LUA_OPBNOT,
    ensures
        !has_float_form(op) ==> (a.as_int_spec() matches Some(x) ==> (b.as_int_spec() matches Some(
            y,
        ) ==> r == Some(LuaValue::Integer(int_arith_spec(op, x, y))))),
        has_int_form(op) && has_float_form(op) ==> (a.as_int_spec() matches Some(x) ==> (
        b.as_int_spec() matches Some(y) ==> (if int_form_faults(op, x, y) {
            r is None
        } else {
            r == Some(LuaValue::Integer(int_arith_spec(op, x, y)))
        }))),
        r is Some ==> (r matches Some(v) && (v matches LuaValue::Integer(_) || v matches
            LuaValue::Number(_))),
        !has_float_form(op) && deterministic_operand(*a) && deterministic_operand(*b) ==> (r
            is Some <==> (a.as_int_spec() is Some && b.as_int_spec() is Some)),
        has_float_form(op) && is_numeric(*a) && is_numeric(*b) ==> (r is None <==> (
        a.as_int_spec() matches Some(x) && b.as_int_spec() matches Some(y) && int_form_faults(
            op,
            x,
            y,
        ))),
        has_float_form(op) && is_numeric(*a) && is_numeric(*b) && !(has_int_form(op)
            && a.as_int_spec() is Some && b.as_int_spec() is Some) ==> (r matches Some(v) && (v
        matches LuaValue::Number(_))),
        nonnumeric(*a) || nonnumeric(*b) ==> r is None,
{
    if !has_float_form_exec(op) {
        match a.to_integer(k) {
            Some(x) => match b.to_integer(k) {
                Some(y) => Some(LuaValue::Integer(int_arith(op, x, y))),
                None => None,
            },
            None => None,
        }
    } else {
        if has_int_form_exec(op) {
            let xi = a.to_integer(k);
            let yi = b.to_integer(k);
            match (xi, yi) {
                (Some(x), Some(y)) => {
                    if (op == consts::LUA_OPMOD || op == consts::LUA_OPIDIV) && (y == 0 || (x
                        == i64::MIN && y == -1)) {
                        return None;
                    }
                    return Some(LuaValue::Integer(int_arith(op, x, y)));
                },
                _ => {},
            }
        }
        match a.to_number(k) {
            Some(x) => match b.to_number(k) {
                Some(y) => Some(LuaValue::Number(float_arith(op, x, y, k))),
                None => None,
            },
            None => None,
        }
    }
}

/// Whether the operator has a float form, executably.
fn has_float_form_exec(op: u8) -> (r: bool)
    ensures
        r == has_float_form(op),
{
    op == consts::LUA_OPADD || op == consts::LUA_OPSUB || op == consts::LUA_OPMUL || op
        == consts::LUA_OPMOD || op == consts::LUA_OPPOW || op == consts::LUA_OPDIV || op
        == consts::LUA_OPIDIV || op == consts::LUA_OPUNM
}

/// Whether the operator has an integer form, executably.
fn has_int_form_exec(op: u8) -> (r: bool)
    ensures
        r == has_int_form(op),
{
    op != consts::LUA_OPPOW && op != consts::LUA_OPDIV
}

/// A value carried as a number: an integer or a float.
pub open spec fn is_numeric(v: LuaValue) -> bool {
    v matches LuaValue::Integer(_) || v matches LuaValue::Number(_)
}

/// A value that is neither a number nor a string: no coercion applies.
pub open spec fn nonnumeric(v: LuaValue) -> bool {
    match v {
        LuaValue::Nil => true,
        LuaValue::Boolean(_) => true,
        LuaValue::Table(_) => true,
        _ => false,
    }
}

/// A value whose integer coercion the kernel cannot influence: anything
/// but a string.
pub open spec fn deterministic_operand(v: LuaValue) -> bool {
    !(v matches LuaValue::Str(_))
}

} // verus!
