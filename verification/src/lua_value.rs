//! The runtime value model: a closed tagged variant over nil, boolean,
//! integer, float and string, plus a table handle.
//!
//! A float is carried as its raw binary64 bit pattern.  A table value is a
//! handle into the arena owned by the executing state (`lua_state`); two
//! table values are the same table exactly when their handles are equal, so
//! handle equality is the identity equality the table model asks for.

use vstd::prelude::*;

use crate::consts;
use crate::float_bits;
use crate::number_ops::NumberOps;

verus! {

#[derive(Debug, PartialEq)]
pub enum LuaValue {
    Nil,
    Boolean(bool),
    /// A float, as its raw binary64 bit pattern.
    Number(u64),
    Integer(i64),
    Str(String),
    /// A table, as a handle into the owning state's table arena.
    Table(usize),
}

impl Clone for LuaValue {
    fn clone(&self) -> (r: Self)
        ensures
            r == *self,
    {
        match self {
            LuaValue::Nil => LuaValue::Nil,
            LuaValue::Boolean(b) => LuaValue::Boolean(*b),
            LuaValue::Number(n) => LuaValue::Number(*n),
            LuaValue::Integer(i) => LuaValue::Integer(*i),
            LuaValue::Str(s) => LuaValue::Str(s.clone()),
            LuaValue::Table(h) => LuaValue::Table(*h),
        }
    }
}

/// The type tag of a value.
pub open spec fn ty_spec(v: LuaValue) -> i8 {
    match v {
        LuaValue::Nil => consts::LUA_TNIL,
        LuaValue::Boolean(_) => consts::LUA_TBOOLEAN,
        LuaValue::Integer(_) => consts::LUA_TNUMBER,
        LuaValue::Number(_) => consts::LUA_TNUMBER,
        LuaValue::Str(_) => consts::LUA_TSTRING,
        LuaValue::Table(_) => consts::LUA_TTABLE,
    }
}

/// Truthiness: everything is true but nil and false.
pub open spec fn truthy(v: LuaValue) -> bool {
    match v {
        LuaValue::Nil => false,
        LuaValue::Boolean(b) => b,
        _ => true,
    }
}

/// Whether a value's table handle, if it carries one, points below the
/// arena's length.
pub open spec fn val_ok(v: LuaValue, n: int) -> bool {
    match v {
        LuaValue::Table(h) => (h as int) < n,
        _ => true,
    }
}

/// The UTF-8 bytes of a string value's text.
pub open spec fn str_bytes(s: String) -> Seq<u8> {
    vstd::utf8::encode_utf8(s@)
}

impl LuaValue {
    /// The integer this value coerces to where the coercion is a pure
    /// function of the value: integers as they are, floats when exact,
    /// strings only through the integer-literal grammar.
    pub open spec fn as_int_spec(&self) -> Option<i64> {
        match self {
            LuaValue::Integer(i) => Some(*i),
            LuaValue::Number(n) => float_bits::bits_to_i64_spec(*n),
            LuaValue::Str(s) => spec_parse_i64(str_bytes(*s)),
            _ => None,
        }
    }

    /// The type tag of this value.
    pub fn ty(&self) -> (r: i8)
        ensures
            r == ty_spec(*self),
    {
        match self {
            LuaValue::Nil => consts::LUA_TNIL,
            LuaValue::Boolean(_) => consts::LUA_TBOOLEAN,
            LuaValue::Integer(_) => consts::LUA_TNUMBER,
            LuaValue::Number(_) => consts::LUA_TNUMBER,
            LuaValue::Str(_) => consts::LUA_TSTRING,
            LuaValue::Table(_) => consts::LUA_TTABLE,
        }
    }

    /// Truthiness of this value.
    pub fn _to_boolean(&self) -> (r: bool)
        ensures
            r == truthy(*self),
    {
        match self {
            LuaValue::Nil => false,
            LuaValue::Boolean(b) => *b,
            _ => true,
        }
    }

    /// Coerces this value to a float bit pattern: a float as it is, an
    /// integer by the exact nearest-even conversion, a string by the
    /// kernel's float parse, anything else not at all.
    pub fn to_number<K: NumberOps>(&self, k: &K) -> (r: Option<u64>)
        ensures
            self matches LuaValue::Number(n) ==> r == Some(*n),
            self matches LuaValue::Integer(i) ==> r == Some(float_bits::i64_to_bits_spec(*i)),
            self matches LuaValue::Nil ==> r is None,
            self matches LuaValue::Boolean(_) ==> r is None,
            self matches LuaValue::Table(_) ==> r is None,
    {
        match self {
            LuaValue::Integer(i) => Some(float_bits::i64_to_f64_bits(*i)),
            LuaValue::Number(n) => Some(*n),
            LuaValue::Str(s) => k.parse_number(s),
            _ => None,
        }
    }

    /// Coerces this value to an integer: an integer as it is, a float only
    /// when it encodes an exact integer, a string through
    /// `string_to_integer`, anything else not at all.
    pub fn to_integer<K: NumberOps>(&self, k: &K) -> (r: Option<i64>)
        ensures
            self matches LuaValue::Integer(i) ==> r == Some(*i),
            self matches LuaValue::Number(n) ==> r == float_bits::bits_to_i64_spec(*n),
            self matches LuaValue::Nil ==> r is None,
            self matches LuaValue::Boolean(_) ==> r is None,
            self matches LuaValue::Table(_) ==> r is None,
            self matches LuaValue::Str(s) ==> (spec_parse_i64(str_bytes(*s)) is Some ==> r
                == spec_parse_i64(str_bytes(*s))),
    {
        match self {
            LuaValue::Integer(i) => Some(*i),
            LuaValue::Number(n) => float_bits::f64_bits_to_i64(*n),
            LuaValue::Str(s) => string_to_integer(s, k),
            _ => None,
        }
    }

    /// Whether this value is nil.
    pub fn is_nil(&self) -> (r: bool)
        ensures
            r == (*self matches LuaValue::Nil),
    {
        match self {
            LuaValue::Nil => true,
            _ => false,
        }
    }
}

/// Whether the byte is an ASCII decimal digit.
pub open spec fn is_digit(b: u8) -> bool {
    0x30 <= b <= 0x39
}

/// Whether every byte of the sequence is an ASCII decimal digit.
pub open spec fn all_digits(s: Seq<u8>) -> bool {
    forall|i: int| 0 <= i < s.len() ==> is_digit(#[trigger] s[i])
}

/// The value of a sequence of ASCII decimal digits.
pub open spec fn digits_val(s: Seq<u8>) -> int
    decreases s.len(),
{
    if s.len() == 0 {
        0
    } else {
        digits_val(s.drop_last()) * 10 + (s.last() - 0x30)
    }
}

/// The 64-bit integer an ASCII text denotes: an optional sign, then one or
/// more decimal digits, nothing else, and a value within the `i64` range.
pub open spec fn spec_parse_i64(s: Seq<u8>) -> Option<i64> {
    let neg = s.len() > 0 && s[0] == 0x2d;
    let ds = if s.len() > 0 && (s[0] == 0x2b || s[0] == 0x2d) {
        s.skip(1)
    } else {
        s
    };
    if ds.len() == 0 || !all_digits(ds) {
        None
    } else {
        let v = if neg {
            -digits_val(ds)
        } else {
            digits_val(ds)
        };
        if i64::MIN <= v <= i64::MAX {
            Some(v as i64)
        } else {
            None
        }
    }
}

proof fn lemma_digits_val_nonneg(s: Seq<u8>)
    requires
        all_digits(s),
    ensures
        digits_val(s) >= 0,
    decreases s.len(),
{
    if s.len() > 0 {
        assert(all_digits(s.drop_last()));
        lemma_digits_val_nonneg(s.drop_last());
    }
}

proof fn lemma_digits_val_mono(s: Seq<u8>, m: int)
    requires
        all_digits(s),
        0 <= m <= s.len(),
    ensures
        digits_val(s.take(m)) <= digits_val(s),
    decreases s.len() - m,
{
    if m < s.len() {
        lemma_digits_val_mono(s, m + 1);
        assert(s.take(m + 1).drop_last() =~= s.take(m));
        assert(all_digits(s.take(m)));
        lemma_digits_val_nonneg(s.take(m));
        assert(digits_val(s.take(m + 1)) == digits_val(s.take(m)) * 10 + (s[m] - 0x30));
    } else {
        assert(s.take(m) =~= s);
    }
}

/// Parses an ASCII text as a 64-bit integer, exactly per `spec_parse_i64`.
pub fn parse_i64_bytes(bs: &[u8]) -> (r: Option<i64>)
    ensures
        r == spec_parse_i64(bs@),
{
    let n = bs.len();
    if n == 0 {
        return None;
    }
    let neg = bs[0] == 0x2d;
    let mut i: usize = if bs[0] == 0x2b || bs[0] == 0x2d {
        1
    } else {
        0
    };
    let ghost start = i as int;
    let ghost ds = bs@.skip(start);
    if i == n {
        return None;
    }
    let mut acc: i64 = 0;
    while i < n
        invariant
            start <= i <= n,
            n == bs@.len(),
            0 <= start <= 1,
            ds == bs@.skip(start),
            neg == (bs@[0] == 0x2d),
            start == 1 <==> (bs@[0] == 0x2b || bs@[0] == 0x2d),
            all_digits(bs@.subrange(start, i as int)),
            acc as int == if neg {
                -digits_val(bs@.subrange(start, i as int))
            } else {
                digits_val(bs@.subrange(start, i as int))
            },
        decreases n - i,
    {
        let b = bs[i];
        if b < 0x30 || b > 0x39 {
            proof {
                assert(ds[i - start] == bs@[i as int]);
                assert(!all_digits(ds));
            }
            return None;
        }
        let d = (b - 0x30) as i64;
        let ghost pfx = bs@.subrange(start, i as int);
        let ghost pfx1 = bs@.subrange(start, i as int + 1);
        proof {
            assert(pfx1.drop_last() =~= pfx);
            assert(pfx1.last() == bs@[i as int]);
            assert(digits_val(pfx1) == digits_val(pfx) * 10 + (b - 0x30));
            assert(pfx1 =~= ds.take(i - start + 1));
        }
        let step = if neg {
            match acc.checked_mul(10) {
                Some(t) => t.checked_sub(d),
                None => None,
            }
        } else {
            match acc.checked_mul(10) {
                Some(t) => t.checked_add(d),
                None => None,
            }
        };
        match step {
            Some(next) => {
                acc = next;
            },
            None => {
                proof {
                    assert(bs@.skip(0) =~= bs@);
                    assert(all_digits(pfx));
                    lemma_digits_val_nonneg(pfx);
                    if all_digits(ds) {
                        lemma_digits_val_mono(ds, i - start + 1);
                        lemma_digits_val_nonneg(ds);
                        assert(digits_val(ds) >= digits_val(pfx1));
                        if neg {
                            assert(-digits_val(ds) < i64::MIN);
                        } else {
                            assert(digits_val(ds) > i64::MAX);
                        }
                    }
                    assert(spec_parse_i64(bs@) is None);
                }
                return None;
            },
        }
        i = i + 1;
    }
    proof {
        assert(bs@.skip(0) =~= bs@);
        assert(bs@.subrange(start, n as int) =~= ds);
        assert(all_digits(ds));
        assert(ds.len() > 0);
        assert(spec_parse_i64(bs@) == Some(acc));
    }
    Some(acc)
}

/// Converts a string value's text to an integer: first as an integer
/// literal, else through the kernel's float parse followed by the exact
/// float-to-integer conversion.
pub fn string_to_integer<K: NumberOps>(s: &String, k: &K) -> (r: Option<i64>)
    ensures
        spec_parse_i64(str_bytes(*s)) is Some ==> r == spec_parse_i64(str_bytes(*s)),
{
    let bs = s.as_str().as_bytes();
    match parse_i64_bytes(bs) {
        Some(i) => Some(i),
        None => match k.parse_number(s) {
            Some(bits) => float_bits::f64_bits_to_i64(bits),
            None => None,
        },
    }
}

} // verus!
