//! Integer-only reasoning about IEEE-754 binary64 bit patterns.
//!
//! The value model stores every Lua float as its raw bit pattern in a `u64`.
//! Everything that is decidable from the bit pattern alone — classification,
//! ordering, equality, sign manipulation, and the exact conversions between
//! integers and floats — is implemented and verified here on plain integers.
//! Only inexact float arithmetic (see `number_ops`) is left to the embedder.

use vstd::prelude::*;

verus! {

/// Mask of the sign bit of a binary64 value.
pub const F64_SIGN_BIT: u64 = 0x8000_0000_0000_0000;

/// Mask of everything but the sign bit.
pub const F64_ABS_MASK: u64 = 0x7fff_ffff_ffff_ffff;

/// Mask of the 52 mantissa bits.
pub const F64_MANT_MASK: u64 = 0x000f_ffff_ffff_ffff;

/// Bit pattern of positive infinity.
pub const F64_POS_INF: u64 = 0x7ff0_0000_0000_0000;

/// Bit pattern of negative infinity.
pub const F64_NEG_INF: u64 = 0xfff0_0000_0000_0000;

/// Bit pattern of the binary64 value 2^63.
pub const F64_TWO_POW_63: u64 = 0x43e0_0000_0000_0000;

/// Bit pattern of positive zero.
pub const F64_ZERO: u64 = 0;

/// The bit pattern with the sign bit cleared: the magnitude of the value.
pub open spec fn abs_bits(b: u64) -> u64 {
    b & F64_ABS_MASK
}

/// A binary64 bit pattern encodes NaN when its magnitude exceeds that of
/// infinity: exponent all ones and a non-zero mantissa.
pub open spec fn nan_bits(b: u64) -> bool {
    abs_bits(b) > F64_POS_INF
}

/// The sign bit is set.  This includes negative zero and NaNs with a set
/// sign bit.
pub open spec fn sign_bits(b: u64) -> bool {
    b >= F64_SIGN_BIT
}

/// The ordering key of a non-NaN binary64 bit pattern: magnitude bits,
/// negated when the sign bit is set.  Two non-NaN patterns compare (by the
/// IEEE-754 order) exactly as their keys compare, and both zeros share the
/// key 0.
pub open spec fn num_key(b: u64) -> int {
    if sign_bits(b) {
        -(abs_bits(b) as int)
    } else {
        abs_bits(b) as int
    }
}

/// IEEE-754 equality of two binary64 bit patterns: false when either is
/// NaN, true exactly when the ordering keys agree (so `0.0 == -0.0`).
pub open spec fn num_eq_bits(a: u64, b: u64) -> bool {
    !nan_bits(a) && !nan_bits(b) && num_key(a) == num_key(b)
}

/// IEEE-754 strict order of two binary64 bit patterns: false when either
/// is NaN.
pub open spec fn num_lt_bits(a: u64, b: u64) -> bool {
    !nan_bits(a) && !nan_bits(b) && num_key(a) < num_key(b)
}

/// IEEE-754 non-strict order of two binary64 bit patterns: false when
/// either is NaN.
pub open spec fn num_le_bits(a: u64, b: u64) -> bool {
    !nan_bits(a) && !nan_bits(b) && num_key(a) <= num_key(b)
}

/// The magnitude bits of `b`.
pub fn f64_abs_bits(b: u64) -> (r: u64)
    ensures
        r == abs_bits(b),
{
    b & F64_ABS_MASK
}

/// Whether the bit pattern encodes NaN.
pub fn f64_is_nan(b: u64) -> (r: bool)
    ensures
        r == nan_bits(b),
{
    f64_abs_bits(b) > F64_POS_INF
}

/// Whether the bit pattern encodes positive infinity.
pub fn f64_is_pos_inf(b: u64) -> (r: bool)
    ensures
        r == (b == F64_POS_INF),
{
    b == F64_POS_INF
}

/// Whether the bit pattern encodes negative infinity.
pub fn f64_is_neg_inf(b: u64) -> (r: bool)
    ensures
        r == (b == F64_NEG_INF),
{
    b == F64_NEG_INF
}

/// The bit pattern of the negated value: the sign bit flipped.
pub fn f64_neg_bits(b: u64) -> (r: u64)
    ensures
        r == (b ^ F64_SIGN_BIT),
{
    b ^ F64_SIGN_BIT
}

/// The ordering key of a bit pattern, as a machine integer.
fn f64_key(b: u64) -> (r: i64)
    ensures
        r as int == num_key(b),
{
    let mag = b & F64_ABS_MASK;
    assert(b & 0x7fff_ffff_ffff_ffff <= 0x7fff_ffff_ffff_ffff) by (bit_vector);
    if b >= F64_SIGN_BIT {
        -(mag as i64)
    } else {
        mag as i64
    }
}

/// IEEE-754 equality of two bit patterns.
pub fn f64_eq(a: u64, b: u64) -> (r: bool)
    ensures
        r == num_eq_bits(a, b),
{
    if f64_is_nan(a) || f64_is_nan(b) {
        false
    } else {
        f64_key(a) == f64_key(b)
    }
}

/// IEEE-754 strict order of two bit patterns.
pub fn f64_lt(a: u64, b: u64) -> (r: bool)
    ensures
        r == num_lt_bits(a, b),
{
    if f64_is_nan(a) || f64_is_nan(b) {
        false
    } else {
        f64_key(a) < f64_key(b)
    }
}

/// IEEE-754 non-strict order of two bit patterns.
pub fn f64_le(a: u64, b: u64) -> (r: bool)
    ensures
        r == num_le_bits(a, b),
{
    if f64_is_nan(a) || f64_is_nan(b) {
        false
    } else {
        f64_key(a) <= f64_key(b)
    }
}

/// The two's-complement 64-bit representation of a signed value.
pub open spec fn u64_repr(x: i64) -> u64 {
    if x >= 0 {
        x as u64
    } else {
        (x + 0x10000000000000000) as u64
    }
}

/// The signed value a two's-complement 64-bit representation denotes.
pub open spec fn i64_from_u64(x: u64) -> i64 {
    if x < 0x8000000000000000 {
        x as i64
    } else {
        (x - 0x10000000000000000) as i64
    }
}

/// Reinterprets a signed value's bits as unsigned.
pub fn u64_of_i64(a: i64) -> (r: u64)
    ensures
        r == u64_repr(a),
{
    if a >= 0 {
        a as u64
    } else {
        0xffffffffffffffffu64 - ((-(a + 1)) as u64)
    }
}

/// Reinterprets an unsigned value's bits as signed.
pub fn i64_of_u64(x: u64) -> (r: i64)
    ensures
        r == i64_from_u64(x),
{
    if x < 0x8000000000000000 {
        x as i64
    } else {
        -((0xffffffffffffffffu64 - x) as i64) - 1
    }
}

/// The floor of the base-2 logarithm of `m`, with `spec_log2(0) == 0`.
pub open spec fn spec_log2(m: u64) -> u64
    decreases m,
{
    if m < 2 {
        0
    } else {
        (1 + spec_log2(m / 2)) as u64
    }
}

/// The magnitude of a 64-bit integer, as a `u64` (so `i64::MIN` is 2^63).
pub open spec fn mag_of(i: i64) -> u64 {
    if i >= 0 {
        i as u64
    } else {
        (-(i as int)) as u64
    }
}

proof fn lemma_log2_lt(m: u64, k: nat)
    requires
        1 <= k,
        (m as nat) < vstd::arithmetic::power2::pow2(k),
    ensures
        spec_log2(m) < k,
    decreases k,
{
    if m >= 2 {
        vstd::arithmetic::power2::lemma2_to64();
        vstd::arithmetic::power2::lemma_pow2_unfold(k);
        lemma_log2_lt(m / 2, (k - 1) as nat);
    }
}

proof fn lemma_log2_bound(m: u64)
    ensures
        spec_log2(m) <= 63,
{
    vstd::arithmetic::power2::lemma2_to64();
    vstd::arithmetic::power2::lemma2_to64_rest();
    lemma_log2_lt(m, 64);
}

/// The binary64 bit pattern nearest to the 64-bit integer `i`, ties to
/// even: the IEEE-754 round-to-nearest conversion, built from the unique
/// `p` with `2^p <= |i| < 2^(p+1)`.  Magnitudes up to 2^53 convert
/// exactly; above that the trailing `p - 52` bits are rounded away, a
/// carry out of the mantissa bumping the exponent.
pub open spec fn i64_to_bits_spec(i: i64) -> u64 {
    if i == 0 {
        0
    } else {
        let sign: u64 = if i < 0 {
            F64_SIGN_BIT
        } else {
            0
        };
        let mag = mag_of(i);
        let p = spec_log2(mag);
        if p <= 52 {
            sign | (((1023 + p) as u64) << 52u64) | ((mag << ((52 - p) as u64)) & F64_MANT_MASK)
        } else {
            let shift = (p - 52) as u64;
            let m0 = mag >> shift;
            let rem = mag & (((1u64 << shift) - 1) as u64);
            let half = 1u64 << ((shift - 1) as u64);
            let m1: u64 = if rem > half || (rem == half && m0 & 1 == 1) {
                (m0 + 1) as u64
            } else {
                m0
            };
            if m1 == 1u64 << 53u64 {
                sign | (((1024 + p) as u64) << 52u64)
            } else {
                sign | (((1023 + p) as u64) << 52u64) | (m1 & F64_MANT_MASK)
            }
        }
    }
}

/// Converts a 64-bit integer to the bit pattern of the nearest binary64
/// value, ties to even.
pub fn i64_to_f64_bits(i: i64) -> (r: u64)
    ensures
        r == i64_to_bits_spec(i),
{
    if i == 0 {
        return 0;
    }
    let sign: u64 = if i < 0 {
        F64_SIGN_BIT
    } else {
        0
    };
    let mag: u64 = if i == i64::MIN {
        0x8000_0000_0000_0000
    } else if i < 0 {
        (-i) as u64
    } else {
        i as u64
    };
    assert(mag == mag_of(i));
    let mut m: u64 = mag;
    let mut p: u64 = 0;
    while m >= 2
        invariant
            1 <= m,
            m <= mag,
            spec_log2(mag) == p + spec_log2(m),
            p <= 63,
        decreases m,
    {
        proof {
            lemma_log2_bound(mag);
            lemma_log2_bound(m / 2);
            assert(spec_log2(m) == 1 + spec_log2(m / 2));
        }
        m = m / 2;
        p = p + 1;
    }
    assert(spec_log2(m) == 0);
    assert(p == spec_log2(mag));
    if p <= 52 {
        sign | ((1023 + p) << 52u64) | ((mag << (52 - p)) & F64_MANT_MASK)
    } else {
        let shift: u64 = p - 52;
        assert(1u64 << shift >= 1) by (bit_vector)
            requires
                1 <= shift < 64,
        ;
        let m0: u64 = mag >> shift;
        let rem: u64 = mag & ((1u64 << shift) - 1);
        let half: u64 = 1u64 << (shift - 1);
        assert(mag >> shift <= 0xffff_ffff_ffff_ffffu64 >> 1) by (bit_vector)
            requires
                1 <= shift < 64,
        ;
        assert(0xffff_ffff_ffff_ffffu64 >> 1 == 0x7fff_ffff_ffff_ffff) by (bit_vector);
        let m1: u64 = if rem > half || (rem == half && m0 & 1 == 1) {
            m0 + 1
        } else {
            m0
        };
        if m1 == 1u64 << 53u64 {
            sign | ((1024 + p) << 52u64)
        } else {
            sign | ((1023 + p) << 52u64) | (m1 & F64_MANT_MASK)
        }
    }
}

/// The exact 64-bit integer encoded by a binary64 bit pattern, when there
/// is one.  `None` for NaN, infinities, values with a fractional part, and
/// values outside the `i64` range — except that the pattern of exactly
/// 2^63 yields `i64::MAX`, the value a saturating float-to-integer cast
/// followed by an exactness check accepts for it.
pub open spec fn bits_to_i64_spec(b: u64) -> Option<i64> {
    if b == F64_TWO_POW_63 {
        Some(i64::MAX)
    } else {
        let e = (b >> 52u64) & 0x7ff;
        let mant = b & F64_MANT_MASK;
        if e == 0 {
            if mant == 0 {
                Some(0i64)
            } else {
                None
            }
        } else if e == 0x7ff {
            None
        } else if e < 1023 {
            None
        } else if e > 1023 + 63 {
            None
        } else {
            let p = (e - 1023) as u64;
            let full = (1u64 << 52u64) | mant;
            if p <= 52 {
                let shift = (52 - p) as u64;
                if full & (((1u64 << shift) - 1) as u64) != 0 {
                    None
                } else {
                    let m = full >> shift;
                    if sign_bits(b) {
                        Some((-(m as int)) as i64)
                    } else {
                        Some(m as i64)
                    }
                }
            } else {
                let shift = (p - 52) as u64;
                let m = full << shift;
                if sign_bits(b) {
                    if m <= F64_SIGN_BIT {
                        Some((-(m as int)) as i64)
                    } else {
                        None
                    }
                } else {
                    if m <= i64::MAX as u64 {
                        Some(m as i64)
                    } else {
                        None
                    }
                }
            }
        }
    }
}

/// Converts a binary64 bit pattern to the exact 64-bit integer it
/// encodes, when there is one.
pub fn f64_bits_to_i64(b: u64) -> (r: Option<i64>)
    ensures
        r == bits_to_i64_spec(b),
{
    if b == F64_TWO_POW_63 {
        return Some(i64::MAX);
    }
    let e: u64 = (b >> 52u64) & 0x7ff;
    let mant: u64 = b & F64_MANT_MASK;
    assert(e <= 0x7ff) by (bit_vector)
        requires
            e == (b >> 52u64) & 0x7ff,
    ;
    assert(mant <= 0x000f_ffff_ffff_ffff) by (bit_vector)
        requires
            mant == b & 0x000f_ffff_ffff_ffff,
    ;
    if e == 0 {
        if mant == 0 {
            Some(0i64)
        } else {
            None
        }
    } else if e == 0x7ff {
        None
    } else if e < 1023 {
        None
    } else if e > 1023 + 63 {
        None
    } else {
        let p: u64 = e - 1023;
        let full: u64 = (1u64 << 52u64) | mant;
        if p <= 52 {
            let shift: u64 = 52 - p;
            assert(1u64 << shift >= 1) by (bit_vector)
                requires
                    shift < 64,
            ;
            if full & ((1u64 << shift) - 1) != 0 {
                None
            } else {
                let m: u64 = full >> shift;
                assert(full >> shift <= full) by (bit_vector);
                assert(full <= 0x001f_ffff_ffff_ffff) by (bit_vector)
                    requires
                        full == (1u64 << 52u64) | mant && mant <= 0x000f_ffff_ffff_ffff,
                ;
                if b >= F64_SIGN_BIT {
                    Some(-(m as i64))
                } else {
                    Some(m as i64)
                }
            }
        } else {
            let shift: u64 = p - 52;
            let m: u64 = full << shift;
            if b >= F64_SIGN_BIT {
                if m <= F64_SIGN_BIT {
                    if m == F64_SIGN_BIT {
                        Some(i64::MIN)
                    } else {
                        Some(-(m as i64))
                    }
                } else {
                    None
                }
            } else {
                if m <= i64::MAX as u64 {
                    Some(m as i64)
                } else {
                    None
                }
            }
        }
    }
}

} // verus!
