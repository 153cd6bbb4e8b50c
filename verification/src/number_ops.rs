//! The embedder-supplied float kernel.
//!
//! The value model stores floats as raw binary64 bit patterns, and this
//! crate verifies everything about them that is decidable from the bits
//! alone (see `float_bits`).  Inexact float arithmetic, float parsing and
//! float formatting cannot be written here, so the embedding supplies them
//! through this trait: every operation maps bit patterns to bit patterns.
//! Nothing is assumed about an implementation; the contracts of the callers
//! state only what holds whatever an implementation returns.

use vstd::prelude::*;

verus! {

/// Inexact binary64 operations, each over raw bit patterns.
pub trait NumberOps {
    /// The bit pattern of the sum of the two encoded values.
    fn add(&self, a: u64, b: u64) -> u64;

    /// The bit pattern of the difference of the two encoded values.
    fn sub(&self, a: u64, b: u64) -> u64;

    /// The bit pattern of the product of the two encoded values.
    fn mul(&self, a: u64, b: u64) -> u64;

    /// The bit pattern of the quotient of the two encoded values.
    fn div(&self, a: u64, b: u64) -> u64;

    /// The bit pattern of the first value raised to the second.
    fn pow(&self, a: u64, b: u64) -> u64;

    /// The bit pattern of the largest integral value not above the
    /// encoded value.
    fn floor(&self, a: u64) -> u64;

    /// The bit pattern of the float the text denotes, if it denotes one.
    fn parse_number(&self, s: &String) -> Option<u64>;

    /// The decimal text of the encoded value.
    fn number_text(&self, a: u64) -> String;
}

} // verus!
