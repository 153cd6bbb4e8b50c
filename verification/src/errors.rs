use vstd::prelude::*;

verus! {

/// A structural fault found while decoding a binary chunk.  The format has
/// no recovery mode: the first mismatch aborts the decode with one of these.
#[derive(Clone, Copy, PartialEq, Eq, Structural, Debug)]
pub enum ChunkError {
    /// The input ended before the field being read was complete.
    Truncated,
    /// The four signature bytes are wrong: not a precompiled chunk.
    BadSignature,
    /// The version byte differs from the supported version.
    BadVersion,
    /// The format byte differs from the supported format.
    BadFormat,
    /// The six marker bytes after the format byte are corrupted.
    BadMarker,
    /// The advertised C `int` width differs from the expected one.
    BadCIntSize,
    /// The advertised `size_t` width differs from the expected one.
    BadSizeTSize,
    /// The advertised instruction width differs from the expected one.
    BadInstructionSize,
    /// The advertised integer width differs from the expected one.
    BadIntegerSize,
    /// The advertised float width differs from the expected one.
    BadNumberSize,
    /// The integer sentinel decoded to the wrong value: endianness mismatch.
    BadEndianness,
    /// The float sentinel decoded to the wrong bit pattern.
    BadFloatFormat,
    /// A constant carried a tag byte outside the agreed set.
    BadTag,
    /// A string's bytes are not valid UTF-8.
    BadString,
}

/// A fatal fault raised by the value model, the register stack, or the
/// dispatch loop.  Execution stops at the first one.
#[derive(Clone, Copy, PartialEq, Eq, Structural, Debug)]
pub enum VmError {
    /// An operand had a type the operation does not accept, an ordering was
    /// requested for an unordered pair, a narrow cast did not coerce, or an
    /// integer division or modulo had a zero divisor.
    TypeError,
    /// A stack index was outside the valid range for the current top, or a
    /// value was popped from an empty stack.
    IndexError,
    /// The instruction's semantics (calls, closures, upvalues, varargs) are
    /// outside this core.
    Unimplemented,
}

} // verus!
