//! Code-word decoding and the dispatch loop.
//!
//! A 32-bit code word packs the opcode in its low 6 bits and the
//! operands above: registers A (8 bits), C then B (9 bits each) for the
//! triplet form, an 18-bit immediate Bx (unsigned or biased signed) for
//! the wide forms, or a 26-bit Ax for the extra-argument form.

use vstd::prelude::*;

use crate::errors::VmError;
use crate::lua_state::LuaState;
use crate::number_ops::NumberOps;
use crate::opcodes::{opcode_info, OP_MAX, OP_RETURN};

verus! {

/// The bias subtracted from the raw Bx field to decode a signed jump
/// offset.
pub const MAXARG_SBX: isize = 0x1ffff;

/// The opcode: the low 6 bits.
pub fn opcode(i: u32) -> (r: u8)
    ensures
        r == i & 0x3f,
        r <= 0x3f,
{
    proof {
        assert(i & 0x3f <= 0x3f) by (bit_vector);
    }
    (i & 0x3f) as u8
}

/// The printable mnemonic of a word's opcode.
pub fn opname(i: u32) -> (r: &'static str)
    requires
        i & 0x3f <= 0x2d,
{
    crate::opcodes::opname(opcode(i))
}

/// The operand layout of a word's opcode.
pub fn opmode(i: u32) -> (r: crate::opcodes::OpMode)
    requires
        i & 0x3f <= 0x2d,
{
    opcode_info(opcode(i)).op_mode
}

/// The operand kind of a word's B slot.
pub fn b_mode(i: u32) -> (r: crate::opcodes::OpArgMode)
    requires
        i & 0x3f <= 0x2d,
{
    opcode_info(opcode(i)).arg_b_mode
}

/// The operand kind of a word's C slot.
pub fn c_mode(i: u32) -> (r: crate::opcodes::OpArgMode)
    requires
        i & 0x3f <= 0x2d,
{
    opcode_info(opcode(i)).arg_c_mode
}

/// The register-triplet operands: A from bits 6..14, C from 14..23, B
/// from 23..32.
pub fn abc(i: u32) -> (r: (isize, isize, isize))
    ensures
        r.0 == (i >> 6) & 0xff,
        r.1 == (i >> 23) & 0x1ff,
        r.2 == (i >> 14) & 0x1ff,
        0 <= r.0 <= 0xff,
        0 <= r.1 <= 0x1ff,
        0 <= r.2 <= 0x1ff,
{
    proof {
        assert((i >> 6) & 0xff <= 0xff) by (bit_vector);
        assert((i >> 23) & 0x1ff <= 0x1ff) by (bit_vector);
        assert((i >> 14) & 0x1ff <= 0x1ff) by (bit_vector);
    }
    let a = ((i >> 6) & 0xff) as isize;
    let c = ((i >> 14) & 0x1ff) as isize;
    let b = ((i >> 23) & 0x1ff) as isize;
    (a, b, c)
}

/// The wide-immediate operands: A from bits 6..14, Bx from 14..32.
pub fn a_bx(i: u32) -> (r: (isize, isize))
    ensures
        r.0 == (i >> 6) & 0xff,
        r.1 == i >> 14,
        0 <= r.0 <= 0xff,
        0 <= r.1 <= 0x3ffff,
{
    proof {
        assert((i >> 6) & 0xff <= 0xff) by (bit_vector);
        assert(i >> 14 <= 0x3ffff) by (bit_vector);
    }
    let a = ((i >> 6) & 0xff) as isize;
    let bx = (i >> 14) as isize;
    (a, bx)
}

/// The signed-jump operands: A, and Bx less the excess-K bias.
pub fn a_sbx(i: u32) -> (r: (isize, isize))
    ensures
        r.0 == (i >> 6) & 0xff,
        0 <= r.0 <= 0xff,
        r.1 == (i >> 14) - MAXARG_SBX,
        -0x1ffff <= r.1 <= 0x20000,
{
    let (a, bx) = a_bx(i);
    (a, bx - MAXARG_SBX)
}

/// The extra-argument operand: everything above the opcode.
pub fn ax(i: u32) -> (r: isize)
    ensures
        r == i >> 6,
        0 <= r <= 0x3ffffff,
{
    proof {
        assert(i >> 6 <= 0x3ffffff) by (bit_vector);
    }
    (i >> 6) as isize
}

/// Decodes and runs one code word against the state.  Opcodes whose
/// semantics need calls, closures, upvalues or varargs are a distinct,
/// explicitly signalled fault.
pub fn execute<K: NumberOps>(i: u32, vm: &mut LuaState, k: &K) -> (r: Result<(), VmError>)
    requires
        old(vm).wf(),
        old(vm).top_spec() + 2048 < usize::MAX,
    ensures
        final(vm).wf(),
        final(vm).proto == old(vm).proto,
        i & 0x3f > 0x2d ==> r == Err::<(), VmError>(VmError::Unimplemented),
        i & 0x3f == 0x00 ==> crate::inst_misc::move_step(i, *old(vm), *final(vm), r is Ok),
        i & 0x3f == 0x01 ==> crate::inst_load::load_k_step(i, *old(vm), *final(vm), r is Ok),
        i & 0x3f == 0x02 ==> crate::inst_load::load_kx_step(i, *old(vm), *final(vm), r is Ok),
        i & 0x3f == 0x03 ==> crate::inst_load::load_bool_step(i, *old(vm), *final(vm), r is Ok),
        i & 0x3f == 0x04 ==> crate::inst_load::load_nil_step(i, *old(vm), *final(vm), r is Ok),
        i & 0x3f == 0x07 ==> crate::inst_table::get_table_step(i, *old(vm), *final(vm), r is Ok),
        i & 0x3f == 0x0a ==> crate::inst_table::set_table_step(i, *old(vm), *final(vm), r is Ok),
        i & 0x3f == 0x0b ==> crate::inst_table::new_table_step(i, *old(vm), *final(vm), r is Ok),
        0x0d <= i & 0x3f <= 0x18 ==> crate::inst_operators::binary_int_step(
            i,
            ((i & 0x3f) - 0x0d) as u8,
            *old(vm),
            *final(vm),
            r is Ok,
        ),
        i & 0x3f == 0x19 || i & 0x3f == 0x1a ==> crate::inst_operators::unary_int_step(
            i,
            ((i & 0x3f) - 0x0d) as u8,
            *old(vm),
            *final(vm),
            r is Ok,
        ),
        i & 0x3f == 0x1b ==> crate::inst_operators::not_step(i, *old(vm), *final(vm), r is Ok),
        i & 0x3f == 0x1c ==> crate::inst_operators::len_step(i, *old(vm), *final(vm), r is Ok),
        i & 0x3f == 0x1d ==> crate::inst_operators::concat_step(i, *old(vm), *final(vm), r is Ok),
        i & 0x3f == 0x1e ==> crate::inst_misc::jmp_step(i, *old(vm), *final(vm), r is Ok),
        0x1f <= i & 0x3f <= 0x21 ==> crate::inst_operators::compare_step(
            i,
            ((i & 0x3f) - 0x1f) as u8,
            *old(vm),
            *final(vm),
            r is Ok,
        ),
        i & 0x3f == 0x22 ==> crate::inst_operators::test_step(i, *old(vm), *final(vm), r is Ok),
        i & 0x3f == 0x23 ==> crate::inst_operators::test_set_step(
            i,
            *old(vm),
            *final(vm),
            r is Ok,
        ),
        i & 0x3f == 0x27 ==> crate::inst_for::for_loop_step(i, *old(vm), *final(vm), r is Ok),
        i & 0x3f == 0x28 ==> crate::inst_for::for_prep_step(i, *old(vm), *final(vm), r is Ok),
        i & 0x3f == 0x2b ==> crate::inst_table::set_list_step(i, *old(vm), *final(vm), r is Ok),
{
    let op = opcode(i);
    if op > OP_MAX {
        return Err(VmError::Unimplemented);
    }
    if op == 0x00 {
        crate::inst_misc::move_(i, vm)
    } else if op == 0x01 {
        crate::inst_load::load_k(i, vm)
    } else if op == 0x02 {
        crate::inst_load::load_kx(i, vm)
    } else if op == 0x03 {
        crate::inst_load::load_bool(i, vm)
    } else if op == 0x04 {
        crate::inst_load::load_nil(i, vm)
    } else if op == 0x07 {
        crate::inst_table::get_table(i, vm)
    } else if op == 0x0a {
        crate::inst_table::set_table(i, vm)
    } else if op == 0x0b {
        crate::inst_table::new_table(i, vm)
    } else if op == 0x0d {
        crate::inst_operators::add(i, vm, k)
    } else if op == 0x0e {
        crate::inst_operators::sub(i, vm, k)
    } else if op == 0x0f {
        crate::inst_operators::mul(i, vm, k)
    } else if op == 0x10 {
        crate::inst_operators::mod_(i, vm, k)
    } else if op == 0x11 {
        crate::inst_operators::pow(i, vm, k)
    } else if op == 0x12 {
        crate::inst_operators::div(i, vm, k)
    } else if op == 0x13 {
        crate::inst_operators::idiv(i, vm, k)
    } else if op == 0x14 {
        crate::inst_operators::band(i, vm, k)
    } else if op == 0x15 {
        crate::inst_operators::bor(i, vm, k)
    } else if op == 0x16 {
        crate::inst_operators::bxor(i, vm, k)
    } else if op == 0x17 {
        crate::inst_operators::shl(i, vm, k)
    } else if op == 0x18 {
        crate::inst_operators::shr(i, vm, k)
    } else if op == 0x19 {
        crate::inst_operators::unm(i, vm, k)
    } else if op == 0x1a {
        crate::inst_operators::bnot(i, vm, k)
    } else if op == 0x1b {
        crate::inst_operators::not(i, vm)
    } else if op == 0x1c {
        crate::inst_operators::len(i, vm)
    } else if op == 0x1d {
        crate::inst_operators::concat(i, vm, k)
    } else if op == 0x1e {
        crate::inst_misc::jmp(i, vm)
    } else if op == 0x1f {
        crate::inst_operators::eq(i, vm)
    } else if op == 0x20 {
        crate::inst_operators::lt(i, vm)
    } else if op == 0x21 {
        crate::inst_operators::le(i, vm)
    } else if op == 0x22 {
        crate::inst_operators::test(i, vm)
    } else if op == 0x23 {
        crate::inst_operators::test_set(i, vm)
    } else if op == 0x27 {
        crate::inst_for::for_loop(i, vm, k)
    } else if op == 0x28 {
        crate::inst_for::for_prep(i, vm, k)
    } else if op == 0x2b {
        crate::inst_table::set_list(i, vm)
    } else {
        Err(VmError::Unimplemented)
    }
}

/// The outcome of one dispatch cycle.
#[derive(Clone, Copy, PartialEq, Eq, Structural, Debug)]
pub enum StepOutcome {
    /// An instruction ran; the machine is back to fetching.
    Ran(u32),
    /// The terminal return-family opcode was reached.
    Halted,
}

/// One cycle of the execution loop: fetch the word at the program
/// counter, halt on the terminal opcode, otherwise dispatch it.
pub fn step<K: NumberOps>(vm: &mut LuaState, k: &K) -> (r: Result<StepOutcome, VmError>)
    requires
        old(vm).wf(),
        old(vm).top_spec() + 2048 < usize::MAX,
    ensures
        final(vm).wf(),
        final(vm).proto == old(vm).proto,
        !(0 <= old(vm).pc < old(vm).proto.code@.len() && old(vm).pc < isize::MAX) ==> r == Err::<
            StepOutcome,
            VmError,
        >(VmError::IndexError),
        (0 <= old(vm).pc < old(vm).proto.code@.len() && old(vm).pc < isize::MAX) ==> (
        old(vm).proto.code@[old(vm).pc as int] & 0x3f == OP_RETURN ==> r == Ok::<
            StepOutcome,
            VmError,
        >(StepOutcome::Halted) && final(vm).slots() == old(vm).slots() && final(vm).pc == old(vm).pc && final(vm).tables@ == old(vm).tables@),
        r matches Ok(StepOutcome::Ran(w)) ==> 0 <= old(vm).pc < old(vm).proto.code@.len() && w
            == old(vm).proto.code@[old(vm).pc as int] && w & 0x3f != OP_RETURN,
    {
    let ghost entry = *vm;
    let w = match vm.fetch() {
        Ok(w) => w,
        Err(e) => {
            return Err(e);
        },
    };
    if opcode(w) == OP_RETURN {
        proof {
            assert(entry.pc + 1 <= isize::MAX);
        }
        let back = vm.add_pc(-1);
        proof {
            assert(back is Ok);
            assert(vm.pc == entry.pc);
        }
        return Ok(StepOutcome::Halted);
    }
    match execute(w, vm, k) {
        Ok(()) => Ok(StepOutcome::Ran(w)),
        Err(e) => Err(e),
    }
}

} // verus!
