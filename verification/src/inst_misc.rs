//! Register moves and unconditional jumps.

use vstd::prelude::*;

use crate::errors::VmError;
use crate::instruction::{a_sbx, abc};
use crate::lua_state::LuaState;

verus! {

/// What the register-move opcode does: register A receives register B.
pub open spec fn move_step(i: u32, pre: LuaState, post: LuaState, ok: bool) -> bool {
    let a = (i >> 6) & 0xff;
    let b = (i >> 23) & 0x1ff;
    &&& post.pc == pre.pc
    &&& post.tables@ == pre.tables@
    &&& (ok <==> a < pre.top_spec() && b < pre.top_spec())
    &&& (ok ==> post.slots() == pre.slots().update(a as int, pre.slots()[b as int]))
    &&& (!ok ==> post.slots() == pre.slots())
}

/// `MOVE`: copies register B into register A.
pub fn move_(i: u32, vm: &mut LuaState) -> (r: Result<(), VmError>)
    requires
        old(vm).wf(),
        old(vm).top_spec() + 2048 < usize::MAX,
    ensures
        final(vm).wf(),
        final(vm).proto == old(vm).proto,
        move_step(i, *old(vm), *final(vm), r is Ok),
{
    let (a, b, _) = abc(i);
    vm.copy(b + 1, a + 1)
}

/// What the jump opcode does: the signed offset is added to the program
/// counter; a non-zero A would close upvalues, which are outside this
/// core, and faults.
pub open spec fn jmp_step(i: u32, pre: LuaState, post: LuaState, ok: bool) -> bool {
    &&& post.slots() == pre.slots()
    &&& post.tables@ == pre.tables@
    &&& (ok <==> ((i >> 6) & 0xff == 0 && isize::MIN <= pre.pc + ((i >> 14)
        - crate::instruction::MAXARG_SBX) <= isize::MAX))
    &&& (ok ==> post.pc == pre.pc + ((i >> 14) - crate::instruction::MAXARG_SBX))
}

/// `JMP`: adds a signed offset to the program counter; a non-zero A
/// would close upvalues, which are outside this core.
pub fn jmp(i: u32, vm: &mut LuaState) -> (r: Result<(), VmError>)
    requires
        old(vm).wf(),
    ensures
        final(vm).wf(),
        final(vm).proto == old(vm).proto,
        jmp_step(i, *old(vm), *final(vm), r is Ok),
{
    let (a, sbx) = a_sbx(i);
    let rr = vm.add_pc(sbx);
    match rr {
        Ok(()) => {
            if a != 0 {
                Err(VmError::Unimplemented)
            } else {
                Ok(())
            }
        },
        Err(e) => Err(e),
    }
}

} // verus!
