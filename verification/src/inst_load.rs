//! Loads of nils, booleans and constants into registers.

use vstd::prelude::*;

use crate::errors::VmError;
use crate::instruction::{a_bx, abc, ax};
use crate::lua_state::LuaState;
use crate::lua_value::LuaValue;

verus! {

/// What the nil-loading opcode does: registers A through A+B become
/// nil, the rest of the state is untouched; registers out of reach
/// fault with nothing changed.
pub open spec fn load_nil_step(i: u32, pre: LuaState, post: LuaState, ok: bool) -> bool {
    let ra = ((i >> 6) & 0xff) as int;
    let rb = ((i >> 23) & 0x1ff) as int;
    &&& (ra + rb < pre.top_spec() ==> ok && post.pc == pre.pc && post.tables@ == pre.tables@
        && post.slots() == Seq::new(
        pre.slots().len(),
        |x: int|
            if ra <= x <= ra + rb {
                LuaValue::Nil
            } else {
                pre.slots()[x]
            },
    ))
    &&& (!(ra + rb < pre.top_spec()) ==> !ok && post.slots() == pre.slots() && post.pc == pre.pc
        && post.tables@ == pre.tables@)
}

/// `LOADNIL`: writes nil into registers A through A+B.
pub fn load_nil(i: u32, vm: &mut LuaState) -> (r: Result<(), VmError>)
    requires
        old(vm).wf(),
        old(vm).top_spec() + 2048 < usize::MAX,
    ensures
        final(vm).wf(),
        final(vm).proto == old(vm).proto,
        load_nil_step(i, *old(vm), *final(vm), r is Ok),
{
    let (a, b, _) = abc(i);
    let a1 = a + 1;
    let need = (a as usize) + (b as usize) + 1;
    if need > vm.get_top() {
        return Err(VmError::IndexError);
    }
    let ghost s0 = old(vm).slots();
    vm.push_nil();
    let mut j: isize = 0;
    while j < b + 1
        invariant
            old(vm).wf(),
            vm.wf(),
            vm.proto == old(vm).proto,
            vm.pc == old(vm).pc,
            vm.tables@ == old(vm).tables@,
            s0 == old(vm).slots(),
            0 <= a1 <= 0x100,
            a1 == a + 1,
            a == (i >> 6) & 0xff,
            b == (i >> 23) & 0x1ff,
            0 <= j <= b + 1,
            b <= 0x1ff,
            a + b + 1 <= s0.len(),
            vm.slots().len() == s0.len() + 1,
            vm.top_spec() == s0.len() + 1,
            forall|x: int|
                0 <= x < vm.slots().len() ==> #[trigger] vm.slots()[x] == (if a <= x < a + j || x
                    == s0.len() {
                    LuaValue::Nil
                } else {
                    s0[x]
                }),
        decreases b + 1 - j,
    {
        let rc = vm.copy(-1, a1 + j);
        proof {
            assert(rc is Ok);
        }
        j = j + 1;
    }
    let rp = vm.pop(1);
    proof {
        assert(rp is Ok);
        assert(final(vm).slots() =~= Seq::new(
            s0.len(),
            |x: int|
                if (a as int) <= x <= a + b {
                    LuaValue::Nil
                } else {
                    s0[x]
                },
        ));
    }
    Ok(())
}

/// What the boolean-loading opcode does: register A receives the
/// boolean B, and the next instruction is skipped when C is set.
pub open spec fn load_bool_step(i: u32, pre: LuaState, post: LuaState, ok: bool) -> bool {
    let a = (i >> 6) & 0xff;
    let b = (i >> 23) & 0x1ff;
    let c = (i >> 14) & 0x1ff;
    &&& post.tables@ == pre.tables@
    &&& (ok <==> a < pre.top_spec() && (c != 0 ==> pre.pc < isize::MAX))
    &&& (ok ==> post.slots() == pre.slots().update(a as int, LuaValue::Boolean(b != 0)) && post.pc
        == pre.pc + (if c != 0 {
        1int
    } else {
        0int
    }))
}

/// `LOADBOOL`: writes a boolean into register A and skips the next
/// instruction when C is set.
pub fn load_bool(i: u32, vm: &mut LuaState) -> (r: Result<(), VmError>)
    requires
        old(vm).wf(),
        old(vm).top_spec() + 2048 < usize::MAX,
    ensures
        final(vm).wf(),
        final(vm).proto == old(vm).proto,
        load_bool_step(i, *old(vm), *final(vm), r is Ok),
{
    let (a, b, c) = abc(i);
    vm.push_boolean(b != 0);
    proof {
        assert(vm.slots().drop_last() =~= old(vm).slots());
    }
    let rr = vm.replace(a + 1);
    match rr {
        Ok(()) => {
            if c != 0 {
                vm.add_pc(1)
            } else {
                Ok(())
            }
        },
        Err(e) => Err(e),
    }
}

/// What the constant-loading opcode does: register A receives the
/// constant named by Bx.
pub open spec fn load_k_step(i: u32, pre: LuaState, post: LuaState, ok: bool) -> bool {
    let a = (i >> 6) & 0xff;
    let bx = i >> 14;
    &&& post.pc == pre.pc
    &&& post.tables@ == pre.tables@
    &&& (ok <==> bx < pre.proto.constants@.len() && a < pre.top_spec())
    &&& (ok ==> post.slots() == pre.slots().update(
        a as int,
        crate::lua_state::const_value_spec(pre.proto.constants@[bx as int]),
    ))
}

/// `LOADK`: writes the constant Bx into register A.
pub fn load_k(i: u32, vm: &mut LuaState) -> (r: Result<(), VmError>)
    requires
        old(vm).wf(),
        old(vm).top_spec() + 2048 < usize::MAX,
    ensures
        final(vm).wf(),
        final(vm).proto == old(vm).proto,
        load_k_step(i, *old(vm), *final(vm), r is Ok),
{
    let (a, bx) = a_bx(i);
    let rr = vm.get_const(bx);
    match rr {
        Ok(()) => {
            proof {
                assert(vm.slots().drop_last() =~= old(vm).slots());
            }
            vm.replace(a + 1)
        },
        Err(e) => Err(e),
    }
}

/// What the wide constant-loading opcode does: register A receives the
/// constant named by the extra-argument word at the program counter,
/// which is skipped.
pub open spec fn load_kx_step(i: u32, pre: LuaState, post: LuaState, ok: bool) -> bool {
    let a = ((i >> 6) & 0xff) as int;
    (0 <= pre.pc < pre.proto.code@.len() && pre.pc < isize::MAX) ==> {
        let kidx = pre.proto.code@[pre.pc as int] >> 6;
        (kidx < pre.proto.constants@.len() && a < pre.top_spec()) ==> ok && post.slots()
            == pre.slots().update(
            a,
            crate::lua_state::const_value_spec(pre.proto.constants@[kidx as int]),
        ) && post.pc == pre.pc + 1 && post.tables@ == pre.tables@
    }
}

/// `LOADKX`: writes the constant named by the following extra-argument
/// word into register A.
pub fn load_kx(i: u32, vm: &mut LuaState) -> (r: Result<(), VmError>)
    requires
        old(vm).wf(),
        old(vm).top_spec() + 2048 < usize::MAX,
    ensures
        final(vm).wf(),
        final(vm).proto == old(vm).proto,
        load_kx_step(i, *old(vm), *final(vm), r is Ok),
{
    let (a, _) = a_bx(i);
    let w = match vm.fetch() {
        Ok(w) => w,
        Err(e) => {
            return Err(e);
        },
    };
    let x = ax(w);
    let rr = vm.get_const(x);
    match rr {
        Ok(()) => {
            proof {
                assert(vm.slots().drop_last() =~= old(vm).slots());
            }
            vm.replace(a + 1)
        },
        Err(e) => Err(e),
    }
}

} // verus!
