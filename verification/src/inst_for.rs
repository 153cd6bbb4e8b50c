//! The numeric `for` loop opcodes.

use vstd::prelude::*;

use crate::consts;
use crate::errors::VmError;
use crate::float_bits;
use crate::instruction::a_sbx;
use crate::lua_state::LuaState;
use crate::lua_value::LuaValue;
use crate::number_ops::NumberOps;

verus! {

/// What the loop-preparation opcode does on numeric loop slots: the
/// counter is backed up by one step (the integer difference when both
/// coerce to integers, else some float), and the program counter jumps
/// forward to the loop check.
pub open spec fn for_prep_step(i: u32, pre: LuaState, post: LuaState, ok: bool) -> bool {
    let ra = ((i >> 6) & 0xff) as int;
    let sbx = (i >> 14) - crate::instruction::MAXARG_SBX;
    &&& (pre.slots()[ra] matches LuaValue::Integer(x0) ==> (pre.slots()[ra + 2] matches
        LuaValue::Integer(x2) ==> ((ra + 2 < pre.top_spec() && (pre.slots()[ra + 1] matches
        LuaValue::Integer(_)) && isize::MIN <= pre.pc + sbx <= isize::MAX) ==> ok && post.slots()
        == pre.slots().update(
        ra,
        LuaValue::Integer(crate::arith_ops::int_arith_spec(consts::LUA_OPSUB, x0, x2)),
    ) && post.pc == pre.pc + sbx && post.tables@ == pre.tables@)))
    &&& ((crate::arith_ops::is_numeric(pre.slots()[ra]) && crate::arith_ops::is_numeric(
        pre.slots()[ra + 1],
    ) && crate::arith_ops::is_numeric(pre.slots()[ra + 2]) && !(pre.slots()[ra].as_int_spec()
        is Some && pre.slots()[ra + 2].as_int_spec() is Some) && ra + 2 < pre.top_spec()
        && isize::MIN <= pre.pc + sbx <= isize::MAX) ==> ok && (post.slots()[ra] matches
        LuaValue::Number(_)) && post.slots() == pre.slots().update(ra, post.slots()[ra]) && post.pc
        == pre.pc + sbx && post.tables@ == pre.tables@)
}

/// What the loop-step opcode does on integer loop slots: the step is
/// added to the counter; while the counter has not passed the limit
/// (direction given by the step's sign) the jump is taken and the
/// counter is published into the loop variable.
pub open spec fn for_loop_step(i: u32, pre: LuaState, post: LuaState, ok: bool) -> bool {
    let ra = ((i >> 6) & 0xff) as int;
    let sbx = (i >> 14) - crate::instruction::MAXARG_SBX;
    pre.slots()[ra] matches LuaValue::Integer(x0) ==> (pre.slots()[ra + 1] matches
        LuaValue::Integer(x1) ==> (pre.slots()[ra + 2] matches LuaValue::Integer(x2) ==> ((ra + 3
        < pre.top_spec() && isize::MIN <= pre.pc + sbx <= isize::MAX) ==> {
        let nc = crate::arith_ops::int_arith_spec(consts::LUA_OPADD, x2, x0);
        let pos = crate::float_bits::num_le_bits(
            crate::float_bits::F64_ZERO,
            crate::float_bits::i64_to_bits_spec(x2),
        );
        let cont = if pos {
            nc <= x1
        } else {
            x1 <= nc
        };
        &&& ok
        &&& post.tables@ == pre.tables@
        &&& (cont ==> post.slots() == pre.slots().update(ra, LuaValue::Integer(nc)).update(
            ra + 3,
            LuaValue::Integer(nc),
        ) && post.pc == pre.pc + sbx)
        &&& (!cont ==> post.slots() == pre.slots().update(ra, LuaValue::Integer(nc)) && post.pc
            == pre.pc)
    })))
}

/// `FORPREP`: coerces the loop's initial, limit and step slots to
/// numbers when they are strings, backs the counter up by one step, and
/// jumps forward to the loop check.
pub fn for_prep<K: NumberOps>(i: u32, vm: &mut LuaState, k: &K) -> (r: Result<(), VmError>)
    requires
        old(vm).wf(),
        old(vm).top_spec() + 2048 < usize::MAX,
    ensures
        final(vm).wf(),
        final(vm).proto == old(vm).proto,
        for_prep_step(i, *old(vm), *final(vm), r is Ok),
{
    let (a0, sbx) = a_sbx(i);
    let a = a0 + 1;
    let ghost nostrings = a0 + 2 < old(vm).top_spec() && (forall|j2: int|
        0 <= j2 < 3 ==> !((#[trigger] old(vm).slots()[a0 + j2]) matches LuaValue::Str(_)));
    let mut j: isize = 0;
    while j < 3
        invariant
            vm.wf(),
            vm.proto == old(vm).proto,
            1 <= a <= 0x100,
            a == a0 + 1,
            a0 == (i >> 6) & 0xff,
            0 <= j <= 3,
            vm.top_spec() + 2 < usize::MAX,
            old(vm).top_spec() + 2048 < usize::MAX,
            vm.top_spec() <= old(vm).top_spec(),
            nostrings == (a0 + 2 < old(vm).top_spec() && (forall|j2: int|
                0 <= j2 < 3 ==> !((#[trigger] old(vm).slots()[a0 + j2]) matches LuaValue::Str(
                    _,
                )))),
            nostrings ==> *vm == *old(vm),
        decreases 3 - j,
    {
        if vm.type_id(a + j) == consts::LUA_TSTRING {
            proof {
                let s0 = old(vm).slots();
                if !(s0[a0 as int] matches LuaValue::Str(_)) && !(s0[a0 as int + 1] matches
                    LuaValue::Str(_)) && !(s0[a0 as int + 2] matches LuaValue::Str(_)) && a0
                    as int + 2 < old(vm).top_spec() {
                    assert forall|j2: int|
                        0 <= j2 < 3 implies !((#[trigger] s0[a0 + j2]) matches LuaValue::Str(
                        _,
                    )) by {
                        assert(j2 == 0 || j2 == 1 || j2 == 2);
                    }
                    assert(nostrings);
                }
                if nostrings {
                    assert(!((#[trigger] old(vm).slots()[a0 + j]) matches LuaValue::Str(_)));
                    assert(false);
                }
            }
            let nb = match vm.to_number(a + j, k) {
                Ok(nb) => nb,
                Err(e) => {
                    return Err(e);
                },
            };
            vm.push_number(nb);
            let rr = vm.replace(a + j);
            match rr {
                Ok(()) => {},
                Err(e) => {
                    return Err(e);
                },
            }
        }
        j = j + 1;
    }
    let ghost s0 = old(vm).slots();
    let ghost hyp = (s0[a0 as int] matches LuaValue::Integer(_)) && (s0[a0 as int + 1] matches
        LuaValue::Integer(_)) && (s0[a0 as int + 2] matches LuaValue::Integer(_)) && a0 as int + 2
        < old(vm).top_spec() && isize::MIN <= old(vm).pc + sbx <= isize::MAX;
    let ghost hyp2 = crate::arith_ops::is_numeric(s0[a0 as int]) && crate::arith_ops::is_numeric(
        s0[a0 as int + 1],
    ) && crate::arith_ops::is_numeric(s0[a0 as int + 2]) && !(s0[a0 as int].as_int_spec() is Some
        && s0[a0 as int + 2].as_int_spec() is Some) && a0 as int + 2 < old(vm).top_spec()
        && isize::MIN <= old(vm).pc + sbx <= isize::MAX;
    proof {
        if hyp || hyp2 {
            assert forall|j2: int|
                0 <= j2 < 3 implies !((#[trigger] s0[a0 + j2]) matches LuaValue::Str(_)) by {
                assert(j2 == 0 || j2 == 1 || j2 == 2);
            }
            assert(nostrings);
        }
    }
    let r1 = vm.push_value(a);
    match r1 {
        Ok(()) => {},
        Err(e) => {
            return Err(e);
        },
    }
    proof {
        if hyp || hyp2 {
            assert(vm.slots() == s0.push(s0[a0 as int]));
        }
    }
    let r2 = vm.push_value(a + 2);
    match r2 {
        Ok(()) => {},
        Err(e) => {
            return Err(e);
        },
    }
    proof {
        if hyp || hyp2 {
            assert(vm.slots() == s0.push(s0[a0 as int]).push(s0[a0 as int + 2]));
        }
    }
    let r3 = vm.arith(consts::LUA_OPSUB, k);
    match r3 {
        Ok(()) => {},
        Err(e) => {
            return Err(e);
        },
    }
    proof {
        if hyp || hyp2 {
            let two = s0.push(s0[a0 as int]).push(s0[a0 as int + 2]);
            assert(two[two.len() - 2] == s0[a0 as int]);
            assert(two[two.len() - 1] == s0[a0 as int + 2]);
            assert(two.take(two.len() - 2) =~= s0);
            assert(vm.slots().drop_last() =~= s0);
        }
    }
    let r4 = vm.replace(a);
    match r4 {
        Ok(()) => {},
        Err(e) => {
            return Err(e);
        },
    }
    vm.add_pc(sbx)
}

/// `FORLOOP`: adds the step to the counter; while the counter has not
/// passed the limit (direction given by the step's sign), jumps back
/// and publishes the counter into the loop variable.
pub fn for_loop<K: NumberOps>(i: u32, vm: &mut LuaState, k: &K) -> (r: Result<(), VmError>)
    requires
        old(vm).wf(),
        old(vm).top_spec() + 2048 < usize::MAX,
    ensures
        final(vm).wf(),
        final(vm).proto == old(vm).proto,
        for_loop_step(i, *old(vm), *final(vm), r is Ok),
{
    let (a0, sbx) = a_sbx(i);
    let a = a0 + 1;
    let ghost s0 = old(vm).slots();
    let ghost hyp = (s0[a0 as int] matches LuaValue::Integer(_)) && (s0[a0 as int + 1] matches
        LuaValue::Integer(_)) && (s0[a0 as int + 2] matches LuaValue::Integer(_)) && a0 as int + 3
        < old(vm).top_spec() && isize::MIN <= old(vm).pc + sbx <= isize::MAX;
    let r1 = vm.push_value(a + 2);
    match r1 {
        Ok(()) => {},
        Err(e) => {
            return Err(e);
        },
    }
    let r2 = vm.push_value(a);
    match r2 {
        Ok(()) => {},
        Err(e) => {
            return Err(e);
        },
    }
    proof {
        if hyp {
            assert(vm.slots() == s0.push(s0[a0 as int + 2]).push(s0[a0 as int]));
        }
    }
    let r3 = vm.arith(consts::LUA_OPADD, k);
    match r3 {
        Ok(()) => {},
        Err(e) => {
            return Err(e);
        },
    }
    proof {
        if hyp {
            let two = s0.push(s0[a0 as int + 2]).push(s0[a0 as int]);
            assert(two[two.len() - 2] == s0[a0 as int + 2]);
            assert(two[two.len() - 1] == s0[a0 as int]);
            assert(two.take(two.len() - 2) =~= s0);
            assert(vm.slots().drop_last() =~= s0);
        }
    }
    let r4 = vm.replace(a);
    match r4 {
        Ok(()) => {},
        Err(e) => {
            return Err(e);
        },
    }
    let step_bits = match vm.to_number(a + 2, k) {
        Ok(nb) => nb,
        Err(e) => {
            return Err(e);
        },
    };
    let is_positive_step = float_bits::f64_le(float_bits::F64_ZERO, step_bits);
    let cont = if is_positive_step {
        match vm.compare(a, a + 1, consts::LUA_OPLE) {
            Ok(v) => v,
            Err(e) => {
                return Err(e);
            },
        }
    } else {
        match vm.compare(a + 1, a, consts::LUA_OPLE) {
            Ok(v) => v,
            Err(e) => {
                return Err(e);
            },
        }
    };
    if cont {
        let rj = vm.add_pc(sbx);
        match rj {
            Ok(()) => {},
            Err(e) => {
                return Err(e);
            },
        }
        vm.copy(a, a + 3)
    } else {
        Ok(())
    }
}

} // verus!
