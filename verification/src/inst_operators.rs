//! Arithmetic, comparison, logic, length and concatenation opcodes.

use vstd::prelude::*;

use crate::consts;
use crate::errors::VmError;
use crate::instruction::abc;
use crate::lua_state::LuaState;
use crate::lua_value::LuaValue;
use crate::number_ops::NumberOps;

verus! {

/// What a register-triplet arithmetic opcode does on integer register
/// operands: when B and C both name registers holding integers, all
/// three registers are in reach, the operator has an integer form and
/// its divisor does not fault, the result register A receives the
/// integer result and nothing else changes.
pub open spec fn binary_int_step(i: u32, op: u8, pre: LuaState, post: LuaState, ok: bool) -> bool {
    let ra = ((i >> 6) & 0xff) as int;
    let rb = ((i >> 23) & 0x1ff) as int;
    let rc = ((i >> 14) & 0x1ff) as int;
    (rb <= 0xff && rc <= 0xff && crate::arith_ops::has_int_form(op)) ==> (pre.slots()[rb] matches
        LuaValue::Integer(xb) ==> (pre.slots()[rc] matches LuaValue::Integer(xc) ==> ((ra
        < pre.top_spec() && rb < pre.top_spec() && rc < pre.top_spec()
        && !crate::arith_ops::int_form_faults(op, xb, xc)) ==> ok && post.slots()
        == pre.slots().update(
        ra,
        LuaValue::Integer(crate::arith_ops::int_arith_spec(op, xb, xc)),
    ) && post.pc == pre.pc && post.tables@ == pre.tables@)))
}

/// What a unary arithmetic opcode does on an integer register operand:
/// register A receives the integer result and nothing else changes.
pub open spec fn unary_int_step(i: u32, op: u8, pre: LuaState, post: LuaState, ok: bool) -> bool {
    let ra = ((i >> 6) & 0xff) as int;
    let rb = ((i >> 23) & 0x1ff) as int;
    pre.slots()[rb] matches LuaValue::Integer(xb) ==> ((ra < pre.top_spec() && rb
        < pre.top_spec()) ==> ok && post.slots() == pre.slots().update(
        ra,
        LuaValue::Integer(crate::arith_ops::int_arith_spec(op, xb, 0)),
    ) && post.pc == pre.pc && post.tables@ == pre.tables@)
}

/// The value an RK operand resolves to, if it resolves: a raw value
/// above 0xff names a constant by its low bits, anything else a
/// register.
pub open spec fn rk_val(pre: LuaState, x: int) -> Option<LuaValue> {
    if x > 0xff {
        if 0 <= (x as isize & 0xff) < pre.proto.constants@.len() {
            Some(
                crate::lua_state::const_value_spec(
                    pre.proto.constants@[(x as isize & 0xff) as int],
                ),
            )
        } else {
            None
        }
    } else {
        if 0 <= x < pre.top_spec() {
            Some(pre.slots()[x])
        } else {
            None
        }
    }
}

/// What a compare opcode does: the RK-resolved operands are compared,
/// and the next instruction is skipped exactly when the outcome differs
/// from the expectation bit A; an unordered pair faults, and a fault
/// leaves the state unchanged.
pub open spec fn compare_step(i: u32, op: u8, pre: LuaState, post: LuaState, ok: bool) -> bool {
    let aa = ((i >> 6) & 0xff) as int;
    let rb = ((i >> 23) & 0x1ff) as int;
    let rc = ((i >> 14) & 0x1ff) as int;
    rk_val(pre, rb) matches Some(x) ==> (rk_val(pre, rc) matches Some(y) ==> {
        let res = if op == consts::LUA_OPEQ {
            Some(crate::compare_ops::eq_spec(x, y))
        } else if op == consts::LUA_OPLT {
            crate::compare_ops::lt_spec(x, y)
        } else {
            crate::compare_ops::le_spec(x, y)
        };
        match res {
            Some(v) => (v == (aa != 0) || pre.pc < isize::MAX) ==> ok && post.slots()
                == pre.slots() && post.tables@ == pre.tables@ && post.pc == pre.pc + (if v != (aa
                != 0) {
                1int
            } else {
                0int
            }),
            None => !ok,
        }
    })
}

/// What the length opcode does: register A receives the byte length of
/// the string, or the array-part border of the table, in register B;
/// any other operand faults.
pub open spec fn len_step(i: u32, pre: LuaState, post: LuaState, ok: bool) -> bool {
    let ra = ((i >> 6) & 0xff) as int;
    let rb = ((i >> 23) & 0x1ff) as int;
    (ra < pre.top_spec() && rb < pre.top_spec()) ==> (match pre.slots()[rb] {
        LuaValue::Str(s) => (crate::lua_value::str_bytes(s).len() <= i64::MAX
            && crate::lua_value::str_bytes(s).len() <= usize::MAX) ==> ok && post.slots()
            == pre.slots().update(
            ra,
            LuaValue::Integer(crate::lua_value::str_bytes(s).len() as i64),
        ) && post.pc == pre.pc && post.tables@ == pre.tables@,
        LuaValue::Table(h) => pre.tables@[h as int].arr@.len() <= i64::MAX ==> ok && post.slots()
            == pre.slots().update(
            ra,
            LuaValue::Integer(pre.tables@[h as int].arr@.len() as i64),
        ) && post.pc == pre.pc && post.tables@ == pre.tables@,
        _ => !ok,
    })
}

/// What the concatenation opcode does: register A receives registers B
/// through C concatenated as one string (a single operand is copied
/// unconverted); every operand must be a string or a number, and the
/// text is pinned whenever no float is among them.
pub open spec fn concat_step(i: u32, pre: LuaState, post: LuaState, ok: bool) -> bool {
    let ra = ((i >> 6) & 0xff) as int;
    let rb = ((i >> 23) & 0x1ff) as int;
    let rc = ((i >> 14) & 0x1ff) as int;
    (rb <= rc && ra < pre.top_spec() && rc < pre.top_spec()) ==> {
        let ops = pre.slots().subrange(rb, rc + 1);
        &&& (rb == rc ==> ok && post.slots() == pre.slots().update(ra, pre.slots()[rb])
            && post.pc == pre.pc && post.tables@ == pre.tables@)
        &&& (rb < rc && crate::lua_state::all_stringable(ops) ==> ok && post.pc == pre.pc
            && post.tables@ == pre.tables@ && post.slots() == pre.slots().update(
            ra,
            post.slots()[ra],
        ) && (post.slots()[ra] matches LuaValue::Str(_)) && (crate::lua_state::cat_texts(ops)
            matches Some(t) ==> (post.slots()[ra] matches LuaValue::Str(s2) && s2@ == t)))
    }
}

/// Resolves both RK operands, runs one arithmetic operator, and stores
/// the result in register A.
fn _binary_arith<K: NumberOps>(i: u32, vm: &mut LuaState, op: u8, k: &K) -> (r: Result<
    (),
    VmError,
>)
    requires
        old(vm).wf(),
        old(vm).top_spec() + 2048 < usize::MAX,
        op <= consts::LUA_OPBNOT,
        op != consts::LUA_OPUNM && op != consts::LUA_OPBNOT,
    ensures
        final(vm).wf(),
        final(vm).proto == old(vm).proto,
        binary_int_step(i, op, *old(vm), *final(vm), r is Ok),
{
    let (a, b, c) = abc(i);
    let ghost s0 = old(vm).slots();
    let ghost hyp = b <= 0xff && c <= 0xff && crate::arith_ops::has_int_form(op) && (
    s0[b as int] matches LuaValue::Integer(_)) && (s0[c as int] matches LuaValue::Integer(_)) && a
        < old(vm).top_spec() && b < old(vm).top_spec() && c < old(vm).top_spec();
    let r1 = vm.get_rk(b);
    match r1 {
        Ok(()) => {},
        Err(e) => {
            return Err(e);
        },
    }
    proof {
        if hyp {
            assert(vm.slots() == s0.push(s0[b as int]));
        }
    }
    let r2 = vm.get_rk(c);
    match r2 {
        Ok(()) => {},
        Err(e) => {
            return Err(e);
        },
    }
    proof {
        if hyp {
            assert(vm.slots() == s0.push(s0[b as int]).push(s0[c as int]));
        }
    }
    let r3 = vm.arith(op, k);
    match r3 {
        Ok(()) => {},
        Err(e) => {
            return Err(e);
        },
    }
    proof {
        if hyp {
            let two = s0.push(s0[b as int]).push(s0[c as int]);
            assert(two[two.len() - 2] == s0[b as int]);
            assert(two[two.len() - 1] == s0[c as int]);
            assert(two.take(two.len() - 2) =~= s0);
            assert(vm.slots().len() == s0.len() + 1);
            assert(vm.slots().take(s0.len() as int) == two.take(s0.len() as int));
            assert(vm.slots().drop_last() =~= s0);
        }
    }
    vm.replace(a + 1)
}

/// Copies register B to the top, runs one unary operator, and stores
/// the result in register A.
fn _unary_arith<K: NumberOps>(i: u32, vm: &mut LuaState, op: u8, k: &K) -> (r: Result<(), VmError>)
    requires
        old(vm).wf(),
        old(vm).top_spec() + 2048 < usize::MAX,
        op <= consts::LUA_OPBNOT,
        op == consts::LUA_OPUNM || op == consts::LUA_OPBNOT,
    ensures
        final(vm).wf(),
        final(vm).proto == old(vm).proto,
        unary_int_step(i, op, *old(vm), *final(vm), r is Ok),
{
    let (a, b, _) = abc(i);
    let ghost s0 = old(vm).slots();
    let ghost hyp = (s0[b as int] matches LuaValue::Integer(_)) && a < old(vm).top_spec() && b
        < old(vm).top_spec();
    let r1 = vm.push_value(b + 1);
    match r1 {
        Ok(()) => {},
        Err(e) => {
            return Err(e);
        },
    }
    proof {
        if hyp {
            assert(vm.slots() == s0.push(s0[b as int]));
        }
    }
    let r2 = vm.arith(op, k);
    match r2 {
        Ok(()) => {},
        Err(e) => {
            return Err(e);
        },
    }
    proof {
        if hyp {
            let one = s0.push(s0[b as int]);
            assert(one.take(one.len() - 1) =~= s0);
            assert(vm.slots().drop_last() =~= s0);
        }
    }
    vm.replace(a + 1)
}

/// Resolves both RK operands, compares them, and skips the next
/// instruction when the outcome differs from the expectation bit A.
fn _compare(i: u32, vm: &mut LuaState, op: u8) -> (r: Result<(), VmError>)
    requires
        old(vm).wf(),
        old(vm).top_spec() + 2048 < usize::MAX,
        op <= consts::LUA_OPLE,
    ensures
        final(vm).wf(),
        final(vm).proto == old(vm).proto,
        compare_step(i, op, *old(vm), *final(vm), r is Ok),
{
    let (a, b, c) = abc(i);
    let ghost s0 = old(vm).slots();
    let ghost hyp = rk_val(*old(vm), b as int) is Some && rk_val(*old(vm), c as int) is Some;
    let r1 = vm.get_rk(b);
    match r1 {
        Ok(()) => {},
        Err(e) => {
            return Err(e);
        },
    }
    proof {
        if hyp {
            assert(vm.slots() == s0.push(rk_val(*old(vm), b as int)->Some_0));
        }
    }
    let r2 = vm.get_rk(c);
    match r2 {
        Ok(()) => {},
        Err(e) => {
            let rp = vm.pop(1);
            proof {
                assert(rp is Ok);
            }
            return Err(e);
        },
    }
    proof {
        if hyp {
            assert(vm.slots() == s0.push(rk_val(*old(vm), b as int)->Some_0).push(
                rk_val(*old(vm), c as int)->Some_0,
            ));
        }
    }
    let outcome = match vm.compare(-2, -1, op) {
        Ok(v) => v,
        Err(e) => {
            let rp = vm.pop(2);
            proof {
                assert(rp is Ok);
            }
            return Err(e);
        },
    };
    let rp = vm.pop(2);
    proof {
        assert(rp is Ok);
        if hyp {
            let two = s0.push(rk_val(*old(vm), b as int)->Some_0).push(
                rk_val(*old(vm), c as int)->Some_0,
            );
            assert(two.take(two.len() - 2) =~= s0);
            assert(vm.slots() == s0);
        }
    }
    if outcome != (a != 0) {
        vm.add_pc(1)
    } else {
        Ok(())
    }
}

pub fn add<K: NumberOps>(i: u32, vm: &mut LuaState, k: &K) -> (r: Result<(), VmError>)
    requires
        old(vm).wf(),
        old(vm).top_spec() + 2048 < usize::MAX,
    ensures
        final(vm).wf(),
        final(vm).proto == old(vm).proto,
        binary_int_step(i, consts::LUA_OPADD, *old(vm), *final(vm), r is Ok),
{
    _binary_arith(i, vm, consts::LUA_OPADD, k)
}

pub fn sub<K: NumberOps>(i: u32, vm: &mut LuaState, k: &K) -> (r: Result<(), VmError>)
    requires
        old(vm).wf(),
        old(vm).top_spec() + 2048 < usize::MAX,
    ensures
        final(vm).wf(),
        final(vm).proto == old(vm).proto,
        binary_int_step(i, consts::LUA_OPSUB, *old(vm), *final(vm), r is Ok),
{
    _binary_arith(i, vm, consts::LUA_OPSUB, k)
}

pub fn mul<K: NumberOps>(i: u32, vm: &mut LuaState, k: &K) -> (r: Result<(), VmError>)
    requires
        old(vm).wf(),
        old(vm).top_spec() + 2048 < usize::MAX,
    ensures
        final(vm).wf(),
        final(vm).proto == old(vm).proto,
        binary_int_step(i, consts::LUA_OPMUL, *old(vm), *final(vm), r is Ok),
{
    _binary_arith(i, vm, consts::LUA_OPMUL, k)
}

pub fn mod_<K: NumberOps>(i: u32, vm: &mut LuaState, k: &K) -> (r: Result<(), VmError>)
    requires
        old(vm).wf(),
        old(vm).top_spec() + 2048 < usize::MAX,
    ensures
        final(vm).wf(),
        final(vm).proto == old(vm).proto,
        binary_int_step(i, consts::LUA_OPMOD, *old(vm), *final(vm), r is Ok),
{
    _binary_arith(i, vm, consts::LUA_OPMOD, k)
}

pub fn pow<K: NumberOps>(i: u32, vm: &mut LuaState, k: &K) -> (r: Result<(), VmError>)
    requires
        old(vm).wf(),
        old(vm).top_spec() + 2048 < usize::MAX,
    ensures
        final(vm).wf(),
        final(vm).proto == old(vm).proto,
        binary_int_step(i, consts::LUA_OPPOW, *old(vm), *final(vm), r is Ok),
{
    _binary_arith(i, vm, consts::LUA_OPPOW, k)
}

pub fn div<K: NumberOps>(i: u32, vm: &mut LuaState, k: &K) -> (r: Result<(), VmError>)
    requires
        old(vm).wf(),
        old(vm).top_spec() + 2048 < usize::MAX,
    ensures
        final(vm).wf(),
        final(vm).proto == old(vm).proto,
        binary_int_step(i, consts::LUA_OPDIV, *old(vm), *final(vm), r is Ok),
{
    _binary_arith(i, vm, consts::LUA_OPDIV, k)
}

pub fn idiv<K: NumberOps>(i: u32, vm: &mut LuaState, k: &K) -> (r: Result<(), VmError>)
    requires
        old(vm).wf(),
        old(vm).top_spec() + 2048 < usize::MAX,
    ensures
        final(vm).wf(),
        final(vm).proto == old(vm).proto,
        binary_int_step(i, consts::LUA_OPIDIV, *old(vm), *final(vm), r is Ok),
{
    _binary_arith(i, vm, consts::LUA_OPIDIV, k)
}

pub fn band<K: NumberOps>(i: u32, vm: &mut LuaState, k: &K) -> (r: Result<(), VmError>)
    requires
        old(vm).wf(),
        old(vm).top_spec() + 2048 < usize::MAX,
    ensures
        final(vm).wf(),
        final(vm).proto == old(vm).proto,
        binary_int_step(i, consts::LUA_OPBAND, *old(vm), *final(vm), r is Ok),
{
    _binary_arith(i, vm, consts::LUA_OPBAND, k)
}

pub fn bor<K: NumberOps>(i: u32, vm: &mut LuaState, k: &K) -> (r: Result<(), VmError>)
    requires
        old(vm).wf(),
        old(vm).top_spec() + 2048 < usize::MAX,
    ensures
        final(vm).wf(),
        final(vm).proto == old(vm).proto,
        binary_int_step(i, consts::LUA_OPBOR, *old(vm), *final(vm), r is Ok),
{
    _binary_arith(i, vm, consts::LUA_OPBOR, k)
}

pub fn bxor<K: NumberOps>(i: u32, vm: &mut LuaState, k: &K) -> (r: Result<(), VmError>)
    requires
        old(vm).wf(),
        old(vm).top_spec() + 2048 < usize::MAX,
    ensures
        final(vm).wf(),
        final(vm).proto == old(vm).proto,
        binary_int_step(i, consts::LUA_OPBXOR, *old(vm), *final(vm), r is Ok),
{
    _binary_arith(i, vm, consts::LUA_OPBXOR, k)
}

pub fn shl<K: NumberOps>(i: u32, vm: &mut LuaState, k: &K) -> (r: Result<(), VmError>)
    requires
        old(vm).wf(),
        old(vm).top_spec() + 2048 < usize::MAX,
    ensures
        final(vm).wf(),
        final(vm).proto == old(vm).proto,
        binary_int_step(i, consts::LUA_OPSHL, *old(vm), *final(vm), r is Ok),
{
    _binary_arith(i, vm, consts::LUA_OPSHL, k)
}

pub fn shr<K: NumberOps>(i: u32, vm: &mut LuaState, k: &K) -> (r: Result<(), VmError>)
    requires
        old(vm).wf(),
        old(vm).top_spec() + 2048 < usize::MAX,
    ensures
        final(vm).wf(),
        final(vm).proto == old(vm).proto,
        binary_int_step(i, consts::LUA_OPSHR, *old(vm), *final(vm), r is Ok),
{
    _binary_arith(i, vm, consts::LUA_OPSHR, k)
}

pub fn unm<K: NumberOps>(i: u32, vm: &mut LuaState, k: &K) -> (r: Result<(), VmError>)
    requires
        old(vm).wf(),
        old(vm).top_spec() + 2048 < usize::MAX,
    ensures
        final(vm).wf(),
        final(vm).proto == old(vm).proto,
        unary_int_step(i, consts::LUA_OPUNM, *old(vm), *final(vm), r is Ok),
{
    _unary_arith(i, vm, consts::LUA_OPUNM, k)
}

pub fn bnot<K: NumberOps>(i: u32, vm: &mut LuaState, k: &K) -> (r: Result<(), VmError>)
    requires
        old(vm).wf(),
        old(vm).top_spec() + 2048 < usize::MAX,
    ensures
        final(vm).wf(),
        final(vm).proto == old(vm).proto,
        unary_int_step(i, consts::LUA_OPBNOT, *old(vm), *final(vm), r is Ok),
{
    _unary_arith(i, vm, consts::LUA_OPBNOT, k)
}

/// `LEN`: stores the length of register B in register A.
pub fn len(i: u32, vm: &mut LuaState) -> (r: Result<(), VmError>)
    requires
        old(vm).wf(),
        old(vm).top_spec() + 2048 < usize::MAX,
    ensures
        final(vm).wf(),
        final(vm).proto == old(vm).proto,
        len_step(i, *old(vm), *final(vm), r is Ok),
{
    let (a, b, _) = abc(i);
    let ghost s0 = old(vm).slots();
    let ghost hyp = (a as int) < old(vm).top_spec() && (b as int) < old(vm).top_spec();
    let r1 = vm.len(b + 1);
    match r1 {
        Ok(()) => {
            proof {
                if hyp {
                    match s0[b as int] {
                        LuaValue::Str(st) => {
                            if crate::lua_value::str_bytes(st).len() <= i64::MAX
                                && crate::lua_value::str_bytes(st).len() <= usize::MAX {
                                assert(vm.slots().drop_last() =~= s0);
                            }
                        },
                        LuaValue::Table(h) => {
                            if old(vm).tables@[h as int].arr@.len() <= i64::MAX {
                                assert(vm.slots().drop_last() =~= s0);
                            }
                        },
                        _ => {},
                    }
                }
            }
            vm.replace(a + 1)
        },
        Err(e) => Err(e),
    }
}

/// `CONCAT`: concatenates registers B through C into register A.
pub fn concat<K: NumberOps>(i: u32, vm: &mut LuaState, k: &K) -> (r: Result<(), VmError>)
    requires
        old(vm).wf(),
        old(vm).top_spec() + 2048 < usize::MAX,
    ensures
        final(vm).wf(),
        final(vm).proto == old(vm).proto,
        concat_step(i, *old(vm), *final(vm), r is Ok),
{
    let (a, b, c) = abc(i);
    let a1 = a + 1;
    let b1 = b + 1;
    let c1 = c + 1;
    let n = c1 - b1 + 1;
    let ghost s0 = old(vm).slots();
    let ghost hyp = b <= c && (a as int) < old(vm).top_spec() && (c as int) < old(vm).top_spec();
    let ghost ops = s0.subrange(b as int, c + 1);
    let mut j: isize = b1;
    while j < c1 + 1
        invariant
            old(vm).wf(),
            vm.wf(),
            s0.len() == old(vm).top_spec(),
            vm.proto == old(vm).proto,
            vm.pc == old(vm).pc,
            vm.tables@ == old(vm).tables@,
            1 <= b1 <= 0x200,
            1 <= c1 <= 0x200,
            b1 == b + 1,
            c1 == c + 1,
            a == (i >> 6) & 0xff,
            b == (i >> 23) & 0x1ff,
            c == (i >> 14) & 0x1ff,
            b1 <= j,
            j <= c1 + 1 || j == b1,
            vm.top_spec() <= old(vm).top_spec() + (j - b1),
            old(vm).top_spec() + 2048 < usize::MAX,
            s0 == old(vm).slots(),
            ops == s0.subrange(b as int, c + 1),
            hyp == (b <= c && (a as int) < old(vm).top_spec() && (c as int) < old(
                vm,
            ).top_spec()),
            hyp ==> vm.slots() == s0 + ops.take(j - b1),
        decreases c1 + 1 - j,
    {
        proof {
            if hyp {
                assert(s0 + ops.take(j - b1) =~= s0.add(ops.take(j - b1)));
            }
        }
        let rp = vm.push_value(j);
        match rp {
            Ok(()) => {},
            Err(e) => {
                return Err(e);
            },
        }
        proof {
            if hyp {
                assert((s0 + ops.take(j - b1))[j - 1] == s0[j - 1]);
                assert(ops[j - b1] == s0[j - 1]);
                assert((s0 + ops.take(j - b1)).push(s0[j - 1]) =~= s0 + ops.take(j - b1 + 1));
            }
        }
        j = j + 1;
    }
    proof {
        if hyp {
            assert(ops.take(c1 - b1 + 1) =~= ops);
            assert(vm.slots() == s0 + ops);
            assert((s0 + ops).skip(s0.len() as int) =~= ops);
            assert((s0 + ops).take(s0.len() as int) =~= s0);
        }
    }
    let rc = vm.concat(n, k);
    match rc {
        Ok(()) => {
            proof {
                if hyp {
                    if b < c {
                        assert(vm.slots().drop_last() =~= s0);
                    } else {
                        assert(vm.slots() == (s0 + ops));
                        assert(vm.slots().drop_last() =~= s0);
                        assert(vm.slots().last() == ops[0]);
                    }
                }
            }
            vm.replace(a1)
        },
        Err(e) => Err(e),
    }
}

pub fn eq(i: u32, vm: &mut LuaState) -> (r: Result<(), VmError>)
    requires
        old(vm).wf(),
        old(vm).top_spec() + 2048 < usize::MAX,
    ensures
        final(vm).wf(),
        final(vm).proto == old(vm).proto,
        compare_step(i, consts::LUA_OPEQ, *old(vm), *final(vm), r is Ok),
{
    _compare(i, vm, consts::LUA_OPEQ)
}

pub fn lt(i: u32, vm: &mut LuaState) -> (r: Result<(), VmError>)
    requires
        old(vm).wf(),
        old(vm).top_spec() + 2048 < usize::MAX,
    ensures
        final(vm).wf(),
        final(vm).proto == old(vm).proto,
        compare_step(i, consts::LUA_OPLT, *old(vm), *final(vm), r is Ok),
{
    _compare(i, vm, consts::LUA_OPLT)
}

pub fn le(i: u32, vm: &mut LuaState) -> (r: Result<(), VmError>)
    requires
        old(vm).wf(),
        old(vm).top_spec() + 2048 < usize::MAX,
    ensures
        final(vm).wf(),
        final(vm).proto == old(vm).proto,
        compare_step(i, consts::LUA_OPLE, *old(vm), *final(vm), r is Ok),
{
    _compare(i, vm, consts::LUA_OPLE)
}

/// What the logical-not opcode does: register A receives the negated
/// truthiness of register B (a register out of reach reads as nil).
pub open spec fn not_step(i: u32, pre: LuaState, post: LuaState, ok: bool) -> bool {
    let ra = ((i >> 6) & 0xff) as int;
    let rb = ((i >> 23) & 0x1ff) as int;
    &&& post.pc == pre.pc
    &&& post.tables@ == pre.tables@
    &&& (ok <==> ra < pre.top_spec())
    &&& (ok ==> post.slots() == pre.slots().update(
        ra,
        LuaValue::Boolean(!(rb < pre.top_spec() && crate::lua_value::truthy(pre.slots()[rb]))),
    ))
}

/// `NOT`: stores the negated truthiness of register B in register A.
pub fn not(i: u32, vm: &mut LuaState) -> (r: Result<(), VmError>)
    requires
        old(vm).wf(),
        old(vm).top_spec() + 2048 < usize::MAX,
    ensures
        final(vm).wf(),
        final(vm).proto == old(vm).proto,
        not_step(i, *old(vm), *final(vm), r is Ok),
{
    let (a, b, _) = abc(i);
    let t = vm.to_boolean(b + 1);
    vm.push_boolean(!t);
    proof {
        assert(vm.slots().drop_last() =~= old(vm).slots());
    }
    vm.replace(a + 1)
}

/// What the test-and-set opcode does: when register B's truthiness
/// matches the expectation C it is copied into register A, else the
/// next instruction is skipped.
pub open spec fn test_set_step(i: u32, pre: LuaState, post: LuaState, ok: bool) -> bool {
    let a = (i >> 6) & 0xff;
    let b = (i >> 23) & 0x1ff;
    let c = (i >> 14) & 0x1ff;
    let tb = b < pre.top_spec() && crate::lua_value::truthy(pre.slots()[b as int]);
    &&& post.tables@ == pre.tables@
    &&& if tb == (c != 0) {
        &&& (ok <==> a < pre.top_spec() && b < pre.top_spec())
        &&& (ok ==> post.slots() == pre.slots().update(a as int, pre.slots()[b as int]) && post.pc
            == pre.pc)
    } else {
        &&& (ok <==> pre.pc < isize::MAX)
        &&& (ok ==> post.slots() == pre.slots() && post.pc == pre.pc + 1)
    }
}

/// `TESTSET`: copies register B into A when B's truthiness matches the
/// expectation C, else skips the next instruction.
pub fn test_set(i: u32, vm: &mut LuaState) -> (r: Result<(), VmError>)
    requires
        old(vm).wf(),
        old(vm).top_spec() + 2048 < usize::MAX,
    ensures
        final(vm).wf(),
        final(vm).proto == old(vm).proto,
        test_set_step(i, *old(vm), *final(vm), r is Ok),
{
    let (a, b, c) = abc(i);
    if vm.to_boolean(b + 1) == (c != 0) {
        vm.copy(b + 1, a + 1)
    } else {
        vm.add_pc(1)
    }
}

/// What the test opcode does: the next instruction is skipped exactly
/// when register A's truthiness differs from the expectation C.
pub open spec fn test_step(i: u32, pre: LuaState, post: LuaState, ok: bool) -> bool {
    let a = (i >> 6) & 0xff;
    let c = (i >> 14) & 0x1ff;
    let ta = a < pre.top_spec() && crate::lua_value::truthy(pre.slots()[a as int]);
    &&& post.slots() == pre.slots()
    &&& post.tables@ == pre.tables@
    &&& if ta != (c != 0) {
        &&& (ok <==> pre.pc < isize::MAX)
        &&& (ok ==> post.pc == pre.pc + 1)
    } else {
        ok && post.pc == pre.pc
    }
}

/// `TEST`: skips the next instruction when A's truthiness differs from
/// the expectation C.
pub fn test(i: u32, vm: &mut LuaState) -> (r: Result<(), VmError>)
    requires
        old(vm).wf(),
        old(vm).top_spec() + 2048 < usize::MAX,
    ensures
        final(vm).wf(),
        final(vm).proto == old(vm).proto,
        test_step(i, *old(vm), *final(vm), r is Ok),
{
    let (a, _, c) = abc(i);
    if vm.to_boolean(a + 1) != (c != 0) {
        vm.add_pc(1)
    } else {
        Ok(())
    }
}

} // verus!
