//! Table creation, access and bulk initialisation opcodes.

use vstd::prelude::*;

use crate::errors::VmError;
use crate::instruction::{abc, ax};
use crate::lua_state::LuaState;
use crate::lua_table::LuaTable;
use crate::lua_value::LuaValue;

verus! {

/// The batch size used when bulk-initialising table entries from a run
/// of registers.
pub const LFIELDS_PER_FLUSH: i64 = 50;

/// How a table changes when a run of values is bound to consecutive
/// integer keys above `k`: one `put_rel` step per value.
pub open spec fn run_rel(t0: LuaTable, t1: LuaTable, vals: Seq<LuaValue>, k: int) -> bool
    decreases vals.len(),
{
    if vals.len() == 0 {
        t1 == t0
    } else {
        exists|tm: LuaTable|
            #[trigger] crate::lua_table::put_rel(t0, tm, LuaValue::Integer((k + 1) as i64), vals[0])
                && run_rel(tm, t1, vals.skip(1), k + 1)
    }
}

/// Extends a run of writes by one more value at the next key.
proof fn lemma_run_rel_push(
    t0: LuaTable,
    tm: LuaTable,
    t2: LuaTable,
    vals: Seq<LuaValue>,
    k: int,
    v: LuaValue,
)
    requires
        run_rel(t0, tm, vals, k),
        crate::lua_table::put_rel(tm, t2, LuaValue::Integer((k + vals.len() + 1) as i64), v),
    ensures
        run_rel(t0, t2, vals.push(v), k),
    decreases vals.len(),
{
    if vals.len() == 0 {
        assert(tm == t0);
        assert(vals.push(v)[0] == v);
        assert(vals.push(v).skip(1) =~= Seq::<LuaValue>::empty());
        assert(crate::lua_table::put_rel(t0, t2, LuaValue::Integer((k + 1) as i64), v));
        assert(run_rel(t2, t2, vals.push(v).skip(1), k + 1));
    } else {
        let tmid = choose|tmid: LuaTable|
            #[trigger] crate::lua_table::put_rel(
                t0,
                tmid,
                LuaValue::Integer((k + 1) as i64),
                vals[0],
            ) && run_rel(tmid, tm, vals.skip(1), k + 1);
        lemma_run_rel_push(tmid, tm, t2, vals.skip(1), k + 1, v);
        assert(vals.skip(1).push(v) =~= vals.push(v).skip(1));
        assert(vals.push(v)[0] == vals[0]);
        assert(crate::lua_table::put_rel(t0, tmid, LuaValue::Integer((k + 1) as i64), vals.push(
            v,
        )[0]) && run_rel(tmid, t2, vals.push(v).skip(1), k + 1));
    }
}

/// What the bulk-initialisation opcode does: the table in register A
/// gets the run of registers A+1..A+B bound to consecutive integer keys
/// above the batch offset; a zero C field takes the batch number from
/// the following extra-argument word and skips it.
pub open spec fn set_list_step(i: u32, pre: LuaState, post: LuaState, ok: bool) -> bool {
    let ra = ((i >> 6) & 0xff) as int;
    let rb = ((i >> 23) & 0x1ff) as int;
    let cf = ((i >> 14) & 0x1ff) as int;
    let fetch_ok = cf > 0 || (0 <= pre.pc < pre.proto.code@.len() && pre.pc < isize::MAX);
    let kbase = if cf > 0 {
        (cf - 1) * 50
    } else {
        (pre.proto.code@[pre.pc as int] >> 6) * 50
    };
    let pcd: int = if cf > 0 {
        0
    } else {
        1
    };
    fetch_ok ==> (pre.slots()[ra] matches LuaValue::Table(h) ==> ((ra + rb < pre.top_spec()) ==> {
        let vals = pre.slots().subrange(ra + 1, ra + 1 + rb);
        &&& ok
        &&& post.slots() == pre.slots()
        &&& post.pc == pre.pc + pcd
        &&& post.tables@.len() == pre.tables@.len()
        &&& run_rel(pre.tables@[h as int], post.tables@[h as int], vals, kbase)
        &&& (forall|j: int|
            0 <= j < pre.tables@.len() && j != h ==> post.tables@[j] == #[trigger] pre.tables@[j])
    }))
}

/// What the table-creation opcode does: a fresh empty table joins the
/// arena and register A receives its handle.
pub open spec fn new_table_step(i: u32, pre: LuaState, post: LuaState, ok: bool) -> bool {
    let ra = ((i >> 6) & 0xff) as int;
    &&& post.pc == pre.pc
    &&& (ra < pre.top_spec() ==> ok && post.slots() == pre.slots().update(
        ra,
        LuaValue::Table(pre.tables@.len() as usize),
    ) && post.tables@.len() == pre.tables@.len() + 1 && post.tables@.take(pre.tables@.len() as int)
        == pre.tables@ && post.tables@.last().arr@.len() == 0 && post.tables@.last().map@.len()
        == 0)
}

/// `NEWTABLE`: creates a table with decoded size hints and stores its
/// handle in register A.
pub fn new_table(i: u32, vm: &mut LuaState) -> (r: Result<(), VmError>)
    requires
        old(vm).wf(),
        old(vm).top_spec() + 2048 < usize::MAX,
    ensures
        final(vm).wf(),
        final(vm).proto == old(vm).proto,
        new_table_step(i, *old(vm), *final(vm), r is Ok),
{
    let (a, b, c) = abc(i);
    let hb = fb2int(b as u64);
    let hc = fb2int(c as u64);
    let nb: usize = if hb > 0x10000 {
        0x10000
    } else {
        hb as usize
    };
    let nc: usize = if hc > 0x10000 {
        0x10000
    } else {
        hc as usize
    };
    let rr = vm.create_table(nb, nc);
    match rr {
        Ok(()) => {
            proof {
                if (a as int) < old(vm).top_spec() {
                    assert(vm.slots().drop_last() =~= old(vm).slots());
                }
            }
            vm.replace(a + 1)
        },
        Err(e) => Err(e),
    }
}

/// What the table-read opcode does: register A receives what the table
/// in register B holds for the register key C (constant keys are left
/// to the general contract of the state's own read).
pub open spec fn get_table_step(i: u32, pre: LuaState, post: LuaState, ok: bool) -> bool {
    let ra = ((i >> 6) & 0xff) as int;
    let rb = ((i >> 23) & 0x1ff) as int;
    let rc = ((i >> 14) & 0x1ff) as int;
    rc <= 0xff ==> (pre.slots()[rb] matches LuaValue::Table(h) ==> ((ra < pre.top_spec() && rb
        < pre.top_spec() && rc < pre.top_spec()) ==> ok && post.slots() == pre.slots().update(
        ra,
        pre.tables@[h as int].spec_get(pre.slots()[rc]),
    ) && post.pc == pre.pc && post.tables@ == pre.tables@))
}

/// `GETTABLE`: reads the table in register B with the RK key C into
/// register A.
pub fn get_table(i: u32, vm: &mut LuaState) -> (r: Result<(), VmError>)
    requires
        old(vm).wf(),
        old(vm).top_spec() + 2048 < usize::MAX,
    ensures
        final(vm).wf(),
        final(vm).proto == old(vm).proto,
        get_table_step(i, *old(vm), *final(vm), r is Ok),
{
    let (a, b, c) = abc(i);
    let ghost s0 = old(vm).slots();
    let ghost hyp = c <= 0xff && (s0[b as int] matches LuaValue::Table(_)) && (a as int) < old(vm).top_spec() && (b as int) < old(vm).top_spec() && (c as int) < old(vm).top_spec();
    let r1 = vm.get_rk(c);
    match r1 {
        Ok(()) => {},
        Err(e) => {
            return Err(e);
        },
    }
    proof {
        if hyp {
            assert(vm.slots() == s0.push(s0[c as int]));
        }
    }
    let r2 = vm.get_table(b + 1);
    match r2 {
        Ok(_) => {
            proof {
                if hyp {
                    assert(s0.push(s0[c as int]).drop_last() =~= s0);
                    assert(vm.slots().drop_last() =~= s0);
                }
            }
            vm.replace(a + 1)
        },
        Err(e) => Err(e),
    }
}

/// What the table-write opcode does: the table in register A gets the
/// register key B bound to the register value C (constant operands are
/// left to the general contract of the state's own write).
pub open spec fn set_table_step(i: u32, pre: LuaState, post: LuaState, ok: bool) -> bool {
    let ra = ((i >> 6) & 0xff) as int;
    let rb = ((i >> 23) & 0x1ff) as int;
    let rc = ((i >> 14) & 0x1ff) as int;
    &&& post.pc == pre.pc
    &&& ((rb <= 0xff && rc <= 0xff) ==> (pre.slots()[ra] matches LuaValue::Table(h) ==> ((ra
        < pre.top_spec() && rb < pre.top_spec() && rc < pre.top_spec()
        && crate::lua_table::is_valid_key(pre.slots()[rb])) ==> ok && post.slots() == pre.slots()
        && post.tables@.len() == pre.tables@.len() && crate::lua_table::put_rel(
        pre.tables@[h as int],
        post.tables@[h as int],
        pre.slots()[rb],
        pre.slots()[rc],
    ) && (forall|j: int|
        0 <= j < pre.tables@.len() && j != h ==> post.tables@[j] == #[trigger] pre.tables@[j]))))
}

/// `SETTABLE`: binds the RK key B to the RK value C in the table in
/// register A.
pub fn set_table(i: u32, vm: &mut LuaState) -> (r: Result<(), VmError>)
    requires
        old(vm).wf(),
        old(vm).top_spec() + 2048 < usize::MAX,
    ensures
        final(vm).wf(),
        final(vm).proto == old(vm).proto,
        set_table_step(i, *old(vm), *final(vm), r is Ok),
{
    let (a, b, c) = abc(i);
    let ghost s0 = old(vm).slots();
    let ghost hyp = b <= 0xff && c <= 0xff && (s0[a as int] matches LuaValue::Table(_)) && (
    a as int) < old(vm).top_spec() && (b as int) < old(vm).top_spec() && (c as int) < old(vm).top_spec() && crate::lua_table::is_valid_key(s0[b as int]);
    let r1 = vm.get_rk(b);
    match r1 {
        Ok(()) => {},
        Err(e) => {
            return Err(e);
        },
    }
    proof {
        if hyp {
            assert(vm.slots() == s0.push(s0[b as int]));
        }
    }
    let r2 = vm.get_rk(c);
    match r2 {
        Ok(()) => {},
        Err(e) => {
            return Err(e);
        },
    }
    proof {
        if hyp {
            let two = s0.push(s0[b as int]).push(s0[c as int]);
            assert(vm.slots() == two);
            assert(two[two.len() - 2] == s0[b as int]);
            assert(two[two.len() - 1] == s0[c as int]);
            assert(two.take(two.len() - 2) =~= s0);
        }
    }
    vm.set_table(a + 1)
}

/// `SETLIST`: writes the run of registers A+1..A+B into consecutive
/// integer keys of the table in register A, the batch number taken from
/// C or from a following extra-argument word.
pub fn set_list(i: u32, vm: &mut LuaState) -> (r: Result<(), VmError>)
    requires
        old(vm).wf(),
        old(vm).top_spec() + 2048 < usize::MAX,
    ensures
        final(vm).wf(),
        final(vm).proto == old(vm).proto,
        set_list_step(i, *old(vm), *final(vm), r is Ok),
{
    let (a0, b, c0) = abc(i);
    let a = a0 + 1;
    let ghost s0 = old(vm).slots();
    let ghost hyp = (c0 > 0 || (0 <= old(vm).pc < old(vm).proto.code@.len() && old(vm).pc
        < isize::MAX)) && (s0[a0 as int] matches LuaValue::Table(_)) && a0 + b < old(
        vm,
    ).top_spec();
    let ghost hh: int = match s0[a0 as int] {
        LuaValue::Table(h) => h as int,
        _ => 0,
    };
    let ghost vals = s0.subrange(a0 as int + 1, a0 as int + 1 + b as int);
    let c: i64 = if c0 > 0 {
        (c0 as i64) - 1
    } else {
        let w = match vm.fetch() {
            Ok(w) => w,
            Err(e) => {
                return Err(e);
            },
        };
        ax(w) as i64
    };
    let mut idx: i64 = c * LFIELDS_PER_FLUSH;
    let ghost idx0 = idx as int;
    let ghost pc1 = vm.pc as int;
    let mut j: isize = 1;
    while j < b + 1
        invariant
            old(vm).wf(),
            vm.wf(),
            vm.proto == old(vm).proto,
            1 <= a <= 0x100,
            a == a0 + 1,
            a0 == (i >> 6) & 0xff,
            b == (i >> 23) & 0x1ff,
            c0 == (i >> 14) & 0x1ff,
            1 <= j <= b + 1,
            b <= 0x1ff,
            0 <= idx0 <= 0x4000000000,
            idx == idx0 + (j - 1),
            vm.top_spec() + 2 < usize::MAX,
            s0 == old(vm).slots(),
            vals == s0.subrange(a0 as int + 1, a0 as int + 1 + b as int),
            hyp ==> (s0[a0 as int] matches LuaValue::Table(h2) && hh == h2 as int),
            hyp == ((c0 > 0 || (0 <= old(vm).pc < old(vm).proto.code@.len() && old(vm).pc
                < isize::MAX)) && (s0[a0 as int] matches LuaValue::Table(_)) && a0 + b < old(
                vm,
            ).top_spec()),
            vm.pc == pc1,
            hyp ==> pc1 == old(vm).pc + (if c0 > 0 {
                0int
            } else {
                1int
            }),
            hyp ==> vm.slots() == s0,
            hyp ==> vm.tables@.len() == old(vm).tables@.len(),
            hyp ==> run_rel(
                old(vm).tables@[hh],
                vm.tables@[hh],
                vals.take(j - 1),
                idx0,
            ),
            hyp ==> (forall|j2: int|
                0 <= j2 < old(vm).tables@.len() && j2 != hh ==> vm.tables@[j2] == #[trigger] old(
                    vm,
                ).tables@[j2]),
        decreases b + 1 - j,
    {
        idx = idx + 1;
        let ghost tcur = vm.tables@[hh];
        let r1 = vm.push_value(a + j);
        match r1 {
            Ok(()) => {},
            Err(e) => {
                return Err(e);
            },
        }
        proof {
            if hyp {
                assert(vm.slots() == s0.push(s0[a0 + j]));
                assert(s0[a0 + j] == vals[j - 1]);
            }
        }
        let r2 = vm.set_i(a, idx);
        match r2 {
            Ok(()) => {},
            Err(e) => {
                return Err(e);
            },
        }
        proof {
            if hyp {
                assert(s0.push(s0[a0 + j]).take(s0.len() as int) =~= s0);
                lemma_run_rel_push(
                    old(vm).tables@[hh],
                    tcur,
                    vm.tables@[hh],
                    vals.take(j - 1),
                    idx0,
                    vals[j - 1],
                );
                assert(vals.take(j - 1).push(vals[j - 1]) =~= vals.take(j as int));
            }
        }
        j = j + 1;
    }
    proof {
        if hyp {
            assert(vals.take(b as int) =~= vals);
        }
    }
    Ok(())
}

/// The size a compact floating hint decodes to: values below 8 are
/// themselves, else a 3-bit mantissa scaled by an excess-one power of
/// two.
pub open spec fn fb2int_spec(x: u64) -> int {
    if x < 8 {
        x as int
    } else {
        ((x as int % 8) + 8) * vstd::arithmetic::power2::pow2(((x as int / 8) - 1) as nat) as int
    }
}

/// Encodes a size hint in the compact floating form, rounding up: the
/// result decodes to at least the given size.
pub fn int2fb(x0: u64) -> (r: u64)
    requires
        x0 <= 0xffffffff,
    ensures
        x0 < 8 ==> r == x0,
        r <= 0x1ff,
        fb2int_spec(r) >= x0,
{
    let mut x = x0;
    let mut e: u64 = 0;
    if x < 8 {
        return x;
    }
    proof {
        vstd::arithmetic::power2::lemma2_to64();
    }
    while x >= 128 && e <= 56
        invariant
            8 <= x <= 0xffffffff,
            8 <= x0,
            e <= 60,
            x * vstd::arithmetic::power2::pow2(e as nat) >= x0,
            (x - 1) * vstd::arithmetic::power2::pow2(e as nat) <= x0 - 1,
        decreases x,
    {
        proof {
            let p = vstd::arithmetic::power2::pow2(e as nat);
            let p4 = vstd::arithmetic::power2::pow2(e as nat + 4);
            vstd::arithmetic::power2::lemma2_to64();
            vstd::arithmetic::power2::lemma_pow2_adds(e as nat, 4);
            vstd::arithmetic::power2::lemma_pow2_pos(e as nat);
            let x2 = (x + 0xf) / 16;
            assert(x2 * 16 >= x && (x2 - 1) * 16 <= x - 1) by {
                vstd::arithmetic::div_mod::lemma_fundamental_div_mod(x as int + 0xf, 16);
            }
            assert(x2 * p4 >= x0 && (x2 - 1) * p4 <= x0 - 1) by (nonlinear_arith)
                requires
                    p4 == p * 16,
                    p >= 1,
                    x2 * 16 >= x,
                    (x2 - 1) * 16 <= x - 1,
                    x * p >= x0,
                    (x - 1) * p <= x0 - 1,
            ;
        }
        x = (x + 0xf) / 16;
        e = e + 4;
    }
    while x >= 16 && e <= 60
        invariant
            8 <= x <= 0xffffffff,
            8 <= x0,
            e <= 61,
            x * vstd::arithmetic::power2::pow2(e as nat) >= x0,
            (x - 1) * vstd::arithmetic::power2::pow2(e as nat) <= x0 - 1,
        decreases x,
    {
        proof {
            let p = vstd::arithmetic::power2::pow2(e as nat);
            let p1 = vstd::arithmetic::power2::pow2(e as nat + 1);
            vstd::arithmetic::power2::lemma2_to64();
            vstd::arithmetic::power2::lemma_pow2_adds(e as nat, 1);
            vstd::arithmetic::power2::lemma_pow2_pos(e as nat);
            let x2 = (x + 1) / 2;
            assert(x2 * 2 >= x && (x2 - 1) * 2 <= x - 1) by {
                vstd::arithmetic::div_mod::lemma_fundamental_div_mod(x as int + 1, 2);
            }
            assert(x2 * p1 >= x0 && (x2 - 1) * p1 <= x0 - 1) by (nonlinear_arith)
                requires
                    p1 == p * 2,
                    p >= 1,
                    x2 * 2 >= x,
                    (x2 - 1) * 2 <= x - 1,
                    x * p >= x0,
                    (x - 1) * p <= x0 - 1,
            ;
        }
        x = (x + 1) / 2;
        e = e + 1;
    }
    proof {
        vstd::arithmetic::power2::lemma2_to64();
        vstd::arithmetic::power2::lemma2_to64_rest();
        if x >= 16 {
            assert(e > 60);
            vstd::arithmetic::power2::lemma_pow2_strictly_increases(36, e as nat);
            assert((x - 1) * vstd::arithmetic::power2::pow2(e as nat) > 0xffffffff) by (nonlinear_arith)
                requires
                    x >= 16,
                    vstd::arithmetic::power2::pow2(e as nat) > 0x1000000000,
            ;
            assert(false);
        }
        assert(e <= 32) by {
            if e >= 33 {
                vstd::arithmetic::power2::lemma_pow2_strictly_increases(32, e as nat);
                assert((x - 1) * vstd::arithmetic::power2::pow2(e as nat) > 0xffffffff) by (nonlinear_arith)
                    requires
                        x >= 8,
                        vstd::arithmetic::power2::pow2(e as nat) >= 0x100000000,
                ;
            }
        }
        vstd::arithmetic::div_mod::lemma_fundamental_div_mod_converse(
            ((e + 1) * 8 + (x - 8)) as int,
            8,
            e as int + 1,
            x as int - 8,
        );
    }
    (e + 1) * 8 + (x - 8)
}

/// Decodes a compact floating size hint: values below 8 are themselves,
/// else `((x & 7) + 8) << ((x >> 3) - 1)`.
pub fn fb2int(x: u64) -> (r: u64)
    requires
        x <= 0x1ff,
    ensures
        x < 8 ==> r == x,
        x >= 8 ==> r == ((((x & 7) + 8) as u64) << (((x >> 3) - 1) as u64)),
        fb2int_spec(x) <= u64::MAX ==> r == fb2int_spec(x),
{
    if x < 8 {
        x
    } else {
        proof {
            assert(x >> 3 >= 1 && x >> 3 <= 0x3f) by (bit_vector)
                requires
                    8 <= x <= 0x1ff,
            ;
            assert(x & 7 <= 7) by (bit_vector);
            vstd::bits::lemma_u64_low_bits_mask_is_mod(x, 3nat);
            vstd::bits::lemma_u64_shr_is_div(x, 3);
            vstd::arithmetic::power2::lemma2_to64();
            if fb2int_spec(x) <= u64::MAX {
                vstd::bits::lemma_u64_shl_is_mul(
                    (((x & 7) + 8)) as u64,
                    (((x >> 3) - 1)) as u64,
                );
            }
        }
        ((x & 7) + 8) << ((x >> 3) - 1)
    }
}

} // verus!
