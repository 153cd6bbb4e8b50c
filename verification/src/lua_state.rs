//! The embedding surface: one register stack, the executing prototype and
//! its program counter, and the arena of tables that gives table values
//! reference semantics.
//!
//! A table value on the stack is a handle into the arena; copying the
//! value shares the table, and mutation through any copy is visible to
//! all.  The state invariant `wf` keeps every handle, wherever it sits,
//! below the arena's length, so no table access can dangle.

use vstd::prelude::*;

use crate::binary_chunk::{Constant, Prototype};
use crate::compare_ops;
use crate::consts;
use crate::errors::VmError;
use crate::float_bits;
use crate::lua_stack::{abs_index_spec, new_top_spec, reverse_range, LuaStack};
use crate::lua_table::{put_rel, table_ok, LuaTable};
use crate::lua_value::{truthy, ty_spec, val_ok, LuaValue};
use crate::number_ops::NumberOps;
use vstd::string::StringSliceAdditionalSpecFns;

verus! {

pub struct LuaState {
    pub stack: LuaStack,
    pub proto: Prototype,
    pub pc: isize,
    pub tables: Vec<LuaTable>,
}

/// The value a constant loads as; a float constant keeps its bit
/// pattern.
pub open spec fn const_value_spec(c: Constant) -> LuaValue {
    match c {
        Constant::Nil => LuaValue::Nil,
        Constant::Boolean(b) => LuaValue::Boolean(b),
        Constant::Integer(i) => LuaValue::Integer(i),
        Constant::Number(n) => LuaValue::Number(n),
        Constant::Str(s) => LuaValue::Str(s),
    }
}

impl LuaState {
    /// The state invariant: the stack is consistent and every table
    /// handle held anywhere points into the arena.
    pub open spec fn wf(&self) -> bool {
        &&& self.stack.wf()
        &&& (forall|i: int|
            0 <= i < self.stack.slots@.len() ==> val_ok(
                #[trigger] self.stack.slots@[i],
                self.tables@.len() as int,
            ))
        &&& (forall|j: int|
            0 <= j < self.tables@.len() ==> (#[trigger] self.tables@[j]).wf() && table_ok(
                self.tables@[j],
                self.tables@.len() as int,
            ))
    }

    /// The register file.
    pub open spec fn slots(&self) -> Seq<LuaValue> {
        self.stack.slots@
    }

    /// The current top.
    pub open spec fn top_spec(&self) -> int {
        self.stack.top as int
    }

    /// Everything but the stack is unchanged.
    pub open spec fn same_rest(&self, other: &LuaState) -> bool {
        &&& self.proto == other.proto
        &&& self.pc == other.pc
        &&& self.tables@ == other.tables@
    }

    /// Creates a state over a prototype, with an empty register stack of
    /// the given capacity hint.
    pub fn new(stack_size: usize, proto: Prototype) -> (r: LuaState)
        ensures
            r.wf(),
            r.slots().len() == 0,
            r.pc == 0,
            r.tables@.len() == 0,
            r.proto == proto,
    {
        LuaState { stack: LuaStack::new(stack_size), proto, pc: 0, tables: Vec::new() }
    }

    /// The current top of the stack.
    pub fn get_top(&self) -> (r: usize)
        ensures
            r == self.stack.top,
    {
        self.stack.top
    }

    /// Resolves a dual-direction index to a 0-based slot.
    pub fn abs_index(&self, idx: isize) -> (r: Option<usize>)
        requires
            self.wf(),
        ensures
            match r {
                Some(a) => abs_index_spec(self.top_spec(), idx as int) == Some(a as int),
                None => abs_index_spec(self.top_spec(), idx as int) is None,
            },
    {
        self.stack.abs_index(idx)
    }

    /// The stack always grows on demand, so a capacity request always
    /// succeeds.
    pub fn check_stack(&mut self, _n: isize) -> (r: bool)
        ensures
            r == true,
            *final(self) == *old(self),
    {
        true
    }

    /// Pops `n` values; there must be at least that many.
    pub fn pop(&mut self, n: usize) -> (r: Result<(), VmError>)
        requires
            old(self).wf(),
        ensures
            final(self).wf(),
            final(self).same_rest(old(self)),
            n > old(self).top_spec() ==> r == Err::<(), VmError>(VmError::IndexError) && final(self).slots() == old(self).slots(),
            n <= old(self).top_spec() ==> r == Ok::<(), VmError>(()) && final(self).slots() == old(self).slots().take(old(self).top_spec() - n),
    {
        if n > self.stack.top {
            return Err(VmError::IndexError);
        }
        let mut i: usize = 0;
        while i < n
            invariant
                i <= n,
                n <= old(self).top_spec(),
                old(self).wf(),
                self.wf(),
                self.same_rest(old(self)),
                self.stack.top == old(self).stack.top - i,
                self.slots() == old(self).slots().take(old(self).top_spec() - i),
            decreases n - i,
        {
            proof {
                assert(old(self).slots().take(old(self).top_spec() - i).drop_last() =~= old(self).slots().take(old(self).top_spec() - (i + 1)));
            }
            self.stack.pop();
            i = i + 1;
        }
        Ok(())
    }

    /// Copies the value at one index over the slot at another.
    pub fn copy(&mut self, from_idx: isize, to_idx: isize) -> (r: Result<(), VmError>)
        requires
            old(self).wf(),
        ensures
            final(self).wf(),
            final(self).same_rest(old(self)),
            (abs_index_spec(old(self).top_spec(), from_idx as int) is None || abs_index_spec(
                old(self).top_spec(),
                to_idx as int,
            ) is None) ==> r == Err::<(), VmError>(VmError::IndexError) && final(self).slots()
                == old(self).slots(),
            abs_index_spec(old(self).top_spec(), from_idx as int) matches Some(f) ==> (
            abs_index_spec(old(self).top_spec(), to_idx as int) matches Some(t) ==> r == Ok::<
                (),
                VmError,
            >(()) && final(self).slots() == old(self).slots().update(t, old(self).slots()[f])),
    {
        let v = match self.stack.get(from_idx) {
            Some(v) => v,
            None => {
                return Err(VmError::IndexError);
            },
        };
        match self.stack.abs_index(to_idx) {
            Some(_) => {
                self.stack.set(to_idx, v);
                Ok(())
            },
            None => Err(VmError::IndexError),
        }
    }

    /// Pushes a copy of the value at an index.
    pub fn push_value(&mut self, idx: isize) -> (r: Result<(), VmError>)
        requires
            old(self).wf(),
            old(self).top_spec() < usize::MAX,
        ensures
            final(self).wf(),
            final(self).same_rest(old(self)),
            abs_index_spec(old(self).top_spec(), idx as int) is None ==> r == Err::<(), VmError>(
                VmError::IndexError,
            ) && final(self).slots() == old(self).slots(),
            abs_index_spec(old(self).top_spec(), idx as int) matches Some(a) ==> r == Ok::<
                (),
                VmError,
            >(()) && final(self).slots() == old(self).slots().push(old(self).slots()[a]),
    {
        match self.stack.get(idx) {
            Some(v) => {
                self.stack.push(v);
                Ok(())
            },
            None => Err(VmError::IndexError),
        }
    }

    /// Pops the top value and stores it at an index (resolved against
    /// the stack after the pop).
    pub fn replace(&mut self, idx: isize) -> (r: Result<(), VmError>)
        requires
            old(self).wf(),
        ensures
            final(self).wf(),
            final(self).same_rest(old(self)),
            (old(self).top_spec() < 1 || abs_index_spec(old(self).top_spec() - 1, idx as int)
                is None) ==> r == Err::<(), VmError>(VmError::IndexError) && final(self).slots()
                == old(self).slots(),
            old(self).top_spec() >= 1 ==> (abs_index_spec(old(self).top_spec() - 1, idx as int)
                matches Some(a) ==> r == Ok::<(), VmError>(()) && final(self).slots() == old(self).slots().drop_last().update(a, old(self).slots().last())),
    {
        if self.stack.top == 0 {
            return Err(VmError::IndexError);
        }
        let ghost t1 = self.top_spec() - 1;
        let v = self.stack.pop();
        match self.stack.abs_index(idx) {
            Some(_) => {
                self.stack.set(idx, v);
                Ok(())
            },
            None => {
                self.stack.push(v);
                proof {
                    assert(old(self).slots().drop_last().push(old(self).slots().last()) =~= old(self).slots());
                }
                Err(VmError::IndexError)
            },
        }
    }

    /// Reverses a range of 0-based slots, both ends inclusive; an empty
    /// range is a no-op.
    fn reverse_slots(&mut self, from: usize, to: usize)
        requires
            old(self).wf(),
            to < old(self).top_spec() || from > to,
        ensures
            final(self).wf(),
            final(self).same_rest(old(self)),
            final(self).stack.top == old(self).stack.top,
            final(self).slots() == reverse_range(old(self).slots(), from as int, to as int),
    {
        let mut i = from;
        let mut j = to;
        if i >= j {
            proof {
                assert(self.slots() =~= reverse_range(old(self).slots(), from as int, to as int));
            }
            return ;
        }
        while i < j
            invariant
                old(self).wf(),
                self.wf(),
                self.same_rest(old(self)),
                self.stack.top == old(self).stack.top,
                0 <= from as int <= i <= j + 1 <= to + 1,
                to < old(self).slots().len(),
                i + j == from + to,
                self.slots().len() == old(self).slots().len(),
                forall|x: int|
                    0 <= x < self.slots().len() ==> #[trigger] self.slots()[x] == (if from <= x < i
                        || j < x <= to {
                        old(self).slots()[from + to - x]
                    } else {
                        old(self).slots()[x]
                    }),
            decreases j - i + 1,
        {
            let a = self.stack.slots[i].clone();
            let b = self.stack.slots[j].clone();
            self.stack.slots[i] = b;
            self.stack.slots[j] = a;
            i = i + 1;
            j = j - 1;
        }
        proof {
            assert(self.slots() =~= reverse_range(old(self).slots(), from as int, to as int));
        }
    }

    /// Cyclically rotates the slice from an index up to the top by `n`
    /// places (toward the top when positive), as three reversals: the
    /// part below the pivot, the part from the pivot up, then the whole
    /// slice.
    pub fn rotate(&mut self, idx: isize, n: isize) -> (r: Result<(), VmError>)
        requires
            old(self).wf(),
            old(self).top_spec() <= 0x7fffffff,
        ensures
            final(self).wf(),
            final(self).same_rest(old(self)),
            final(self).stack.top == old(self).stack.top,
            abs_index_spec(old(self).top_spec(), idx as int) is None ==> r == Err::<(), VmError>(
                VmError::IndexError,
            ) && final(self).slots() == old(self).slots(),
            abs_index_spec(old(self).top_spec(), idx as int) matches Some(a) ==> (if !(-(old(self).top_spec() - a) <= n <= old(self).top_spec() - a) {
                r == Err::<(), VmError>(VmError::IndexError) && final(self).slots() == old(self).slots()
            } else {
                r == Ok::<(), VmError>(()) && final(self).slots() == rotated(
                    old(self).slots(),
                    a,
                    if n >= 0 {
                        old(self).top_spec() - n
                    } else {
                        a + (-n)
                    },
                    old(self).top_spec(),
                )
            }),
    {
        let a = match self.stack.abs_index(idx) {
            Some(a) => a,
            None => {
                return Err(VmError::IndexError);
            },
        };
        let top = self.stack.top;
        proof {
            assert(top >= 1);
        }
        let span = top - a;
        if n >= 0 {
            if n as usize > span {
                return Err(VmError::IndexError);
            }
        } else {
            if n == isize::MIN {
                return Err(VmError::IndexError);
            }
            if (-n) as usize > span {
                return Err(VmError::IndexError);
            }
        }
        let p: usize = if n >= 0 {
            top - (n as usize)
        } else {
            a + ((-n) as usize)
        };
        if p == 0 {
            proof {
                assert(reverse_range(old(self).slots(), a as int, p - 1) =~= old(self).slots());
            }
        } else {
            self.reverse_slots(a, p - 1);
        }
        self.reverse_slots(p, top - 1);
        self.reverse_slots(a, top - 1);
        Ok(())
    }

    /// Inserts the top value at an index, shifting what is above it up.
    pub fn insert(&mut self, idx: isize) -> (r: Result<(), VmError>)
        requires
            old(self).wf(),
            old(self).top_spec() <= 0x7fffffff,
        ensures
            final(self).wf(),
            final(self).same_rest(old(self)),
            final(self).stack.top == old(self).stack.top,
            abs_index_spec(old(self).top_spec(), idx as int) is None ==> r == Err::<(), VmError>(
                VmError::IndexError,
            ) && final(self).slots() == old(self).slots(),
            abs_index_spec(old(self).top_spec(), idx as int) matches Some(a) ==> r == Ok::<
                (),
                VmError,
            >(()) && final(self).slots() == rotated(
                old(self).slots(),
                a,
                old(self).top_spec() - 1,
                old(self).top_spec(),
            ),
    {
        self.rotate(idx, 1)
    }

    /// Rotates the value at an index to the top, then pops it off.
    pub fn remove(&mut self, idx: isize) -> (r: Result<(), VmError>)
        requires
            old(self).wf(),
            old(self).top_spec() <= 0x7fffffff,
        ensures
            final(self).wf(),
            final(self).same_rest(old(self)),
            abs_index_spec(old(self).top_spec(), idx as int) is None ==> r == Err::<(), VmError>(
                VmError::IndexError,
            ) && final(self).slots() == old(self).slots(),
            abs_index_spec(old(self).top_spec(), idx as int) matches Some(a) ==> r == Ok::<
                (),
                VmError,
            >(()) && final(self).slots() == rotated(
                old(self).slots(),
                a,
                a + 1,
                old(self).top_spec(),
            ).take(old(self).top_spec() - 1),
    {
        let r = self.rotate(idx, -1);
        match r {
            Ok(()) => {
                let r2 = self.pop(1);
                proof {
                    assert(r2 is Ok);
                }
                Ok(())
            },
            Err(e) => Err(e),
        }
    }

    /// Sets the top: pads with nil when growing, discards when
    /// shrinking; a negative argument counts back from the current top.
    pub fn set_top(&mut self, idx: isize) -> (r: Result<(), VmError>)
        requires
            old(self).wf(),
            new_top_spec(old(self).top_spec(), idx as int) < usize::MAX,
        ensures
            final(self).wf(),
            final(self).same_rest(old(self)),
            new_top_spec(old(self).top_spec(), idx as int) < 0 ==> r == Err::<(), VmError>(
                VmError::IndexError,
            ) && final(self).slots() == old(self).slots(),
            new_top_spec(old(self).top_spec(), idx as int) >= 0 ==> r == Ok::<(), VmError>(())
                && final(self).top_spec() == new_top_spec(old(self).top_spec(), idx as int) && final(self).slots() == (if new_top_spec(old(self).top_spec(), idx as int) <= old(self).top_spec() {
                old(self).slots().take(new_top_spec(old(self).top_spec(), idx as int))
            } else {
                old(self).slots() + Seq::new(
                    (new_top_spec(old(self).top_spec(), idx as int) - old(self).top_spec()) as nat,
                    |i: int| LuaValue::Nil,
                )
            }),
    {
        if idx < 0 {
            let back = (-(idx + 1)) as usize;
            if back > self.stack.top {
                return Err(VmError::IndexError);
            }
        }
        self.stack.set_top(idx);
        Ok(())
    }

    /// The printable name of a type tag.
    pub fn ty_name(&self, tp: i8) -> (r: &'static str)
        requires
            consts::LUA_TNONE <= tp <= consts::LUA_TTHREAD,
    {
        if tp == consts::LUA_TNONE {
            "no value"
        } else if tp == consts::LUA_TNIL {
            "nil"
        } else if tp == consts::LUA_TBOOLEAN {
            "boolean"
        } else if tp == consts::LUA_TNUMBER {
            "number"
        } else if tp == consts::LUA_TSTRING {
            "string"
        } else if tp == consts::LUA_TTABLE {
            "table"
        } else if tp == consts::LUA_TFUNCTION {
            "function"
        } else if tp == consts::LUA_TTHREAD {
            "thread"
        } else {
            "userdata"
        }
    }

    /// The type tag of the slot, `LUA_TNONE` for an invalid index.
    pub fn type_id(&self, idx: isize) -> (r: i8)
        requires
            self.wf(),
        ensures
            r == match abs_index_spec(self.top_spec(), idx as int) {
                Some(a) => ty_spec(self.slots()[a]),
                None => consts::LUA_TNONE,
            },
    {
        match self.stack.get(idx) {
            Some(v) => v.ty(),
            None => consts::LUA_TNONE,
        }
    }

    pub fn is_none(&self, idx: isize) -> (r: bool)
        requires
            self.wf(),
        ensures
            r == (abs_index_spec(self.top_spec(), idx as int) is None),
    {
        self.type_id(idx) == consts::LUA_TNONE
    }

    pub fn is_nil(&self, idx: isize) -> (r: bool)
        requires
            self.wf(),
        ensures
            r == (abs_index_spec(self.top_spec(), idx as int) matches Some(a) && self.slots()[a]
                matches LuaValue::Nil),
    {
        self.type_id(idx) == consts::LUA_TNIL
    }

    pub fn is_none_or_nil(&self, idx: isize) -> (r: bool)
        requires
            self.wf(),
        ensures
            r == (abs_index_spec(self.top_spec(), idx as int) is None || (abs_index_spec(
                self.top_spec(),
                idx as int,
            ) matches Some(a) && self.slots()[a] matches LuaValue::Nil)),
    {
        self.is_none(idx) || self.is_nil(idx)
    }

    pub fn is_boolean(&self, idx: isize) -> (r: bool)
        requires
            self.wf(),
        ensures
            r == (abs_index_spec(self.top_spec(), idx as int) matches Some(a) && self.slots()[a]
                matches LuaValue::Boolean(_)),
    {
        self.type_id(idx) == consts::LUA_TBOOLEAN
    }

    /// A slot counts as a string when it holds a string or a number
    /// (numbers convert to strings implicitly).
    pub fn is_string(&self, idx: isize) -> (r: bool)
        requires
            self.wf(),
        ensures
            r == (abs_index_spec(self.top_spec(), idx as int) matches Some(a) && (self.slots()[a]
                matches LuaValue::Str(_) || self.slots()[a] matches LuaValue::Integer(_)
                || self.slots()[a] matches LuaValue::Number(_))),
    {
        let t = self.type_id(idx);
        t == consts::LUA_TSTRING || t == consts::LUA_TNUMBER
    }

    pub fn is_function(&self, idx: isize) -> (r: bool)
        requires
            self.wf(),
        ensures
            r == false,
    {
        self.type_id(idx) == consts::LUA_TFUNCTION
    }

    pub fn is_table(&self, idx: isize) -> (r: bool)
        requires
            self.wf(),
        ensures
            r == (abs_index_spec(self.top_spec(), idx as int) matches Some(a) && self.slots()[a]
                matches LuaValue::Table(_)),
    {
        self.type_id(idx) == consts::LUA_TTABLE
    }

    pub fn is_thread(&self, idx: isize) -> (r: bool)
        requires
            self.wf(),
        ensures
            r == false,
    {
        self.type_id(idx) == consts::LUA_TTHREAD
    }

    /// Whether the slot coerces to a float.
    pub fn is_number<K: NumberOps>(&self, idx: isize, k: &K) -> (r: bool)
        requires
            self.wf(),
        ensures
            abs_index_spec(self.top_spec(), idx as int) matches Some(a) ==> ((self.slots()[a]
                matches LuaValue::Integer(_) || self.slots()[a] matches LuaValue::Number(_)) ==> r
                == true) && ((self.slots()[a] matches LuaValue::Nil || self.slots()[a] matches
                LuaValue::Boolean(_) || self.slots()[a] matches LuaValue::Table(_)) ==> r == false),
            abs_index_spec(self.top_spec(), idx as int) is None ==> r == false,
    {
        self.to_numberx(idx, k).is_some()
    }

    /// Whether the slot holds an integer proper.
    pub fn is_integer(&self, idx: isize) -> (r: bool)
        requires
            self.wf(),
        ensures
            r == (abs_index_spec(self.top_spec(), idx as int) matches Some(a) && self.slots()[a]
                matches LuaValue::Integer(_)),
    {
        match self.stack.get(idx) {
            Some(v) => match v {
                LuaValue::Integer(_) => true,
                _ => false,
            },
            None => false,
        }
    }

    /// The truthiness of the slot; an invalid index reads as nil.
    pub fn to_boolean(&self, idx: isize) -> (r: bool)
        requires
            self.wf(),
        ensures
            r == (abs_index_spec(self.top_spec(), idx as int) matches Some(a) && truthy(
                self.slots()[a],
            )),
    {
        match self.stack.get(idx) {
            Some(v) => v._to_boolean(),
            None => false,
        }
    }

    /// The float bit pattern the slot coerces to, if any.
    pub fn to_numberx<K: NumberOps>(&self, idx: isize, k: &K) -> (r: Option<u64>)
        requires
            self.wf(),
        ensures
            abs_index_spec(self.top_spec(), idx as int) matches Some(a) ==> ((self.slots()[a]
                matches LuaValue::Number(n) ==> r == Some(n)) && (self.slots()[a] matches
                LuaValue::Integer(i) ==> r == Some(float_bits::i64_to_bits_spec(i))) && ((
            self.slots()[a] matches LuaValue::Nil || self.slots()[a] matches LuaValue::Boolean(_)
                || self.slots()[a] matches LuaValue::Table(_)) ==> r is None)),
            abs_index_spec(self.top_spec(), idx as int) is None ==> r is None,
    {
        match self.stack.get(idx) {
            Some(v) => v.to_number(k),
            None => None,
        }
    }

    /// The float bit pattern the slot coerces to; a fatal fault when it
    /// does not.
    pub fn to_number<K: NumberOps>(&self, idx: isize, k: &K) -> (r: Result<u64, VmError>)
        requires
            self.wf(),
        ensures
            abs_index_spec(self.top_spec(), idx as int) matches Some(a) ==> ((self.slots()[a]
                matches LuaValue::Number(n) ==> r == Ok::<u64, VmError>(n)) && (self.slots()[a]
                matches LuaValue::Integer(i) ==> r == Ok::<u64, VmError>(
                float_bits::i64_to_bits_spec(i),
            ))),
    {
        match self.to_numberx(idx, k) {
            Some(n) => Ok(n),
            None => Err(VmError::TypeError),
        }
    }

    /// The integer the slot coerces to, if any.
    pub fn to_integerx<K: NumberOps>(&self, idx: isize, k: &K) -> (r: Option<i64>)
        requires
            self.wf(),
        ensures
            abs_index_spec(self.top_spec(), idx as int) matches Some(a) ==> ((self.slots()[a]
                matches LuaValue::Integer(i) ==> r == Some(i)) && (self.slots()[a] matches
                LuaValue::Number(n) ==> r == float_bits::bits_to_i64_spec(n)) && ((self.slots()[a]
                matches LuaValue::Nil || self.slots()[a] matches LuaValue::Boolean(_)
                || self.slots()[a] matches LuaValue::Table(_)) ==> r is None)),
            abs_index_spec(self.top_spec(), idx as int) is None ==> r is None,
    {
        match self.stack.get(idx) {
            Some(v) => v.to_integer(k),
            None => None,
        }
    }

    /// The integer the slot coerces to; a fatal fault when it does not.
    pub fn to_integer<K: NumberOps>(&self, idx: isize, k: &K) -> (r: Result<i64, VmError>)
        requires
            self.wf(),
        ensures
            abs_index_spec(self.top_spec(), idx as int) matches Some(a) ==> (self.slots()[a]
                matches LuaValue::Integer(i) ==> r == Ok::<i64, VmError>(i)),
    {
        match self.to_integerx(idx, k) {
            Some(i) => Ok(i),
            None => Err(VmError::TypeError),
        }
    }

    /// The text the slot converts to, if any: a string itself, a number
    /// through its decimal form.
    pub fn to_stringx<K: NumberOps>(&self, idx: isize, k: &K) -> (r: Option<String>)
        requires
            self.wf(),
        ensures
            abs_index_spec(self.top_spec(), idx as int) matches Some(a) ==> ((self.slots()[a]
                matches LuaValue::Str(s) ==> r matches Some(s2) && s2@ == s@) && (self.slots()[a]
                matches LuaValue::Integer(i) ==> r matches Some(s2) && s2@ == dec_str_of(i as int))
                && ((self.slots()[a] matches LuaValue::Nil || self.slots()[a] matches
                LuaValue::Boolean(_) || self.slots()[a] matches LuaValue::Table(_)) ==> r
                is None)),
            abs_index_spec(self.top_spec(), idx as int) is None ==> r is None,
    {
        match self.stack.get(idx) {
            Some(v) => match v {
                LuaValue::Str(s) => Some(s),
                LuaValue::Integer(i) => Some(int_to_string(i)),
                LuaValue::Number(n) => Some(k.number_text(n)),
                _ => None,
            },
            None => None,
        }
    }

    /// The text the slot converts to; a fatal fault when it does not.
    pub fn to_string<K: NumberOps>(&self, idx: isize, k: &K) -> (r: Result<String, VmError>)
        requires
            self.wf(),
        ensures
            abs_index_spec(self.top_spec(), idx as int) matches Some(a) ==> (self.slots()[a]
                matches LuaValue::Str(s) ==> r matches Ok(s2) && s2@ == s@),
    {
        match self.to_stringx(idx, k) {
            Some(s) => Ok(s),
            None => Err(VmError::TypeError),
        }
    }

    /// Pushes nil.
    pub fn push_nil(&mut self)
        requires
            old(self).wf(),
            old(self).top_spec() < usize::MAX,
        ensures
            final(self).wf(),
            final(self).same_rest(old(self)),
            final(self).slots() == old(self).slots().push(LuaValue::Nil),
    {
        self.stack.push(LuaValue::Nil);
    }

    /// Pushes a boolean.
    pub fn push_boolean(&mut self, b: bool)
        requires
            old(self).wf(),
            old(self).top_spec() < usize::MAX,
        ensures
            final(self).wf(),
            final(self).same_rest(old(self)),
            final(self).slots() == old(self).slots().push(LuaValue::Boolean(b)),
    {
        self.stack.push(LuaValue::Boolean(b));
    }

    /// Pushes an integer.
    pub fn push_integer(&mut self, n: i64)
        requires
            old(self).wf(),
            old(self).top_spec() < usize::MAX,
        ensures
            final(self).wf(),
            final(self).same_rest(old(self)),
            final(self).slots() == old(self).slots().push(LuaValue::Integer(n)),
    {
        self.stack.push(LuaValue::Integer(n));
    }

    /// Pushes a float, given as its bit pattern.
    pub fn push_number(&mut self, n: u64)
        requires
            old(self).wf(),
            old(self).top_spec() < usize::MAX,
        ensures
            final(self).wf(),
            final(self).same_rest(old(self)),
            final(self).slots() == old(self).slots().push(LuaValue::Number(n)),
    {
        self.stack.push(LuaValue::Number(n));
    }

    /// Pushes a string.
    pub fn push_string(&mut self, s: String)
        requires
            old(self).wf(),
            old(self).top_spec() < usize::MAX,
        ensures
            final(self).wf(),
            final(self).same_rest(old(self)),
            final(self).slots() == old(self).slots().push(LuaValue::Str(s)),
    {
        self.stack.push(LuaValue::Str(s));
    }
}

/// The deterministic text of a value: a string's own text, an integer's
/// decimal form; floats go through the kernel and have none here.
pub open spec fn text_of_det(v: LuaValue) -> Option<Seq<char>> {
    match v {
        LuaValue::Str(s) => Some(s@),
        LuaValue::Integer(i) => Some(dec_str_of(i as int)),
        _ => None,
    }
}

/// Whether every value in the sequence converts to text at all.
pub open spec fn all_stringable(s: Seq<LuaValue>) -> bool {
    forall|i: int|
        0 <= i < s.len() ==> ((#[trigger] s[i]) matches LuaValue::Str(_) || s[i] matches
            LuaValue::Integer(_) || s[i] matches LuaValue::Number(_))
}

/// The concatenated deterministic texts of a sequence of values, when
/// every one has a deterministic text.
pub open spec fn cat_texts(s: Seq<LuaValue>) -> Option<Seq<char>>
    decreases s.len(),
{
    if s.len() == 0 {
        Some(Seq::empty())
    } else {
        match (text_of_det(s[0]), cat_texts(s.skip(1))) {
            (Some(h), Some(t)) => Some(h + t),
            _ => None,
        }
    }
}

impl LuaState {
    /// Pops one operand for a unary operator, two for a binary one (the
    /// top is the right-hand side), applies the coercion rules of
    /// `_arith`, and pushes the result.  A fatal fault leaves the state
    /// unchanged.
    pub fn arith<K: NumberOps>(&mut self, op: u8, k: &K) -> (r: Result<(), VmError>)
        requires
            old(self).wf(),
            op <= consts::LUA_OPBNOT,
        ensures
            final(self).wf(),
            final(self).same_rest(old(self)),
            r is Err ==> *final(self) == *old(self),
            (op == consts::LUA_OPUNM || op == consts::LUA_OPBNOT) && old(self).top_spec() < 1
                ==> r == Err::<(), VmError>(VmError::IndexError),
            !(op == consts::LUA_OPUNM || op == consts::LUA_OPBNOT) && old(self).top_spec() < 2
                ==> r == Err::<(), VmError>(VmError::IndexError),
            r is Ok ==> final(self).top_spec() == old(self).top_spec() - (if op
                == consts::LUA_OPUNM || op == consts::LUA_OPBNOT {
                0int
            } else {
                1int
            }) && final(self).slots() == old(self).slots().take(final(self).top_spec() - 1).push(
                final(self).slots().last(),
            ) && final(self).slots().take(final(self).top_spec() - 1) == old(self).slots().take(
                final(self).top_spec() - 1,
            ) && crate::arith_ops::is_numeric(final(self).slots().last()),
            !(op == consts::LUA_OPUNM || op == consts::LUA_OPBNOT) && old(self).top_spec() >= 2
                ==> {
                let x = old(self).slots()[old(self).top_spec() - 2];
                let y = old(self).slots()[old(self).top_spec() - 1];
                &&& (crate::arith_ops::nonnumeric(x) || crate::arith_ops::nonnumeric(y) ==> r
                    == Err::<(), VmError>(VmError::TypeError))
                &&& (crate::arith_ops::has_float_form(op) && crate::arith_ops::is_numeric(x)
                    && crate::arith_ops::is_numeric(y) && !(crate::arith_ops::has_int_form(op)
                    && x.as_int_spec() is Some && y.as_int_spec() is Some) ==> r == Ok::<
                    (),
                    VmError,
                >(()) && (final(self).slots().last() matches LuaValue::Number(_)) && final(self).slots() == old(self).slots().take(old(self).top_spec() - 2).push(
                    final(self).slots().last(),
                ))
                &&& (crate::arith_ops::has_int_form(op) ==> (x.as_int_spec() matches Some(xi)
                    ==> (y.as_int_spec() matches Some(yi) ==> (if crate::arith_ops::int_form_faults(
                    op,
                    xi,
                    yi,
                ) {
                    r == Err::<(), VmError>(VmError::TypeError)
                } else {
                    r == Ok::<(), VmError>(()) && final(self).slots() == old(self).slots().take(
                        old(self).top_spec() - 2,
                    ).push(LuaValue::Integer(crate::arith_ops::int_arith_spec(op, xi, yi)))
                }))))
            },
            (op == consts::LUA_OPUNM || op == consts::LUA_OPBNOT) && old(self).top_spec() >= 1
                ==> {
                let x = old(self).slots()[old(self).top_spec() - 1];
                &&& (crate::arith_ops::nonnumeric(x) ==> r == Err::<(), VmError>(
                    VmError::TypeError,
                ))
                &&& (x.as_int_spec() matches Some(xi) ==> r == Ok::<(), VmError>(()) && final(self).slots() == old(self).slots().take(old(self).top_spec() - 1).push(
                    LuaValue::Integer(crate::arith_ops::int_arith_spec(op, xi, 0)),
                ))
            },
    {
        let unary = op == consts::LUA_OPUNM || op == consts::LUA_OPBNOT;
        if unary {
            if self.stack.top < 1 {
                return Err(VmError::IndexError);
            }
            let a = match self.stack.get(-1) {
                Some(v) => v,
                None => {
                    return Err(VmError::IndexError);
                },
            };
            let b = LuaValue::Integer(0);
            match crate::arith_ops::_arith(&a, &b, op, k) {
                Some(result) => {
                    self.stack.pop();
                    self.stack.push(result);
                    proof {
                        assert(final(self).slots().take(final(self).top_spec() - 1) =~= old(self).slots().take(old(self).top_spec() - 1));
                        assert(final(self).slots() =~= final(self).slots().take(
                            final(self).top_spec() - 1,
                        ).push(final(self).slots().last()));
                    }
                    Ok(())
                },
                None => Err(VmError::TypeError),
            }
        } else {
            if self.stack.top < 2 {
                return Err(VmError::IndexError);
            }
            let b = match self.stack.get(-1) {
                Some(v) => v,
                None => {
                    return Err(VmError::IndexError);
                },
            };
            let a = match self.stack.get(-2) {
                Some(v) => v,
                None => {
                    return Err(VmError::IndexError);
                },
            };
            match crate::arith_ops::_arith(&a, &b, op, k) {
                Some(result) => {
                    self.stack.pop();
                    self.stack.pop();
                    self.stack.push(result);
                    proof {
                        assert(old(self).slots().take(old(self).top_spec() - 1).drop_last() =~= old(self).slots().take(old(self).top_spec() - 2));
                        assert(final(self).slots().take(final(self).top_spec() - 1) =~= old(self).slots().take(old(self).top_spec() - 2));
                        assert(final(self).slots() =~= final(self).slots().take(
                            final(self).top_spec() - 1,
                        ).push(final(self).slots().last()));
                    }
                    Ok(())
                },
                None => Err(VmError::TypeError),
            }
        }
    }

    /// Compares the values at two indices without touching the stack:
    /// equality always has an answer; ordering faults on an unordered
    /// pair.
    pub fn compare(&self, idx1: isize, idx2: isize, op: u8) -> (r: Result<bool, VmError>)
        requires
            self.wf(),
            op <= consts::LUA_OPLE,
        ensures
            (abs_index_spec(self.top_spec(), idx1 as int) is None || abs_index_spec(
                self.top_spec(),
                idx2 as int,
            ) is None) ==> r == Err::<bool, VmError>(VmError::IndexError),
            abs_index_spec(self.top_spec(), idx1 as int) matches Some(a1) ==> (abs_index_spec(
                self.top_spec(),
                idx2 as int,
            ) matches Some(a2) ==> {
                let x = self.slots()[a1];
                let y = self.slots()[a2];
                &&& (op == consts::LUA_OPEQ ==> r == Ok::<bool, VmError>(
                    compare_ops::eq_spec(x, y),
                ))
                &&& (op == consts::LUA_OPLT ==> r == match compare_ops::lt_spec(x, y) {
                    Some(v) => Ok::<bool, VmError>(v),
                    None => Err::<bool, VmError>(VmError::TypeError),
                })
                &&& (op == consts::LUA_OPLE ==> r == match compare_ops::le_spec(x, y) {
                    Some(v) => Ok::<bool, VmError>(v),
                    None => Err::<bool, VmError>(VmError::TypeError),
                })
            }),
    {
        let a = match self.stack.get(idx1) {
            Some(v) => v,
            None => {
                return Err(VmError::IndexError);
            },
        };
        let b = match self.stack.get(idx2) {
            Some(v) => v,
            None => {
                return Err(VmError::IndexError);
            },
        };
        if op == consts::LUA_OPEQ {
            Ok(compare_ops::_eq(&a, &b))
        } else if op == consts::LUA_OPLT {
            match compare_ops::_lt(&a, &b) {
                Some(v) => Ok(v),
                None => Err(VmError::TypeError),
            }
        } else {
            match compare_ops::_le(&a, &b) {
                Some(v) => Ok(v),
                None => Err(VmError::TypeError),
            }
        }
    }

    /// Pushes the length of the value at an index: a string's byte
    /// length or a table's array-part length; anything else faults.
    pub fn len(&mut self, idx: isize) -> (r: Result<(), VmError>)
        requires
            old(self).wf(),
            old(self).top_spec() < usize::MAX,
        ensures
            final(self).wf(),
            final(self).same_rest(old(self)),
            r is Err ==> *final(self) == *old(self),
            abs_index_spec(old(self).top_spec(), idx as int) is None ==> r == Err::<(), VmError>(
                VmError::IndexError,
            ),
            abs_index_spec(old(self).top_spec(), idx as int) matches Some(a) ==> {
                let v = old(self).slots()[a];
                &&& (v matches LuaValue::Str(s) ==> (crate::lua_value::str_bytes(s).len()
                    <= i64::MAX && crate::lua_value::str_bytes(s).len() <= usize::MAX ==> r
                    == Ok::<(), VmError>(()) && final(self).slots() == old(self).slots().push(
                    LuaValue::Integer(crate::lua_value::str_bytes(s).len() as i64),
                )))
                &&& (v matches LuaValue::Table(h) ==> (old(self).tables@[h as int].arr@.len()
                    <= i64::MAX ==> r == Ok::<(), VmError>(()) && final(self).slots() == old(self).slots().push(LuaValue::Integer(old(self).tables@[h as int].arr@.len() as i64))))
                &&& (!(v matches LuaValue::Str(_)) && !(v matches LuaValue::Table(_)) ==> r
                    == Err::<(), VmError>(VmError::TypeError))
            },
    {
        let v = match self.stack.get(idx) {
            Some(v) => v,
            None => {
                return Err(VmError::IndexError);
            },
        };
        match v {
            LuaValue::Str(s) => {
                let ss = s.as_str();
                proof {
                    assert(ss.spec_bytes() == crate::lua_value::str_bytes(s));
                }
                let n = ss.len();
                if n as u64 > i64::MAX as u64 {
                    return Err(VmError::TypeError);
                }
                self.stack.push(LuaValue::Integer(n as i64));
                Ok(())
            },
            LuaValue::Table(h) => {
                proof {
                    assert(val_ok(old(self).slots()[abs_index_spec(
                        old(self).top_spec(),
                        idx as int,
                    )->Some_0], self.tables@.len() as int));
                }
                let n = self.tables[h].len();
                if n as u64 > i64::MAX as u64 {
                    return Err(VmError::TypeError);
                }
                self.stack.push(LuaValue::Integer(n as i64));
                Ok(())
            },
            _ => Err(VmError::TypeError),
        }
    }

    /// Pops the top `n` values and pushes their concatenation as one
    /// string; every operand must be a string or a number.  Zero
    /// operands push the empty string; one leaves the stack as it is.
    pub fn concat<K: NumberOps>(&mut self, n: isize, k: &K) -> (r: Result<(), VmError>)
        requires
            old(self).wf(),
            old(self).top_spec() < usize::MAX,
        ensures
            final(self).wf(),
            final(self).same_rest(old(self)),
            r is Err ==> *final(self) == *old(self),
            n == 0 ==> r == Ok::<(), VmError>(()) && final(self).slots().len() == old(self).slots().len() + 1 && final(self).slots().take(old(self).top_spec()) == old(self).slots() && (final(self).slots().last() matches LuaValue::Str(s0) && s0@
                == Seq::<char>::empty()),
            n == 1 || n < 0 ==> r == Ok::<(), VmError>(()) && *final(self) == *old(self),
            n >= 2 ==> {
                &&& (old(self).top_spec() < n ==> r == Err::<(), VmError>(VmError::IndexError))
                &&& (old(self).top_spec() >= n ==> {
                    let ops = old(self).slots().skip(old(self).top_spec() - n);
                    &&& (!all_stringable(ops) ==> r == Err::<(), VmError>(VmError::TypeError))
                    &&& (all_stringable(ops) ==> r == Ok::<(), VmError>(()) && final(self).top_spec() == old(self).top_spec() - n + 1 && final(self).slots().take(
                        old(self).top_spec() - n,
                    ) == old(self).slots().take(old(self).top_spec() - n) && (final(self).slots().last() matches LuaValue::Str(res)) && (cat_texts(ops) matches Some(
                        t,
                    ) ==> final(self).slots().last() matches LuaValue::Str(res2) && res2@ == t))
                })
            },
    {
        if n == 0 {
            self.stack.push(LuaValue::Str(String::new()));
            return Ok(());
        }
        if n == 1 || n < 0 {
            return Ok(());
        }
        let count = n as usize;
        if count > self.stack.top {
            return Err(VmError::IndexError);
        }
        let base = self.stack.top - count;
        let ghost ops = old(self).slots().skip(base as int);
        let mut i: usize = 0;
        while i < count
            invariant
                old(self).wf(),
                *self == *old(self),
                i <= count,
                n >= 2,
                count == n,
                base + count == old(self).top_spec(),
                count <= old(self).top_spec(),
                ops == old(self).slots().skip(base as int),
                forall|j: int|
                    0 <= j < i ==> ((#[trigger] ops[j]) matches LuaValue::Str(_) || ops[j] matches
                        LuaValue::Integer(_) || ops[j] matches LuaValue::Number(_)),
            decreases count - i,
        {
            let v = &self.stack.slots[base + i];
            let good = match v {
                LuaValue::Str(_) => true,
                LuaValue::Integer(_) => true,
                LuaValue::Number(_) => true,
                _ => false,
            };
            if !good {
                proof {
                    assert(ops[i as int] == old(self).slots()[base + i as int]);
                }
                return Err(VmError::TypeError);
            }
            i = i + 1;
        }
        let mut acc = String::new();
        let mut i2: usize = 0;
        proof {
            assert(ops.skip(0) =~= ops);
        }
        while i2 < count
            invariant
                old(self).wf(),
                *self == *old(self),
                i2 <= count,
                n >= 2,
                count == n,
                base + count == old(self).top_spec(),
                ops == old(self).slots().skip(base as int),
                all_stringable(ops),
                cat_texts(ops) matches Some(t) ==> (cat_texts(ops.skip(i2 as int)) matches Some(
                    t2,
                ) && acc@ + t2 == t),
            decreases count - i2,
        {
            let v = &self.stack.slots[base + i2];
            let piece = match v {
                LuaValue::Str(s) => s.clone(),
                LuaValue::Integer(x) => int_to_string(*x),
                LuaValue::Number(x) => k.number_text(*x),
                _ => String::new(),
            };
            proof {
                assert(ops.skip(i2 as int)[0] == ops[i2 as int]);
                assert(ops.skip(i2 as int).skip(1) =~= ops.skip(i2 as int + 1));
            }
            acc.append(piece.as_str());
            i2 = i2 + 1;
        }
        proof {
            assert(ops.skip(count as int) =~= Seq::<LuaValue>::empty());
        }
        let rp = self.pop(count);
        proof {
            assert(rp is Ok);
        }
        self.stack.push(LuaValue::Str(acc));
        Ok(())
    }
}

impl LuaState {
    /// Creates an empty table and pushes its handle.
    pub fn new_table(&mut self) -> (r: Result<(), VmError>)
        requires
            old(self).wf(),
            old(self).top_spec() < usize::MAX,
        ensures
            final(self).wf(),
            r == Ok::<(), VmError>(()),
            final(self).proto == old(self).proto,
            final(self).pc == old(self).pc,
            final(self).tables@.len() == old(self).tables@.len() + 1,
            final(self).tables@.last().arr@.len() == 0,
            final(self).tables@.last().map@.len() == 0,
            final(self).tables@.take(old(self).tables@.len() as int) == old(self).tables@,
            final(self).slots() == old(self).slots().push(
                LuaValue::Table(old(self).tables@.len() as usize),
            ),
    {
        self.create_table(0, 0)
    }

    /// Creates an empty table with size hints and pushes its handle.
    pub fn create_table(&mut self, n_arr: usize, n_rec: usize) -> (r: Result<(), VmError>)
        requires
            old(self).wf(),
            old(self).top_spec() < usize::MAX,
        ensures
            final(self).wf(),
            r == Ok::<(), VmError>(()),
            final(self).proto == old(self).proto,
            final(self).pc == old(self).pc,
            final(self).tables@.len() == old(self).tables@.len() + 1,
            final(self).tables@.last().arr@.len() == 0,
            final(self).tables@.last().map@.len() == 0,
            final(self).tables@.take(old(self).tables@.len() as int) == old(self).tables@,
            final(self).slots() == old(self).slots().push(
                LuaValue::Table(old(self).tables@.len() as usize),
            ),
    {
        let h = self.tables.len();
        let t = LuaTable::new(n_arr, n_rec);
        self.tables.push(t);
        self.stack.push(LuaValue::Table(h));
        proof {
            assert(final(self).tables@.take(old(self).tables@.len() as int) =~= old(self).tables@);
            assert forall|j: int|
                0 <= j < final(self).tables@.len() implies (#[trigger] final(self).tables@[j]).wf()
                && table_ok(final(self).tables@[j], final(self).tables@.len() as int) by {
                if j < old(self).tables@.len() {
                    assert(final(self).tables@[j] == old(self).tables@[j]);
                    lemma_table_ok_grow(old(self).tables@[j], old(self).tables@.len() as int);
                }
            }
        }
        Ok(())
    }

    /// Pops a key, reads the table at an index with it, pushes the
    /// result, and reports the result's type tag.
    pub fn get_table(&mut self, idx: isize) -> (r: Result<i8, VmError>)
        requires
            old(self).wf(),
        ensures
            final(self).wf(),
            final(self).same_rest(old(self)),
            r is Err ==> *final(self) == *old(self),
            (abs_index_spec(old(self).top_spec(), idx as int) is None || old(self).top_spec() < 1)
                ==> r == Err::<i8, VmError>(VmError::IndexError),
            abs_index_spec(old(self).top_spec(), idx as int) matches Some(a) ==> (old(self).top_spec() >= 1 ==> (match old(self).slots()[a] {
                LuaValue::Table(h) => {
                    let v = old(self).tables@[h as int].spec_get(old(self).slots().last());
                    r == Ok::<i8, VmError>(ty_spec(v)) && final(self).slots() == old(self).slots().drop_last().push(v)
                },
                _ => r == Err::<i8, VmError>(VmError::TypeError),
            })),
    {
        let t = match self.stack.get(idx) {
            Some(v) => v,
            None => {
                return Err(VmError::IndexError);
            },
        };
        if self.stack.top < 1 {
            return Err(VmError::IndexError);
        }
        match t {
            LuaValue::Table(h) => {
                let k = self.stack.pop();
                let v = self.tables[h].get(&k);
                proof {
                    crate::lua_table::lemma_spec_get_ok(
                        self.tables@[h as int],
                        k,
                        self.tables@.len() as int,
                    );
                }
                let ty = v.ty();
                self.stack.push(v);
                Ok(ty)
            },
            _ => Err(VmError::TypeError),
        }
    }

    /// Reads the table at an index with a string key and pushes the
    /// result.
    pub fn get_field(&mut self, idx: isize, k: &str) -> (r: Result<i8, VmError>)
        requires
            old(self).wf(),
            old(self).top_spec() < usize::MAX,
        ensures
            final(self).wf(),
            final(self).same_rest(old(self)),
            r is Err ==> *final(self) == *old(self),
            abs_index_spec(old(self).top_spec(), idx as int) is None ==> r == Err::<i8, VmError>(
                VmError::IndexError,
            ),
            abs_index_spec(old(self).top_spec(), idx as int) matches Some(a) ==> (match old(self).slots()[a] {
                LuaValue::Table(h) => {
                    let v = crate::lua_table::spec_get_text(old(self).tables@[h as int], k@);
                    r == Ok::<i8, VmError>(ty_spec(v)) && final(self).slots() == old(self).slots().push(v)
                },
                _ => r == Err::<i8, VmError>(VmError::TypeError),
            }),
    {
        let t = match self.stack.get(idx) {
            Some(v) => v,
            None => {
                return Err(VmError::IndexError);
            },
        };
        match t {
            LuaValue::Table(h) => {
                let key = LuaValue::Str(k.to_owned());
                let v = self.tables[h].get(&key);
                proof {
                    crate::lua_table::lemma_spec_get_ok(
                        self.tables@[h as int],
                        key,
                        self.tables@.len() as int,
                    );
                    crate::lua_table::lemma_spec_get_str(
                        self.tables@[h as int],
                        key->Str_0,
                    );
                }
                let ty = v.ty();
                self.stack.push(v);
                Ok(ty)
            },
            _ => Err(VmError::TypeError),
        }
    }

    /// Reads the table at an index with an integer key and pushes the
    /// result.
    pub fn get_i(&mut self, idx: isize, i: i64) -> (r: Result<i8, VmError>)
        requires
            old(self).wf(),
            old(self).top_spec() < usize::MAX,
        ensures
            final(self).wf(),
            final(self).same_rest(old(self)),
            r is Err ==> *final(self) == *old(self),
            abs_index_spec(old(self).top_spec(), idx as int) is None ==> r == Err::<i8, VmError>(
                VmError::IndexError,
            ),
            abs_index_spec(old(self).top_spec(), idx as int) matches Some(a) ==> (match old(self).slots()[a] {
                LuaValue::Table(h) => {
                    let v = old(self).tables@[h as int].spec_get(LuaValue::Integer(i));
                    r == Ok::<i8, VmError>(ty_spec(v)) && final(self).slots() == old(self).slots().push(v)
                },
                _ => r == Err::<i8, VmError>(VmError::TypeError),
            }),
    {
        let t = match self.stack.get(idx) {
            Some(v) => v,
            None => {
                return Err(VmError::IndexError);
            },
        };
        match t {
            LuaValue::Table(h) => {
                let key = LuaValue::Integer(i);
                let v = self.tables[h].get(&key);
                proof {
                    crate::lua_table::lemma_spec_get_ok(
                        self.tables@[h as int],
                        key,
                        self.tables@.len() as int,
                    );
                }
                let ty = v.ty();
                self.stack.push(v);
                Ok(ty)
            },
            _ => Err(VmError::TypeError),
        }
    }

    /// Pops a value then a key and binds the key in the table at an
    /// index.
    pub fn set_table(&mut self, idx: isize) -> (r: Result<(), VmError>)
        requires
            old(self).wf(),
        ensures
            final(self).wf(),
            final(self).proto == old(self).proto,
            final(self).pc == old(self).pc,
            (abs_index_spec(old(self).top_spec(), idx as int) is None || old(self).top_spec() < 2)
                ==> r == Err::<(), VmError>(VmError::IndexError) && *final(self) == *old(self),
            abs_index_spec(old(self).top_spec(), idx as int) matches Some(a) ==> (old(self).top_spec() >= 2 ==> (match old(self).slots()[a] {
                LuaValue::Table(h) => {
                    let key = old(self).slots()[old(self).top_spec() - 2];
                    let v = old(self).slots().last();
                    &&& (!crate::lua_table::is_valid_key(key) ==> r == Err::<(), VmError>(
                        VmError::TypeError,
                    ))
                    &&& (crate::lua_table::is_valid_key(key) ==> r == Ok::<(), VmError>(())
                        && final(self).slots() == old(self).slots().take(
                        old(self).top_spec() - 2,
                    ) && final(self).tables@.len() == old(self).tables@.len() && put_rel(
                        old(self).tables@[h as int],
                        final(self).tables@[h as int],
                        key,
                        v,
                    ) && (forall|j: int|
                        0 <= j < old(self).tables@.len() && j != h ==> final(self).tables@[j]
                            == #[trigger] old(self).tables@[j]))
                },
                _ => r == Err::<(), VmError>(VmError::TypeError) && *final(self) == *old(self),
            })),
    {
        let t = match self.stack.get(idx) {
            Some(v) => v,
            None => {
                return Err(VmError::IndexError);
            },
        };
        if self.stack.top < 2 {
            return Err(VmError::IndexError);
        }
        match t {
            LuaValue::Table(h) => {
                let key_probe = match self.stack.get(-2) {
                    Some(kv) => kv,
                    None => {
                        return Err(VmError::IndexError);
                    },
                };
                let key_bad = match &key_probe {
                    LuaValue::Nil => true,
                    LuaValue::Number(n) => crate::float_bits::f64_is_nan(*n),
                    _ => false,
                };
                if key_bad {
                    return Err(VmError::TypeError);
                }
                let v = self.stack.pop();
                let k = self.stack.pop();
                self.put_in_table(h, k, v)
            },
            _ => Err(VmError::TypeError),
        }
    }

    /// Binds a key in the arena table `h`; the key must be valid.
    fn put_in_table(&mut self, h: usize, k: LuaValue, v: LuaValue) -> (r: Result<(), VmError>)
        requires
            old(self).wf(),
            (h as int) < old(self).tables@.len(),
            crate::lua_table::is_valid_key(k),
            val_ok(k, old(self).tables@.len() as int),
            val_ok(v, old(self).tables@.len() as int),
        ensures
            final(self).wf(),
            final(self).proto == old(self).proto,
            final(self).pc == old(self).pc,
            final(self).slots() == old(self).slots(),
            final(self).stack == old(self).stack,
            r == Ok::<(), VmError>(()),
            final(self).tables@.len() == old(self).tables@.len(),
            put_rel(old(self).tables@[h as int], final(self).tables@[h as int], k, v),
            forall|j: int|
                0 <= j < old(self).tables@.len() && j != h ==> final(self).tables@[j]
                    == #[trigger] old(self).tables@[j],
    {
        let mut t = self.tables.remove(h);
        let pr = t.put(&k, &v);
        proof {
            assert(pr is Ok);
        }
        self.tables.insert(h, t);
        proof {
            assert(final(self).tables@ =~= old(self).tables@.update(
                h as int,
                final(self).tables@[h as int],
            ));
            crate::lua_table::lemma_put_rel_ok(
                old(self).tables@[h as int],
                final(self).tables@[h as int],
                k,
                v,
                old(self).tables@.len() as int,
            );
        }
        Ok(())
    }

    /// Pops a value and binds a string key in the table at an index.
    pub fn set_field(&mut self, idx: isize, k: &str) -> (r: Result<(), VmError>)
        requires
            old(self).wf(),
        ensures
            final(self).wf(),
            final(self).proto == old(self).proto,
            final(self).pc == old(self).pc,
            (abs_index_spec(old(self).top_spec(), idx as int) is None || old(self).top_spec() < 1)
                ==> r == Err::<(), VmError>(VmError::IndexError) && *final(self) == *old(self),
            abs_index_spec(old(self).top_spec(), idx as int) matches Some(a) ==> (old(self).top_spec() >= 1 ==> (match old(self).slots()[a] {
                LuaValue::Table(h) => {
                    let v = old(self).slots().last();
                    r == Ok::<(), VmError>(()) && final(self).slots() == old(self).slots().take(
                        old(self).top_spec() - 1,
                    ) && final(self).tables@.len() == old(self).tables@.len() && (exists|
                        ks: String,
                    |
                        ks@ == k@ && put_rel(
                            old(self).tables@[h as int],
                            final(self).tables@[h as int],
                            LuaValue::Str(ks),
                            v,
                        )) && (forall|j: int|
                        0 <= j < old(self).tables@.len() && j != h ==> final(self).tables@[j]
                            == #[trigger] old(self).tables@[j])
                },
                _ => r == Err::<(), VmError>(VmError::TypeError) && *final(self) == *old(self),
            })),
    {
        let t = match self.stack.get(idx) {
            Some(v) => v,
            None => {
                return Err(VmError::IndexError);
            },
        };
        if self.stack.top < 1 {
            return Err(VmError::IndexError);
        }
        match t {
            LuaValue::Table(h) => {
                let v = self.stack.pop();
                let key = LuaValue::Str(k.to_owned());
                let ghost gkey = key;
                let r = self.put_in_table(h, key, v);
                proof {
                    assert(gkey->Str_0@ == k@ && put_rel(
                        old(self).tables@[h as int],
                        final(self).tables@[h as int],
                        LuaValue::Str(gkey->Str_0),
                        old(self).slots().last(),
                    ));
                }
                r
            },
            _ => Err(VmError::TypeError),
        }
    }

    /// Pops a value and binds an integer key in the table at an index.
    pub fn set_i(&mut self, idx: isize, i: i64) -> (r: Result<(), VmError>)
        requires
            old(self).wf(),
        ensures
            final(self).wf(),
            final(self).proto == old(self).proto,
            final(self).pc == old(self).pc,
            (abs_index_spec(old(self).top_spec(), idx as int) is None || old(self).top_spec() < 1)
                ==> r == Err::<(), VmError>(VmError::IndexError) && *final(self) == *old(self),
            abs_index_spec(old(self).top_spec(), idx as int) matches Some(a) ==> (old(self).top_spec() >= 1 ==> (match old(self).slots()[a] {
                LuaValue::Table(h) => {
                    let v = old(self).slots().last();
                    r == Ok::<(), VmError>(()) && final(self).slots() == old(self).slots().take(
                        old(self).top_spec() - 1,
                    ) && final(self).tables@.len() == old(self).tables@.len() && put_rel(
                        old(self).tables@[h as int],
                        final(self).tables@[h as int],
                        LuaValue::Integer(i),
                        v,
                    ) && (forall|j: int|
                        0 <= j < old(self).tables@.len() && j != h ==> final(self).tables@[j]
                            == #[trigger] old(self).tables@[j])
                },
                _ => r == Err::<(), VmError>(VmError::TypeError) && *final(self) == *old(self),
            })),
    {
        let t = match self.stack.get(idx) {
            Some(v) => v,
            None => {
                return Err(VmError::IndexError);
            },
        };
        if self.stack.top < 1 {
            return Err(VmError::IndexError);
        }
        match t {
            LuaValue::Table(h) => {
                let v = self.stack.pop();
                self.put_in_table(h, LuaValue::Integer(i), v)
            },
            _ => Err(VmError::TypeError),
        }
    }

    /// The current program counter.
    pub fn pc(&self) -> (r: isize)
        ensures
            r == self.pc,
    {
        self.pc
    }

    /// Adds a (possibly negative) offset to the program counter.
    pub fn add_pc(&mut self, n: isize) -> (r: Result<(), VmError>)
        requires
            old(self).wf(),
        ensures
            final(self).wf(),
            final(self).stack == old(self).stack,
            final(self).proto == old(self).proto,
            final(self).tables@ == old(self).tables@,
            isize::MIN <= old(self).pc + n <= isize::MAX ==> r == Ok::<(), VmError>(()) && final(self).pc == old(self).pc + n,
            !(isize::MIN <= old(self).pc + n <= isize::MAX) ==> r == Err::<(), VmError>(
                VmError::IndexError,
            ) && final(self).pc == old(self).pc,
    {
        match self.pc.checked_add(n) {
            Some(p) => {
                self.pc = p;
                Ok(())
            },
            None => Err(VmError::IndexError),
        }
    }

    /// Reads the code word at the program counter and advances it.
    pub fn fetch(&mut self) -> (r: Result<u32, VmError>)
        requires
            old(self).wf(),
        ensures
            final(self).wf(),
            final(self).stack == old(self).stack,
            final(self).proto == old(self).proto,
            final(self).tables@ == old(self).tables@,
            !(0 <= old(self).pc < old(self).proto.code@.len() && old(self).pc < isize::MAX)
                ==> r == Err::<u32, VmError>(VmError::IndexError) && final(self).pc == old(self).pc,
            0 <= old(self).pc < old(self).proto.code@.len() && old(self).pc < isize::MAX ==> r
                == Ok::<u32, VmError>(old(self).proto.code@[old(self).pc as int]) && final(self).pc
                == old(self).pc + 1,
    {
        if self.pc < 0 {
            return Err(VmError::IndexError);
        }
        let p = self.pc as usize;
        if p >= self.proto.code.len() {
            return Err(VmError::IndexError);
        }
        if self.pc == isize::MAX {
            return Err(VmError::IndexError);
        }
        let w = self.proto.code[p];
        self.pc = self.pc + 1;
        Ok(w)
    }

    /// Loads the constant at an index onto the stack.
    pub fn get_const(&mut self, idx: isize) -> (r: Result<(), VmError>)
        requires
            old(self).wf(),
            old(self).top_spec() < usize::MAX,
        ensures
            final(self).wf(),
            final(self).same_rest(old(self)),
            !(0 <= idx < old(self).proto.constants@.len()) ==> r == Err::<(), VmError>(
                VmError::IndexError,
            ) && final(self).slots() == old(self).slots(),
            0 <= idx < old(self).proto.constants@.len() ==> r == Ok::<(), VmError>(()) && final(self).slots() == old(self).slots().push(
                const_value_spec(old(self).proto.constants@[idx as int]),
            ),
    {
        if idx < 0 {
            return Err(VmError::IndexError);
        }
        let p = idx as usize;
        if p >= self.proto.constants.len() {
            return Err(VmError::IndexError);
        }
        let val = match &self.proto.constants[p] {
            Constant::Nil => LuaValue::Nil,
            Constant::Boolean(b) => LuaValue::Boolean(*b),
            Constant::Integer(i) => LuaValue::Integer(*i),
            Constant::Number(n) => LuaValue::Number(*n),
            Constant::Str(s) => LuaValue::Str(s.clone()),
        };
        self.stack.push(val);
        Ok(())
    }

    /// Resolves a register-or-constant operand: a raw value above 0xff
    /// names a constant (its low bits), anything else a register
    /// (1-based).
    pub fn get_rk(&mut self, rk: isize) -> (r: Result<(), VmError>)
        requires
            old(self).wf(),
            old(self).top_spec() < usize::MAX,
            -1000000 <= rk <= 1000000,
        ensures
            final(self).wf(),
            final(self).same_rest(old(self)),
            rk > 0xff ==> (!(0 <= (rk & 0xff) < old(self).proto.constants@.len()) ==> r == Err::<
                (),
                VmError,
            >(VmError::IndexError) && final(self).slots() == old(self).slots()),
            rk > 0xff ==> (0 <= (rk & 0xff) < old(self).proto.constants@.len() ==> r == Ok::<
                (),
                VmError,
            >(()) && final(self).slots() == old(self).slots().push(
                const_value_spec(old(self).proto.constants@[(rk & 0xff) as int]),
            )),
            rk <= 0xff ==> (abs_index_spec(old(self).top_spec(), rk + 1) is None ==> r == Err::<
                (),
                VmError,
            >(VmError::IndexError) && final(self).slots() == old(self).slots()),
            rk <= 0xff ==> (abs_index_spec(old(self).top_spec(), rk + 1) matches Some(a) ==> r
                == Ok::<(), VmError>(()) && final(self).slots() == old(self).slots().push(
                old(self).slots()[a],
            )),
    {
        if rk > 0xff {
            self.get_const(rk & 0xff)
        } else {
            self.push_value(rk + 1)
        }
    }
}

proof fn lemma_table_ok_grow(t: LuaTable, n: int)
    requires
        table_ok(t, n),
    ensures
        table_ok(t, n + 1),
{
}

/// The slice from `a` up to `e` (exclusive) cyclically rotated around
/// the pivot `p`, as the three-reversal decomposition prescribes:
/// reverse below the pivot, reverse from the pivot up, reverse the
/// whole slice.
pub open spec fn rotated(s: Seq<LuaValue>, a: int, p: int, e: int) -> Seq<LuaValue> {
    reverse_range(reverse_range(reverse_range(s, a, p - 1), p, e - 1), a, e - 1)
}

/// The decimal text of an integer: a minus sign for negatives, then the
/// digits, no padding.
pub open spec fn dec_str_of(i: int) -> Seq<char> {
    if i == 0 {
        seq!['0']
    } else if i > 0 {
        dec_digits(i)
    } else {
        seq!['-'] + dec_digits(-i)
    }
}

/// The decimal digits of a positive integer, most significant first.
pub open spec fn dec_digits(n: int) -> Seq<char>
    decreases n,
{
    if n <= 0 {
        Seq::empty()
    } else {
        dec_digits(n / 10).push(dec_digit_char(n % 10))
    }
}

/// The character of one decimal digit.
pub open spec fn dec_digit_char(d: int) -> char {
    if d == 0 {
        '0'
    } else if d == 1 {
        '1'
    } else if d == 2 {
        '2'
    } else if d == 3 {
        '3'
    } else if d == 4 {
        '4'
    } else if d == 5 {
        '5'
    } else if d == 6 {
        '6'
    } else if d == 7 {
        '7'
    } else if d == 8 {
        '8'
    } else {
        '9'
    }
}

/// Relies on i64's decimal formatting: a minus sign for negatives, then
/// the decimal digits with no padding.
#[verifier::external_body]
fn int_to_string(i: i64) -> (r: String)
    ensures
        r@ == dec_str_of(i as int),
{
    i.to_string()
}

} // verus!
