//! The register stack: a growable sequence of values whose `top` counter
//! always equals its length.
//!
//! Indexing is dual-direction: a positive index counts from the bottom
//! (1 is the first slot), a negative one from the top (-1 is the last
//! slot).  Index 0, indices above `top` and indices below `-top` are
//! invalid.

use vstd::prelude::*;

use crate::lua_value::LuaValue;

verus! {

pub struct LuaStack {
    pub slots: Vec<LuaValue>,
    pub top: usize,
}

/// The 0-based slot a dual-direction index denotes, when it denotes one.
pub open spec fn abs_index_spec(top: int, idx: int) -> Option<int> {
    if 1 <= idx <= top {
        Some(idx - 1)
    } else if -top <= idx <= -1 {
        Some(top + idx)
    } else {
        None
    }
}

/// The new top a `set_top` argument denotes: itself when non-negative,
/// else counted back from the current top.
pub open spec fn new_top_spec(top: int, idx: int) -> int {
    if idx >= 0 {
        idx
    } else {
        top + idx + 1
    }
}

/// The sequence with the slots from `a` to `b` (0-based, inclusive)
/// reversed in place; the identity when `a > b`.
pub open spec fn reverse_range(s: Seq<LuaValue>, a: int, b: int) -> Seq<LuaValue> {
    Seq::new(
        s.len(),
        |i: int|
            if a <= i <= b {
                s[a + b - i]
            } else {
                s[i]
            },
    )
}

impl LuaStack {
    /// Whether the top counter equals the slot count.
    pub open spec fn wf(&self) -> bool {
        self.top == self.slots@.len()
    }

    /// Creates an empty stack with a capacity hint.
    pub fn new(size: usize) -> (r: LuaStack)
        ensures
            r.wf(),
            r.slots@.len() == 0,
    {
        LuaStack { slots: Vec::with_capacity(size), top: 0 }
    }

    /// Pushes a value on top.
    pub fn push(&mut self, val: LuaValue)
        requires
            old(self).wf(),
            old(self).top < usize::MAX,
        ensures
            final(self).wf(),
            final(self).slots@ == old(self).slots@.push(val),
            final(self).top == old(self).top + 1,
    {
        self.slots.push(val);
        self.top = self.top + 1;
    }

    /// Pops the topmost value; the stack must not be empty.
    pub fn pop(&mut self) -> (r: LuaValue)
        requires
            old(self).wf(),
            old(self).top >= 1,
        ensures
            final(self).wf(),
            r == old(self).slots@.last(),
            final(self).slots@ == old(self).slots@.drop_last(),
            final(self).top == old(self).top - 1,
    {
        self.top = self.top - 1;
        match self.slots.pop() {
            Some(v) => v,
            None => {
                proof {
                    assert(false);
                }
                LuaValue::Nil
            },
        }
    }

    /// Resolves a dual-direction index to a 0-based slot: `Some(i - 1)`
    /// for `i` in `[1, top]`, `Some(top + i)` for `i` in `[-top, -1]`,
    /// `None` otherwise (index 0 included).
    pub fn abs_index(&self, idx: isize) -> (r: Option<usize>)
        requires
            self.wf(),
        ensures
            match r {
                Some(a) => abs_index_spec(self.top as int, idx as int) == Some(a as int),
                None => abs_index_spec(self.top as int, idx as int) is None,
            },
    {
        if idx >= 1 {
            if idx as usize <= self.top {
                Some((idx as usize) - 1)
            } else {
                None
            }
        } else if idx <= -1 {
            let mag: usize = if idx == isize::MIN {
                (isize::MAX as usize) + 1
            } else {
                (-idx) as usize
            };
            if mag <= self.top {
                Some(self.top - mag)
            } else {
                None
            }
        } else {
            None
        }
    }

    /// Reads the value a dual-direction index denotes.
    pub fn get(&self, idx: isize) -> (r: Option<LuaValue>)
        requires
            self.wf(),
        ensures
            match abs_index_spec(self.top as int, idx as int) {
                Some(a) => r == Some(self.slots@[a]),
                None => r is None,
            },
    {
        match self.abs_index(idx) {
            Some(a) => Some(self.slots[a].clone()),
            None => None,
        }
    }

    /// Overwrites the slot a dual-direction index denotes; the index must
    /// be valid.
    pub fn set(&mut self, idx: isize, val: LuaValue)
        requires
            old(self).wf(),
            abs_index_spec(old(self).top as int, idx as int) is Some,
        ensures
            final(self).wf(),
            final(self).top == old(self).top,
            final(self).slots@ == old(self).slots@.update(
                abs_index_spec(old(self).top as int, idx as int)->Some_0,
                val,
            ),
    {
        match self.abs_index(idx) {
            Some(a) => {
                self.slots[a] = val;
            },
            None => {
                proof {
                    assert(false);
                }
            },
        }
    }

    /// Sets the top: pads with nil when growing, discards when shrinking.
    /// A negative argument counts the new top back from the current one.
    pub fn set_top(&mut self, idx: isize)
        requires
            old(self).wf(),
            new_top_spec(old(self).top as int, idx as int) >= 0,
            new_top_spec(old(self).top as int, idx as int) < usize::MAX,
        ensures
            final(self).wf(),
            final(self).top as int == new_top_spec(old(self).top as int, idx as int),
            final(self).slots@ == if new_top_spec(old(self).top as int, idx as int) <= old(
                self,
            ).top as int {
                old(self).slots@.take(new_top_spec(old(self).top as int, idx as int))
            } else {
                old(self).slots@ + Seq::new(
                    (new_top_spec(old(self).top as int, idx as int) - old(self).top) as nat,
                    |i: int| LuaValue::Nil,
                )
            },
    {
        let ghost target = new_top_spec(old(self).top as int, idx as int);
        let new_top: usize = if idx >= 0 {
            idx as usize
        } else {
            let back = (-(idx + 1)) as usize;
            self.top - back
        };
        while self.top > new_top
            invariant
                old(self).wf(),
                self.wf(),
                target == new_top,
                self.top <= old(self).top,
                new_top <= self.top || self.top == old(self).top,
                self.slots@ == old(self).slots@.take(self.top as int),
            decreases self.top,
        {
            self.slots.pop();
            self.top = self.top - 1;
            proof {
                assert(old(self).slots@.take(self.top as int + 1).drop_last() =~= old(
                    self,
                ).slots@.take(self.top as int));
            }
        }
        proof {
            assert(old(self).slots@.take(old(self).top as int) =~= old(self).slots@);
        }
        while self.top < new_top
            invariant
                old(self).wf(),
                self.wf(),
                target == new_top,
                new_top < usize::MAX,
                old(self).top <= new_top ==> self.top >= old(self).top,
                self.top <= new_top,
                self.top >= old(self).top || self.top == new_top,
                self.slots@ == if self.top <= old(self).top {
                    old(self).slots@.take(self.top as int)
                } else {
                    old(self).slots@ + Seq::new(
                        (self.top - old(self).top) as nat,
                        |i: int| LuaValue::Nil,
                    )
                },
            decreases new_top - self.top,
        {
            self.slots.push(LuaValue::Nil);
            self.top = self.top + 1;
            proof {
                if self.top > old(self).top {
                    assert(self.slots@ =~= old(self).slots@ + Seq::new(
                        (self.top - old(self).top) as nat,
                        |i: int| LuaValue::Nil,
                    ));
                }
            }
        }
        proof {
            if target <= old(self).top as int && target == self.top as int {
                assert(self.slots@ == old(self).slots@.take(target));
            }
        }
    }

    /// Reverses the slots between two dual-direction indices, both
    /// inclusive; both must be valid.
    pub fn reverse(&mut self, from: isize, to: isize)
        requires
            old(self).wf(),
            abs_index_spec(old(self).top as int, from as int) is Some,
            abs_index_spec(old(self).top as int, to as int) is Some,
        ensures
            final(self).wf(),
            final(self).top == old(self).top,
            final(self).slots@ == reverse_range(
                old(self).slots@,
                abs_index_spec(old(self).top as int, from as int)->Some_0,
                abs_index_spec(old(self).top as int, to as int)->Some_0,
            ),
    {
        let a = match self.abs_index(from) {
            Some(x) => x,
            None => 0,
        };
        let b = match self.abs_index(to) {
            Some(x) => x,
            None => 0,
        };
        let ghost ga = a as int;
        let ghost gb = b as int;
        let mut from_abs = a;
        let mut to_abs = b;
        while from_abs < to_abs
            invariant
                old(self).wf(),
                self.wf(),
                self.top == old(self).top,
                0 <= ga < old(self).slots@.len(),
                0 <= gb < old(self).slots@.len(),
                ga <= from_abs <= to_abs + 1 <= gb + 1 || (ga == from_abs && gb == to_abs),
                from_abs + to_abs == ga + gb,
                self.slots@.len() == old(self).slots@.len(),
                forall|i: int|
                    0 <= i < self.slots@.len() ==> #[trigger] self.slots@[i] == (
                    if ga <= i < from_abs || to_abs < i <= gb {
                        old(self).slots@[ga + gb - i]
                    } else {
                        old(self).slots@[i]
                    }),
            decreases to_abs - from_abs + 1,
        {
            let x = self.slots[from_abs].clone();
            let y = self.slots[to_abs].clone();
            self.slots[from_abs] = y;
            self.slots[to_abs] = x;
            from_abs = from_abs + 1;
            to_abs = to_abs - 1;
        }
        proof {
            assert(self.slots@ =~= reverse_range(old(self).slots@, ga, gb));
        }
    }
}

} // verus!
