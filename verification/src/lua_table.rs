//! The hybrid table container: a densely indexed array part for integer
//! keys from 1 up, and an association list for every other key.
//!
//! A key is array-eligible when it is an integer of at least 1, or a float
//! encoding exactly such an integer.  Writing nil at the last array slot
//! truncates trailing nils; appending just past the array end grows it and
//! then pulls immediately following integer keys out of the hash part.
//! Keys compare by Lua raw equality: structurally, floats by IEEE-754
//! equality, tables by handle identity.

use vstd::prelude::*;

use crate::errors::VmError;
use crate::float_bits;
use crate::lua_value::LuaValue;

verus! {

/// Whether a value may be used as a table key: not nil and not NaN.
pub open spec fn is_valid_key(k: LuaValue) -> bool {
    match k {
        LuaValue::Nil => false,
        LuaValue::Number(n) => !float_bits::nan_bits(n),
        _ => true,
    }
}

/// Raw key equality: structural over the variants, floats by IEEE-754
/// equality, strings by their text, tables by handle identity.
pub open spec fn key_eq(a: LuaValue, b: LuaValue) -> bool {
    match (a, b) {
        (LuaValue::Nil, LuaValue::Nil) => true,
        (LuaValue::Boolean(x), LuaValue::Boolean(y)) => x == y,
        (LuaValue::Integer(x), LuaValue::Integer(y)) => x == y,
        (LuaValue::Number(x), LuaValue::Number(y)) => float_bits::num_eq_bits(x, y),
        (LuaValue::Str(x), LuaValue::Str(y)) => x@ == y@,
        (LuaValue::Table(x), LuaValue::Table(y)) => x == y,
        _ => false,
    }
}

/// The array index a key is eligible for: an integer of at least 1, or a
/// float encoding exactly such an integer.
pub open spec fn to_index_spec(k: LuaValue) -> Option<int> {
    match k {
        LuaValue::Integer(i) => if i >= 1 {
            Some(i as int)
        } else {
            None
        },
        LuaValue::Number(n) => match float_bits::bits_to_i64_spec(n) {
            Some(i) => if i >= 1 {
                Some(i as int)
            } else {
                None
            },
            None => None,
        },
        _ => None,
    }
}

/// The value the association list holds for a key, nil when absent.
pub open spec fn assoc_get(m: Seq<(LuaValue, LuaValue)>, k: LuaValue) -> LuaValue
    decreases m.len(),
{
    if m.len() == 0 {
        LuaValue::Nil
    } else if key_eq(m[0].0, k) {
        m[0].1
    } else {
        assoc_get(m.skip(1), k)
    }
}

/// Whether the association list holds the key.
pub open spec fn assoc_has(m: Seq<(LuaValue, LuaValue)>, k: LuaValue) -> bool
    decreases m.len(),
{
    if m.len() == 0 {
        false
    } else if key_eq(m[0].0, k) {
        true
    } else {
        assoc_has(m.skip(1), k)
    }
}

/// The association list with the first entry for the key removed.
pub open spec fn assoc_remove(m: Seq<(LuaValue, LuaValue)>, k: LuaValue) -> Seq<
    (LuaValue, LuaValue),
>
    decreases m.len(),
{
    if m.len() == 0 {
        m
    } else if key_eq(m[0].0, k) {
        m.skip(1)
    } else {
        seq![m[0]] + assoc_remove(m.skip(1), k)
    }
}

/// The association list with the key bound to the value: the first entry
/// for the key updated in place (its stored key kept), or a new entry
/// appended.
pub open spec fn assoc_put(m: Seq<(LuaValue, LuaValue)>, k: LuaValue, v: LuaValue) -> Seq<
    (LuaValue, LuaValue),
>
    decreases m.len(),
{
    if m.len() == 0 {
        seq![(k, v)]
    } else if key_eq(m[0].0, k) {
        seq![(m[0].0, v)] + m.skip(1)
    } else {
        seq![m[0]] + assoc_put(m.skip(1), k, v)
    }
}

/// The array with its trailing nils dropped.
pub open spec fn shrunk(s: Seq<LuaValue>) -> Seq<LuaValue>
    decreases s.len(),
{
    if s.len() == 0 || !(s.last() matches LuaValue::Nil) {
        s
    } else {
        shrunk(s.drop_last())
    }
}

proof fn lemma_assoc_remove_len(m: Seq<(LuaValue, LuaValue)>, k: LuaValue)
    ensures
        assoc_remove(m, k).len() == if assoc_has(m, k) {
            m.len() - 1
        } else {
            m.len() as int
        },
    decreases m.len(),
{
    if m.len() > 0 && !key_eq(m[0].0, k) {
        lemma_assoc_remove_len(m.skip(1), k);
    }
}

proof fn lemma_assoc_has_index(m: Seq<(LuaValue, LuaValue)>, k: LuaValue)
    ensures
        assoc_has(m, k) <==> exists|j: int| 0 <= j < m.len() && key_eq((#[trigger] m[j]).0, k),
    decreases m.len(),
{
    if m.len() > 0 {
        lemma_assoc_has_index(m.skip(1), k);
        if !key_eq(m[0].0, k) && assoc_has(m.skip(1), k) {
            let j = choose|j: int| 0 <= j < m.skip(1).len() && key_eq((#[trigger] m.skip(1)[j]).0, k);
            assert(key_eq(m[j + 1].0, k));
        }
        if exists|j: int| 0 <= j < m.len() && key_eq((#[trigger] m[j]).0, k) {
            let j = choose|j: int| 0 <= j < m.len() && key_eq((#[trigger] m[j]).0, k);
            if j > 0 {
                assert(key_eq(m.skip(1)[j - 1].0, k));
            }
        }
    }
}

/// The array and hash parts after expansion: while the hash part holds
/// the integer key just past the array end, the bound value moves to the
/// array.
pub open spec fn expand_spec(arr: Seq<LuaValue>, m: Seq<(LuaValue, LuaValue)>) -> (
    Seq<LuaValue>,
    Seq<(LuaValue, LuaValue)>,
)
    decreases m.len(),
    via expand_spec_decreases
{
    if arr.len() >= 0x7fffffffffffffff {
        (arr, m)
    } else {
        let k = LuaValue::Integer((arr.len() + 1) as i64);
        if assoc_has(m, k) {
            expand_spec(arr.push(assoc_get(m, k)), assoc_remove(m, k))
        } else {
            (arr, m)
        }
    }
}

#[via_fn]
proof fn expand_spec_decreases(arr: Seq<LuaValue>, m: Seq<(LuaValue, LuaValue)>) {
    if arr.len() < 0x7fffffffffffffff {
        let k = LuaValue::Integer((arr.len() + 1) as i64);
        if assoc_has(m, k) {
            lemma_assoc_remove_len(m, k);
        }
    }
}

pub struct LuaTable {
    pub arr: Vec<LuaValue>,
    pub map: Vec<(LuaValue, LuaValue)>,
}

/// How a table's two parts after a `put` relate to the parts before it:
/// an in-reach eligible key writes the array slot, truncating on a
/// trailing nil; a key just past the end appends and expands; any other
/// key updates the hash part, a nil value meaning removal.
pub open spec fn put_rel(t0: LuaTable, t1: LuaTable, k: LuaValue, v: LuaValue) -> bool {
    match to_index_spec(k) {
        Some(i) => {
            if 1 <= i <= t0.arr@.len() {
                t1.map@ == t0.map@ && t1.arr@ == (if i == t0.arr@.len() && (v matches
                LuaValue::Nil) {
                    shrunk(t0.arr@.update(i - 1, LuaValue::Nil))
                } else {
                    t0.arr@.update(i - 1, v)
                })
            } else if i == t0.arr@.len() + 1 && !(v matches LuaValue::Nil) {
                (t1.arr@, t1.map@) == expand_spec(t0.arr@.push(v), assoc_remove(t0.map@, k))
            } else {
                t1.arr@ == t0.arr@ && t1.map@ == (if (v matches LuaValue::Nil) {
                    assoc_remove(t0.map@, k)
                } else {
                    assoc_put(t0.map@, k, v)
                })
            }
        },
        None => {
            t1.arr@ == t0.arr@ && t1.map@ == (if (v matches LuaValue::Nil) {
                assoc_remove(t0.map@, k)
            } else {
                assoc_put(t0.map@, k, v)
            })
        },
    }
}

/// Whether every value a table holds keeps its handles below the arena
/// length `n`.
pub open spec fn table_ok(t: LuaTable, n: int) -> bool {
    &&& (forall|i: int|
        0 <= i < t.arr@.len() ==> crate::lua_value::val_ok(#[trigger] t.arr@[i], n))
    &&& (forall|j: int|
        0 <= j < t.map@.len() ==> crate::lua_value::val_ok((#[trigger] t.map@[j]).0, n)
            && crate::lua_value::val_ok(t.map@[j].1, n))
}

/// The hash-part invariant over an association list, relative to an
/// array length: valid keys, non-nil values, integer keys of at least 1
/// beyond the array's reach, pairwise distinct keys.
pub open spec fn map_wf(m: Seq<(LuaValue, LuaValue)>, arr_len: int) -> bool {
    &&& (forall|j: int|
        0 <= j < m.len() ==> is_valid_key((#[trigger] m[j]).0) && !(
        m[j].1 matches LuaValue::Nil))
    &&& (forall|j: int|
        0 <= j < m.len() ==> ((#[trigger] m[j]).0 matches LuaValue::Integer(i) ==> (i >= 1 ==> i
            > arr_len + 1)))
    &&& (forall|j1: int, j2: int|
        0 <= j1 < j2 < m.len() ==> !key_eq((#[trigger] m[j1]).0, (#[trigger] m[j2]).0))
}

impl LuaTable {
    /// The container invariant: the array has no trailing nil, and the
    /// hash part satisfies `map_wf` for the current array length.
    pub open spec fn wf(&self) -> bool {
        &&& (self.arr@.len() > 0 ==> !(self.arr@.last() matches LuaValue::Nil))
        &&& map_wf(self.map@, self.arr@.len() as int)
    }

    /// The value the table holds for a key: the array part when the key
    /// is eligible and within reach, else the hash part, nil for absence.
    pub open spec fn spec_get(&self, k: LuaValue) -> LuaValue {
        match to_index_spec(k) {
            Some(i) => if 1 <= i <= self.arr@.len() {
                self.arr@[i - 1]
            } else {
                assoc_get(self.map@, k)
            },
            None => assoc_get(self.map@, k),
        }
    }

    /// Creates an empty table with capacity hints for both parts.
    pub fn new(n_arr: usize, n_rec: usize) -> (r: LuaTable)
        ensures
            r.wf(),
            r.arr@.len() == 0,
            r.map@.len() == 0,
    {
        LuaTable { arr: Vec::with_capacity(n_arr), map: Vec::with_capacity(n_rec) }
    }

    /// The border: the current length of the array part.
    pub fn len(&self) -> (r: usize)
        ensures
            r == self.arr@.len(),
    {
        self.arr.len()
    }

    /// The number of entries in the hash part.
    pub fn hash_len(&self) -> (r: usize)
        ensures
            r == self.map@.len(),
    {
        self.map.len()
    }

    /// Reads the value bound to a key, nil for absence.
    pub fn get(&self, key: &LuaValue) -> (r: LuaValue)
        ensures
            r == self.spec_get(*key),
    {
        match to_index(key) {
            Some(idx) => {
                if idx >= 1 && idx <= self.arr.len() as u64 {
                    return self.arr[(idx - 1) as usize].clone();
                }
            },
            None => {},
        }
        self.assoc_lookup(key)
    }

    /// Scans the hash part for a key.
    fn assoc_lookup(&self, key: &LuaValue) -> (r: LuaValue)
        ensures
            r == assoc_get(self.map@, *key),
    {
        let n = self.map.len();
        let mut i: usize = 0;
        proof {
            assert(self.map@.skip(0) =~= self.map@);
        }
        while i < n
            invariant
                i <= n,
                n == self.map@.len(),
                assoc_get(self.map@, *key) == assoc_get(self.map@.skip(i as int), *key),
            decreases n - i,
        {
            if keys_equal(&self.map[i].0, key) {
                return self.map[i].1.clone();
            }
            proof {
                assert(self.map@.skip(i as int).skip(1) =~= self.map@.skip(i as int + 1));
            }
            i = i + 1;
        }
        LuaValue::Nil
    }

    /// Finds the position of the first hash entry for a key.
    fn assoc_position(&self, key: &LuaValue) -> (r: Option<usize>)
        ensures
            match r {
                Some(j) => j < self.map@.len() && key_eq(self.map@[j as int].0, *key) && (forall|
                    i: int,
                |
                    0 <= i < j ==> !key_eq((#[trigger] self.map@[i]).0, *key)) && assoc_has(
                    self.map@,
                    *key,
                ),
                None => !assoc_has(self.map@, *key) && (forall|i: int|
                    0 <= i < self.map@.len() ==> !key_eq((#[trigger] self.map@[i]).0, *key)),
            },
    {
        let n = self.map.len();
        let mut i: usize = 0;
        proof {
            assert(self.map@.skip(0) =~= self.map@);
        }
        while i < n
            invariant
                i <= n,
                n == self.map@.len(),
                assoc_has(self.map@, *key) == assoc_has(self.map@.skip(i as int), *key),
                forall|j: int| 0 <= j < i ==> !key_eq((#[trigger] self.map@[j]).0, *key),
            decreases n - i,
        {
            if keys_equal(&self.map[i].0, key) {
                proof {
                    lemma_assoc_has_index(self.map@, *key);
                }
                return Some(i);
            }
            proof {
                assert(self.map@.skip(i as int).skip(1) =~= self.map@.skip(i as int + 1));
            }
            i = i + 1;
        }
        None
    }

    /// Binds a key to a value: rejects nil and NaN keys; writes the array
    /// part when the key is within reach, truncating on a trailing nil
    /// and expanding on an append; otherwise updates the hash part, a nil
    /// value meaning removal.
    pub fn put(&mut self, key: &LuaValue, val: &LuaValue) -> (r: Result<(), VmError>)
        requires
            old(self).wf(),
        ensures
            final(self).wf(),
            !is_valid_key(*key) ==> r == Err::<(), VmError>(VmError::TypeError) && *final(self)
                == *old(self),
            is_valid_key(*key) ==> r == Ok::<(), VmError>(()) && put_rel(
                *old(self),
                *final(self),
                *key,
                *val,
            ),
    {
        if key.is_nil() {
            return Err(VmError::TypeError);
        }
        if let LuaValue::Number(n) = key {
            if crate::float_bits::f64_is_nan(*n) {
                return Err(VmError::TypeError);
            }
        }
        let arr_len = self.arr.len();
        if let Some(idx) = to_index(key) {
            if idx >= 1 && idx <= arr_len as u64 {
                let val_is_nil = val.is_nil();
                let pos = (idx - 1) as usize;
                self.arr[pos] = val.clone();
                if idx == arr_len as u64 && val_is_nil {
                    self.shrink_array();
                    proof {
                        lemma_shrunk_wf(old(self).arr@.update(idx as int - 1, LuaValue::Nil));
                    }
                }
                return Ok(());
            }
            if idx == arr_len as u64 + 1 {
                let ghost m0 = self.map@;
                match self.assoc_position(key) {
                    Some(j) => {
                        self.map.remove(j);
                        proof {
                            lemma_assoc_remove_at(m0, *key, j as int);
                            assert(m0.remove(j as int) =~= m0.subrange(0, j as int) + m0.skip(
                                j as int + 1));
                        }
                    },
                    None => {
                        proof {
                            lemma_assoc_remove_absent(m0, *key);
                        }
                    },
                }
                if !val.is_nil() {
                    self.arr.push(val.clone());
                    self.expand_array();
                }
                return Ok(());
            }
        }
        let ghost m0 = self.map@;
        match self.assoc_position(key) {
            Some(j) => {
                if val.is_nil() {
                    self.map.remove(j);
                    proof {
                        lemma_assoc_remove_at(m0, *key, j as int);
                        assert(m0.remove(j as int) =~= m0.subrange(0, j as int) + m0.skip(
                            j as int + 1));
                    }
                } else {
                    let k2 = self.map[j].0.clone();
                    self.map[j] = (k2, val.clone());
                    proof {
                        lemma_assoc_put_at(m0, *key, *val, j as int);
                    }
                }
            },
            None => {
                if val.is_nil() {
                    proof {
                        lemma_assoc_remove_absent(m0, *key);
                    }
                } else {
                    self.map.push((key.clone(), val.clone()));
                    proof {
                        lemma_assoc_put_absent(m0, *key, *val);
                    }
                }
            },
        }
        Ok(())
    }

    /// Pops trailing nils off the array part.
    pub fn shrink_array(&mut self)
        ensures
            final(self).map@ == old(self).map@,
            final(self).arr@ == shrunk(old(self).arr@),
    {
        loop
            invariant
                self.map@ == old(self).map@,
                shrunk(self.arr@) == shrunk(old(self).arr@),
            decreases self.arr@.len(),
        {
            let n = self.arr.len();
            if n == 0 {
                return ;
            }
            let last_nil = match &self.arr[n - 1] {
                LuaValue::Nil => true,
                _ => false,
            };
            if last_nil {
                self.arr.pop();
            } else {
                return ;
            }
        }
    }

    /// Pulls contiguous integer keys just past the array end out of the
    /// hash part into the array, keeping the hash-part invariant.
    pub fn expand_array(&mut self)
        requires
            map_wf(old(self).map@, old(self).arr@.len() as int - 1),
            old(self).arr@.len() > 0 ==> !(old(self).arr@.last() matches LuaValue::Nil),
        ensures
            (final(self).arr@, final(self).map@) == expand_spec(old(self).arr@, old(self).map@),
            final(self).arr@.len() + final(self).map@.len() <= old(self).arr@.len() + old(
                self,
            ).map@.len(),
            map_wf(final(self).map@, final(self).arr@.len() as int),
            final(self).arr@.len() > 0 ==> !(final(self).arr@.last() matches LuaValue::Nil),
    {
        loop
            invariant
                self.arr@.len() + self.map@.len() <= old(self).arr@.len() + old(self).map@.len(),
                map_wf(self.map@, self.arr@.len() as int - 1),
                self.arr@.len() > 0 ==> !(self.arr@.last() matches LuaValue::Nil),
                expand_spec(self.arr@, self.map@) == expand_spec(old(self).arr@, old(self).map@),
            decreases self.map@.len(),
        {
            if self.arr.len() as u64 >= 0x7fffffffffffffffu64 {
                proof {
                    lemma_map_wf_weaken(self.map@, self.arr@.len() as int);
                }
                return ;
            }
            let idx = self.arr.len() as u64 + 1;
            let key = LuaValue::Integer(idx as i64);
            let ghost m0 = self.map@;
            let ghost a0 = self.arr@;
            match self.assoc_position(&key) {
                Some(j) => {
                    let v = self.map[j].1.clone();
                    proof {
                        lemma_assoc_get_at(m0, key, j as int);
                    }
                    self.map.remove(j);
                    self.arr.push(v);
                    proof {
                        lemma_assoc_remove_at(m0, key, j as int);
                        assert(m0.remove(j as int) =~= m0.subrange(0, j as int) + m0.skip(
                            j as int + 1));
                        assert(self.arr@ =~= a0.push(assoc_get(m0, key)));
                    }
                },
                None => {
                    proof {
                        let len = self.arr@.len() as int;
                        assert forall|j: int| 0 <= j < self.map@.len() implies ((
                        #[trigger] self.map@[j]).0 matches LuaValue::Integer(i) ==> (i >= 1 ==> i
                            > len + 1)) by {
                            let k0 = self.map@[j].0;
                            match k0 {
                                LuaValue::Integer(i) => {
                                    if i >= 1 {
                                        assert(!key_eq(k0, key));
                                    }
                                },
                                _ => {},
                            }
                        }
                    }
                    return ;
                },
            }
        }
    }
}

proof fn lemma_map_wf_weaken(m: Seq<(LuaValue, LuaValue)>, len: int)
    requires
        map_wf(m, len - 1),
        len >= 0x7fffffffffffffff,
    ensures
        map_wf(m, len),
{
    assert forall|j: int| 0 <= j < m.len() implies ((#[trigger] m[j]).0 matches
        LuaValue::Integer(i) ==> (i >= 1 ==> i > len + 1)) by {
        let k0 = m[j].0;
        match k0 {
            LuaValue::Integer(i) => {
                if i >= 1 {
                    assert(i > len);
                    assert(i <= 0x7fffffffffffffff);
                    assert(false);
                }
            },
            _ => {},
        }
    }
}

/// Raw key equality, executably.
pub fn keys_equal(a: &LuaValue, b: &LuaValue) -> (r: bool)
    ensures
        r == key_eq(*a, *b),
{
    match (a, b) {
        (LuaValue::Nil, LuaValue::Nil) => true,
        (LuaValue::Boolean(x), LuaValue::Boolean(y)) => x == y,
        (LuaValue::Integer(x), LuaValue::Integer(y)) => x == y,
        (LuaValue::Number(x), LuaValue::Number(y)) => crate::float_bits::f64_eq(*x, *y),
        (LuaValue::Str(x), LuaValue::Str(y)) => x.eq(y),
        (LuaValue::Table(x), LuaValue::Table(y)) => x == y,
        _ => false,
    }
}

/// The array index a key is eligible for, executably.
pub fn to_index(key: &LuaValue) -> (r: Option<u64>)
    ensures
        match r {
            Some(i) => to_index_spec(*key) == Some(i as int),
            None => to_index_spec(*key) is None,
        },
{
    match key {
        LuaValue::Integer(i) => {
            if *i >= 1 {
                Some(*i as u64)
            } else {
                None
            }
        },
        LuaValue::Number(n) => {
            match crate::float_bits::f64_bits_to_i64(*n) {
                Some(i) => {
                    if i >= 1 {
                        Some(i as u64)
                    } else {
                        None
                    }
                },
                None => None,
            }
        },
        _ => None,
    }
}

proof fn lemma_assoc_remove_absent(m: Seq<(LuaValue, LuaValue)>, k: LuaValue)
    requires
        !assoc_has(m, k),
    ensures
        assoc_remove(m, k) == m,
    decreases m.len(),
{
    if m.len() > 0 {
        lemma_assoc_remove_absent(m.skip(1), k);
        assert(assoc_remove(m, k) =~= seq![m[0]] + m.skip(1));
        assert(seq![m[0]] + m.skip(1) =~= m);
    }
}

proof fn lemma_assoc_remove_at(m: Seq<(LuaValue, LuaValue)>, k: LuaValue, j: int)
    requires
        0 <= j < m.len(),
        key_eq(m[j].0, k),
        forall|i: int| 0 <= i < j ==> !key_eq((#[trigger] m[i]).0, k),
    ensures
        assoc_remove(m, k) == m.subrange(0, j) + m.skip(j + 1),
    decreases j,
{
    if j == 0 {
        assert(assoc_remove(m, k) == m.skip(1));
        assert(m.subrange(0, 0) + m.skip(1) =~= m.skip(1));
    } else {
        assert(forall|i: int| 0 <= i < j - 1 ==> !key_eq((#[trigger] m.skip(1)[i]).0, k)) by {
            assert(forall|i: int| 0 <= i < j - 1 ==> m.skip(1)[i] == m[i + 1]);
        }
        lemma_assoc_remove_at(m.skip(1), k, j - 1);
        assert(m.skip(1).subrange(0, j - 1) =~= m.subrange(1, j));
        assert(m.skip(1).skip(j) =~= m.skip(j + 1));
        assert(assoc_remove(m, k) =~= seq![m[0]] + (m.subrange(1, j) + m.skip(j + 1)));
        assert(seq![m[0]] + (m.subrange(1, j) + m.skip(j + 1)) =~= m.subrange(0, j) + m.skip(
            j + 1,
        ));
    }
}

proof fn lemma_assoc_put_at(m: Seq<(LuaValue, LuaValue)>, k: LuaValue, v: LuaValue, j: int)
    requires
        0 <= j < m.len(),
        key_eq(m[j].0, k),
        forall|i: int| 0 <= i < j ==> !key_eq((#[trigger] m[i]).0, k),
    ensures
        assoc_put(m, k, v) == m.update(j, (m[j].0, v)),
    decreases j,
{
    if j == 0 {
        assert(assoc_put(m, k, v) == seq![(m[0].0, v)] + m.skip(1));
        assert(seq![(m[0].0, v)] + m.skip(1) =~= m.update(0, (m[0].0, v)));
    } else {
        assert(forall|i: int| 0 <= i < j - 1 ==> !key_eq((#[trigger] m.skip(1)[i]).0, k)) by {
            assert(forall|i: int| 0 <= i < j - 1 ==> m.skip(1)[i] == m[i + 1]);
        }
        lemma_assoc_put_at(m.skip(1), k, v, j - 1);
        assert(m.skip(1).update(j - 1, (m.skip(1)[j - 1].0, v)) =~= m.update(
            j,
            (m[j].0, v),
        ).skip(1));
        assert(assoc_put(m, k, v) =~= seq![m[0]] + m.update(j, (m[j].0, v)).skip(1));
        assert(seq![m[0]] + m.update(j, (m[j].0, v)).skip(1) =~= m.update(j, (m[j].0, v)));
    }
}

proof fn lemma_assoc_put_absent(m: Seq<(LuaValue, LuaValue)>, k: LuaValue, v: LuaValue)
    requires
        !assoc_has(m, k),
    ensures
        assoc_put(m, k, v) == m.push((k, v)),
    decreases m.len(),
{
    if m.len() > 0 {
        lemma_assoc_put_absent(m.skip(1), k, v);
        assert(m.skip(1).push((k, v)) =~= m.push((k, v)).skip(1));
        assert(assoc_put(m, k, v) =~= seq![m[0]] + m.push((k, v)).skip(1));
        assert(seq![m[0]] + m.push((k, v)).skip(1) =~= m.push((k, v)));
    }
}

proof fn lemma_assoc_get_at(m: Seq<(LuaValue, LuaValue)>, k: LuaValue, j: int)
    requires
        0 <= j < m.len(),
        key_eq(m[j].0, k),
        forall|i: int| 0 <= i < j ==> !key_eq((#[trigger] m[i]).0, k),
    ensures
        assoc_get(m, k) == m[j].1,
    decreases j,
{
    if j > 0 {
        assert(forall|i: int| 0 <= i < j - 1 ==> !key_eq((#[trigger] m.skip(1)[i]).0, k)) by {
            assert(forall|i: int| 0 <= i < j - 1 ==> m.skip(1)[i] == m[i + 1]);
        }
        lemma_assoc_get_at(m.skip(1), k, j - 1);
    }
}

proof fn lemma_shrunk_wf(s: Seq<LuaValue>)
    ensures
        shrunk(s).len() > 0 ==> !(shrunk(s).last() matches LuaValue::Nil),
        shrunk(s).len() <= s.len(),
    decreases s.len(),
{
    if s.len() > 0 && (s.last() matches LuaValue::Nil) {
        lemma_shrunk_wf(s.drop_last());
    }
}

/// Trailing-nil truncation yields a prefix of the original array.
pub proof fn lemma_shrunk_prefix(s: Seq<LuaValue>)
    ensures
        shrunk(s).len() <= s.len(),
        shrunk(s) == s.take(shrunk(s).len() as int),
    decreases s.len(),
{
    if s.len() > 0 && (s.last() matches LuaValue::Nil) {
        lemma_shrunk_prefix(s.drop_last());
        assert(s.drop_last().take(shrunk(s).len() as int) =~= s.take(shrunk(s).len() as int));
    } else {
        assert(s.take(s.len() as int) =~= s);
    }
}

proof fn lemma_assoc_get_ok(m: Seq<(LuaValue, LuaValue)>, k: LuaValue, n: int)
    requires
        forall|j: int|
            0 <= j < m.len() ==> crate::lua_value::val_ok((#[trigger] m[j]).1, n),
    ensures
        crate::lua_value::val_ok(assoc_get(m, k), n),
    decreases m.len(),
{
    if m.len() > 0 && !key_eq(m[0].0, k) {
        assert(forall|j: int|
            0 <= j < m.skip(1).len() ==> crate::lua_value::val_ok(
                (#[trigger] m.skip(1)[j]).1,
                n,
            )) by {
            assert(forall|j: int| 0 <= j < m.skip(1).len() ==> m.skip(1)[j] == m[j + 1]);
        }
        lemma_assoc_get_ok(m.skip(1), k, n);
    }
}


/// Every entry of `assoc_remove` is an entry of the original list.
proof fn lemma_assoc_remove_entries(m: Seq<(LuaValue, LuaValue)>, k: LuaValue)
    ensures
        forall|j: int|
            0 <= j < assoc_remove(m, k).len() ==> exists|i: int|
                0 <= i < m.len() && #[trigger] assoc_remove(m, k)[j] == m[i],
    decreases m.len(),
{
    if m.len() > 0 && !key_eq(m[0].0, k) {
        lemma_assoc_remove_entries(m.skip(1), k);
        assert forall|j: int| 0 <= j < assoc_remove(m, k).len() implies exists|i: int|
            0 <= i < m.len() && #[trigger] assoc_remove(m, k)[j] == m[i] by {
            if j == 0 {
                assert(assoc_remove(m, k)[0] == m[0]);
            } else {
                let inner = assoc_remove(m.skip(1), k);
                assert(assoc_remove(m, k)[j] == inner[j - 1]);
                let i0 = choose|i: int| 0 <= i < m.skip(1).len() && inner[j - 1] == m.skip(1)[i];
                assert(assoc_remove(m, k)[j] == m[i0 + 1]);
            }
        }
    }
}

/// Every entry of `assoc_put` is an entry of the original list, the new
/// binding, or an old entry rebound to the new value.
proof fn lemma_assoc_put_entries(m: Seq<(LuaValue, LuaValue)>, k: LuaValue, v: LuaValue)
    ensures
        forall|j: int|
            0 <= j < assoc_put(m, k, v).len() ==> (#[trigger] assoc_put(m, k, v)[j].1 == v
                || exists|i: int| 0 <= i < m.len() && assoc_put(m, k, v)[j].1 == m[i].1),
        forall|j: int|
            0 <= j < assoc_put(m, k, v).len() ==> (#[trigger] assoc_put(m, k, v)[j].0 == k
                || exists|i: int| 0 <= i < m.len() && assoc_put(m, k, v)[j].0 == m[i].0),
    decreases m.len(),
{
    if m.len() > 0 && !key_eq(m[0].0, k) {
        lemma_assoc_put_entries(m.skip(1), k, v);
        let outer = assoc_put(m, k, v);
        let inner = assoc_put(m.skip(1), k, v);
        assert forall|j: int| 0 <= j < outer.len() implies ((#[trigger] outer[j].1 == v || exists|
            i: int,
        |
            0 <= i < m.len() && outer[j].1 == m[i].1) && (outer[j].0 == k || exists|i: int|
            0 <= i < m.len() && outer[j].0 == m[i].0)) by {
            if j == 0 {
                assert(outer[0] == m[0]);
            } else {
                assert(outer[j] == inner[j - 1]);
                if inner[j - 1].1 != v {
                    let i0 = choose|i: int| 0 <= i < m.skip(1).len() && inner[j - 1].1 == m.skip(
                        1,
                    )[i].1;
                    assert(outer[j].1 == m[i0 + 1].1);
                }
                if inner[j - 1].0 != k {
                    let i0 = choose|i: int| 0 <= i < m.skip(1).len() && inner[j - 1].0 == m.skip(
                        1,
                    )[i].0;
                    assert(outer[j].0 == m[i0 + 1].0);
                }
            }
        }
    } else if m.len() > 0 {
        assert(assoc_put(m, k, v)[0] == (m[0].0, v));
        assert(forall|j: int|
            1 <= j < assoc_put(m, k, v).len() ==> #[trigger] assoc_put(m, k, v)[j] == m[j]);
    }
}

/// Expansion keeps every handle below `n`: the pulled values come from
/// the hash part and the remaining entries were already there.
proof fn lemma_expand_ok(arr: Seq<LuaValue>, m: Seq<(LuaValue, LuaValue)>, n: int)
    requires
        forall|i: int| 0 <= i < arr.len() ==> crate::lua_value::val_ok(#[trigger] arr[i], n),
        forall|j: int|
            0 <= j < m.len() ==> crate::lua_value::val_ok((#[trigger] m[j]).0, n)
                && crate::lua_value::val_ok(m[j].1, n),
    ensures
        forall|i: int|
            0 <= i < expand_spec(arr, m).0.len() ==> crate::lua_value::val_ok(
                #[trigger] expand_spec(arr, m).0[i],
                n,
            ),
        forall|j: int|
            0 <= j < expand_spec(arr, m).1.len() ==> crate::lua_value::val_ok(
                (#[trigger] expand_spec(arr, m).1[j]).0,
                n,
            ) && crate::lua_value::val_ok(expand_spec(arr, m).1[j].1, n),
    decreases m.len(),
{
    if arr.len() < 0x7fffffffffffffff {
        let k = LuaValue::Integer((arr.len() + 1) as i64);
        if assoc_has(m, k) {
            lemma_assoc_remove_len(m, k);
            assert(forall|j: int|
                0 <= j < m.len() ==> crate::lua_value::val_ok((#[trigger] m[j]).1, n));
            lemma_assoc_get_ok(m, k, n);
            lemma_assoc_remove_entries(m, k);
            let arr2 = arr.push(assoc_get(m, k));
            let m2 = assoc_remove(m, k);
            assert forall|i: int|
                0 <= i < arr2.len() implies crate::lua_value::val_ok(#[trigger] arr2[i], n) by {
                if i < arr.len() {
                    assert(arr2[i] == arr[i]);
                }
            }
            assert forall|j: int|
                0 <= j < m2.len() implies crate::lua_value::val_ok((#[trigger] m2[j]).0, n)
                && crate::lua_value::val_ok(m2[j].1, n) by {
                let i = choose|i: int| 0 <= i < m.len() && m2[j] == m[i];
                assert(crate::lua_value::val_ok(m[i].0, n));
            }
            lemma_expand_ok(arr2, m2, n);
            assert(expand_spec(arr, m) == expand_spec(arr2, m2));
        }
    }
}

/// A `put` keeps every handle below `n` when the table and the new key
/// and value do.
pub proof fn lemma_put_rel_ok(t0: LuaTable, t1: LuaTable, k: LuaValue, v: LuaValue, n: int)
    requires
        put_rel(t0, t1, k, v),
        table_ok(t0, n),
        crate::lua_value::val_ok(k, n),
        crate::lua_value::val_ok(v, n),
    ensures
        table_ok(t1, n),
{
    match to_index_spec(k) {
        Some(i) => {
            if 1 <= i <= t0.arr@.len() {
                let upd = t0.arr@.update(i - 1, v);
                let updn = t0.arr@.update(i - 1, LuaValue::Nil);
                assert(forall|j: int|
                    0 <= j < upd.len() ==> crate::lua_value::val_ok(#[trigger] upd[j], n));
                assert(forall|j: int|
                    0 <= j < updn.len() ==> crate::lua_value::val_ok(#[trigger] updn[j], n));
                if i == t0.arr@.len() && (v matches LuaValue::Nil) {
                    lemma_shrunk_prefix(updn);
                    assert(forall|j: int|
                        0 <= j < t1.arr@.len() ==> #[trigger] t1.arr@[j] == updn[j]);
                }
            } else if i == t0.arr@.len() + 1 && !(v matches LuaValue::Nil) {
                lemma_assoc_remove_entries(t0.map@, k);
                let arr2 = t0.arr@.push(v);
                let m2 = assoc_remove(t0.map@, k);
                assert forall|j: int|
                    0 <= j < arr2.len() implies crate::lua_value::val_ok(#[trigger] arr2[j], n) by {
                    if j < t0.arr@.len() {
                        assert(arr2[j] == t0.arr@[j]);
                    }
                }
                assert forall|j: int|
                    0 <= j < m2.len() implies crate::lua_value::val_ok((#[trigger] m2[j]).0, n)
                    && crate::lua_value::val_ok(m2[j].1, n) by {
                    let i0 = choose|i0: int| 0 <= i0 < t0.map@.len() && m2[j] == t0.map@[i0];
                    assert(crate::lua_value::val_ok(t0.map@[i0].0, n));
                }
                lemma_expand_ok(arr2, m2, n);
                assert(t1.arr@ == expand_spec(arr2, m2).0);
                assert(t1.map@ == expand_spec(arr2, m2).1);
                assert forall|j: int|
                    0 <= j < t1.arr@.len() implies crate::lua_value::val_ok(
                    #[trigger] t1.arr@[j],
                    n,
                ) by {
                    assert(t1.arr@[j] == expand_spec(arr2, m2).0[j]);
                }
                assert forall|j: int|
                    0 <= j < t1.map@.len() implies crate::lua_value::val_ok(
                    (#[trigger] t1.map@[j]).0,
                    n,
                ) && crate::lua_value::val_ok(t1.map@[j].1, n) by {
                    assert(t1.map@[j] == expand_spec(arr2, m2).1[j]);
                }
            } else {
                lemma_put_hash_ok(t0, t1, k, v, n);
            }
        },
        None => {
            lemma_put_hash_ok(t0, t1, k, v, n);
        },
    }
}

proof fn lemma_put_hash_ok(t0: LuaTable, t1: LuaTable, k: LuaValue, v: LuaValue, n: int)
    requires
        table_ok(t0, n),
        crate::lua_value::val_ok(k, n),
        crate::lua_value::val_ok(v, n),
        t1.arr@ == t0.arr@,
        t1.map@ == (if (v matches LuaValue::Nil) {
            assoc_remove(t0.map@, k)
        } else {
            assoc_put(t0.map@, k, v)
        }),
    ensures
        table_ok(t1, n),
{
    if (v matches LuaValue::Nil) {
        lemma_assoc_remove_entries(t0.map@, k);
        assert forall|j: int|
            0 <= j < t1.map@.len() implies crate::lua_value::val_ok((#[trigger] t1.map@[j]).0, n)
            && crate::lua_value::val_ok(t1.map@[j].1, n) by {
            let i0 = choose|i0: int| 0 <= i0 < t0.map@.len() && t1.map@[j] == t0.map@[i0];
            assert(crate::lua_value::val_ok(t0.map@[i0].0, n));
        }
    } else {
        lemma_assoc_put_entries(t0.map@, k, v);
        assert forall|j: int|
            0 <= j < t1.map@.len() implies crate::lua_value::val_ok((#[trigger] t1.map@[j]).0, n)
            && crate::lua_value::val_ok(t1.map@[j].1, n) by {
            if t1.map@[j].1 != v {
                let i0 = choose|i0: int| 0 <= i0 < t0.map@.len() && t1.map@[j].1 == t0.map@[i0].1;
                assert(crate::lua_value::val_ok(t0.map@[i0].1, n));
            }
            if t1.map@[j].0 != k {
                let i0 = choose|i0: int| 0 <= i0 < t0.map@.len() && t1.map@[j].0 == t0.map@[i0].0;
                assert(crate::lua_value::val_ok(t0.map@[i0].0, n));
            }
        }
    }
}

/// A read value keeps its handles below `n` when the table does.
pub proof fn lemma_spec_get_ok(t: LuaTable, k: LuaValue, n: int)
    requires
        table_ok(t, n),
    ensures
        crate::lua_value::val_ok(t.spec_get(k), n),
{
    lemma_assoc_get_ok(t.map@, k, n);
}

/// The value bound to a string key with the given text, nil for
/// absence.
pub open spec fn assoc_get_text(m: Seq<(LuaValue, LuaValue)>, text: Seq<char>) -> LuaValue
    decreases m.len(),
{
    if m.len() == 0 {
        LuaValue::Nil
    } else if (m[0].0 matches LuaValue::Str(s) && s@ == text) {
        m[0].1
    } else {
        assoc_get_text(m.skip(1), text)
    }
}

/// What a table holds for a string key depends only on the key's text.
pub open spec fn spec_get_text(t: LuaTable, text: Seq<char>) -> LuaValue {
    assoc_get_text(t.map@, text)
}

proof fn lemma_assoc_get_text(m: Seq<(LuaValue, LuaValue)>, s: String)
    ensures
        assoc_get(m, LuaValue::Str(s)) == assoc_get_text(m, s@),
    decreases m.len(),
{
    if m.len() > 0 {
        lemma_assoc_get_text(m.skip(1), s);
    }
}

/// Reading with a string key is reading by its text.
pub proof fn lemma_spec_get_str(t: LuaTable, s: String)
    ensures
        t.spec_get(LuaValue::Str(s)) == spec_get_text(t, s@),
{
    lemma_assoc_get_text(t.map@, s);
}

} // verus!
