use vstd::prelude::*;
use crate::errors::ContextError;
use crate::TABLE_MAX_SIZE;
use std::collections::HashMap;

verus! {

broadcast use vstd::std_specs::hash::group_hash_axioms;

/// A value an interning pool can hold: it has a mathematical model (its
/// view) and an executable equality that decides model equality.
pub trait Interned: View + Sized {
    /// Decides structural equality of the mathematical models.
    fn eq_value(&self, other: &Self) -> (b: bool)
        ensures
            b == (self@ == other@),
    ;
}

impl Interned for u16 {
    fn eq_value(&self, other: &Self) -> (b: bool) {
        *self == *other
    }
}

/// An insertion-ordered, deduplicating pool: it maps each value to a dense
/// `u16` index assigned at the value's first insertion.  The pool grows
/// monotonically and never removes an entry, so the sequence of interned
/// values in index order is the pool's model, and materializing it is a
/// plain copy of that sequence.
pub struct Pool<T: Interned> {
    items: Vec<T>,
}

impl<T: Interned> View for Pool<T> {
    type V = Seq<<T as View>::V>;

    closed spec fn view(&self) -> Seq<<T as View>::V> {
        Seq::new(self.items@.len() as nat, |i: int| self.items@[i]@)
    }
}

impl<T: Interned> Pool<T> {
    /// Every pool index names exactly one value: the interned values are
    /// pairwise distinct, and there are never more than `TABLE_MAX_SIZE`.
    pub open spec fn wf(&self) -> bool {
        &&& forall|i: int, j: int| 0 <= i < j < self@.len() ==> self@[i] != self@[j]
        &&& self@.len() <= TABLE_MAX_SIZE
    }

    pub fn empty() -> (p: Self)
        ensures
            p.wf(),
            p@ == Seq::<<T as View>::V>::empty(),
    {
        let p = Pool { items: Vec::new() };
        proof {
            assert(p@ =~= Seq::<<T as View>::V>::empty());
        }
        p
    }

    pub fn len(&self) -> (n: usize)
        ensures
            n == self@.len(),
    {
        self.items.len()
    }

    /// The index assigned to a structurally equal value, if one was interned.
    pub fn index_of(&self, item: &T) -> (r: Option<u16>)
        requires
            self.wf(),
        ensures
            match r {
                Some(idx) => idx < self@.len() && self@[idx as int] == item@ && self@.contains(
                    item@,
                ) && idx as int == self@.index_of(item@),
                None => !self@.contains(item@),
            },
    {
        let n = self.items.len();
        let mut i: usize = 0;
        while i < n
            invariant
                self.wf(),
                i <= n,
                n == self@.len(),
                n <= TABLE_MAX_SIZE,
                forall|k: int| 0 <= k < i ==> self@[k] != item@,
            decreases n - i,
        {
            if self.items[i].eq_value(item) {
                proof {
                    assert(self@[i as int] == item@);
                    assert(self@.contains(item@));
                    let j = self@.index_of(item@);
                    assert(0 <= j < self@.len() && self@[j] == item@);
                    if j < i as int {
                        assert(self@[j] != self@[i as int]);
                        assert(false);
                    } else if j > i as int {
                        assert(self@[i as int] != self@[j]);
                        assert(false);
                    }
                }
                return Some(i as u16);
            }
            i += 1;
        }
        None
    }

    /// Return the index already assigned to a structurally equal value, or
    /// assign the next sequential index; reject only a genuinely new value
    /// that a full pool cannot take.
    pub fn get_or_add(&mut self, item: T) -> (r: Result<u16, ContextError>)
        requires
            old(self).wf(),
        ensures
            final(self).wf(),
            match r {
                Ok(idx) => {
                    &&& (idx as int) < final(self)@.len()
                    &&& final(self)@[idx as int] == item@
                    &&& final(self)@ == interned(old(self)@, item@)
                    &&& idx as int == interned_index(old(self)@, item@)
                    &&& (old(self)@.contains(item@) ==> final(self)@ == old(self)@
                        && idx as int == old(self)@.index_of(item@))
                    &&& (!old(self)@.contains(item@) ==> final(self)@ == old(self)@.push(item@)
                        && idx as int == old(self)@.len())
                },
                Err(e) => {
                    &&& e == ContextError::TableOverflow
                    &&& final(self)@ == old(self)@
                    &&& !old(self)@.contains(item@)
                    &&& old(self)@.len() >= TABLE_MAX_SIZE
                },
            },
            (old(self)@.contains(item@) || old(self)@.len() < TABLE_MAX_SIZE) ==> r is Ok,
    {
        match self.index_of(&item) {
            Some(idx) => Ok(idx),
            None => {
                if self.items.len() >= TABLE_MAX_SIZE {
                    Err(ContextError::TableOverflow)
                } else {
                    let idx = self.items.len() as u16;
                    let ghost prev = self@;
                    self.items.push(item);
                    proof {
                        assert(self@ =~= prev.push(item@));
                    }
                    Ok(idx)
                }
            },
        }
    }

    /// The values in index order, ready for binary emission.  Density is by
    /// construction: position `i` of the result holds the value interned at
    /// index `i`, and the length is the number of distinct interned values.
    pub fn materialize(self) -> (v: Vec<T>)
        ensures
            v@.len() == self@.len(),
            forall|i: int| 0 <= i < self@.len() ==> v@[i]@ == self@[i],
    {
        self.items
    }
}

/// The contents of a pool after one value is interned: unchanged when a
/// structurally equal value is already present, extended by one otherwise.
pub open spec fn interned<V>(s: Seq<V>, v: V) -> Seq<V> {
    if s.contains(v) {
        s
    } else {
        s.push(v)
    }
}

/// The index interning assigns to a value: the index of the equal value
/// already present, or the next sequential index.
pub open spec fn interned_index<V>(s: Seq<V>, v: V) -> int {
    if s.contains(v) {
        s.index_of(v)
    } else {
        s.len() as int
    }
}

/// Idempotent interning: once a value has been interned, interning a
/// structurally equal value again returns the same index and leaves the
/// pool unchanged, so however many times a value is added, the pool grows
/// exactly once.
pub proof fn lemma_interning_idempotent<V>(s: Seq<V>, v: V)
    ensures
        interned(interned(s, v), v) == interned(s, v),
        interned_index(interned(s, v), v) == interned_index(s, v),
        interned(s, v).len() <= s.len() + 1,
{
    if !s.contains(v) {
        assert(s.push(v)[s.len() as int] == v);
        assert(s.push(v).contains(v));
        let j = s.push(v).index_of(v);
        assert(0 <= j < s.push(v).len() && s.push(v)[j] == v);
        if j < s.len() {
            assert(s[j] == v);
            assert(false);
        }
    }
}

/// Pool density: in a pool without duplicates — which the interning
/// discipline guarantees — every value sits at exactly the index interning
/// assigned it, and the materialized vector's length is the number of
/// distinct interned values.
pub proof fn lemma_pool_density<V>(s: Seq<V>)
    requires
        s.no_duplicates(),
    ensures
        forall|i: int| 0 <= i < s.len() ==> interned_index(s, #[trigger] s[i]) == i,
        s.to_set().len() == s.len(),
{
    assert forall|i: int| 0 <= i < s.len() implies interned_index(s, #[trigger] s[i]) == i by {
        assert(s.contains(s[i]));
        let j = s.index_of(s[i]);
        assert(0 <= j < s.len() && s[j] == s[i]);
        if j != i {
            assert(false);
        }
    }
    s.unique_seq_to_set();
}

/// A value contained in a sequence is contained in any extension of it.
pub proof fn lemma_prefix_contains<T>(a: Seq<T>, b: Seq<T>, p: T)
    requires
        a.is_prefix_of(b),
        a.contains(p),
    ensures
        b.contains(p),
{
    let i = choose|i: int| 0 <= i < a.len() && a[i] == p;
    assert(a =~= b.subrange(0, a.len() as int));
    assert(b[i] == a[i]);
}

/// Sequence extension is transitive.
pub proof fn lemma_prefix_trans<T>(a: Seq<T>, b: Seq<T>, c: Seq<T>)
    requires
        a.is_prefix_of(b),
        b.is_prefix_of(c),
    ensures
        a.is_prefix_of(c),
{
    assert forall|i: int| 0 <= i < a.len() implies a[i] == c.subrange(0, a.len() as int)[i] by {
        assert(a[i] == b.subrange(0, a.len() as int)[i]);
        assert(b[i] == c.subrange(0, b.len() as int)[i]);
    }
    assert(a =~= c.subrange(0, a.len() as int));
}

/// A pair of pool indices.  The handle-shaped pools (module handles, field
/// handles and the four instantiation kinds) all intern values of this
/// shape, so they share one pool representation with a constant-time lookup.
#[derive(Clone, Copy, Debug, PartialEq, Eq, Structural, Hash)]
pub struct IndexPair {
    pub fst: u16,
    pub snd: u16,
}

/// The injective encoding of an index pair used as a hash key.
pub open spec fn pair_key(p: IndexPair) -> u64 {
    (p.fst as u64 * 65536 + p.snd as u64) as u64
}

/// An insertion-ordered, deduplicating pool of index pairs, with a hash
/// index from encoded pair to assigned index for constant-time interning.
pub struct PairPool {
    items: Vec<IndexPair>,
    index: HashMap<u64, u16>,
}

impl View for PairPool {
    type V = Seq<IndexPair>;

    closed spec fn view(&self) -> Seq<IndexPair> {
        self.items@
    }
}

impl PairPool {
    pub open spec fn wf(&self) -> bool {
        &&& forall|i: int, j: int| 0 <= i < j < self@.len() ==> self@[i] != self@[j]
        &&& self@.len() <= TABLE_MAX_SIZE
        &&& self.index_wf()
    }

    /// The hash index and the item vector agree exactly.
    pub closed spec fn index_wf(&self) -> bool {
        &&& forall|i: int| 0 <= i < self.items@.len()
            ==> self.index@.contains_key(pair_key(#[trigger] self.items@[i]))
                && self.index@[pair_key(self.items@[i])] == i as u16
        &&& forall|k: u64| self.index@.contains_key(k)
            ==> (#[trigger] self.index@[k] as int) < self.items@.len()
                && pair_key(self.items@[self.index@[k] as int]) == k
    }

    pub fn empty() -> (p: Self)
        ensures
            p.wf(),
            p@ == Seq::<IndexPair>::empty(),
    {
        PairPool { items: Vec::new(), index: HashMap::new() }
    }

    pub fn len(&self) -> (n: usize)
        ensures
            n == self@.len(),
    {
        self.items.len()
    }

    /// The index assigned to an equal pair, if one was interned.
    pub fn index_of(&self, item: IndexPair) -> (r: Option<u16>)
        requires
            self.wf(),
        ensures
            match r {
                Some(idx) => idx < self@.len() && self@[idx as int] == item && self@.contains(item)
                    && idx as int == self@.index_of(item),
                None => !self@.contains(item),
            },
    {
        let k: u64 = item.fst as u64 * 65536 + item.snd as u64;
        match self.index.get(&k) {
            Some(idx_ref) => {
                let idx = *idx_ref;
                proof {
                    assert(self.index@.contains_key(k));
                    assert(pair_key(self.items@[self.index@[k] as int]) == k);
                    let found = self.items@[idx as int];
                    assert(found.fst as u64 * 65536 + found.snd as u64 == item.fst as u64 * 65536
                        + item.snd as u64);
                    assert(found == item);
                    assert(self@.contains(item));
                    let j = self@.index_of(item);
                    assert(0 <= j < self@.len() && self@[j] == item);
                    if j != idx as int {
                        assert(self@[j] == self@[idx as int]);
                        assert(false);
                    }
                }
                Some(idx)
            },
            None => {
                proof {
                    if self@.contains(item) {
                        let j = self@.index_of(item);
                        assert(self.index@.contains_key(pair_key(self.items@[j])));
                        assert(false);
                    }
                }
                None
            },
        }
    }

    /// Same contract as `Pool::get_or_add`, on pools of index pairs.
    pub fn get_or_add(&mut self, item: IndexPair) -> (r: Result<u16, ContextError>)
        requires
            old(self).wf(),
        ensures
            final(self).wf(),
            match r {
                Ok(idx) => {
                    &&& (idx as int) < final(self)@.len()
                    &&& final(self)@[idx as int] == item
                    &&& final(self)@ == interned(old(self)@, item)
                    &&& idx as int == interned_index(old(self)@, item)
                    &&& (old(self)@.contains(item) ==> final(self)@ == old(self)@
                        && idx as int == old(self)@.index_of(item))
                    &&& (!old(self)@.contains(item) ==> final(self)@ == old(self)@.push(item)
                        && idx as int == old(self)@.len())
                },
                Err(e) => {
                    &&& e == ContextError::TableOverflow
                    &&& final(self)@ == old(self)@
                    &&& !old(self)@.contains(item)
                    &&& old(self)@.len() >= TABLE_MAX_SIZE
                },
            },
            (old(self)@.contains(item) || old(self)@.len() < TABLE_MAX_SIZE) ==> r is Ok,
    {
        let k: u64 = item.fst as u64 * 65536 + item.snd as u64;
        match self.index_of(item) {
            Some(idx) => Ok(idx),
            None => {
                if self.items.len() >= TABLE_MAX_SIZE {
                    Err(ContextError::TableOverflow)
                } else {
                    let idx = self.items.len() as u16;
                    let ghost prev = self@;
                    self.items.push(item);
                    self.index.insert(k, idx);
                    proof {
                        assert(self@ =~= prev.push(item));
                        assert forall|i: int| 0 <= i < self.items@.len()
                            implies self.index@.contains_key(pair_key(#[trigger] self.items@[i]))
                                && self.index@[pair_key(self.items@[i])] == i as u16 by {
                            if i < prev.len() {
                                assert(self.items@[i] == prev[i]);
                                if pair_key(prev[i]) == k {
                                    let found = prev[i];
                                    assert(found.fst as u64 * 65536 + found.snd as u64
                                        == item.fst as u64 * 65536 + item.snd as u64);
                                    assert(found == item);
                                    assert(prev.contains(item));
                                    assert(false);
                                }
                            }
                        }
                    }
                    Ok(idx)
                }
            },
        }
    }

    /// The pairs in index order, ready for binary emission.
    pub fn materialize(self) -> (v: Vec<IndexPair>)
        ensures
            v@ == self@,
    {
        self.items
    }
}

} // verus!
