use vstd::prelude::*;
use crate::pool::Interned;
use vstd::map::*;

verus! {

/// An insertion-ordered lookup table from keys to values, modelled as a
/// `Map` over the keys' and values' mathematical models.  Unlike a pool it
/// can overwrite the value bound to an existing key, and it hands out no
/// indices of its own.
pub struct Table<K: Interned, V: View> {
    entries: Vec<(K, V)>,
}

impl<K: Interned, V: View> View for Table<K, V> {
    type V = Map<<K as View>::V, <V as View>::V>;

    closed spec fn view(&self) -> Map<<K as View>::V, <V as View>::V> {
        Map::new(
            |k: <K as View>::V|
                exists|i: int|
                    0 <= i < self.entries@.len() && (#[trigger] self.entries@[i]).0@ == k,
            |k: <K as View>::V| self.entries@[self.key_index(k)].1@,
        )
    }
}

impl<K: Interned, V: View> Table<K, V> {
    /// The position of the entry holding a key, when one exists.
    pub closed spec fn key_index(&self, k: <K as View>::V) -> int {
        choose|i: int| 0 <= i < self.entries@.len() && (#[trigger] self.entries@[i]).0@ == k
    }

    /// Each key is bound at most once.
    pub closed spec fn wf(&self) -> bool {
        forall|i: int, j: int|
            0 <= i < j < self.entries@.len() ==> (#[trigger] self.entries@[i]).0@ != (
            #[trigger] self.entries@[j]).0@
    }

    /// The number of bound keys.
    pub closed spec fn spec_len(&self) -> nat {
        self.entries@.len() as nat
    }

    pub fn empty() -> (t: Self)
        ensures
            t.wf(),
            t@ == Map::<<K as View>::V, <V as View>::V>::empty(),
            t.spec_len() == 0,
    {
        let t = Table { entries: Vec::new() };
        proof {
            assert(t@ =~= Map::<<K as View>::V, <V as View>::V>::empty());
        }
        t
    }

    pub fn len(&self) -> (n: usize)
        ensures
            n == self.spec_len(),
    {
        self.entries.len()
    }

    fn find(&self, k: &K) -> (r: Option<usize>)
        ensures
            match r {
                Some(i) => i < self.entries@.len() && self.entries@[i as int].0@ == k@,
                None => !self@.contains_key(k@),
            },
    {
        let n = self.entries.len();
        let mut i: usize = 0;
        while i < n
            invariant
                i <= n,
                n == self.entries@.len(),
                forall|j: int| 0 <= j < i ==> (#[trigger] self.entries@[j]).0@ != k@,
            decreases n - i,
        {
            if self.entries[i].0.eq_value(k) {
                return Some(i);
            }
            i += 1;
        }
        proof {
            assert(!self@.contains_key(k@));
        }
        None
    }

    /// Look the key up; `None` exactly when the key is unbound.
    pub fn get(&self, k: &K) -> (r: Option<&V>)
        requires
            self.wf(),
        ensures
            match r {
                Some(v) => self@.contains_key(k@) && v@ == self@[k@],
                None => !self@.contains_key(k@),
            },
    {
        match self.find(k) {
            Some(i) => {
                proof {
                    assert(self@.contains_key(k@));
                    let j = self.key_index(k@);
                    assert(0 <= j < self.entries@.len() && self.entries@[j].0@ == k@);
                    if j != i as int {
                        assert(false);
                    }
                }
                Some(&self.entries[i].1)
            },
            None => None,
        }
    }

    pub fn contains(&self, k: &K) -> (r: bool)
        requires
            self.wf(),
        ensures
            r == self@.contains_key(k@),
    {
        match self.get(k) {
            Some(_) => true,
            None => false,
        }
    }

    /// Bind the key to the value; a later binding for the same key wins.
    pub fn insert(&mut self, k: K, v: V)
        requires
            old(self).wf(),
        ensures
            final(self).wf(),
            final(self)@ == old(self)@.insert(k@, v@),
            final(self).spec_len() == if old(self)@.contains_key(k@) {
                old(self).spec_len()
            } else {
                old(self).spec_len() + 1
            },
    {
        let ghost prev = *self;
        match self.find(&k) {
            Some(i) => {
                proof {
                    assert(self@.contains_key(k@));
                }
                self.entries[i] = (k, v);
                proof {
                    let cur = *self;
                    assert forall|x: int, y: int| 0 <= x < y < cur.entries@.len() implies (
                    #[trigger] cur.entries@[x]).0@ != (#[trigger] cur.entries@[y]).0@ by {
                        assert(prev.entries@[x].0@ != prev.entries@[y].0@);
                        if x == i as int || y == i as int {
                            assert(prev.entries@[i as int].0@ == k@);
                        }
                    }
                    assert_maps_equal!(cur@, prev@.insert(k@, v@), key => {
                        if cur@.contains_key(key) {
                            let j = cur.key_index(key);
                            assert(0 <= j < cur.entries@.len() && cur.entries@[j].0@ == key);
                            if key == k@ {
                                if j != i as int {
                                    assert(prev.entries@[j].0@ == k@);
                                    assert(prev.entries@[i as int].0@ == k@);
                                }
                            } else {
                                assert(prev.entries@[j].0@ == key);
                                assert(prev@.contains_key(key));
                                let jp = prev.key_index(key);
                                assert(0 <= jp < prev.entries@.len() && prev.entries@[jp].0@ == key);
                                if jp != j {
                                    assert(false);
                                }
                            }
                        }
                        if prev@.insert(k@, v@).contains_key(key) {
                            if key == k@ {
                                assert(cur.entries@[i as int].0@ == key);
                            } else {
                                let jp = prev.key_index(key);
                                assert(0 <= jp < prev.entries@.len() && prev.entries@[jp].0@ == key);
                                assert(jp != i as int);
                                assert(cur.entries@[jp].0@ == key);
                            }
                        }
                    });
                }
            },
            None => {
                self.entries.push((k, v));
                proof {
                    let cur = *self;
                    let n = prev.entries@.len() as int;
                    assert(cur.entries@ =~= prev.entries@.push((k, v)));
                    assert forall|x: int, y: int| 0 <= x < y < cur.entries@.len() implies (
                    #[trigger] cur.entries@[x]).0@ != (#[trigger] cur.entries@[y]).0@ by {
                        if y < n {
                            assert(prev.entries@[x].0@ != prev.entries@[y].0@);
                        } else {
                            assert(cur.entries@[y].0@ == k@);
                            assert(cur.entries@[x] == prev.entries@[x]);
                            if prev.entries@[x].0@ == k@ {
                                assert(prev@.contains_key(k@));
                            }
                        }
                    }
                    assert_maps_equal!(cur@, prev@.insert(k@, v@), key => {
                        if cur@.contains_key(key) {
                            let j = cur.key_index(key);
                            assert(0 <= j < cur.entries@.len() && cur.entries@[j].0@ == key);
                            if j < n {
                                assert(prev.entries@[j].0@ == key);
                                if key != k@ {
                                    assert(prev@.contains_key(key));
                                    let jp = prev.key_index(key);
                                    if jp != j {
                                        assert(false);
                                    }
                                }
                            }
                        }
                        if prev@.insert(k@, v@).contains_key(key) {
                            if key == k@ {
                                assert(cur.entries@[n].0@ == key);
                            } else {
                                let jp = prev.key_index(key);
                                assert(0 <= jp < prev.entries@.len() && prev.entries@[jp].0@ == key);
                                assert(cur.entries@[jp].0@ == key);
                                assert(cur@.contains_key(key));
                                let j = cur.key_index(key);
                                if j != jp {
                                    assert(false);
                                }
                            }
                        }
                    });
                }
            },
        }
    }

    /// The bound (key, value) pairs, in insertion order of the keys.
    pub fn into_entries(self) -> (r: Vec<(K, V)>)
        requires
            self.wf(),
        ensures
            r@.len() == self.spec_len(),
            forall|i: int|
                0 <= i < r@.len() ==> self@.contains_key((#[trigger] r@[i]).0@) && self@[r@[i].0@]
                    == r@[i].1@,
            forall|i: int, j: int| 0 <= i < j < r@.len() ==> r@[i].0@ != r@[j].0@,
            forall|k: <K as View>::V|
                #[trigger] self@.contains_key(k) ==> exists|i: int|
                    0 <= i < r@.len() && (#[trigger] r@[i]).0@ == k,
    {
        proof {
            assert forall|k: <K as View>::V| self@.contains_key(k) implies exists|i: int|
                0 <= i < self.entries@.len() && (#[trigger] self.entries@[i]).0@ == k by {
                let j = self.key_index(k);
                assert(0 <= j < self.entries@.len() && self.entries@[j].0@ == k);
            }
            assert forall|i: int| 0 <= i < self.entries@.len() implies self@.contains_key(
                (#[trigger] self.entries@[i]).0@,
            ) && self@[self.entries@[i].0@] == self.entries@[i].1@ by {
                assert(self@.contains_key(self.entries@[i].0@));
                let j = self.key_index(self.entries@[i].0@);
                assert(0 <= j < self.entries@.len() && self.entries@[j].0@
                    == self.entries@[i].0@);
                if j != i {
                    assert(false);
                }
            }
        }
        self.entries
    }

    /// Unbind everything, keeping the table for reuse.
    pub fn clear(&mut self)
        ensures
            final(self).wf(),
            final(self)@ == Map::<<K as View>::V, <V as View>::V>::empty(),
            final(self).spec_len() == 0,
    {
        self.entries = Vec::new();
        proof {
            assert(self@ =~= Map::<<K as View>::V, <V as View>::V>::empty());
        }
    }
}

} // verus!
