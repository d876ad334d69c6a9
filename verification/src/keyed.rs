//! Insertion-ordered keyed collections backing the ledger state.

use vstd::prelude::*;

verus! {

/// An insertion-ordered association vector with unique `u64` keys.
///
/// Entries keep their insertion order (so listings can be paginated
/// deterministically), keys are unique, and lookups go by key.
pub struct KeyedVec<T> {
    pub entries: Vec<(u64, T)>,
}

impl<T> KeyedVec<T> {
    /// The entries, oldest first.
    pub open spec fn seq(self) -> Seq<(u64, T)> {
        self.entries@
    }

    /// Keys are pairwise distinct.
    pub open spec fn wf(self) -> bool {
        forall|i: int, j: int|
            0 <= i < j < self.seq().len() ==> (#[trigger] self.seq()[i]).0 != (
            #[trigger] self.seq()[j]).0
    }

    pub open spec fn contains_spec(self, k: u64) -> bool {
        exists|i: int| 0 <= i < self.seq().len() && (#[trigger] self.seq()[i]).0 == k
    }

    /// The index of the entry with key `k`; meaningful only when
    /// `contains_spec(k)` holds and the keys are unique.
    pub open spec fn key_index(self, k: u64) -> int {
        choose|i: int| 0 <= i < self.seq().len() && (#[trigger] self.seq()[i]).0 == k
    }

    /// The value stored under key `k`.
    pub open spec fn get_spec(self, k: u64) -> T {
        self.seq()[self.key_index(k)].1
    }

    /// Under unique keys, any index holding `k` is the key's index.
    pub proof fn lemma_key_at(self, k: u64, i: int)
        requires
            self.wf(),
            0 <= i < self.seq().len(),
            self.seq()[i].0 == k,
        ensures
            self.contains_spec(k),
            self.key_index(k) == i,
            self.get_spec(k) == self.seq()[i].1,
    {
        assert(self.contains_spec(k));
        let j = self.key_index(k);
        if j < i {
            assert(self.seq()[j].0 != self.seq()[i].0);
        } else if i < j {
            assert(self.seq()[i].0 != self.seq()[j].0);
        }
    }

    pub fn new() -> (r: Self)
        ensures
            r.seq() == Seq::<(u64, T)>::empty(),
            r.wf(),
    {
        let r = KeyedVec { entries: Vec::new() };
        proof {
            assert(r.seq() =~= Seq::<(u64, T)>::empty());
        }
        r
    }

    pub fn len(&self) -> (r: usize)
        ensures
            r == self.seq().len(),
    {
        self.entries.len()
    }

    /// The entry at position `i` in insertion order.
    pub fn at(&self, i: usize) -> (r: &(u64, T))
        requires
            i < self.seq().len(),
        ensures
            *r == self.seq()[i as int],
    {
        &self.entries[i]
    }

    pub fn index_of(&self, k: u64) -> (r: Option<usize>)
        requires
            self.wf(),
        ensures
            r is Some <==> self.contains_spec(k),
            r is Some ==> r.unwrap() == self.key_index(k) && self.seq()[r.unwrap() as int].0 == k
                && self.seq()[r.unwrap() as int].1 == self.get_spec(k),
    {
        let n = self.entries.len();
        let mut i: usize = 0;
        while i < n
            invariant
                n == self.seq().len(),
                i <= n,
                self.wf(),
                forall|j: int| 0 <= j < i ==> (#[trigger] self.seq()[j]).0 != k,
            decreases n - i,
        {
            if self.entries[i].0 == k {
                proof {
                    self.lemma_key_at(k, i as int);
                }
                return Some(i);
            }
            i += 1;
        }
        None
    }

    pub fn contains_key(&self, k: u64) -> (r: bool)
        requires
            self.wf(),
        ensures
            r == self.contains_spec(k),
    {
        self.index_of(k).is_some()
    }

    pub fn get(&self, k: u64) -> (r: Option<&T>)
        requires
            self.wf(),
        ensures
            r is Some <==> self.contains_spec(k),
            r is Some ==> *r.unwrap() == self.get_spec(k),
    {
        match self.index_of(k) {
            Some(i) => Some(&self.entries[i].1),
            None => None,
        }
    }

    /// Appends an entry under a key not yet present.
    pub fn push_new(&mut self, k: u64, v: T)
        requires
            old(self).wf(),
            !old(self).contains_spec(k),
        ensures
            final(self).seq() == old(self).seq().push((k, v)),
            final(self).wf(),
            final(self).contains_spec(k),
            final(self).key_index(k) == old(self).seq().len(),
            final(self).get_spec(k) == v,
            forall|k2: u64|
                k2 != k ==> final(self).contains_spec(k2) == old(self).contains_spec(k2),
            forall|k2: u64|
                k2 != k && old(self).contains_spec(k2) ==> final(self).get_spec(k2) == old(
                self,
                ).get_spec(k2) && final(self).key_index(k2) == old(self).key_index(k2),
    {
        let ghost pre = *self;
        self.entries.push((k, v));
        proof {
            let n = pre.seq().len() as int;
            assert forall|i: int, j: int| 0 <= i < j < self.seq().len() implies (
            #[trigger] self.seq()[i]).0 != (#[trigger] self.seq()[j]).0 by {
                if j == n {
                    if self.seq()[i].0 == k {
                        assert(pre.seq()[i].0 == k);
                        assert(pre.contains_spec(k));
                    }
                } else {
                    assert(pre.seq()[i].0 != pre.seq()[j].0);
                }
            }
            self.lemma_key_at(k, n);
            assert forall|k2: u64| k2 != k && self.contains_spec(k2) implies pre.contains_spec(
                k2,
            ) by {
                let i = choose|i: int|
                    0 <= i < self.seq().len() && (#[trigger] self.seq()[i]).0 == k2;
                assert(pre.seq()[i].0 == k2);
            }
            assert forall|k2: u64| k2 != k && pre.contains_spec(k2) implies self.contains_spec(k2)
                && self.get_spec(k2) == pre.get_spec(k2) && self.key_index(k2) == pre.key_index(
                k2,
            ) by {
                let i = pre.key_index(k2);
                pre.lemma_key_at(k2, i);
                assert(self.seq()[i].0 == k2);
                self.lemma_key_at(k2, i);
            }
        }
    }

    /// Removes and returns the entry at position `i`.
    pub fn remove_at(&mut self, i: usize) -> (r: (u64, T))
        requires
            old(self).wf(),
            i < old(self).seq().len(),
        ensures
            r == old(self).seq()[i as int],
            final(self).seq() == old(self).seq().remove(i as int),
            final(self).wf(),
            !final(self).contains_spec(r.0),
            forall|k2: u64|
                k2 != r.0 ==> final(self).contains_spec(k2) == old(self).contains_spec(k2),
            forall|k2: u64|
                k2 != r.0 && old(self).contains_spec(k2) ==> final(self).get_spec(k2) == old(
                self,
                ).get_spec(k2),
    {
        let ghost pre = *self;
        let r = self.entries.remove(i);
        proof {
            let ii = i as int;
            let k = r.0;
            assert forall|a: int, b: int| 0 <= a < b < self.seq().len() implies (
            #[trigger] self.seq()[a]).0 != (#[trigger] self.seq()[b]).0 by {
                let a0 = if a < ii { a } else { a + 1 };
                let b0 = if b < ii { b } else { b + 1 };
                assert(self.seq()[a] == pre.seq()[a0]);
                assert(self.seq()[b] == pre.seq()[b0]);
                assert(pre.seq()[a0].0 != pre.seq()[b0].0);
            }
            assert forall|k2: u64| self.contains_spec(k2) implies k2 != k && pre.contains_spec(
                k2,
            ) by {
                let a = choose|a: int|
                    0 <= a < self.seq().len() && (#[trigger] self.seq()[a]).0 == k2;
                let a0 = if a < ii { a } else { a + 1 };
                assert(self.seq()[a] == pre.seq()[a0]);
                if k2 == k {
                    pre.lemma_key_at(k, ii);
                    pre.lemma_key_at(k, a0);
                }
            }
            assert forall|k2: u64| k2 != k && pre.contains_spec(k2) implies self.contains_spec(k2)
                && self.get_spec(k2) == pre.get_spec(k2) by {
                let a0 = pre.key_index(k2);
                pre.lemma_key_at(k2, a0);
                let a = if a0 < ii { a0 } else { a0 - 1 };
                assert(a0 != ii);
                assert(self.seq()[a] == pre.seq()[a0]);
                self.lemma_key_at(k2, a);
            }
        }
        r
    }

    /// Inserts an entry under a fresh key at position `i`.
    pub fn insert_at(&mut self, i: usize, k: u64, v: T)
        requires
            old(self).wf(),
            i <= old(self).seq().len(),
            !old(self).contains_spec(k),
        ensures
            final(self).seq() == old(self).seq().insert(i as int, (k, v)),
            final(self).wf(),
            final(self).contains_spec(k),
            final(self).key_index(k) == i,
            final(self).get_spec(k) == v,
            forall|k2: u64|
                k2 != k ==> final(self).contains_spec(k2) == old(self).contains_spec(k2),
            forall|k2: u64|
                k2 != k && old(self).contains_spec(k2) ==> final(self).get_spec(k2) == old(
                self,
                ).get_spec(k2),
    {
        let ghost pre = *self;
        self.entries.insert(i, (k, v));
        proof {
            let ii = i as int;
            assert forall|a: int, b: int| 0 <= a < b < self.seq().len() implies (
            #[trigger] self.seq()[a]).0 != (#[trigger] self.seq()[b]).0 by {
                if a == ii {
                    let b0 = b - 1;
                    assert(self.seq()[b] == pre.seq()[b0]);
                    if pre.seq()[b0].0 == k {
                        assert(pre.contains_spec(k));
                    }
                } else if b == ii {
                    assert(self.seq()[a] == pre.seq()[a]);
                    if pre.seq()[a].0 == k {
                        assert(pre.contains_spec(k));
                    }
                } else {
                    let a0 = if a < ii { a } else { a - 1 };
                    let b0 = if b < ii { b } else { b - 1 };
                    assert(self.seq()[a] == pre.seq()[a0]);
                    assert(self.seq()[b] == pre.seq()[b0]);
                    assert(pre.seq()[a0].0 != pre.seq()[b0].0);
                }
            }
            self.lemma_key_at(k, ii);
            assert forall|k2: u64| k2 != k && self.contains_spec(k2) implies pre.contains_spec(
                k2,
            ) by {
                let a = choose|a: int|
                    0 <= a < self.seq().len() && (#[trigger] self.seq()[a]).0 == k2;
                let a0 = if a < ii { a } else { a - 1 };
                assert(self.seq()[a] == pre.seq()[a0]);
            }
            assert forall|k2: u64| k2 != k && pre.contains_spec(k2) implies self.contains_spec(k2)
                && self.get_spec(k2) == pre.get_spec(k2) by {
                let a0 = pre.key_index(k2);
                pre.lemma_key_at(k2, a0);
                let a = if a0 < ii { a0 } else { a0 + 1 };
                assert(self.seq()[a] == pre.seq()[a0]);
                self.lemma_key_at(k2, a);
            }
        }
    }
}

/// Removing an entry and reinserting at the same position is an update.
pub proof fn lemma_remove_insert_is_update<T>(s: Seq<(u64, T)>, i: int, x: (u64, T))
    requires
        0 <= i < s.len(),
    ensures
        s.remove(i).insert(i, x) == s.update(i, x),
{
    assert(s.remove(i).insert(i, x) =~= s.update(i, x));
}

/// An insertion-ordered set of `u64` identities without duplicates.
pub struct IdSet {
    pub items: Vec<u64>,
}

impl IdSet {
    pub open spec fn seq(self) -> Seq<u64> {
        self.items@
    }

    /// Members are pairwise distinct.
    pub open spec fn wf(self) -> bool {
        forall|i: int, j: int|
            0 <= i < j < self.seq().len() ==> #[trigger] self.seq()[i] != #[trigger] self.seq()[j]
    }

    pub open spec fn contains_spec(self, x: u64) -> bool {
        self.seq().contains(x)
    }

    pub fn new() -> (r: Self)
        ensures
            r.seq() == Seq::<u64>::empty(),
            r.wf(),
    {
        let r = IdSet { items: Vec::new() };
        proof {
            assert(r.seq() =~= Seq::<u64>::empty());
        }
        r
    }

    pub fn contains(&self, x: u64) -> (r: bool)
        ensures
            r == self.contains_spec(x),
    {
        let n = self.items.len();
        let mut i: usize = 0;
        while i < n
            invariant
                n == self.seq().len(),
                i <= n,
                forall|j: int| 0 <= j < i ==> #[trigger] self.seq()[j] != x,
            decreases n - i,
        {
            if self.items[i] == x {
                return true;
            }
            i += 1;
        }
        proof {
            assert(!self.seq().contains(x));
        }
        false
    }

    /// Adds `x`; a no-op when it is already a member.
    pub fn insert(&mut self, x: u64)
        requires
            old(self).wf(),
        ensures
            final(self).wf(),
            final(self).contains_spec(x),
            forall|y: u64| y != x ==> final(self).contains_spec(y) == old(self).contains_spec(y),
            old(self).contains_spec(x) ==> final(self).seq() == old(self).seq(),
            !old(self).contains_spec(x) ==> final(self).seq() == old(self).seq().push(x),
    {
        let ghost pre = *self;
        if !self.contains(x) {
            self.items.push(x);
            proof {
                let n = pre.seq().len() as int;
                assert forall|i: int, j: int| 0 <= i < j < self.seq().len() implies (
                #[trigger] self.seq()[i]) != (#[trigger] self.seq()[j]) by {
                    if j == n {
                        if self.seq()[i] == x {
                            assert(pre.seq()[i] == x);
                            assert(pre.seq().contains(x));
                        }
                    } else {
                        assert(pre.seq()[i] != pre.seq()[j]);
                    }
                }
                assert(self.seq()[n] == x);
                assert(self.seq().contains(x));
                assert forall|y: u64| y != x && self.contains_spec(y) implies pre.contains_spec(
                    y,
                ) by {
                    let i = choose|i: int|
                        0 <= i < self.seq().len() && #[trigger] self.seq()[i] == y;
                    assert(pre.seq()[i] == y);
                }
                assert forall|y: u64| y != x && pre.contains_spec(y) implies self.contains_spec(
                    y,
                ) by {
                    let i = choose|i: int|
                        0 <= i < pre.seq().len() && #[trigger] pre.seq()[i] == y;
                    assert(self.seq()[i] == y);
                }
            }
        }
    }

    /// Removes `x`; a no-op when it is not a member.
    pub fn remove(&mut self, x: u64)
        requires
            old(self).wf(),
        ensures
            final(self).wf(),
            !final(self).contains_spec(x),
            forall|y: u64| y != x ==> final(self).contains_spec(y) == old(self).contains_spec(y),
            !old(self).contains_spec(x) ==> final(self).seq() == old(self).seq(),
    {
        let ghost pre = *self;
        let n = self.items.len();
        let mut i: usize = 0;
        while i < n
            invariant
                *self == pre,
                pre == *old(self),
                n == self.seq().len(),
                i <= n,
                pre.wf(),
                forall|j: int| 0 <= j < i ==> #[trigger] self.seq()[j] != x,
            decreases n - i,
        {
            if self.items[i] == x {
                let ghost ii = i as int;
                self.items.remove(i);
                proof {
                    assert forall|a: int, b: int| 0 <= a < b < self.seq().len() implies (
                    #[trigger] self.seq()[a]) != (#[trigger] self.seq()[b]) by {
                        let a0 = if a < ii { a } else { a + 1 };
                        let b0 = if b < ii { b } else { b + 1 };
                        assert(self.seq()[a] == pre.seq()[a0]);
                        assert(self.seq()[b] == pre.seq()[b0]);
                        assert(pre.seq()[a0] != pre.seq()[b0]);
                    }
                    assert forall|y: u64| self.contains_spec(y) implies y != x
                        && pre.contains_spec(y) by {
                        let a = choose|a: int|
                            0 <= a < self.seq().len() && #[trigger] self.seq()[a] == y;
                        let a0 = if a < ii { a } else { a + 1 };
                        assert(self.seq()[a] == pre.seq()[a0]);
                        if y == x {
                            if a0 < ii {
                                assert(pre.seq()[a0] != pre.seq()[ii]);
                            } else {
                                assert(pre.seq()[ii] != pre.seq()[a0]);
                            }
                        }
                    }
                    assert forall|y: u64| y != x && pre.contains_spec(y) implies self.contains_spec(
                        y,
                    ) by {
                        let a0 = choose|a0: int|
                            0 <= a0 < pre.seq().len() && #[trigger] pre.seq()[a0] == y;
                        let a = if a0 < ii { a0 } else { a0 - 1 };
                        assert(a0 != ii);
                        assert(self.seq()[a] == pre.seq()[a0]);
                    }
                    assert(pre.seq()[ii] == x);
                    assert(pre.contains_spec(x));
                    assert forall|y: u64| y != x implies self.contains_spec(y)
                        == pre.contains_spec(y) by {
                        if self.contains_spec(y) {
                            assert(pre.contains_spec(y));
                        }
                        if pre.contains_spec(y) {
                            assert(self.contains_spec(y));
                        }
                    }
                }
                return ;
            }
            i += 1;
        }
        proof {
            assert(!self.seq().contains(x));
        }
    }
}

} // verus!
