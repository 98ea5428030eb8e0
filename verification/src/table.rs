//! Ordered tables: rows kept in ascending key order, read as a finite map.

use vstd::prelude::*;

use crate::order::{ascends, is_listing, is_page, separates};

verus! {

/// A key whose order is the order of an integer rank.
pub trait TableKey: Sized + Copy {
    /// The integer that orders the key.
    spec fn rank(self) -> int;

    /// Two keys of one rank are the same key.
    proof fn rank_is_injective(a: Self, b: Self)
        requires
            a.rank() == b.rank(),
        ensures
            a == b,
    ;

    /// Whether this key comes before the other.
    fn precedes(&self, other: &Self) -> (r: bool)
        ensures
            r == (self.rank() < other.rank()),
    ;
}

/// A table row: a value with a mathematical view that can be copied.
pub trait Row: View + Sized {
    /// A second row with the same view.
    fn duplicate(&self) -> (r: Self)
        ensures
            r@ == self@,
    ;
}

/// Rows by key, stored in ascending key order.
pub struct Table<K: TableKey, R: Row> {
    entries: Vec<(K, R)>,
}

impl<K: TableKey, R: Row> View for Table<K, R> {
    type V = Map<K, <R as View>::V>;

    closed spec fn view(&self) -> Map<K, <R as View>::V> {
        Map::new(
            |k: K| self.holds(k),
            |k: K| self.entries@[self.index_of(k)].1@,
        )
    }
}

impl<K: TableKey, R: Row> Table<K, R> {
    /// Keys are strictly ascending, so no key occurs twice.
    pub closed spec fn wf(self) -> bool {
        forall|i: int, j: int|
            0 <= i < j < self.entries@.len() ==> (#[trigger] self.entries@[i]).0.rank() < (
            #[trigger] self.entries@[j]).0.rank()
    }

    /// The keys in ascending order.
    pub closed spec fn keys(self) -> Seq<K> {
        Seq::new(self.entries@.len(), |i: int| self.entries@[i].0)
    }

    closed spec fn holds(self, k: K) -> bool {
        exists|i: int| 0 <= i < self.entries@.len() && (#[trigger] self.entries@[i]).0 == k
    }

    closed spec fn index_of(self, k: K) -> int {
        choose|i: int| 0 <= i < self.entries@.len() && (#[trigger] self.entries@[i]).0 == k
    }

    proof fn lemma_at(self, i: int)
        requires
            self.wf(),
            0 <= i < self.entries@.len(),
        ensures
            self@.dom().contains(self.entries@[i].0),
            self@[self.entries@[i].0] == self.entries@[i].1@,
    {
        let k = self.entries@[i].0;
        let j = self.index_of(k);
        assert(self.holds(k));
        assert(self.entries@[j].0 == k);
        if i < j {
            assert(self.entries@[i].0.rank() < self.entries@[j].0.rank());
        }
        if j < i {
            assert(self.entries@[j].0.rank() < self.entries@[i].0.rank());
        }
    }

    /// The key sequence is ascending and lists exactly the keys of the map.
    pub proof fn lemma_keys(self)
        requires
            self.wf(),
        ensures
            forall|i: int, j: int|
                0 <= i < j < self.keys().len() ==> (#[trigger] self.keys()[i]).rank() < (
                #[trigger] self.keys()[j]).rank(),
            forall|i: int| 0 <= i < self.keys().len() ==> self@.dom().contains(
                #[trigger] self.keys()[i],
            ),
            forall|k: K| #[trigger]
                self@.dom().contains(k) ==> exists|i: int|
                    0 <= i < self.keys().len() && #[trigger] self.keys()[i] == k,
            ascends(self.keys(), key_rank::<K>()),
    {
        assert forall|i: int, j: int| 0 <= i < j < self.keys().len() implies (
        #[trigger] self.keys()[i]).rank() < (#[trigger] self.keys()[j]).rank() by {
            assert(self.entries@[i].0.rank() < self.entries@[j].0.rank());
        }
        assert forall|i: int| 0 <= i < self.keys().len() implies self@.dom().contains(
            #[trigger] self.keys()[i],
        ) by {
            self.lemma_at(i);
        }
        assert forall|k: K| #[trigger] self@.dom().contains(k) implies exists|i: int|
            0 <= i < self.keys().len() && #[trigger] self.keys()[i] == k by {
            let i = self.index_of(k);
            assert(self.keys()[i] == k);
        }
    }

    /// The map is finite and has one key for each entry.
    pub proof fn lemma_count(self)
        requires
            self.wf(),
        ensures
            self@.dom().finite(),
            self@.dom().len() == self.keys().len(),
    {
        self.lemma_keys();
        let keys = self.keys();
        assert(keys.no_duplicates());
        keys.unique_seq_to_set();
        assert(keys.to_set() =~= self@.dom()) by {
            assert forall|k: K| #[trigger] keys.to_set().contains(k) implies self@.dom().contains(
                k,
            ) by {
                let i = choose|i: int| 0 <= i < keys.len() && keys[i] == k;
                assert(self@.dom().contains(keys[i]));
            }
            assert forall|k: K| #[trigger] self@.dom().contains(k) implies keys.to_set().contains(
                k,
            ) by {
                let i = choose|i: int| 0 <= i < keys.len() && keys[i] == k;
                assert(keys.contains(k));
            }
        }
    }

    /// An empty table.
    pub fn new() -> (t: Self)
        ensures
            t.wf(),
            t@ == Map::<K, <R as View>::V>::empty(),
    {
        let t = Table { entries: Vec::new() };
        assert(t@ =~= Map::<K, <R as View>::V>::empty()) by {
            assert forall|k: K| !t@.dom().contains(k) by {
                assert(!t.holds(k));
            }
        }
        t
    }

    /// The number of rows.
    pub fn len(&self) -> (n: usize)
        ensures
            n == self.keys().len(),
    {
        self.entries.len()
    }

    /// The key at a position of the ascending order.
    pub fn key_at(&self, i: usize) -> (k: K)
        requires
            self.wf(),
            i < self.keys().len(),
        ensures
            k == self.keys()[i as int],
            self@.dom().contains(k),
    {
        proof {
            self.lemma_at(i as int);
        }
        self.entries[i].0
    }

    /// The row at a position of the ascending order.
    pub fn row_at(&self, i: usize) -> (r: &R)
        requires
            self.wf(),
            i < self.keys().len(),
        ensures
            r@ == self@[self.keys()[i as int]],
    {
        proof {
            self.lemma_at(i as int);
        }
        &self.entries[i].1
    }

    /// The first position whose key does not come before `key`.
    fn lower_bound(&self, key: &K) -> (at: usize)
        requires
            self.wf(),
        ensures
            at <= self.entries@.len(),
            forall|i: int| 0 <= i < at ==> (#[trigger] self.entries@[i]).0.rank() < key.rank(),
            forall|i: int|
                at <= i < self.entries@.len() ==> (#[trigger] self.entries@[i]).0.rank()
                    >= key.rank(),
    {
        let mut low: usize = 0;
        let mut high: usize = self.entries.len();
        while low < high
            invariant
                low <= high <= self.entries@.len(),
                self.wf(),
                forall|i: int| 0 <= i < low ==> (#[trigger] self.entries@[i]).0.rank() < key.rank(),
                forall|i: int|
                    high <= i < self.entries@.len() ==> (#[trigger] self.entries@[i]).0.rank()
                        >= key.rank(),
            decreases high - low,
        {
            let middle: usize = low + (high - low) / 2;
            if self.entries[middle].0.precedes(key) {
                low = middle + 1;
            } else {
                high = middle;
            }
        }
        low
    }

    /// The position of `key`, if it is present.
    fn position(&self, key: &K) -> (r: Option<usize>)
        requires
            self.wf(),
        ensures
            match r {
                Some(at) => at < self.entries@.len() && self.entries@[at as int].0 == *key
                    && self@.dom().contains(*key) && self@[*key]
                    == self.entries@[at as int].1@,
                None => !self@.dom().contains(*key),
            },
    {
        let at = self.lower_bound(key);
        if at < self.entries.len() && !key.precedes(&self.entries[at].0) {
            proof {
                K::rank_is_injective(self.entries@[at as int].0, *key);
                self.lemma_at(at as int);
            }
            Some(at)
        } else {
            proof {
                if self.holds(*key) {
                    let i = self.index_of(*key);
                    assert(self.entries@[i].0 == *key);
                    if at < i {
                        assert(self.entries@[at as int].0.rank() < self.entries@[i].0.rank());
                    }
                    assert(false);
                }
            }
            None
        }
    }

    /// The row under `key`.
    pub fn get(&self, key: &K) -> (r: Option<&R>)
        requires
            self.wf(),
        ensures
            match r {
                Some(row) => self@.dom().contains(*key) && row@ == self@[*key],
                None => !self@.dom().contains(*key),
            },
    {
        match self.position(key) {
            Some(at) => Some(&self.entries[at].1),
            None => None,
        }
    }

    /// Whether a row stands under `key`.
    pub fn contains(&self, key: &K) -> (r: bool)
        requires
            self.wf(),
        ensures
            r == self@.dom().contains(*key),
    {
        self.position(key).is_some()
    }

    /// Inserts the row, or replaces the row that stands under `key`.
    pub fn put(&mut self, key: K, row: R)
        requires
            old(self).wf(),
        ensures
            final(self).wf(),
            final(self)@ == old(self)@.insert(key, row@),
    {
        let at = self.lower_bound(&key);
        let ghost before = *self;
        let ghost value = row@;
        if at < self.entries.len() && !key.precedes(&self.entries[at].0) {
            proof {
                K::rank_is_injective(self.entries@[at as int].0, key);
            }
            self.entries.set(at, (key, row));
            proof {
                assert(self.entries@ == before.entries@.update(at as int, (key, row)));
                assert forall|k: K| self.holds(k) == (before.holds(k) || k == key) by {
                    if self.holds(k) {
                        let i = self.index_of(k);
                        if i != at {
                            assert(before.entries@[i].0 == k);
                        }
                    }
                    if before.holds(k) {
                        let i = before.index_of(k);
                        assert(self.entries@[i].0 == k);
                    }
                    assert(self.entries@[at as int].0 == key);
                }
                assert forall|k: K| before.holds(k) && k != key implies self@[k] == before@[k] by {
                    let i = before.index_of(k);
                    assert(before.entries@[i].0 == k);
                    assert(self.entries@[i] == before.entries@[i]);
                    self.lemma_at(i);
                    before.lemma_at(i);
                }
                self.lemma_at(at as int);
                assert(self@ =~= before@.insert(key, value));
            }
        } else {
            self.entries.insert(at, (key, row));
            proof {
                assert(self.entries@ == before.entries@.insert(at as int, (key, row)));
                assert forall|i: int, j: int| 0 <= i < j < self.entries@.len() implies (
                #[trigger] self.entries@[i]).0.rank() < (#[trigger] self.entries@[j]).0.rank() by {
                    let bi = if i < at { i } else { i - 1 };
                    let bj = if j < at { j } else { j - 1 };
                    if i != at && j != at {
                        assert(self.entries@[i] == before.entries@[bi]);
                        assert(self.entries@[j] == before.entries@[bj]);
                    } else if i == at {
                        assert(self.entries@[j] == before.entries@[bj]);
                        if bj > at {
                            assert(before.entries@[at as int].0.rank()
                                < before.entries@[bj].0.rank());
                        }
                    } else {
                        assert(self.entries@[i] == before.entries@[bi]);
                    }
                }
                assert forall|k: K| self.holds(k) == (before.holds(k) || k == key) by {
                    if self.holds(k) {
                        let i = self.index_of(k);
                        if i < at {
                            assert(before.entries@[i].0 == k);
                        } else if i > at {
                            assert(before.entries@[i - 1].0 == k);
                        }
                    }
                    if before.holds(k) {
                        let i = before.index_of(k);
                        if i < at {
                            assert(self.entries@[i].0 == k);
                        } else {
                            assert(self.entries@[i + 1].0 == k);
                        }
                    }
                    assert(self.entries@[at as int].0 == key);
                }
                assert forall|k: K| before.holds(k) && k != key implies self@[k] == before@[k] by {
                    let i = before.index_of(k);
                    assert(before.entries@[i].0 == k);
                    before.lemma_at(i);
                    let n = if i < at { i } else { i + 1 };
                    assert(self.entries@[n] == before.entries@[i]);
                    self.lemma_at(n);
                }
                self.lemma_at(at as int);
                assert(self@ =~= before@.insert(key, value));
            }
        }
    }

    /// Removes the row under `key`, and says whether there was one.
    pub fn erase(&mut self, key: &K) -> (removed: bool)
        requires
            old(self).wf(),
        ensures
            final(self).wf(),
            removed == old(self)@.dom().contains(*key),
            final(self)@ == old(self)@.remove(*key),
    {
        let ghost before = *self;
        match self.position(key) {
            Some(at) => {
                self.entries.remove(at);
                proof {
                    assert(self.entries@ == before.entries@.remove(at as int));
                    assert forall|i: int, j: int| 0 <= i < j < self.entries@.len() implies (
                    #[trigger] self.entries@[i]).0.rank() < (
                    #[trigger] self.entries@[j]).0.rank() by {
                        let bi = if i < at { i } else { i + 1 };
                        let bj = if j < at { j } else { j + 1 };
                        assert(self.entries@[i] == before.entries@[bi]);
                        assert(self.entries@[j] == before.entries@[bj]);
                    }
                    assert forall|k: K| self.holds(k) == (before.holds(k) && k != *key) by {
                        if self.holds(k) {
                            let i = self.index_of(k);
                            let b = if i < at { i } else { i + 1 };
                            assert(before.entries@[b] == self.entries@[i]);
                            if b < at {
                                assert(before.entries@[b].0.rank()
                                    < before.entries@[at as int].0.rank());
                            } else {
                                assert(before.entries@[at as int].0.rank()
                                    < before.entries@[b].0.rank());
                            }
                        }
                        if before.holds(k) && k != *key {
                            let i = before.index_of(k);
                            let n = if i < at { i } else { i - 1 };
                            assert(self.entries@[n] == before.entries@[i]);
                        }
                    }
                    assert forall|k: K| self.holds(k) implies self@[k] == before@[k] by {
                        let i = self.index_of(k);
                        self.lemma_at(i);
                        let b = if i < at { i } else { i + 1 };
                        assert(before.entries@[b] == self.entries@[i]);
                        before.lemma_at(b);
                    }
                    assert(self@ =~= before@.remove(*key));
                }
                true
            },
            None => {
                assert(self@ =~= before@.remove(*key));
                false
            },
        }
    }

    /// A second table with the same rows.
    pub fn duplicate(&self) -> (t: Self)
        requires
            self.wf(),
        ensures
            t.wf(),
            t@ == self@,
            t.keys() == self.keys(),
    {
        let mut entries: Vec<(K, R)> = Vec::new();
        let mut i: usize = 0;
        while i < self.entries.len()
            invariant
                self.wf(),
                i <= self.entries@.len(),
                entries@.len() == i,
                forall|j: int|
                    0 <= j < i ==> (#[trigger] entries@[j]).0 == self.entries@[j].0 && entries@[j].1@
                        == self.entries@[j].1@,
            decreases self.entries@.len() - i,
        {
            let copy: R = self.entries[i].1.duplicate();
            entries.push((self.entries[i].0, copy));
            i = i + 1;
        }
        let t = Table { entries };
        proof {
            assert forall|i: int, j: int| 0 <= i < j < t.entries@.len() implies (
            #[trigger] t.entries@[i]).0.rank() < (#[trigger] t.entries@[j]).0.rank() by {
                assert(self.entries@[i].0.rank() < self.entries@[j].0.rank());
            }
            assert forall|k: K| t.holds(k) == self.holds(k) by {
                if t.holds(k) {
                    let i = t.index_of(k);
                    assert(self.entries@[i].0 == k);
                }
                if self.holds(k) {
                    let i = self.index_of(k);
                    assert(t.entries@[i].0 == k);
                }
            }
            assert forall|k: K| t.holds(k) implies t@[k] == self@[k] by {
                let i = t.index_of(k);
                assert(t.entries@[i].0 == k);
                t.lemma_at(i);
                self.lemma_at(i);
            }
            assert(t@ =~= self@);
            assert(t.keys() =~= self.keys());
        }
        t
    }
}

/// The map that entries make: a later row replaces an earlier one with the same key.
pub open spec fn map_of<K: TableKey, R: Row>(entries: Seq<(K, R)>) -> Map<K, <R as View>::V>
    decreases entries.len(),
{
    if entries.len() == 0 {
        Map::empty()
    } else {
        map_of(entries.drop_last()).insert(entries.last().0, entries.last().1@)
    }
}

impl<K: TableKey, R: Row> Table<K, R> {
    /// The table that entries make.
    pub fn from_entries(entries: &Vec<(K, R)>) -> (t: Self)
        ensures
            t.wf(),
            t@ == map_of(entries@),
    {
        let mut t: Table<K, R> = Table::new();
        let mut i: usize = 0;
        assert(entries@.take(0) =~= Seq::<(K, R)>::empty());
        while i < entries.len()
            invariant
                i <= entries@.len(),
                t.wf(),
                t@ == map_of(entries@.take(i as int)),
            decreases entries@.len() - i,
        {
            let copy: R = entries[i].1.duplicate();
            t.put(entries[i].0, copy);
            i = i + 1;
            proof {
                let next = entries@.take(i as int);
                assert(next.drop_last() =~= entries@.take(i - 1));
                assert(next.last() == entries@[i - 1]);
            }
        }
        assert(entries@.take(i as int) =~= entries@);
        t
    }

    /// The entries in ascending key order.
    pub fn to_entries(&self) -> (r: Vec<(K, R)>)
        requires
            self.wf(),
        ensures
            map_of(r@) == self@,
            r@.len() == self.keys().len(),
            forall|i: int| 0 <= i < r@.len() ==> (#[trigger] r@[i]).0 == self.keys()[i],
    {
        let mut r: Vec<(K, R)> = Vec::new();
        let mut i: usize = 0;
        while i < self.entries.len()
            invariant
                self.wf(),
                i <= self.entries@.len(),
                r@.len() == i,
                forall|j: int| 0 <= j < i ==> (#[trigger] r@[j]).0 == self.entries@[j].0,
                forall|k: K| #[trigger]
                    map_of(r@).dom().contains(k) <==> exists|j: int|
                        0 <= j < i && (#[trigger] self.entries@[j]).0 == k,
                forall|k: K| #[trigger]
                    map_of(r@).dom().contains(k) ==> self@.dom().contains(k) && map_of(r@)[k]
                        == self@[k],
            decreases self.entries@.len() - i,
        {
            let ghost before = r@;
            let copy: R = self.entries[i].1.duplicate();
            r.push((self.entries[i].0, copy));
            proof {
                self.lemma_at(i as int);
                let key = self.entries@[i as int].0;
                assert(r@.drop_last() =~= before);
                assert(map_of(r@) == map_of(before).insert(key, self@[key]));
                assert forall|k: K| #[trigger] map_of(r@).dom().contains(k) <==> exists|j: int|
                    0 <= j < i + 1 && (#[trigger] self.entries@[j]).0 == k by {
                    if k == key {
                        assert(self.entries@[i as int].0 == k);
                    } else {
                        assert(map_of(before).dom().contains(k) == map_of(r@).dom().contains(k));
                        if exists|j: int| 0 <= j < i + 1 && (#[trigger] self.entries@[j]).0 == k {
                            let j = choose|j: int|
                                0 <= j < i + 1 && (#[trigger] self.entries@[j]).0 == k;
                            assert(j < i);
                        }
                    }
                }
            }
            i = i + 1;
        }
        proof {
            assert forall|k: K| #[trigger] self@.dom().contains(k) implies map_of(
                r@,
            ).dom().contains(k) by {
                let j = self.index_of(k);
                assert(self.entries@[j].0 == k);
            }
            assert(map_of(r@) =~= self@);
        }
        r
    }
}

/// The order of the keys as a function.
pub open spec fn key_rank<K: TableKey>() -> spec_fn(K) -> int {
    |k: K| k.rank()
}

/// `found` holds, in order, the eligible keys among the first `n` of `keys`.
pub open spec fn gathered<K: TableKey>(
    found: Seq<K>,
    keys: Seq<K>,
    n: int,
    eligible: spec_fn(K) -> bool,
) -> bool {
    &&& ascends(found, key_rank::<K>())
    &&& forall|x: int|
        0 <= x < found.len() ==> eligible(#[trigger] found[x]) && exists|j: int|
            0 <= j < n && #[trigger] keys[j] == found[x]
    &&& forall|j: int|
        0 <= j < n && eligible(#[trigger] keys[j]) ==> found.contains(keys[j])
}

/// Taking up the next key, where it is eligible.
pub proof fn lemma_gather<K: TableKey>(
    found: Seq<K>,
    keys: Seq<K>,
    n: int,
    eligible: spec_fn(K) -> bool,
)
    requires
        gathered(found, keys, n, eligible),
        0 <= n < keys.len(),
        ascends(keys, key_rank::<K>()),
    ensures
        eligible(keys[n]) ==> gathered(found.push(keys[n]), keys, n + 1, eligible),
        !eligible(keys[n]) ==> gathered(found, keys, n + 1, eligible),
{
    let rank = key_rank::<K>();
    if eligible(keys[n]) {
        let next = found.push(keys[n]);
        assert forall|a: int, b: int| 0 <= a < b < next.len() implies rank(#[trigger] next[a])
            < rank(#[trigger] next[b]) by {
            if b == found.len() {
                let j = choose|j: int| 0 <= j < n && #[trigger] keys[j] == found[a];
                assert(rank(keys[j]) < rank(keys[n]));
            }
        }
        assert forall|x: int| 0 <= x < next.len() implies eligible(#[trigger] next[x]) && exists|
            j: int,
        |
            0 <= j < n + 1 && #[trigger] keys[j] == next[x] by {
            if x < found.len() {
                assert(next[x] == found[x]);
                let j = choose|j: int| 0 <= j < n && #[trigger] keys[j] == found[x];
                assert(keys[j] == next[x]);
            } else {
                assert(keys[n] == next[x]);
            }
        }
        assert forall|j: int| 0 <= j < n + 1 && eligible(#[trigger] keys[j]) implies next.contains(
            keys[j],
        ) by {
            if j < n {
                let x = found.index_of(keys[j]);
                assert(found.contains(keys[j]));
                assert(next[x] == keys[j]);
            } else {
                assert(next[found.len() as int] == keys[n]);
            }
        }
    } else {
        assert forall|x: int| 0 <= x < found.len() implies eligible(#[trigger] found[x]) && exists|
            j: int,
        |
            0 <= j < n + 1 && #[trigger] keys[j] == found[x] by {
            let j = choose|j: int| 0 <= j < n && #[trigger] keys[j] == found[x];
            assert(keys[j] == found[x]);
        }
    }
}

/// Ranks separate keys.
pub proof fn lemma_key_rank_separates<K: TableKey>(eligible: spec_fn(K) -> bool)
    ensures
        separates(eligible, key_rank::<K>()),
{
    assert forall|a: K, b: K| #[trigger]
        eligible(a) && #[trigger] eligible(b) && key_rank::<K>()(a) == key_rank::<K>()(b) implies a
        == b by {
        K::rank_is_injective(a, b);
    }
}

/// What was gathered from all keys is the listing of the eligible keys.
pub proof fn lemma_gathered_all<K: TableKey>(
    found: Seq<K>,
    keys: Seq<K>,
    eligible: spec_fn(K) -> bool,
)
    requires
        gathered(found, keys, keys.len() as int, eligible),
        forall|k: K| #[trigger]
            eligible(k) ==> exists|j: int| 0 <= j < keys.len() && #[trigger] keys[j] == k,
    ensures
        is_listing(found, eligible, key_rank::<K>()),
        found == crate::order::listing(eligible, key_rank::<K>()),
{
    assert forall|k: K| #[trigger] eligible(k) implies found.contains(k) by {
        let j = choose|j: int| 0 <= j < keys.len() && #[trigger] keys[j] == k;
        assert(eligible(keys[j]));
    }
    lemma_key_rank_separates::<K>(eligible);
    crate::order::lemma_is_listing(found, eligible, key_rank::<K>());
}

/// What was gathered up to the limit, or from all keys, is the page of the eligible keys.
pub proof fn lemma_gathered_page<K: TableKey>(
    found: Seq<K>,
    keys: Seq<K>,
    n: int,
    eligible: spec_fn(K) -> bool,
    limit: nat,
)
    requires
        gathered(found, keys, n, eligible),
        0 <= n <= keys.len(),
        found.len() <= limit,
        n == keys.len() || found.len() == limit,
        ascends(keys, key_rank::<K>()),
        forall|k: K| #[trigger]
            eligible(k) ==> exists|j: int| 0 <= j < keys.len() && #[trigger] keys[j] == k,
    ensures
        is_page(found, eligible, key_rank::<K>(), limit),
        found == crate::order::first_page(eligible, key_rank::<K>(), limit),
{
    let rank = key_rank::<K>();
    assert forall|k: K| #[trigger] eligible(k) && !found.contains(k) implies found.len() == limit
        && (forall|i: int| 0 <= i < found.len() ==> rank(#[trigger] found[i]) < rank(k)) by {
        let j = choose|j: int| 0 <= j < keys.len() && #[trigger] keys[j] == k;
        assert(eligible(keys[j]));
        assert(j >= n);
        assert forall|i: int| 0 <= i < found.len() implies rank(#[trigger] found[i]) < rank(k) by {
            let o = choose|o: int| 0 <= o < n && #[trigger] keys[o] == found[i];
            assert(rank(keys[o]) < rank(keys[j]));
        }
    }
    lemma_key_rank_separates::<K>(eligible);
    crate::order::lemma_is_first_page(found, eligible, rank, limit);
}

} // verus!
