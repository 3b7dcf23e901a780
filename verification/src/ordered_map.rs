//! Maps and sets that keep their keys in increasing order.
//!
//! An [`OrdMap`] is a vector of entries sorted by key, without repeated
//! keys. Its listing, the sequence of its entries in order, is what the
//! protocol walks when it shares amounts out; its view is the map from keys
//! to values.
//!
//! The order is part of what the protocol does: sums run over the listing,
//! shares come out in the order of the keys, the first entry takes what
//! rounding left over, and two maps with the same entries have the same
//! listing. So the listing is a value that contracts can speak of, and
//! every operation is proved to keep it sorted.
//!
//! These are the maps and sets of the protocol whose keys are principals,
//! which are ordered by a rank that is proved to tell them apart. Maps and
//! sets of ids are tree maps of the standard library, see
//! [`crate::id_map`]; what is said of listings here holds of theirs.

use vstd::prelude::*;

verus! {

/// A key with a total order, given by an integer rank that tells keys apart.
pub trait OrderedKey: Copy {
    /// The rank by which keys are ordered.
    spec fn rank(&self) -> int;

    /// Keys of the same rank are the same key.
    proof fn lemma_rank_tells_apart(a: Self, b: Self)
        requires
            a.rank() == b.rank(),
        ensures
            a == b,
    ;

    /// Whether `self` comes before `other`.
    fn precedes(&self, other: &Self) -> (before: bool)
        ensures
            before == (self.rank() < other.rank()),
    ;
}

impl OrderedKey for u64 {
    open spec fn rank(&self) -> int {
        *self as int
    }

    proof fn lemma_rank_tells_apart(a: Self, b: Self) {
    }

    fn precedes(&self, other: &Self) -> (before: bool) {
        *self < *other
    }
}

/// Whether the keys of `s` increase strictly.
pub open spec fn increasing<K: OrderedKey, V>(s: Seq<(K, V)>) -> bool {
    forall|i: int, j: int| 0 <= i < j < s.len() ==> (#[trigger] s[i]).0.rank() < (#[trigger] s[j]).0.rank()
}

/// In an increasing `s`, the number of entries whose rank is below `r`:
/// the place of an entry of rank `r`.
pub open spec fn slot<K: OrderedKey, V>(s: Seq<(K, V)>, r: int) -> int
    decreases s.len(),
{
    if s.len() == 0 {
        0
    } else if s.last().0.rank() < r {
        s.len() as int
    } else {
        slot(s.drop_last(), r)
    }
}

/// Whether `s` has an entry for `k`.
pub open spec fn has_key<K: OrderedKey, V>(s: Seq<(K, V)>, k: K) -> bool {
    let i = slot(s, k.rank());
    i < s.len() && s[i].0 == k
}

/// The value that `s` holds for `k`, where it has one.
pub open spec fn value_of<K: OrderedKey, V>(s: Seq<(K, V)>, k: K) -> V {
    s[slot(s, k.rank())].1
}

/// `s` with the value of `k` set to `v`.
pub open spec fn with_entry<K: OrderedKey, V>(s: Seq<(K, V)>, k: K, v: V) -> Seq<(K, V)> {
    let i = slot(s, k.rank());
    if has_key(s, k) {
        s.update(i, (k, v))
    } else {
        s.insert(i, (k, v))
    }
}

/// `s` without the entry of `k`.
pub open spec fn without_key<K: OrderedKey, V>(s: Seq<(K, V)>, k: K) -> Seq<(K, V)> {
    if has_key(s, k) {
        s.remove(slot(s, k.rank()))
    } else {
        s
    }
}

/// The keys of a listing, in its order.
pub open spec fn keys_of<K: OrderedKey, V>(s: Seq<(K, V)>) -> Seq<K> {
    Seq::new(s.len(), |i: int| s[i].0)
}

/// The map that the listing `s` stands for.
pub open spec fn as_map<K: OrderedKey, V>(s: Seq<(K, V)>) -> Map<K, V> {
    Map::new(|k: K| has_key(s, k), |k: K| value_of(s, k))
}

/// The place of rank `r` splits an increasing listing into the ranks below
/// `r` and the others.
pub proof fn lemma_slot_splits<K: OrderedKey, V>(s: Seq<(K, V)>, r: int)
    requires
        increasing(s),
    ensures
        0 <= slot(s, r) <= s.len(),
        forall|j: int| 0 <= j < slot(s, r) ==> (#[trigger] s[j]).0.rank() < r,
        forall|j: int| slot(s, r) <= j < s.len() ==> (#[trigger] s[j]).0.rank() >= r,
    decreases s.len(),
{
    if s.len() == 0 {
    } else if s.last().0.rank() < r {
        assert forall|j: int| 0 <= j < s.len() implies (#[trigger] s[j]).0.rank() < r by {
            if j < s.len() - 1 {
                assert(s[j].0.rank() < s[s.len() - 1].0.rank());
            }
        }
    } else {
        let t = s.drop_last();
        assert(increasing(t)) by {
            assert forall|i: int, j: int| 0 <= i < j < t.len() implies (#[trigger] t[i]).0.rank() < (
            #[trigger] t[j]).0.rank() by {
                assert(t[i] == s[i] && t[j] == s[j]);
            }
        }
        lemma_slot_splits(t, r);
        assert forall|j: int| 0 <= j < slot(s, r) implies (#[trigger] s[j]).0.rank() < r by {
            assert(t[j] == s[j]);
        }
        assert forall|j: int| slot(s, r) <= j < s.len() implies (#[trigger] s[j]).0.rank() >= r by {
            if j < t.len() {
                assert(t[j] == s[j]);
            }
        }
    }
}

/// An index that splits an increasing listing as the place of `r` does is
/// that place.
pub proof fn lemma_slot_is<K: OrderedKey, V>(s: Seq<(K, V)>, r: int, i: int)
    requires
        increasing(s),
        0 <= i <= s.len(),
        forall|j: int| 0 <= j < i ==> (#[trigger] s[j]).0.rank() < r,
        forall|j: int| i <= j < s.len() ==> (#[trigger] s[j]).0.rank() >= r,
    ensures
        slot(s, r) == i,
{
    lemma_slot_splits(s, r);
    let p = slot(s, r);
    if p < i {
        assert(s[p].0.rank() < r);
        assert(s[p].0.rank() >= r);
    } else if i < p {
        assert(s[i].0.rank() >= r);
        assert(s[i].0.rank() < r);
    }
}

/// In an increasing listing, the entry at index `i` is the entry of its key.
pub proof fn lemma_entry_found<K: OrderedKey, V>(s: Seq<(K, V)>, i: int)
    requires
        increasing(s),
        0 <= i < s.len(),
    ensures
        slot(s, s[i].0.rank()) == i,
        has_key(s, s[i].0),
        value_of(s, s[i].0) == s[i].1,
        as_map(s).contains_key(s[i].0),
        as_map(s)[s[i].0] == s[i].1,
{
    let r = s[i].0.rank();
    assert forall|j: int| 0 <= j < i implies (#[trigger] s[j]).0.rank() < r by {
        assert(s[j].0.rank() < s[i].0.rank());
    }
    assert forall|j: int| i <= j < s.len() implies (#[trigger] s[j]).0.rank() >= r by {
        if i < j {
            assert(s[i].0.rank() < s[j].0.rank());
        }
    }
    lemma_slot_is(s, r, i);
}

/// A key that the map of an increasing listing holds stands at its place
/// in the listing.
pub proof fn lemma_key_has_entry<K: OrderedKey, V>(s: Seq<(K, V)>, k: K)
    requires
        increasing(s),
        as_map(s).contains_key(k),
    ensures
        0 <= slot(s, k.rank()) < s.len(),
        s[slot(s, k.rank())] == (k, as_map(s)[k]),
{
    lemma_slot_splits(s, k.rank());
}

/// A key found anywhere in an increasing listing is a key of its map.
pub proof fn lemma_listed_key<K: OrderedKey, V>(s: Seq<(K, V)>, k: K, i: int)
    requires
        increasing(s),
        0 <= i < s.len(),
        s[i].0 == k,
    ensures
        has_key(s, k),
        slot(s, k.rank()) == i,
{
    lemma_entry_found(s, i);
}

/// Setting a value keeps a listing increasing and sets the value in its map.
pub proof fn lemma_with_entry<K: OrderedKey, V>(s: Seq<(K, V)>, k: K, v: V)
    requires
        increasing(s),
    ensures
        increasing(with_entry(s, k, v)),
        as_map(with_entry(s, k, v)) == as_map(s).insert(k, v),
        has_key(s, k) ==> with_entry(s, k, v).len() == s.len(),
        !has_key(s, k) ==> with_entry(s, k, v).len() == s.len() + 1,
{
    let r = k.rank();
    let i = slot(s, r);
    let t = with_entry(s, k, v);
    lemma_slot_splits(s, r);
    if has_key(s, k) {
        assert forall|a: int, b: int| 0 <= a < b < t.len() implies (#[trigger] t[a]).0.rank() < (
        #[trigger] t[b]).0.rank() by {
            assert(s[a].0.rank() < s[b].0.rank());
        }
    } else {
        assert forall|j: int| i <= j < s.len() implies (#[trigger] s[j]).0.rank() > r by {
            if s[j].0.rank() == r {
                K::lemma_rank_tells_apart(s[j].0, k);
                lemma_listed_key(s, k, j);
            }
        }
        assert forall|a: int, b: int| 0 <= a < b < t.len() implies (#[trigger] t[a]).0.rank() < (
        #[trigger] t[b]).0.rank() by {
            let a0 = if a < i {
                a
            } else {
                a - 1
            };
            let b0 = if b < i {
                b
            } else {
                b - 1
            };
            if a != i && b != i {
                assert(s[a0].0.rank() < s[b0].0.rank());
            } else if a == i {
                assert(s[b0].0.rank() > r);
            } else {
                assert(s[a0].0.rank() < r);
            }
        }
    }
    assert(t[i] == (k, v));
    assert forall|q: K| #[trigger] has_key(t, q) == (q == k || has_key(s, q)) && (has_key(t, q) ==> value_of(
        t,
        q,
    ) == if q == k {
        v
    } else {
        value_of(s, q)
    }) by {
        if q == k {
            lemma_entry_found(t, i);
        } else {
            let rq = q.rank();
            let j = slot(s, rq);
            lemma_slot_splits(s, rq);
            if rq == r {
                K::lemma_rank_tells_apart(q, k);
            }
            let j2 = if has_key(s, k) || rq < r {
                j
            } else {
                j + 1
            };
            if rq < r {
                if i < j {
                    assert(s[i].0.rank() < rq);
                }
                assert(j <= i);
            } else {
                if j < i {
                    assert(s[j].0.rank() < r);
                }
                assert(i <= j);
            }
            assert forall|x: int| 0 <= x < j2 implies (#[trigger] t[x]).0.rank() < rq by {
                if has_key(s, k) {
                    if x != i {
                        assert(t[x] == s[x]);
                    }
                } else if x < i {
                    assert(t[x] == s[x]);
                } else if x > i {
                    assert(t[x] == s[x - 1]);
                }
            }
            assert forall|x: int| j2 <= x < t.len() implies (#[trigger] t[x]).0.rank() >= rq by {
                if has_key(s, k) {
                    if x != i {
                        assert(t[x] == s[x]);
                    } else {
                        assert(s[i].0.rank() >= rq);
                    }
                } else if x < i {
                    assert(t[x] == s[x]);
                } else if x > i {
                    assert(t[x] == s[x - 1]);
                }
            }
            lemma_slot_is(t, rq, j2);
            if j2 < t.len() {
                if has_key(s, k) {
                    if j2 != i {
                        assert(t[j2] == s[j]);
                    }
                } else if j2 < i {
                    assert(t[j2] == s[j]);
                } else if j2 > i {
                    assert(t[j2] == s[j]);
                }
            }
        }
    }
    assert(as_map(t) =~= as_map(s).insert(k, v));
}

/// Taking a key away keeps a listing increasing and takes the key from its map.
pub proof fn lemma_without_key<K: OrderedKey, V>(s: Seq<(K, V)>, k: K)
    requires
        increasing(s),
    ensures
        increasing(without_key(s, k)),
        as_map(without_key(s, k)) == as_map(s).remove(k),
        has_key(s, k) ==> without_key(s, k).len() == s.len() - 1,
{
    let r = k.rank();
    let i = slot(s, r);
    let t = without_key(s, k);
    lemma_slot_splits(s, r);
    if has_key(s, k) {
        assert forall|a: int, b: int| 0 <= a < b < t.len() implies (#[trigger] t[a]).0.rank() < (
        #[trigger] t[b]).0.rank() by {
            let a0 = if a < i {
                a
            } else {
                a + 1
            };
            let b0 = if b < i {
                b
            } else {
                b + 1
            };
            assert(s[a0].0.rank() < s[b0].0.rank());
        }
        assert forall|x: int| i < x < s.len() implies (#[trigger] s[x]).0.rank() > r by {
            assert(s[i].0.rank() < s[x].0.rank());
        }
        assert forall|q: K| #[trigger] has_key(t, q) == (q != k && has_key(s, q)) && (has_key(t, q)
            ==> value_of(t, q) == value_of(s, q)) by {
            let rq = q.rank();
            let j = slot(s, rq);
            lemma_slot_splits(s, rq);
            if rq == r {
                K::lemma_rank_tells_apart(q, k);
            }
            let j2 = if rq <= r {
                j
            } else {
                j - 1
            };
            if rq > r {
                assert(s[i].0.rank() < rq);
                assert(j > i);
            }
            assert forall|x: int| 0 <= x < j2 implies (#[trigger] t[x]).0.rank() < rq by {
                if x < i {
                    assert(t[x] == s[x]);
                } else {
                    assert(t[x] == s[x + 1]);
                }
            }
            assert forall|x: int| j2 <= x < t.len() implies (#[trigger] t[x]).0.rank() >= rq by {
                if x < i {
                    assert(t[x] == s[x]);
                    assert(s[x].0.rank() >= rq);
                } else {
                    assert(t[x] == s[x + 1]);
                    assert(s[x + 1].0.rank() >= rq);
                }
            }
            lemma_slot_is(t, rq, j2);
            if j2 < t.len() {
                if j2 < i {
                    assert(t[j2] == s[j2]);
                } else {
                    assert(t[j2] == s[j2 + 1]);
                }
            }
        }
        assert(as_map(t) =~= as_map(s).remove(k));
    } else {
        assert(as_map(t) =~= as_map(s).remove(k));
    }
}

/// Increasing listings with the same keys list them in the same order.
pub proof fn lemma_same_keys_same_order<K: OrderedKey, V, W>(a: Seq<(K, V)>, b: Seq<(K, W)>)
    requires
        increasing(a),
        increasing(b),
        as_map(a).dom() == as_map(b).dom(),
    ensures
        keys_of(a) == keys_of(b),
    decreases a.len(),
{
    if a.len() == 0 {
        if b.len() > 0 {
            lemma_entry_found(b, 0);
            assert(as_map(a).dom().contains(b[0].0));
        }
        assert(keys_of(a) =~= keys_of(b));
    } else {
        lemma_entry_found(a, 0);
        let first = a[0].0;
        assert(as_map(b).dom().contains(first));
        lemma_slot_splits(b, first.rank());
        let j = slot(b, first.rank());
        if j > 0 {
            lemma_entry_found(b, 0);
            let other = b[0].0;
            assert(b[0].0.rank() < b[j].0.rank());
            assert(as_map(a).dom().contains(other));
            lemma_slot_splits(a, other.rank());
            let i = slot(a, other.rank());
            if i > 0 {
                assert(a[0].0.rank() < a[i].0.rank());
            }
        }
        lemma_without_key(a, first);
        lemma_without_key(b, first);
        let rest_a = a.drop_first();
        let rest_b = b.drop_first();
        assert(without_key(a, first) =~= rest_a);
        assert(without_key(b, first) =~= rest_b);
        assert(as_map(rest_a).dom() =~= as_map(rest_b).dom());
        lemma_same_keys_same_order(rest_a, rest_b);
        assert(a.len() == b.len()) by {
            assert(keys_of(rest_a).len() == keys_of(rest_b).len());
        }
        assert forall|i: int| 0 <= i < a.len() implies a[i].0 == b[i].0 by {
            if i > 0 {
                assert(keys_of(rest_a)[i - 1] == keys_of(rest_b)[i - 1]);
                assert(rest_a[i - 1] == a[i]);
                assert(rest_b[i - 1] == b[i]);
            }
        }
        assert(keys_of(a) =~= keys_of(b));
    }
}

/// Increasing listings of the same map are the same.
pub proof fn lemma_same_map_same_listing<K: OrderedKey, V>(a: Seq<(K, V)>, b: Seq<(K, V)>)
    requires
        increasing(a),
        increasing(b),
        as_map(a) == as_map(b),
    ensures
        a == b,
{
    lemma_same_keys_same_order(a, b);
    assert(a.len() == keys_of(a).len());
    assert(b.len() == keys_of(b).len());
    assert forall|i: int| 0 <= i < a.len() implies a[i] == b[i] by {
        assert(keys_of(a)[i] == keys_of(b)[i]);
        lemma_entry_found(a, i);
        lemma_entry_found(b, i);
    }
    assert(a =~= b);
}

/// The map of an increasing listing has as many keys as the listing has
/// entries.
pub proof fn lemma_keys_counted<K: OrderedKey, V>(s: Seq<(K, V)>)
    requires
        increasing(s),
    ensures
        as_map(s).dom().finite(),
        as_map(s).dom().len() == s.len(),
    decreases s.len(),
{
    if s.len() == 0 {
        assert(as_map(s).dom() =~= Set::empty());
    } else {
        let t = s.drop_last();
        let last = s.len() - 1;
        let k = s.last().0;
        assert(increasing(t)) by {
            assert forall|i: int, j: int| 0 <= i < j < t.len() implies (#[trigger] t[i]).0.rank() < (
            #[trigger] t[j]).0.rank() by {
                assert(s[i].0.rank() < s[j].0.rank());
            }
        }
        lemma_keys_counted(t);
        assert(!as_map(t).dom().contains(k)) by {
            if as_map(t).contains_key(k) {
                lemma_key_has_entry(t, k);
                let j = slot(t, k.rank());
                assert(s[j].0.rank() < s[last].0.rank());
            }
        }
        assert forall|x: K| as_map(s).dom().contains(x) <==> as_map(t).dom().insert(k).contains(x) by {
            if as_map(s).contains_key(x) {
                lemma_key_has_entry(s, x);
                let j = slot(s, x.rank());
                if j < last {
                    assert(t[j].0 == x);
                    lemma_listed_key(t, x, j);
                }
            }
            if as_map(t).contains_key(x) {
                lemma_key_has_entry(t, x);
                let j = slot(t, x.rank());
                assert(s[j].0 == x);
                lemma_listed_key(s, x, j);
            }
            if x == k {
                lemma_listed_key(s, k, last);
            }
        }
        assert(as_map(s).dom() =~= as_map(t).dom().insert(k));
    }
}

/// A map whose keys are kept in increasing order.
#[derive(Debug)]
pub struct OrdMap<K: OrderedKey, V> {
    entries: Vec<(K, V)>,
}

impl<K: OrderedKey, V> View for OrdMap<K, V> {
    type V = Map<K, V>;

    open spec fn view(&self) -> Map<K, V> {
        as_map(self.listing())
    }
}

impl<K: OrderedKey, V> OrdMap<K, V> {
    /// The entries in the order of their keys.
    pub closed spec fn listing(&self) -> Seq<(K, V)> {
        self.entries@
    }

    /// Whether the keys increase strictly, as they do in every map that
    /// the functions of this type have made.
    pub open spec fn wf(&self) -> bool {
        increasing(self.listing())
    }

    /// The empty map.
    pub fn new() -> (map: Self)
        ensures
            map.wf(),
            map.listing() == Seq::<(K, V)>::empty(),
            map@ == Map::<K, V>::empty(),
    {
        let map = OrdMap { entries: Vec::new() };
        assert(map@ =~= Map::<K, V>::empty());
        map
    }

    /// The number of entries.
    pub fn len(&self) -> (n: usize)
        ensures
            n == self.listing().len(),
    {
        self.entries.len()
    }

    /// Whether the map has no entry.
    pub fn is_empty(&self) -> (empty: bool)
        ensures
            empty == (self.listing().len() == 0),
    {
        self.entries.len() == 0
    }

    /// The place of `key` among the entries.
    fn search(&self, key: &K) -> (index: usize)
        requires
            self.wf(),
        ensures
            index == slot(self.listing(), key.rank()),
            index <= self.listing().len(),
    {
        let mut low: usize = 0;
        let mut high: usize = self.entries.len();
        while low < high
            invariant
                self.wf(),
                0 <= low <= high <= self.entries.len(),
                forall|j: int| 0 <= j < low ==> (#[trigger] self.entries@[j]).0.rank() < key.rank(),
                forall|j: int|
                    high <= j < self.entries.len() ==> (#[trigger] self.entries@[j]).0.rank()
                        >= key.rank(),
            decreases high - low,
        {
            let middle = low + (high - low) / 2;
            if self.entries[middle].0.precedes(key) {
                assert forall|j: int| 0 <= j < middle + 1 implies (#[trigger] self.entries@[j]).0.rank()
                    < key.rank() by {
                    if j < middle {
                        assert(self.entries@[j].0.rank() < self.entries@[middle as int].0.rank());
                    }
                }
                low = middle + 1;
            } else {
                assert forall|j: int| middle <= j < self.entries.len() implies (
                #[trigger] self.entries@[j]).0.rank() >= key.rank() by {
                    if middle < j {
                        assert(self.entries@[middle as int].0.rank() < self.entries@[j].0.rank());
                    }
                }
                high = middle;
            }
        }
        proof {
            lemma_slot_is(self.listing(), key.rank(), low as int);
        }
        low
    }

    /// Whether the entry at `index`, if there is one, is that of `key`.
    fn holds_at(&self, index: usize, key: &K) -> (found: bool)
        requires
            self.wf(),
            index == slot(self.listing(), key.rank()),
        ensures
            found == has_key(self.listing(), *key),
    {
        if index < self.entries.len() {
            let other = &self.entries[index].0;
            let found = !key.precedes(other) && !other.precedes(key);
            proof {
                if found {
                    K::lemma_rank_tells_apart(*other, *key);
                }
            }
            found
        } else {
            false
        }
    }

    /// Whether the map has an entry for `key`.
    pub fn contains_key(&self, key: &K) -> (found: bool)
        requires
            self.wf(),
        ensures
            found == self@.contains_key(*key),
    {
        let index = self.search(key);
        self.holds_at(index, key)
    }

    /// The value of `key`, if the map has one.
    pub fn get(&self, key: &K) -> (value: Option<&V>)
        requires
            self.wf(),
        ensures
            value is Some <==> self@.contains_key(*key),
            value matches Some(v) ==> *v == self@[*key],
    {
        let index = self.search(key);
        if self.holds_at(index, key) {
            Some(&self.entries[index].1)
        } else {
            None
        }
    }

    /// The entry at `index` of the listing.
    pub fn entry_at(&self, index: usize) -> (entry: &(K, V))
        requires
            index < self.listing().len(),
        ensures
            *entry == self.listing()[index as int],
    {
        &self.entries[index]
    }

    /// Sets the value of `key`, and returns the value it had.
    pub fn insert(&mut self, key: K, value: V) -> (previous: Option<V>)
        requires
            old(self).wf(),
        ensures
            final(self).wf(),
            final(self).listing() == with_entry(old(self).listing(), key, value),
            final(self)@ == old(self)@.insert(key, value),
            previous is Some <==> old(self)@.contains_key(key),
            previous matches Some(v) ==> v == old(self)@[key],
    {
        let index = self.search(&key);
        proof {
            lemma_with_entry(self.listing(), key, value);
        }
        if self.holds_at(index, &key) {
            let (_, previous) = self.entries.remove(index);
            self.entries.insert(index, (key, value));
            assert(self.entries@ =~= with_entry(old(self).listing(), key, value));
            Some(previous)
        } else {
            self.entries.insert(index, (key, value));
            None
        }
    }

    /// Takes the entry of `key` away, and returns the value it had.
    pub fn remove(&mut self, key: &K) -> (previous: Option<V>)
        requires
            old(self).wf(),
        ensures
            final(self).wf(),
            final(self).listing() == without_key(old(self).listing(), *key),
            final(self)@ == old(self)@.remove(*key),
            previous is Some <==> old(self)@.contains_key(*key),
            previous matches Some(v) ==> v == old(self)@[*key],
    {
        let index = self.search(key);
        proof {
            lemma_without_key(self.listing(), *key);
        }
        if self.holds_at(index, key) {
            let (_, previous) = self.entries.remove(index);
            Some(previous)
        } else {
            None
        }
    }

    /// A map with the same entries.
    pub fn copy(&self) -> (same: Self) where V: Copy
        ensures
            same.listing() == self.listing(),
    {
        let mut entries: Vec<(K, V)> = Vec::new();
        let mut i: usize = 0;
        while i < self.entries.len()
            invariant
                0 <= i <= self.entries@.len(),
                entries@ == self.entries@.take(i as int),
            decreases self.entries@.len() - i,
        {
            let entry = &self.entries[i];
            entries.push((entry.0, entry.1));
            assert(entries@ =~= self.entries@.take(i + 1));
            i = i + 1;
        }
        assert(entries@ =~= self.entries@);
        OrdMap { entries }
    }

    /// A well-formed map has as many keys as it lists entries.
    pub proof fn lemma_counted(&self)
        requires
            self.wf(),
        ensures
            self@.dom().finite(),
            self@.dom().len() == self.listing().len(),
    {
        lemma_keys_counted(self.listing());
    }

    /// What relates the listing of a well-formed map to its view: the
    /// entries are those of the view, each once.
    pub proof fn lemma_listing(&self)
        requires
            self.wf(),
        ensures
            forall|i: int|
                0 <= i < self.listing().len() ==> self@.contains_key(
                    (#[trigger] self.listing()[i]).0,
                ) && self@[self.listing()[i].0] == self.listing()[i].1,
            forall|k: K|
                #[trigger] self@.contains_key(k) ==> 0 <= slot(self.listing(), k.rank())
                    < self.listing().len() && self.listing()[slot(self.listing(), k.rank())] == (
                    k,
                    self@[k],
                ),
    {
        let s = self.listing();
        assert forall|i: int| 0 <= i < s.len() implies self@.contains_key((#[trigger] s[i]).0)
            && self@[s[i].0] == s[i].1 by {
            lemma_entry_found(s, i);
        }
        assert forall|k: K| #[trigger] self@.contains_key(k) implies 0 <= slot(s, k.rank()) < s.len()
            && s[slot(s, k.rank())] == (k, self@[k]) by {
            lemma_key_has_entry(s, k);
        }
    }
}

/// A set whose members are kept in increasing order.
#[derive(Debug)]
pub struct OrdSet<K: OrderedKey> {
    members: OrdMap<K, ()>,
}

impl<K: OrderedKey> View for OrdSet<K> {
    type V = Set<K>;

    open spec fn view(&self) -> Set<K> {
        as_map(self.entries()).dom()
    }
}

impl<K: OrderedKey> OrdSet<K> {
    /// The members, each with an empty value, in their order.
    pub closed spec fn entries(&self) -> Seq<(K, ())> {
        self.members.listing()
    }

    /// The members in their order.
    pub open spec fn listing(&self) -> Seq<K> {
        keys_of(self.entries())
    }

    /// Whether the members increase strictly, as they do in every set that
    /// the functions of this type have made.
    pub open spec fn wf(&self) -> bool {
        increasing(self.entries())
    }

    /// The empty set.
    pub fn new() -> (set: Self)
        ensures
            set.wf(),
            set.entries() == Seq::<(K, ())>::empty(),
            set@ == Set::<K>::empty(),
    {
        let set = OrdSet { members: OrdMap::new() };
        assert(set@ =~= Set::<K>::empty());
        set
    }

    /// The number of members.
    pub fn len(&self) -> (n: usize)
        ensures
            n == self.entries().len(),
            n == self.listing().len(),
    {
        self.members.len()
    }

    /// Whether `key` is a member.
    pub fn contains(&self, key: &K) -> (found: bool)
        requires
            self.wf(),
        ensures
            found == self@.contains(*key),
    {
        self.members.contains_key(key)
    }

    /// The member at `index` of the listing.
    pub fn member_at(&self, index: usize) -> (member: K)
        requires
            index < self.listing().len(),
        ensures
            member == self.listing()[index as int],
    {
        self.members.entry_at(index).0
    }

    /// Makes `key` a member. Returns whether it was none before.
    pub fn insert(&mut self, key: K) -> (added: bool)
        requires
            old(self).wf(),
        ensures
            final(self).wf(),
            final(self).entries() == with_entry(old(self).entries(), key, ()),
            final(self)@ == old(self)@.insert(key),
            added == !old(self)@.contains(key),
    {
        let previous = self.members.insert(key, ());
        assert(self@ =~= old(self)@.insert(key));
        previous.is_none()
    }

    /// Takes `key` out. Returns whether it was a member.
    pub fn remove(&mut self, key: &K) -> (removed: bool)
        requires
            old(self).wf(),
        ensures
            final(self).wf(),
            final(self).entries() == without_key(old(self).entries(), *key),
            final(self)@ == old(self)@.remove(*key),
            removed == old(self)@.contains(*key),
    {
        let previous = self.members.remove(key);
        assert(self@ =~= old(self)@.remove(*key));
        previous.is_some()
    }

    /// A well-formed set has as many members as it lists.
    pub proof fn lemma_counted(&self)
        requires
            self.wf(),
        ensures
            self@.finite(),
            self@.len() == self.listing().len(),
    {
        lemma_keys_counted(self.entries());
    }

    /// What relates the listing of a well-formed set to its view: the
    /// listed keys are the members.
    pub proof fn lemma_listing(&self)
        requires
            self.wf(),
        ensures
            forall|i: int| 0 <= i < self.listing().len() ==> self@.contains(#[trigger] self.listing()[i]),
            forall|k: K|
                #[trigger] self@.contains(k) ==> 0 <= slot(self.entries(), k.rank())
                    < self.listing().len() && self.listing()[slot(self.entries(), k.rank())] == k,
    {
        let s = self.entries();
        assert forall|i: int| 0 <= i < self.listing().len() implies self@.contains(
            #[trigger] self.listing()[i],
        ) by {
            lemma_entry_found(s, i);
        }
        assert forall|k: K| #[trigger] self@.contains(k) implies 0 <= slot(s, k.rank())
            < self.listing().len() && self.listing()[slot(s, k.rank())] == k by {
            lemma_key_has_entry(s, k);
        }
    }
}

} // verus!
