//! Maps from ids to values and sets of ids, held in the tree map and the
//! tree set of the standard library.
//!
//! An [`IdMap`] says of a tree map what the protocol needs of it: besides
//! the map from ids to values, its listing, the sequence of its entries in
//! the order of the ids, which sums and shares run over. That the tree map
//! walks its entries in this order is what the standard library promises;
//! that each operation does to the listing what it does to the map is
//! proved here.

use crate::ordered_map::{
    as_map, increasing, keys_of, lemma_entry_found, lemma_key_has_entry, lemma_keys_counted,
    lemma_listed_key, lemma_same_map_same_listing, lemma_with_entry, lemma_without_key, slot,
    with_entry, without_key, OrderedKey,
};
use std::collections::{BTreeMap, BTreeSet};
use vstd::prelude::*;
use vstd::std_specs::btree::*;
use vstd::std_specs::cmp::OrdSpec;
use vstd::std_specs::iter::IteratorSpec;

verus! {

broadcast use vstd::std_specs::btree::group_btree_axioms;

/// Whether `s` lists the entries of `m` in the order of their ids.
pub open spec fn lists<V>(s: Seq<(u64, V)>, m: Map<u64, V>) -> bool {
    increasing(s) && as_map(s) == m
}

/// The entries of a map in the order of their ids.
pub open spec fn listing_of<V>(m: Map<u64, V>) -> Seq<(u64, V)> {
    choose|s: Seq<(u64, V)>| lists(s, m)
}

/// A sequence that lists the entries of a map is its listing.
pub proof fn lemma_listing_of<V>(s: Seq<(u64, V)>, m: Map<u64, V>)
    requires
        lists(s, m),
    ensures
        listing_of(m) == s,
{
    lemma_same_map_same_listing(listing_of(m), s);
}

/// A map from ids to values.
#[derive(Debug)]
pub struct IdMap<V> {
    entries: BTreeMap<u64, V>,
}

impl<V> View for IdMap<V> {
    type V = Map<u64, V>;

    open spec fn view(&self) -> Map<u64, V> {
        as_map(self.listing())
    }
}

impl<V> IdMap<V> {
    /// The entries in the order of their ids.
    pub closed spec fn listing(&self) -> Seq<(u64, V)> {
        listing_of(self.entries@)
    }

    /// The listing is that of the tree map.
    #[verifier::type_invariant]
    spec fn kept(&self) -> bool {
        lists(listing_of(self.entries@), self.entries@)
    }

    /// Whether the ids increase strictly along the listing, as they do in
    /// every map that the functions of this type have made.
    pub open spec fn wf(&self) -> bool {
        increasing(self.listing())
    }

    /// The empty map.
    pub fn new() -> (map: Self)
        ensures
            map.wf(),
            map.listing() == Seq::<(u64, V)>::empty(),
            map@ == Map::<u64, V>::empty(),
    {
        let entries = BTreeMap::new();
        proof {
            let s = Seq::<(u64, V)>::empty();
            assert(as_map(s) =~= Map::<u64, V>::empty());
            lemma_listing_of(s, entries@);
        }
        IdMap { entries }
    }

    /// The number of entries.
    pub fn len(&self) -> (n: usize)
        ensures
            n == self.listing().len(),
    {
        proof {
            use_type_invariant(self);
            lemma_keys_counted(self.listing());
        }
        self.entries.len()
    }

    /// The value of `key`, if the map has one.
    pub fn get(&self, key: &u64) -> (value: Option<&V>)
        ensures
            value is Some <==> self@.contains_key(*key),
            value matches Some(v) ==> *v == self@[*key],
    {
        proof {
            use_type_invariant(self);
        }
        self.entries.get(key)
    }

    /// Sets the value of `key`, and returns the value it had.
    pub fn insert(&mut self, key: u64, value: V) -> (previous: Option<V>)
        ensures
            final(self).wf(),
            final(self).listing() == with_entry(old(self).listing(), key, value),
            final(self)@ == old(self)@.insert(key, value),
            previous is Some <==> old(self)@.contains_key(key),
            previous matches Some(v) ==> v == old(self)@[key],
    {
        proof {
            use_type_invariant(&*self);
            lemma_with_entry(self.listing(), key, value);
        }
        let mut taken = IdMap::new();
        core::mem::swap(self, &mut taken);
        let IdMap { mut entries } = taken;
        let previous = entries.insert(key, value);
        proof {
            lemma_listing_of(with_entry(old(self).listing(), key, value), entries@);
        }
        *self = IdMap { entries };
        previous
    }

    /// Takes the entry of `key` away, and returns the value it had.
    pub fn remove(&mut self, key: &u64) -> (previous: Option<V>)
        ensures
            final(self).wf(),
            final(self).listing() == without_key(old(self).listing(), *key),
            final(self)@ == old(self)@.remove(*key),
            previous is Some <==> old(self)@.contains_key(*key),
            previous matches Some(v) ==> v == old(self)@[*key],
    {
        proof {
            use_type_invariant(&*self);
            lemma_without_key(self.listing(), *key);
        }
        let mut taken = IdMap::new();
        core::mem::swap(self, &mut taken);
        let IdMap { mut entries } = taken;
        let previous = entries.remove(key);
        proof {
            lemma_listing_of(without_key(old(self).listing(), *key), entries@);
        }
        *self = IdMap { entries };
        previous
    }

    /// The entries in the order of their ids.
    pub fn entries(&self) -> (list: Vec<(u64, V)>) where V: Copy
        ensures
            list@ == self.listing(),
    {
        proof {
            use_type_invariant(self);
        }
        let mut list: Vec<(u64, V)> = Vec::new();
        let walk = self.entries.iter();
        let ghost all = walk.remaining();
        let ghost ids = all.map_values(|kv: (&u64, &V)| *kv.0);
        assert(increasing_seq(ids));
        assert forall|i: int, j: int| 0 <= i < j < ids.len() implies ids[i] < ids[j] by {
            assert(ids[i].cmp_spec(&ids[j]) is Less);
        }
        for entry in iter: walk
            invariant
                iter.seq() == all,
                list@.len() == iter.index(),
                forall|i: int| 0 <= i < list@.len() ==> list@[i] == (*all[i].0, *all[i].1),
        {
            list.push((*entry.0, *entry.1));
        }
        proof {
            assert(list@.len() == all.len());
            assert(increasing(list@)) by {
                assert forall|i: int, j: int| 0 <= i < j < list@.len() implies (#[trigger] list@[i]).0.rank() < (
                #[trigger] list@[j]).0.rank() by {
                    assert(ids[i] == list@[i].0);
                    assert(ids[j] == list@[j].0);
                }
            }
            assert(as_map(list@) =~= self.entries@) by {
                assert forall|k: u64| as_map(list@).contains_key(k) implies self.entries@.contains_key(k)
                    && self.entries@[k] == as_map(list@)[k] by {
                    lemma_key_has_entry(list@, k);
                    let i = slot(list@, k.rank());
                    assert(self.entries@.contains_key(*all[i].0));
                }
                assert forall|k: u64| self.entries@.contains_key(k) implies as_map(list@).contains_key(k) by {
                    assert(all.contains((&k, &self.entries@[k])));
                    let i = choose|i: int| 0 <= i < all.len() && all[i] == (&k, &self.entries@[k]);
                    assert(list@[i].0 == k);
                    lemma_listed_key(list@, k, i);
                }
            }
            lemma_listing_of(list@, self.entries@);
        }
        list
    }

    /// Whether the map has no entry.
    pub fn is_empty(&self) -> (empty: bool)
        ensures
            empty == (self.listing().len() == 0),
    {
        proof {
            use_type_invariant(self);
        }
        self.len() == 0
    }

    /// Whether the map has an entry for `key`.
    pub fn contains_key(&self, key: &u64) -> (found: bool)
        ensures
            found == self@.contains_key(*key),
    {
        proof {
            use_type_invariant(self);
        }
        self.entries.contains_key(key)
    }

    /// A map with the same entries.
    pub fn copy(&self) -> (same: Self) where V: Copy
        ensures
            same.wf(),
            same.listing() == self.listing(),
    {
        proof {
            use_type_invariant(self);
        }
        IdMap { entries: self.entries.clone() }
    }

    /// A well-formed map has as many ids as it lists entries.
    pub proof fn lemma_counted(&self)
        requires
            self.wf(),
        ensures
            self@.dom().finite(),
            self@.dom().len() == self.listing().len(),
    {
        lemma_keys_counted(self.listing());
    }

    /// What relates the listing of a well-formed map to its view: the
    /// entries are those of the view, each once.
    pub proof fn lemma_listing(&self)
        requires
            self.wf(),
        ensures
            forall|i: int|
                0 <= i < self.listing().len() ==> self@.contains_key(
                    (#[trigger] self.listing()[i]).0,
                ) && self@[self.listing()[i].0] == self.listing()[i].1,
            forall|k: u64|
                #[trigger] self@.contains_key(k) ==> 0 <= slot(self.listing(), k.rank())
                    < self.listing().len() && self.listing()[slot(self.listing(), k.rank())] == (
                    k,
                    self@[k],
                ),
    {
        let s = self.listing();
        assert forall|i: int| 0 <= i < s.len() implies self@.contains_key((#[trigger] s[i]).0)
            && self@[s[i].0] == s[i].1 by {
            lemma_entry_found(s, i);
        }
        assert forall|k: u64| #[trigger] self@.contains_key(k) implies 0 <= slot(s, k.rank()) < s.len()
            && s[slot(s, k.rank())] == (k, self@[k]) by {
            lemma_key_has_entry(s, k);
        }
    }
}

/// The map that has the members of a set as its keys.
pub open spec fn keyed<K>(members: Set<K>) -> Map<K, ()> {
    Map::new(|k: K| members.contains(k), |k: K| ())
}

/// A set of ids, held in a tree set of the standard library.
#[derive(Debug)]
pub struct IdSet {
    members: BTreeSet<u64>,
}

impl View for IdSet {
    type V = Set<u64>;

    open spec fn view(&self) -> Set<u64> {
        as_map(self.entries()).dom()
    }
}

impl IdSet {
    /// The members, each with an empty value, in their order.
    pub closed spec fn entries(&self) -> Seq<(u64, ())> {
        listing_of(keyed(self.members@))
    }

    /// The listing is that of the tree set.
    #[verifier::type_invariant]
    spec fn kept(&self) -> bool {
        lists(listing_of(keyed(self.members@)), keyed(self.members@))
    }

    /// The members in their order.
    pub open spec fn listing(&self) -> Seq<u64> {
        keys_of(self.entries())
    }

    /// Whether the members increase strictly, as they do in every set that
    /// the functions of this type have made.
    pub open spec fn wf(&self) -> bool {
        increasing(self.entries())
    }

    /// The empty set.
    pub fn new() -> (set: Self)
        ensures
            set.wf(),
            set.entries() == Seq::<(u64, ())>::empty(),
            set@ == Set::<u64>::empty(),
    {
        let members = BTreeSet::new();
        proof {
            let s = Seq::<(u64, ())>::empty();
            assert(as_map(s) =~= keyed(members@));
            lemma_listing_of(s, keyed(members@));
            assert(as_map(s).dom() =~= Set::<u64>::empty());
        }
        IdSet { members }
    }

    /// The number of members.
    pub fn len(&self) -> (n: usize)
        ensures
            n == self.entries().len(),
            n == self.listing().len(),
    {
        proof {
            use_type_invariant(self);
            lemma_keys_counted(self.entries());
            assert(keyed(self.members@).dom() =~= self.members@);
        }
        self.members.len()
    }

    /// Whether `key` is a member.
    pub fn contains(&self, key: &u64) -> (found: bool)
        ensures
            found == self@.contains(*key),
    {
        proof {
            use_type_invariant(self);
        }
        self.members.contains(key)
    }

    /// The members in their order.
    pub fn members(&self) -> (list: Vec<u64>)
        ensures
            list@ == self.listing(),
    {
        proof {
            use_type_invariant(self);
        }
        let mut list: Vec<u64> = Vec::new();
        let walk = self.members.iter();
        let ghost all = walk.remaining();
        proof {
            broadcast use vstd::laws_cmp::group_laws_cmp;
            assert(vstd::laws_cmp::obeys_cmp::<&u64>());
            assert(increasing_seq(all));
            assert forall|i: int, j: int| 0 <= i < j < all.len() implies *all[i] < *all[j] by {
                assert(OrdSpec::cmp_spec(&all[i], &all[j]) is Less);
            }
        }
        for member in iter: walk
            invariant
                iter.seq() == all,
                list@.len() == iter.index(),
                forall|i: int| 0 <= i < list@.len() ==> list@[i] == *all[i],
        {
            list.push(*member);
        }
        proof {
            let s = Seq::new(list@.len(), |i: int| (list@[i], ()));
            assert(list@.len() == all.len());
            assert forall|i: int, j: int| 0 <= i < j < s.len() implies (#[trigger] s[i]).0.rank() < (
            #[trigger] s[j]).0.rank() by {
                assert(*all[i] < *all[j]);
            }
            assert(as_map(s) =~= keyed(self.members@)) by {
                assert forall|k: u64| as_map(s).contains_key(k) implies self.members@.contains(k) by {
                    lemma_key_has_entry(s, k);
                    let i = slot(s, k.rank());
                    assert(all.unref()[i] == k);
                    assert(all.unref().to_set().contains(k));
                }
                assert forall|k: u64| self.members@.contains(k) implies as_map(s).contains_key(k) by {
                    assert(all.unref().to_set().contains(k));
                    let i = choose|i: int| 0 <= i < all.unref().len() && all.unref()[i] == k;
                    assert(s[i].0 == k);
                    lemma_listed_key(s, k, i);
                }
            }
            lemma_listing_of(s, keyed(self.members@));
            assert(list@ =~= keys_of(s));
        }
        list
    }

    /// Makes `key` a member. Returns whether it was none before.
    pub fn insert(&mut self, key: u64) -> (added: bool)
        ensures
            final(self).wf(),
            final(self).entries() == with_entry(old(self).entries(), key, ()),
            final(self)@ == old(self)@.insert(key),
            added == !old(self)@.contains(key),
    {
        proof {
            use_type_invariant(&*self);
            lemma_with_entry(self.entries(), key, ());
        }
        let mut taken = IdSet::new();
        core::mem::swap(self, &mut taken);
        let IdSet { mut members } = taken;
        let added = members.insert(key);
        proof {
            let s = with_entry(old(self).entries(), key, ());
            assert(as_map(s) =~= keyed(members@));
            lemma_listing_of(s, keyed(members@));
            assert(as_map(s).dom() =~= old(self)@.insert(key));
        }
        *self = IdSet { members };
        added
    }

    /// Takes `key` out. Returns whether it was a member.
    pub fn remove(&mut self, key: &u64) -> (removed: bool)
        ensures
            final(self).wf(),
            final(self).entries() == without_key(old(self).entries(), *key),
            final(self)@ == old(self)@.remove(*key),
            removed == old(self)@.contains(*key),
    {
        proof {
            use_type_invariant(&*self);
            lemma_without_key(self.entries(), *key);
        }
        let mut taken = IdSet::new();
        core::mem::swap(self, &mut taken);
        let IdSet { mut members } = taken;
        let removed = members.remove(key);
        proof {
            let s = without_key(old(self).entries(), *key);
            assert(as_map(s) =~= keyed(members@));
            lemma_listing_of(s, keyed(members@));
            assert(as_map(s).dom() =~= old(self)@.remove(*key));
        }
        *self = IdSet { members };
        removed
    }

    /// A well-formed set has as many members as it lists.
    pub proof fn lemma_counted(&self)
        requires
            self.wf(),
        ensures
            self@.finite(),
            self@.len() == self.listing().len(),
    {
        lemma_keys_counted(self.entries());
    }

    /// What relates the listing of a well-formed set to its view: the
    /// listed ids are the members.
    pub proof fn lemma_listing(&self)
        requires
            self.wf(),
        ensures
            forall|i: int| 0 <= i < self.listing().len() ==> self@.contains(#[trigger] self.listing()[i]),
            forall|k: u64|
                #[trigger] self@.contains(k) ==> 0 <= slot(self.entries(), k.rank())
                    < self.listing().len() && self.listing()[slot(self.entries(), k.rank())] == k,
    {
        let s = self.entries();
        assert forall|i: int| 0 <= i < self.listing().len() implies self@.contains(
            #[trigger] self.listing()[i],
        ) by {
            lemma_entry_found(s, i);
        }
        assert forall|k: u64| #[trigger] self@.contains(k) implies 0 <= slot(s, k.rank())
            < self.listing().len() && self.listing()[slot(s, k.rank())] == k by {
            lemma_key_has_entry(s, k);
        }
    }
}

} // verus!
