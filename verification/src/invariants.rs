//! Checks of the state at run time: that its index of owners is sound, and
//! that it agrees with another state in what the events determine.

use crate::id_map::{IdMap, IdSet};
use crate::event::{replayed, Books, Event};
use crate::numeric::Token;
use crate::ordered_map::{
    keys_of, lemma_entry_found, lemma_key_has_entry, lemma_same_keys_same_order,
    lemma_same_map_same_listing, OrdMap, OrdSet, OrderedKey,
};
use crate::principal::Principal;
use crate::recording::log_matches;
use crate::replay::{replay, starts_once};
use crate::state::{PendingMarginTransfer, State};
use crate::sums::{lemma_sum_by_all, lemma_sum_by_take, sum_by};
use crate::vault::Vault;
use vstd::prelude::*;

verus! {

/// A value that can be told from another.
pub trait Comparable: Sized {
    /// Whether the two values are the same.
    fn same(&self, other: &Self) -> (same: bool)
        ensures
            same == (*self == *other),
    ;
}

impl Comparable for Vault {
    fn same(&self, other: &Self) -> (same: bool) {
        *self == *other
    }
}

impl<T> Comparable for Token<T> {
    fn same(&self, other: &Self) -> (same: bool) {
        self.0 == other.0
    }
}

impl Comparable for PendingMarginTransfer {
    fn same(&self, other: &Self) -> (same: bool) {
        *self == *other
    }
}

impl Comparable for () {
    fn same(&self, other: &Self) -> (same: bool) {
        true
    }
}

/// Whether two maps have the same entries.
pub fn same_entries<K: OrderedKey, V: Comparable>(a: &OrdMap<K, V>, b: &OrdMap<K, V>) -> (same: bool)
    requires
        a.wf(),
        b.wf(),
    ensures
        same == (a.listing() == b.listing()),
        same == (a@ == b@),
{
    proof {
        if a@ == b@ {
            lemma_same_map_same_listing(a.listing(), b.listing());
        }
    }
    if a.len() != b.len() {
        return false;
    }
    let mut i: usize = 0;
    while i < a.len()
        invariant
            0 <= i <= a.listing().len(),
            a.listing().len() == b.listing().len(),
            a@ == b@ ==> a.listing() == b.listing(),
            forall|j: int| 0 <= j < i ==> a.listing()[j] == b.listing()[j],
        decreases a.listing().len() - i,
    {
        let x = a.entry_at(i);
        let y = b.entry_at(i);
        if x.0.precedes(&y.0) || y.0.precedes(&x.0) || !x.1.same(&y.1) {
            return false;
        }
        proof {
            K::lemma_rank_tells_apart(x.0, y.0);
        }
        i = i + 1;
    }
    assert(a.listing() =~= b.listing());
    true
}

/// Whether two lists of entries are the same.
fn same_lists<V: Comparable>(a: &Vec<(u64, V)>, b: &Vec<(u64, V)>) -> (same: bool)
    ensures
        same == (a@ == b@),
{
    if a.len() != b.len() {
        return false;
    }
    let mut i: usize = 0;
    while i < a.len()
        invariant
            0 <= i <= a@.len(),
            a@.len() == b@.len(),
            forall|j: int| 0 <= j < i ==> a@[j] == b@[j],
        decreases a@.len() - i,
    {
        if a[i].0 != b[i].0 || !a[i].1.same(&b[i].1) {
            return false;
        }
        i = i + 1;
    }
    assert(a@ =~= b@);
    true
}

/// Whether two maps from ids have the same entries.
pub fn same_id_entries<V: Comparable + Copy>(a: &IdMap<V>, b: &IdMap<V>) -> (same: bool)
    requires
        a.wf(),
        b.wf(),
    ensures
        same == (a.listing() == b.listing()),
        same == (a@ == b@),
{
    proof {
        if a@ == b@ {
            lemma_same_map_same_listing(a.listing(), b.listing());
        }
    }
    same_lists(&a.entries(), &b.entries())
}

/// Whether two sets of ids have the same members.
pub fn same_ids(a: &IdSet, b: &IdSet) -> (same: bool)
    requires
        a.wf(),
        b.wf(),
    ensures
        same == (a@ == b@),
{
    proof {
        if a@ == b@ {
            lemma_same_keys_same_order(a.entries(), b.entries());
        }
        if a.listing() == b.listing() {
            assert(a.entries().len() == a.listing().len());
            assert(b.entries().len() == b.listing().len());
            assert forall|i: int| 0 <= i < a.entries().len() implies a.entries()[i] == b.entries()[i] by {
                assert(a.listing()[i] == a.entries()[i].0);
                assert(b.listing()[i] == b.entries()[i].0);
            }
            assert(a.entries() =~= b.entries());
        }
    }
    let x = a.members();
    let y = b.members();
    if x.len() != y.len() {
        return false;
    }
    let mut i: usize = 0;
    while i < x.len()
        invariant
            0 <= i <= x@.len(),
            x@.len() == y@.len(),
            a@ == b@ ==> x@ == y@,
            forall|j: int| 0 <= j < i ==> x@[j] == y@[j],
        decreases x@.len() - i,
    {
        if x[i] != y[i] {
            return false;
        }
        i = i + 1;
    }
    assert(x@ =~= y@);
    true
}

/// The number of ids that an entry of the index lists.
pub open spec fn listed() -> spec_fn((Principal, IdSet)) -> int {
    |e: (Principal, IdSet)| e.1.listing().len() as int
}

/// Whether two books agree in what a replay must bring back: the vaults
/// and their index, the pool and its returns, what is owed, and the
/// services.
pub open spec fn alike(a: Books, b: Books) -> bool {
    &&& a.vaults == b.vaults
    &&& a.pending_margin == b.pending_margin
    &&& a.owners == b.owners
    &&& a.pool == b.pool
    &&& a.rewards == b.rewards
    &&& a.xrc == b.xrc
    &&& a.taler_ledger == b.taler_ledger
    &&& a.ckbtc_ledger == b.ckbtc_ledger
    &&& a.pending_redemption == b.pending_redemption
}

/// A state whose books a log makes is alike to every state that the log
/// is replayed into.
pub proof fn lemma_replay_is_alike(log: Seq<Event>, live: &State, replayed: &State)
    requires
        log_matches(log, live),
        log_matches(log, replayed),
    ensures
        alike(live.books(), replayed.books()),
{
}

/// The ids that the first `n` entries of an index list.
pub open spec fn ids_among(index: Seq<(Principal, IdSet)>, n: int) -> Set<u64>
    decreases n,
{
    if n <= 0 {
        Set::empty()
    } else {
        ids_among(index, n - 1).union(index[n - 1].1@)
    }
}

/// The first `n` entries of an index list no more ids than their sets
/// have members together, and each id of each of their sets.
pub proof fn lemma_ids_among(index: Seq<(Principal, IdSet)>, n: int)
    requires
        0 <= n <= index.len(),
        forall|i: int| 0 <= i < index.len() ==> (#[trigger] index[i]).1.wf(),
    ensures
        ids_among(index, n).finite(),
        ids_among(index, n).len() <= sum_by(index.take(n), listed()),
        forall|i: int, id: u64|
            0 <= i < n && #[trigger] index[i].1@.contains(id) ==> ids_among(index, n).contains(id),
    decreases n,
{
    if n == 0 {
        assert(index.take(0) =~= Seq::empty());
    } else {
        lemma_ids_among(index, n - 1);
        lemma_sum_by_take(index, n - 1, listed());
        index[n - 1].1.lemma_counted();
        vstd::set_lib::lemma_len_union(ids_among(index, n - 1), index[n - 1].1@);
    }
}

/// A well-formed state has no more vaults than ids in its index, and every
/// id in its index is that of a vault: it passes
/// [`State::check_invariants`].
pub proof fn lemma_index_is_sound(state: &State)
    requires
        state.wf(),
    ensures
        state.vault_id_to_vaults.listing().len() <= state.listed_ids(),
        state.ids_resolve(),
{
    let index = state.principal_to_vault_ids.listing();
    let n = index.len() as int;
    assert forall|i: int| 0 <= i < index.len() implies (#[trigger] index[i]).1.wf() by {
        lemma_entry_found(index, i);
    }
    lemma_ids_among(index, n);
    lemma_sum_by_all(index, listed());
    state.vault_id_to_vaults.lemma_counted();
    assert forall|id: u64| state.vaults().dom().contains(id) implies ids_among(index, n).contains(id) by {
        let owner = state.vaults()[id].owner;
        assert(state.owner_index().contains_key(owner));
        assert(state.principal_to_vault_ids@.contains_key(owner));
        lemma_key_has_entry(index, owner);
        let i = crate::ordered_map::slot(index, owner.rank());
        assert(state.owner_index()[owner] == index[i].1@);
        assert(index[i].1@.contains(id));
    }
    vstd::set_lib::lemma_len_subset(state.vaults().dom(), ids_among(index, n));
}

impl State {
    /// The number of ids that the index lists under all owners.
    pub open spec fn listed_ids(&self) -> int {
        sum_by(self.principal_to_vault_ids.listing(), listed())
    }

    /// Whether every id that the index lists is that of a vault.
    pub open spec fn ids_resolve(&self) -> bool {
        forall|owner: Principal, id: u64|
            self.owner_index().contains_key(owner) && #[trigger] self.owner_index()[owner].contains(id)
                ==> self.vaults().contains_key(id)
    }

    /// Whether the index of the owners has the same owners and ids as that
    /// of `other`.
    fn same_index(&self, other: &State) -> (same: bool)
        requires
            self.ordered(),
            other.ordered(),
        ensures
            same == (self.owner_index() == other.owner_index()),
    {
        let a = &self.principal_to_vault_ids;
        let b = &other.principal_to_vault_ids;
        proof {
            if self.owner_index() == other.owner_index() {
                assert(a@.dom() =~= self.owner_index().dom());
                assert(b@.dom() =~= other.owner_index().dom());
                lemma_same_keys_same_order(a.listing(), b.listing());
                assert(a.listing().len() == keys_of(a.listing()).len());
                assert(b.listing().len() == keys_of(b.listing()).len());
            }
        }
        if a.len() != b.len() {
            return false;
        }
        let mut i: usize = 0;
        while i < a.len()
            invariant
                self.ordered(),
                other.ordered(),
                a == &self.principal_to_vault_ids,
                b == &other.principal_to_vault_ids,
                0 <= i <= a.listing().len(),
                a.listing().len() == b.listing().len(),
                self.owner_index() == other.owner_index() ==> keys_of(a.listing()) == keys_of(b.listing()),
                forall|j: int|
                    0 <= j < i ==> a.listing()[j].0 == b.listing()[j].0 && a.listing()[j].1@
                        == b.listing()[j].1@,
            decreases a.listing().len() - i,
        {
            let x = a.entry_at(i);
            let y = b.entry_at(i);
            proof {
                lemma_entry_found(a.listing(), i as int);
                lemma_entry_found(b.listing(), i as int);
                if self.owner_index() == other.owner_index() {
                    assert(keys_of(a.listing())[i as int] == keys_of(b.listing())[i as int]);
                    assert(self.owner_index()[x.0] == x.1@);
                    assert(other.owner_index()[y.0] == y.1@);
                }
            }
            if x.0.precedes(&y.0) || y.0.precedes(&x.0) {
                return false;
            }
            proof {
                Principal::lemma_rank_tells_apart(x.0, y.0);
            }
            if !same_ids(&x.1, &y.1) {
                return false;
            }
            i = i + 1;
        }
        proof {
            assert forall|owner: Principal| self.owner_index().contains_key(owner) implies (
            #[trigger] other.owner_index().contains_key(owner)) && self.owner_index()[owner]
                == other.owner_index()[owner] by {
                lemma_key_has_entry(a.listing(), owner);
                let j = crate::ordered_map::slot(a.listing(), owner.rank());
                lemma_entry_found(b.listing(), j);
            }
            assert forall|owner: Principal| other.owner_index().contains_key(owner) implies (
            #[trigger] self.owner_index().contains_key(owner)) by {
                lemma_key_has_entry(b.listing(), owner);
                let j = crate::ordered_map::slot(b.listing(), owner.rank());
                lemma_entry_found(a.listing(), j);
            }
            assert(self.owner_index() =~= other.owner_index());
        }
        true
    }

    /// Checks whether the state agrees with another in what a replay must
    /// bring back (the states hold the same data, but maybe in a slightly
    /// different form).
    pub fn check_semantically_eq(&self, other: &Self) -> (checked: Result<(), String>)
        requires
            self.ordered(),
            other.ordered(),
        ensures
            checked is Ok <==> alike(self.books(), other.books()),
    {
        if !same_id_entries(&self.vault_id_to_vaults, &other.vault_id_to_vaults) {
            return Err("vault_id_to_vaults does not match".to_string());
        }
        if !same_id_entries(&self.pending_margin_transfers, &other.pending_margin_transfers) {
            return Err("pending_margin_transfers does not match".to_string());
        }
        if !self.same_index(other) {
            return Err("principal_to_vault_ids does not match".to_string());
        }
        if !same_entries(&self.liquidity_pool, &other.liquidity_pool) {
            return Err("liquidity_pool does not match".to_string());
        }
        if !same_entries(&self.liquidity_returns, &other.liquidity_returns) {
            return Err("liquidity_returns does not match".to_string());
        }
        if self.xrc_principal != other.xrc_principal {
            return Err("xrc_principal does not match".to_string());
        }
        if self.taler_ledger_principal != other.taler_ledger_principal {
            return Err("taler_ledger_principal does not match".to_string());
        }
        if self.ckbtc_ledger_principal != other.ckbtc_ledger_principal {
            return Err("ckbtc_ledger_principal does not match".to_string());
        }
        if !same_id_entries(&self.pending_redemption_transfer, &other.pending_redemption_transfer) {
            return Err("pending_redemption_transfer does not match".to_string());
        }
        Ok(())
    }

    /// Checks that there are no more vaults than ids in the index, and that
    /// every id in the index is that of a vault.
    pub fn check_invariants(&self) -> (checked: Result<(), String>)
        requires
            self.ordered(),
        ensures
            checked is Ok <==> self.vault_id_to_vaults.listing().len() <= self.listed_ids()
                && self.ids_resolve(),
            self.wf() ==> checked is Ok,
    {
        proof {
            if self.wf() {
                lemma_index_is_sound(self);
            }
        }
        let ghost listing = self.principal_to_vault_ids.listing();
        let mut listed_ids: u128 = 0;
        let mut i: usize = 0;
        while i < self.principal_to_vault_ids.len()
            invariant
                listing == self.principal_to_vault_ids.listing(),
                0 <= i <= listing.len(),
                listed_ids == sum_by(listing.take(i as int), listed()),
                listed_ids <= i * 0xffff_ffff_ffff_ffff,
            decreases listing.len() - i,
        {
            proof {
                lemma_sum_by_take(listing, i as int, listed());
            }
            listed_ids = listed_ids + self.principal_to_vault_ids.entry_at(i).1.len() as u128;
            i = i + 1;
        }
        proof {
            lemma_sum_by_all(listing, listed());
        }
        if self.vault_id_to_vaults.len() as u128 > listed_ids {
            return Err("Inconsistent index: there are more vaults than ids of vaults".to_string());
        }
        let mut i: usize = 0;
        while i < self.principal_to_vault_ids.len()
            invariant
                self.ordered(),
                listing == self.principal_to_vault_ids.listing(),
                0 <= i <= listing.len(),
                forall|k: int, id: u64|
                    0 <= k < i && #[trigger] listing[k].1@.contains(id) ==> self.vaults().contains_key(id),
            decreases listing.len() - i,
        {
            let vault_ids = &self.principal_to_vault_ids.entry_at(i).1;
            proof {
                lemma_entry_found(listing, i as int);
                assert(self.principal_to_vault_ids@.contains_key(listing[i as int].0));
                assert(self.principal_to_vault_ids@[listing[i as int].0] == *vault_ids);
                assert(self.owner_index().contains_key(listing[i as int].0));
                assert(self.owner_index()[listing[i as int].0] == vault_ids@);
                vault_ids.lemma_listing();
            }
            let mut j: usize = 0;
            let ids = vault_ids.members();
            while j < ids.len()
                invariant
                    ids@ == vault_ids.listing(),
                    self.ordered(),
                    vault_ids.wf(),
                    0 <= i < listing.len(),
                    self.owner_index().contains_key(listing[i as int].0),
                    self.owner_index()[listing[i as int].0] == vault_ids@,
                    0 <= j <= vault_ids.listing().len(),
                    forall|k: int|
                        0 <= k < j ==> self.vaults().contains_key(#[trigger] vault_ids.listing()[k]),
                decreases vault_ids.listing().len() - j,
            {
                let vault_id = ids[j];
                if !self.vault_id_to_vaults.contains_key(&vault_id) {
                    proof {
                        vault_ids.lemma_listing();
                        assert(vault_ids@.contains(vault_ids.listing()[j as int]));
                        assert(self.owner_index()[listing[i as int].0].contains(vault_id));
                    }
                    return Err("Not all vault ids are in the id -> Vault map.".to_string());
                }
                j = j + 1;
            }
            proof {
                vault_ids.lemma_listing();
                assert forall|id: u64| #[trigger] listing[i as int].1@.contains(id) implies self.vaults().contains_key(
                    id,
                ) by {
                    let k = crate::ordered_map::slot(vault_ids.entries(), id.rank());
                    assert(vault_ids.listing()[k] == id);
                }
            }
            i = i + 1;
        }
        proof {
            assert forall|owner: Principal, id: u64|
                self.owner_index().contains_key(owner) && #[trigger] self.owner_index()[owner].contains(
                    id,
                ) implies self.vaults().contains_key(id) by {
                assert(self.principal_to_vault_ids@.contains_key(owner));
                lemma_key_has_entry(listing, owner);
                let k = crate::ordered_map::slot(listing, owner.rank());
                assert(listing[k].1@.contains(id));
            }
        }
        Ok(())
    }
}

/// Checks a state against its log: that its index is sound, that the log
/// can be replayed, and, unless the timer's work is under way, that the
/// replay brings back what the state holds.
pub fn check_invariants(state: &State, log: &Vec<Event>) -> (checked: Result<(), String>)
    requires
        state.ordered(),
        starts_once(log@),
    ensures
        checked is Ok <==> {
            &&& state.vault_id_to_vaults.listing().len() <= state.listed_ids()
            &&& state.ids_resolve()
            &&& replayed(log@) is Some
            &&& state.is_timer_running || alike(state.books(), replayed(log@)->0)
        },
{
    state.check_invariants()?;
    let recovered = match replay(log) {
        Ok(recovered) => recovered,
        Err(_) => {
            return Err("failed to replay the log".to_string());
        },
    };
    recovered.check_invariants()?;
    if !state.is_timer_running {
        state.check_semantically_eq(&recovered)?;
    }
    Ok(())
}

} // verus!
