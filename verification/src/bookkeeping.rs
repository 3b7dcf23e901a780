//! The entries that the protocol makes in its books: vaults that open,
//! borrow, repay and close, and balances of the pool that grow and shrink.

use crate::id_map::IdSet;
use crate::numeric::{Token, CKBTC, TAL};
use crate::ordered_map::{
    as_map, has_key, increasing, lemma_key_has_entry, lemma_with_entry, lemma_without_key, value_of,
    with_entry, without_key, OrdMap, OrdSet,
};
use crate::principal::Principal;
use crate::state::{
    all_positive, balance, debt, lemma_balances_not_negative, lemma_vault_sums_not_negative,
    margin, total_balance, PendingMarginTransfer, State,
};
use crate::sums::{
    lemma_sum_by_bounds, lemma_sum_by_with_entry, lemma_sum_by_without_key, nowhere_negative,
};
use crate::vault::Vault;
use std::marker::PhantomData;
use vstd::prelude::*;

verus! {

/// What a listing of balances holds for `owner`: nothing where it has no entry.
pub open spec fn held<T>(balances: Seq<(Principal, Token<T>)>, owner: Principal) -> int {
    if has_key(balances, owner) {
        value_of(balances, owner).0 as int
    } else {
        0
    }
}

/// The balances after `amount` is added to that of `owner`. Adding nothing
/// makes no entry.
pub open spec fn credited<T>(balances: Seq<(Principal, Token<T>)>, owner: Principal, amount: u64) -> Seq<
    (Principal, Token<T>),
> {
    if amount == 0 {
        balances
    } else {
        with_entry(balances, owner, Token((held(balances, owner) + amount) as u64, PhantomData))
    }
}

/// The balances after `amount` is taken from that of `owner`. A balance
/// that comes to nothing leaves.
pub open spec fn debited<T>(balances: Seq<(Principal, Token<T>)>, owner: Principal, amount: u64) -> Seq<
    (Principal, Token<T>),
> {
    if held(balances, owner) == amount {
        without_key(balances, owner)
    } else {
        with_entry(balances, owner, Token((held(balances, owner) - amount) as u64, PhantomData))
    }
}

/// What a listing holds for an owner is what its map holds.
pub proof fn lemma_held_in_map<T>(balances: Seq<(Principal, Token<T>)>)
    ensures
        forall|owner: Principal| #[trigger]
            held(balances, owner) == if as_map(balances).contains_key(owner) {
                as_map(balances)[owner].0 as int
            } else {
                0
            },
{
}

/// No balance exceeds the sum of the balances.
pub proof fn lemma_held_within_total<T>(balances: Seq<(Principal, Token<T>)>, owner: Principal)
    requires
        increasing(balances),
    ensures
        0 <= held(balances, owner) <= total_balance(balances),
{
    let f = balance::<Principal, T>();
    assert(nowhere_negative(balances, f));
    lemma_sum_by_bounds(balances, f);
    if has_key(balances, owner) {
        lemma_key_has_entry(balances, owner);
    }
}

/// Crediting keeps the order of the balances and adds the amount to their sum.
pub proof fn lemma_credited<T>(balances: Seq<(Principal, Token<T>)>, owner: Principal, amount: u64)
    requires
        increasing(balances),
        total_balance(balances) + amount <= u64::MAX,
    ensures
        increasing(credited(balances, owner, amount)),
        total_balance(credited(balances, owner, amount)) == total_balance(balances) + amount,
        held(credited(balances, owner, amount), owner) == held(balances, owner) + amount,
        forall|other: Principal|
            other != owner ==> held(credited(balances, owner, amount), other) == held(
                balances,
                other,
            ),
{
    lemma_held_within_total(balances, owner);
    if amount != 0 {
        let entry = Token::<T>((held(balances, owner) + amount) as u64, PhantomData);
        lemma_with_entry(balances, owner, entry);
        lemma_sum_by_with_entry(balances, owner, entry, balance::<Principal, T>());
    }
    lemma_held_in_map(credited(balances, owner, amount));
    lemma_held_in_map(balances);
}

/// Debiting keeps the order of the balances and takes the amount from their sum.
pub proof fn lemma_debited<T>(balances: Seq<(Principal, Token<T>)>, owner: Principal, amount: u64)
    requires
        increasing(balances),
        amount <= held(balances, owner),
    ensures
        increasing(debited(balances, owner, amount)),
        total_balance(debited(balances, owner, amount)) == total_balance(balances) - amount,
        held(debited(balances, owner, amount), owner) == held(balances, owner) - amount,
        forall|other: Principal|
            other != owner ==> held(debited(balances, owner, amount), other) == held(
                balances,
                other,
            ),
{
    lemma_held_within_total(balances, owner);
    if held(balances, owner) == amount {
        lemma_without_key(balances, owner);
        lemma_sum_by_without_key(balances, owner, balance::<Principal, T>());
    } else {
        let entry = Token::<T>((held(balances, owner) - amount) as u64, PhantomData);
        lemma_with_entry(balances, owner, entry);
        lemma_sum_by_with_entry(balances, owner, entry, balance::<Principal, T>());
    }
    lemma_held_in_map(debited(balances, owner, amount));
    lemma_held_in_map(balances);
}

/// Adds `amount` to the balance of `owner`.
pub fn credit<T>(balances: &mut OrdMap<Principal, Token<T>>, owner: Principal, amount: u64)
    requires
        old(balances).wf(),
        total_balance(old(balances).listing()) + amount <= u64::MAX,
    ensures
        final(balances).wf(),
        final(balances).listing() == credited(old(balances).listing(), owner, amount),
        total_balance(final(balances).listing()) == total_balance(old(balances).listing()) + amount,
        all_positive(old(balances)@) ==> all_positive(final(balances)@),
{
    if amount == 0 {
        return ;
    }
    proof {
        lemma_credited(balances.listing(), owner, amount);
    }
    let current = match balances.get(&owner) {
        Some(current) => current.0,
        None => 0,
    };
    balances.insert(owner, Token(current + amount, PhantomData));
}

/// Takes `amount` from the balance of `owner`.
pub fn debit<T>(balances: &mut OrdMap<Principal, Token<T>>, owner: Principal, amount: u64)
    requires
        old(balances).wf(),
        amount <= held(old(balances).listing(), owner),
    ensures
        final(balances).wf(),
        final(balances).listing() == debited(old(balances).listing(), owner, amount),
        total_balance(final(balances).listing()) == total_balance(old(balances).listing()) - amount,
        total_balance(final(balances).listing()) >= 0,
        all_positive(old(balances)@) ==> all_positive(final(balances)@),
{
    proof {
        lemma_debited(balances.listing(), owner, amount);
        lemma_balances_not_negative(debited(balances.listing(), owner, amount));
    }
    let current = match balances.get(&owner) {
        Some(current) => current.0,
        None => 0,
    };
    if current == amount {
        balances.remove(&owner);
    } else {
        balances.insert(owner, Token(current - amount, PhantomData));
    }
}

impl State {
    /// The ids of the vaults of `owner`.
    pub open spec fn ids_of(&self, owner: Principal) -> Set<u64> {
        if self.owner_index().contains_key(owner) {
            self.owner_index()[owner]
        } else {
            Set::empty()
        }
    }

    /// Whether the state is the same as `other` but for its vaults and
    /// their index by owner.
    pub open spec fn same_but_vaults(&self, other: &State) -> bool {
        *self == (State {
            vault_id_to_vaults: self.vault_id_to_vaults,
            principal_to_vault_ids: self.principal_to_vault_ids,
            ..*other
        })
    }

    /// Puts the ids `ids` under `owner` in the index.
    fn set_ids(&mut self, owner: Principal, ids: IdSet)
        requires
            old(self).principal_to_vault_ids.wf(),
        ensures
            final(self).principal_to_vault_ids.wf(),
            final(self).principal_to_vault_ids@ == old(self).principal_to_vault_ids@.insert(owner, ids),
            final(self).owner_index() == old(self).owner_index().insert(owner, ids@),
            *final(self) == (State {
                principal_to_vault_ids: final(self).principal_to_vault_ids,
                ..*old(self)
            }),
    {
        self.principal_to_vault_ids.insert(owner, ids);
        assert(self.owner_index() =~= old(self).owner_index().insert(owner, ids@));
    }

    /// Takes the ids of `owner` out of the index, to put them back changed.
    fn take_ids(&mut self, owner: Principal) -> (ids: IdSet)
        requires
            old(self).ordered(),
        ensures
            ids.wf(),
            ids@ == old(self).ids_of(owner),
            final(self).principal_to_vault_ids.wf(),
            final(self).principal_to_vault_ids@ == old(self).principal_to_vault_ids@.remove(owner),
            *final(self) == (State {
                principal_to_vault_ids: final(self).principal_to_vault_ids,
                ..*old(self)
            }),
    {
        match self.principal_to_vault_ids.remove(&owner) {
            Some(ids) => ids,
            None => IdSet::new(),
        }
    }

    /// Takes a new vault into the books.
    pub fn open_vault(&mut self, vault: Vault)
        requires
            old(self).wf(),
            !old(self).vaults().contains_key(vault.vault_id),
            old(self).debt_sum() + vault.borrowed_tal_amount.0 <= u64::MAX,
            old(self).margin_sum() + old(self).returns_sum() + vault.ckbtc_margin_amount.0
                <= u64::MAX,
        ensures
            final(self).wf(),
            final(self).same_but_vaults(old(self)),
            final(self).vault_id_to_vaults.listing() == with_entry(
                old(self).vault_id_to_vaults.listing(),
                vault.vault_id,
                vault,
            ),
            final(self).vaults() == old(self).vaults().insert(vault.vault_id, vault),
            final(self).owner_index() == old(self).owner_index().insert(
                vault.owner,
                old(self).ids_of(vault.owner).insert(vault.vault_id),
            ),
            final(self).debt_sum() == old(self).debt_sum() + vault.borrowed_tal_amount.0,
            final(self).margin_sum() == old(self).margin_sum() + vault.ckbtc_margin_amount.0,
    {
        let vault_id = vault.vault_id;
        proof {
            lemma_sum_by_with_entry(self.vault_id_to_vaults.listing(), vault_id, vault, debt());
            lemma_sum_by_with_entry(self.vault_id_to_vaults.listing(), vault_id, vault, margin());
        }
        self.vault_id_to_vaults.insert(vault_id, vault);
        let mut vault_ids = self.take_ids(vault.owner);
        vault_ids.insert(vault_id);
        self.set_ids(vault.owner, vault_ids);
        assert(self.principal_to_vault_ids@ =~= old(self).principal_to_vault_ids@.insert(
            vault.owner,
            vault_ids,
        ));
        assert(self.owner_index() =~= old(self).owner_index().insert(
            vault.owner,
            old(self).ids_of(vault.owner).insert(vault_id),
        ));
    }

    /// Takes a vault out of the books, and returns it.
    pub(crate) fn drop_vault(&mut self, vault_id: u64) -> (vault: Vault)
        requires
            old(self).wf(),
            old(self).vaults().contains_key(vault_id),
        ensures
            final(self).wf(),
            final(self).same_but_vaults(old(self)),
            vault == old(self).vaults()[vault_id],
            final(self).vault_id_to_vaults.listing() == without_key(
                old(self).vault_id_to_vaults.listing(),
                vault_id,
            ),
            final(self).vaults() == old(self).vaults().remove(vault_id),
            final(self).owner_index() == old(self).owner_index().insert(
                vault.owner,
                old(self).ids_of(vault.owner).remove(vault_id),
            ),
            final(self).debt_sum() == old(self).debt_sum() - vault.borrowed_tal_amount.0,
            final(self).margin_sum() == old(self).margin_sum() - vault.ckbtc_margin_amount.0,
    {
        proof {
            lemma_sum_by_without_key(self.vault_id_to_vaults.listing(), vault_id, debt());
            lemma_sum_by_without_key(self.vault_id_to_vaults.listing(), vault_id, margin());
        }
        let vault = self.vault_id_to_vaults.remove(&vault_id).unwrap();
        proof {
            lemma_vault_sums_not_negative(self.vault_id_to_vaults.listing());
        }
        let owner = vault.owner;
        let mut vault_ids = self.take_ids(owner);
        vault_ids.remove(&vault_id);
        self.set_ids(owner, vault_ids);
        assert(self.principal_to_vault_ids@ =~= old(self).principal_to_vault_ids@.insert(
            owner,
            vault_ids,
        ));
        assert(self.owner_index() =~= old(self).owner_index().insert(
            owner,
            old(self).ids_of(owner).remove(vault_id),
        ));
        vault
    }

    /// Takes a vault out of the books. Its margin is owed to its owner.
    pub fn close_vault(&mut self, vault_id: u64)
        requires
            old(self).wf(),
            old(self).vaults().contains_key(vault_id),
        ensures
            final(self).wf(),
            *final(self) == (State {
                vault_id_to_vaults: final(self).vault_id_to_vaults,
                principal_to_vault_ids: final(self).principal_to_vault_ids,
                pending_margin_transfers: final(self).pending_margin_transfers,
                ..*old(self)
            }),
            final(self).vault_id_to_vaults.listing() == without_key(
                old(self).vault_id_to_vaults.listing(),
                vault_id,
            ),
            final(self).vaults() == old(self).vaults().remove(vault_id),
            final(self).owner_index() == old(self).owner_index().insert(
                old(self).vaults()[vault_id].owner,
                old(self).ids_of(old(self).vaults()[vault_id].owner).remove(vault_id),
            ),
            final(self).pending_margin_transfers@ == old(self).pending_margin_transfers@.insert(
                vault_id,
                PendingMarginTransfer {
                    owner: old(self).vaults()[vault_id].owner,
                    margin: old(self).vaults()[vault_id].ckbtc_margin_amount,
                },
            ),
            final(self).debt_sum() == old(self).debt_sum() - old(
                self,
            ).vaults()[vault_id].borrowed_tal_amount.0,
            final(self).margin_sum() == old(self).margin_sum() - old(
                self,
            ).vaults()[vault_id].ckbtc_margin_amount.0,
    {
        let vault = self.drop_vault(vault_id);
        self.pending_margin_transfers.insert(
            vault_id,
            PendingMarginTransfer { owner: vault.owner, margin: vault.ckbtc_margin_amount },
        );
    }

    /// Sets the amounts of the vault `vault_id`.
    pub(crate) fn set_amounts(&mut self, vault_id: u64, borrowed: TAL, margin_amount: CKBTC)
        requires
            old(self).wf(),
            old(self).vaults().contains_key(vault_id),
            old(self).debt_sum() - old(self).vaults()[vault_id].borrowed_tal_amount.0 + borrowed.0
                <= u64::MAX,
            old(self).margin_sum() + old(self).returns_sum() - old(
                self,
            ).vaults()[vault_id].ckbtc_margin_amount.0 + margin_amount.0 <= u64::MAX,
        ensures
            final(self).wf(),
            *final(self) == (State {
                vault_id_to_vaults: final(self).vault_id_to_vaults,
                ..*old(self)
            }),
            final(self).vault_id_to_vaults.listing() == with_entry(
                old(self).vault_id_to_vaults.listing(),
                vault_id,
                Vault {
                    borrowed_tal_amount: borrowed,
                    ckbtc_margin_amount: margin_amount,
                    ..old(self).vaults()[vault_id]
                },
            ),
            final(self).vaults() == old(self).vaults().insert(
                vault_id,
                Vault {
                    borrowed_tal_amount: borrowed,
                    ckbtc_margin_amount: margin_amount,
                    ..old(self).vaults()[vault_id]
                },
            ),
            final(self).debt_sum() == old(self).debt_sum() - old(
                self,
            ).vaults()[vault_id].borrowed_tal_amount.0 + borrowed.0,
            final(self).margin_sum() == old(self).margin_sum() - old(
                self,
            ).vaults()[vault_id].ckbtc_margin_amount.0 + margin_amount.0,
    {
        let vault = *self.vault_id_to_vaults.get(&vault_id).unwrap();
        let changed = Vault {
            owner: vault.owner,
            borrowed_tal_amount: borrowed,
            ckbtc_margin_amount: margin_amount,
            vault_id: vault.vault_id,
        };
        proof {
            lemma_sum_by_with_entry(self.vault_id_to_vaults.listing(), vault_id, changed, debt());
            lemma_sum_by_with_entry(self.vault_id_to_vaults.listing(), vault_id, changed, margin());
        }
        self.vault_id_to_vaults.insert(vault_id, changed);
        proof {
            lemma_vault_sums_not_negative(self.vault_id_to_vaults.listing());
        }
    }

    /// The debt and the margin of a vault do not exceed the sums of all.
    pub proof fn lemma_vault_within_sums(&self, vault_id: u64)
        requires
            self.vault_id_to_vaults.wf(),
            self.vaults().contains_key(vault_id),
        ensures
            self.vaults()[vault_id].borrowed_tal_amount.0 <= self.debt_sum(),
            self.vaults()[vault_id].ckbtc_margin_amount.0 <= self.margin_sum(),
    {
        let listing = self.vault_id_to_vaults.listing();
        lemma_key_has_entry(listing, vault_id);
        assert(nowhere_negative(listing, debt()));
        assert(nowhere_negative(listing, margin()));
        lemma_sum_by_bounds(listing, debt());
        lemma_sum_by_bounds(listing, margin());
    }

    /// Adds `borrowed_amount` to the debt of a vault.
    pub fn borrow_from_vault(&mut self, vault_id: u64, borrowed_amount: TAL)
        requires
            old(self).wf(),
            old(self).vaults().contains_key(vault_id),
            old(self).debt_sum() + borrowed_amount.0 <= u64::MAX,
        ensures
            final(self).wf(),
            *final(self) == (State {
                vault_id_to_vaults: final(self).vault_id_to_vaults,
                ..*old(self)
            }),
            final(self).vaults() == old(self).vaults().insert(
                vault_id,
                Vault {
                    borrowed_tal_amount: Token(
                        (old(self).vaults()[vault_id].borrowed_tal_amount.0 + borrowed_amount.0) as u64,
                        PhantomData,
                    ),
                    ..old(self).vaults()[vault_id]
                },
            ),
            final(self).vault_id_to_vaults.listing() == with_entry(
                old(self).vault_id_to_vaults.listing(),
                vault_id,
                Vault {
                    borrowed_tal_amount: Token(
                        (old(self).vaults()[vault_id].borrowed_tal_amount.0 + borrowed_amount.0) as u64,
                        PhantomData,
                    ),
                    ..old(self).vaults()[vault_id]
                },
            ),
            final(self).debt_sum() == old(self).debt_sum() + borrowed_amount.0,
            final(self).margin_sum() == old(self).margin_sum(),
    {
        proof {
            self.lemma_vault_within_sums(vault_id);
        }
        let vault = *self.vault_id_to_vaults.get(&vault_id).unwrap();
        self.set_amounts(
            vault_id,
            TAL::new(vault.borrowed_tal_amount.0 + borrowed_amount.0),
            vault.ckbtc_margin_amount,
        );
    }

    /// Adds `add_margin` to the margin of a vault.
    pub fn add_margin_to_vault(&mut self, vault_id: u64, add_margin: CKBTC)
        requires
            old(self).wf(),
            old(self).vaults().contains_key(vault_id),
            old(self).margin_sum() + old(self).returns_sum() + add_margin.0 <= u64::MAX,
        ensures
            final(self).wf(),
            *final(self) == (State {
                vault_id_to_vaults: final(self).vault_id_to_vaults,
                ..*old(self)
            }),
            final(self).vaults() == old(self).vaults().insert(
                vault_id,
                Vault {
                    ckbtc_margin_amount: Token(
                        (old(self).vaults()[vault_id].ckbtc_margin_amount.0 + add_margin.0) as u64,
                        PhantomData,
                    ),
                    ..old(self).vaults()[vault_id]
                },
            ),
            final(self).vault_id_to_vaults.listing() == with_entry(
                old(self).vault_id_to_vaults.listing(),
                vault_id,
                Vault {
                    ckbtc_margin_amount: Token(
                        (old(self).vaults()[vault_id].ckbtc_margin_amount.0 + add_margin.0) as u64,
                        PhantomData,
                    ),
                    ..old(self).vaults()[vault_id]
                },
            ),
            final(self).debt_sum() == old(self).debt_sum(),
            final(self).margin_sum() == old(self).margin_sum() + add_margin.0,
    {
        proof {
            self.lemma_vault_within_sums(vault_id);
        }
        let vault = *self.vault_id_to_vaults.get(&vault_id).unwrap();
        self.set_amounts(
            vault_id,
            vault.borrowed_tal_amount,
            CKBTC::new(vault.ckbtc_margin_amount.0 + add_margin.0),
        );
    }

    /// Takes `repayed_amount` from the debt of a vault.
    pub fn repay_to_vault(&mut self, vault_id: u64, repayed_amount: TAL)
        requires
            old(self).wf(),
            old(self).vaults().contains_key(vault_id),
            repayed_amount.0 <= old(self).vaults()[vault_id].borrowed_tal_amount.0,
        ensures
            final(self).wf(),
            *final(self) == (State {
                vault_id_to_vaults: final(self).vault_id_to_vaults,
                ..*old(self)
            }),
            final(self).vaults() == old(self).vaults().insert(
                vault_id,
                Vault {
                    borrowed_tal_amount: Token(
                        (old(self).vaults()[vault_id].borrowed_tal_amount.0 - repayed_amount.0) as u64,
                        PhantomData,
                    ),
                    ..old(self).vaults()[vault_id]
                },
            ),
            final(self).vault_id_to_vaults.listing() == with_entry(
                old(self).vault_id_to_vaults.listing(),
                vault_id,
                Vault {
                    borrowed_tal_amount: Token(
                        (old(self).vaults()[vault_id].borrowed_tal_amount.0 - repayed_amount.0) as u64,
                        PhantomData,
                    ),
                    ..old(self).vaults()[vault_id]
                },
            ),
            final(self).debt_sum() == old(self).debt_sum() - repayed_amount.0,
            final(self).margin_sum() == old(self).margin_sum(),
    {
        proof {
            self.lemma_vault_within_sums(vault_id);
        }
        let vault = *self.vault_id_to_vaults.get(&vault_id).unwrap();
        self.set_amounts(
            vault_id,
            TAL::new(vault.borrowed_tal_amount.0 - repayed_amount.0),
            vault.ckbtc_margin_amount,
        );
    }

    /// Adds `amount` to the liquidity that `caller` has in the pool.
    pub fn provide_liquidity(&mut self, amount: TAL, caller: Principal)
        requires
            old(self).wf(),
            old(self).pool_sum() + amount.0 <= u64::MAX,
        ensures
            final(self).wf(),
            *final(self) == (State { liquidity_pool: final(self).liquidity_pool, ..*old(self) }),
            final(self).liquidity_pool.listing() == credited(
                old(self).liquidity_pool.listing(),
                caller,
                amount.0,
            ),
            final(self).pool_sum() == old(self).pool_sum() + amount.0,
    {
        credit(&mut self.liquidity_pool, caller, amount.0);
    }

    /// Takes `amount` from the liquidity that `caller` has in the pool.
    pub fn withdraw_liquidity(&mut self, amount: TAL, caller: Principal)
        requires
            old(self).wf(),
            old(self).liquidity_pool@.contains_key(caller),
            amount.0 <= old(self).liquidity_pool@[caller].0,
        ensures
            final(self).wf(),
            *final(self) == (State { liquidity_pool: final(self).liquidity_pool, ..*old(self) }),
            final(self).liquidity_pool.listing() == debited(
                old(self).liquidity_pool.listing(),
                caller,
                amount.0,
            ),
            final(self).pool_sum() == old(self).pool_sum() - amount.0,
    {
        debit(&mut self.liquidity_pool, caller, amount.0);
    }

    /// Takes `amount` from the returns that wait for `caller`.
    pub fn claim_liquidity_returns(&mut self, amount: CKBTC, caller: Principal)
        requires
            old(self).wf(),
            old(self).liquidity_returns@.contains_key(caller),
            amount.0 <= old(self).liquidity_returns@[caller].0,
        ensures
            final(self).wf(),
            *final(self) == (State { liquidity_returns: final(self).liquidity_returns, ..*old(self) }),
            final(self).liquidity_returns.listing() == debited(
                old(self).liquidity_returns.listing(),
                caller,
                amount.0,
            ),
            final(self).returns_sum() == old(self).returns_sum() - amount.0,
    {
        debit(&mut self.liquidity_returns, caller, amount.0);
    }
}

} // verus!
