//! Liquidation of a vault by the liquidity pool: the providers take the debt
//! of the vault over, each in proportion to what they provided, and share
//! its collateral in the same proportion.

use crate::bookkeeping::{credit, credited, debit, debited, held, lemma_debited};
use crate::decimal::{scaled, Parts};
use crate::numeric::{proportion, token_over, token_times, Token, UsdBtc, CKBTC, TAL};
use crate::ordered_map::{
    increasing, lemma_entry_found, with_entry, without_key, OrdMap, OrderedKey,
};
use crate::principal::Principal;
use crate::state::{lemma_balances_not_negative, sum_of_balances, total_balance, Mode, State};
use crate::sums::{
    lemma_sum_by_all, lemma_sum_by_bounds, lemma_sum_by_prefix, lemma_sum_by_push, lemma_sum_by_take,
    lemma_sum_by_update, nowhere_negative, sum_by,
};
use crate::vault::Vault;
use crate::{collateral_ratio, compute_collateral_ratio, minimum_collateral_ratio, minimum_ratio};
use std::marker::PhantomData;
use vstd::prelude::*;

verus! {

/// What one provider takes over of a liquidated vault.
#[derive(Clone, Copy, Debug)]
pub struct DistributeEntry {
    pub owner: Principal,
    pub ckbtc_reward: CKBTC,
    pub tal_to_debit: TAL,
}

/// The debt that an entry takes over.
pub open spec fn debit_of() -> spec_fn(DistributeEntry) -> int {
    |e: DistributeEntry| e.tal_to_debit.0 as int
}

/// The collateral that an entry receives.
pub open spec fn reward_of() -> spec_fn(DistributeEntry) -> int {
    |e: DistributeEntry| e.ckbtc_reward.0 as int
}

/// The part of `debt` and `reward` that falls to a provider by its share
/// of the `total` of the pool, rounded down. `None` where the arithmetic
/// overflows or the part of the debt exceeds what the provider has.
pub open spec fn lp_entry(total: int, debt: u64, reward: u64, provider: (Principal, TAL)) -> Option<
    DistributeEntry,
> {
    match proportion(provider.1.0 as int, total) {
        None => None,
        Some(share) => match token_times(reward as int, share) {
            None => None,
            Some(part_of_reward) => match token_times(debt as int, share) {
                None => None,
                Some(part_of_debt) => if part_of_debt <= provider.1.0 {
                    Some(
                        DistributeEntry {
                            owner: provider.0,
                            ckbtc_reward: Token(part_of_reward, PhantomData),
                            tal_to_debit: Token(part_of_debt, PhantomData),
                        },
                    )
                } else {
                    None
                },
            },
        },
    }
}

/// The parts of the first `n` providers of the pool.
pub open spec fn lp_entries(pool: Seq<(Principal, TAL)>, debt: u64, reward: u64, n: int) -> Option<
    Seq<DistributeEntry>,
>
    decreases n,
{
    if n <= 0 {
        Some(Seq::empty())
    } else {
        match lp_entries(pool, debt, reward, n - 1) {
            None => None,
            Some(entries) => match lp_entry(total_balance(pool), debt, reward, pool[n - 1]) {
                None => None,
                Some(entry) => Some(entries.push(entry)),
            },
        }
    }
}

/// The first entry with what rounding left over added to it.
pub open spec fn with_remainders(parts: Seq<DistributeEntry>, debt: u64, reward: u64) -> Seq<
    DistributeEntry,
> {
    parts.update(
        0,
        DistributeEntry {
            owner: parts[0].owner,
            ckbtc_reward: Token(
                (parts[0].ckbtc_reward.0 + (reward - sum_by(parts, reward_of()))) as u64,
                PhantomData,
            ),
            tal_to_debit: Token(
                (parts[0].tal_to_debit.0 + (debt - sum_by(parts, debit_of()))) as u64,
                PhantomData,
            ),
        },
    )
}

/// How `debt` and `reward` are shared out among the providers of the pool:
/// each gets its part, and the first also what rounding left over. `None`
/// where the pool is empty or holds less than the debt, where a part is
/// undefined, or where the parts exceed what is shared out.
pub open spec fn distribution_across_lps(pool: Seq<(Principal, TAL)>, debt: u64, reward: u64) -> Option<
    Seq<DistributeEntry>,
> {
    if pool.len() == 0 || total_balance(pool) < debt {
        None
    } else {
        match lp_entries(pool, debt, reward, pool.len() as int) {
            None => None,
            Some(parts) => if sum_by(parts, debit_of()) > debt || sum_by(parts, reward_of()) > reward {
                None
            } else {
                Some(with_remainders(parts, debt, reward))
            },
        }
    }
}

/// Once the parts of some providers are undefined, those of more are.
pub proof fn lemma_lp_entries_stay_undefined(
    pool: Seq<(Principal, TAL)>,
    debt: u64,
    reward: u64,
    low: int,
    high: int,
)
    requires
        low <= high,
        lp_entries(pool, debt, reward, low) is None,
    ensures
        lp_entries(pool, debt, reward, high) is None,
    decreases high - low,
{
    if low < high {
        lemma_lp_entries_stay_undefined(pool, debt, reward, low, high - 1);
    }
}

/// The parts of the first `n` providers: one for each, in their order, none
/// with more debt than its provider has.
pub proof fn lemma_lp_entries(pool: Seq<(Principal, TAL)>, debt: u64, reward: u64, n: int)
    requires
        0 <= n <= pool.len(),
        lp_entries(pool, debt, reward, n) is Some,
    ensures
        lp_entries(pool, debt, reward, n)->0.len() == n,
        forall|i: int|
            0 <= i < n ==> (#[trigger] lp_entries(pool, debt, reward, n)->0[i]).owner == pool[i].0
                && lp_entries(pool, debt, reward, n)->0[i].tal_to_debit.0 <= pool[i].1.0,
    decreases n,
{
    if n > 0 {
        lemma_lp_entries(pool, debt, reward, n - 1);
    }
}

/// A distribution across the providers shares out all of the debt and all
/// of the reward. It has one entry for each provider, in their order. No
/// entry but the first, which takes what rounding left over, has more debt
/// than its provider has in the pool.
pub proof fn lemma_distribution_across_lps(pool: Seq<(Principal, TAL)>, debt: u64, reward: u64)
    requires
        distribution_across_lps(pool, debt, reward) is Some,
    ensures
        ({
            let entries = distribution_across_lps(pool, debt, reward)->0;
            &&& entries.len() == pool.len()
            &&& sum_by(entries, debit_of()) == debt
            &&& sum_by(entries, reward_of()) == reward
            &&& forall|i: int| 0 <= i < entries.len() ==> (#[trigger] entries[i]).owner == pool[i].0
            &&& forall|i: int|
                1 <= i < entries.len() ==> (#[trigger] entries[i]).tal_to_debit.0 <= pool[i].1.0
        }),
{
    let parts = lp_entries(pool, debt, reward, pool.len() as int)->0;
    lemma_lp_entries(pool, debt, reward, pool.len() as int);
    let entries = with_remainders(parts, debt, reward);
    assert(nowhere_negative(parts, debit_of()));
    assert(nowhere_negative(parts, reward_of()));
    lemma_sum_by_bounds(parts, debit_of());
    lemma_sum_by_bounds(parts, reward_of());
    lemma_sum_by_update(parts, 0, entries[0], debit_of());
    lemma_sum_by_update(parts, 0, entries[0], reward_of());
    assert(parts[0].tal_to_debit.0 <= sum_by(parts, debit_of()));
    assert(parts[0].ckbtc_reward.0 <= sum_by(parts, reward_of()));
}

/// The model of an optional list of entries.
pub open spec fn entries_view(entries: Option<Vec<DistributeEntry>>) -> Option<Seq<DistributeEntry>> {
    match entries {
        Some(entries) => Some(entries@),
        None => None,
    }
}

/// Shares a debt and the collateral that rewards it out among the
/// providers of liquidity.
pub fn distribute_across_lps(
    provided_liquidity: &OrdMap<Principal, TAL>,
    borrowed_tal_amount: TAL,
    ckbtc_margin_amount: CKBTC,
) -> (entries: Option<Vec<DistributeEntry>>)
    requires
        provided_liquidity.wf(),
        total_balance(provided_liquidity.listing()) <= u64::MAX,
    ensures
        entries_view(entries) == distribution_across_lps(
            provided_liquidity.listing(),
            borrowed_tal_amount.0,
            ckbtc_margin_amount.0,
        ),
{
    let ghost pool = provided_liquidity.listing();
    let ghost debt = borrowed_tal_amount.0;
    let ghost reward = ckbtc_margin_amount.0;
    let total_provided_amount = sum_of_balances(provided_liquidity);
    let providers = provided_liquidity.len();
    if providers == 0 || total_provided_amount < borrowed_tal_amount.0 {
        return None;
    }
    let mut result: Vec<DistributeEntry> = Vec::new();
    let mut debits: u128 = 0;
    let mut rewards: u128 = 0;
    let mut i: usize = 0;
    while i < providers
        invariant
            pool == provided_liquidity.listing(),
            debt == borrowed_tal_amount.0,
            reward == ckbtc_margin_amount.0,
            providers == pool.len(),
            total_provided_amount == total_balance(pool),
            0 <= i <= providers,
            lp_entries(pool, debt, reward, i as int) == Some(result@),
            result@.len() == i,
            debits == sum_by(result@, debit_of()),
            rewards == sum_by(result@, reward_of()),
            debits <= i * u64::MAX,
            rewards <= i * u64::MAX,
        decreases providers - i,
    {
        let provider = provided_liquidity.entry_at(i);
        let owner = provider.0;
        let provided_amount = provider.1;
        let share = if total_provided_amount == 0 {
            None
        } else {
            provided_amount.checked_div(TAL::new(total_provided_amount))
        };
        let entry = match share {
            None => None,
            Some(share) => match ckbtc_margin_amount.checked_mul_ratio(share) {
                None => None,
                Some(ckbtc_reward) => match borrowed_tal_amount.checked_mul_ratio(share) {
                    None => None,
                    Some(tal_to_debit) => if tal_to_debit.0 <= provided_amount.0 {
                        Some(DistributeEntry { owner, ckbtc_reward, tal_to_debit })
                    } else {
                        None
                    },
                },
            },
        };
        assert(entry == lp_entry(total_balance(pool), debt, reward, pool[i as int]));
        match entry {
            None => {
                proof {
                    lemma_lp_entries_stay_undefined(pool, debt, reward, i + 1, providers as int);
                }
                return None;
            },
            Some(entry) => {
                proof {
                    lemma_sum_by_push(result@, entry, debit_of());
                    lemma_sum_by_push(result@, entry, reward_of());
                }
                result.push(entry);
                debits = debits + entry.tal_to_debit.0 as u128;
                rewards = rewards + entry.ckbtc_reward.0 as u128;
            },
        }
        i = i + 1;
    }
    if debits > borrowed_tal_amount.0 as u128 || rewards > ckbtc_margin_amount.0 as u128 {
        return None;
    }
    let first = result[0];
    proof {
        assert(nowhere_negative(result@, debit_of()));
        assert(nowhere_negative(result@, reward_of()));
        lemma_sum_by_bounds(result@, debit_of());
        lemma_sum_by_bounds(result@, reward_of());
        assert(result@[0].tal_to_debit.0 <= sum_by(result@, debit_of()));
        assert(result@[0].ckbtc_reward.0 <= sum_by(result@, reward_of()));
    }
    let ghost parts = result@;
    result[0] = DistributeEntry {
        owner: first.owner,
        ckbtc_reward: CKBTC::new(first.ckbtc_reward.0 + (ckbtc_margin_amount.0 - rewards as u64)),
        tal_to_debit: TAL::new(first.tal_to_debit.0 + (borrowed_tal_amount.0 - debits as u64)),
    };
    assert(result@ =~= with_remainders(parts, debt, reward));
    Some(result)
}

/// What a liquidation does: whether it leaves the vault its debt-free rest,
/// how much of the margin it takes, and what falls to each provider.
pub struct Liquidation {
    pub partial: bool,
    pub seized: u64,
    pub entries: Seq<DistributeEntry>,
}

/// What a liquidation does, as it was computed.
#[derive(Debug)]
pub struct LiquidationPlan {
    pub partial: bool,
    pub seized: CKBTC,
    pub entries: Vec<DistributeEntry>,
}

impl View for LiquidationPlan {
    type V = Liquidation;

    open spec fn view(&self) -> Liquidation {
        Liquidation { partial: self.partial, seized: self.seized.0, entries: self.entries@ }
    }
}

/// The model of an optional plan.
pub open spec fn plan_view(plan: Option<LiquidationPlan>) -> Option<Liquidation> {
    match plan {
        Some(plan) => Some(plan@),
        None => None,
    }
}

/// A liquidation that shares `seized` out, if the first provider has what
/// falls to it.
pub open spec fn settled(
    partial: bool,
    seized: u64,
    entries: Option<Seq<DistributeEntry>>,
    pool: Seq<(Principal, TAL)>,
) -> Option<Liquidation> {
    match entries {
        None => None,
        Some(entries) => if entries[0].tal_to_debit.0 > pool[0].1.0 {
            None
        } else {
            Some(Liquidation { partial, seized, entries })
        },
    }
}

/// The liquidation of `vault` by the pool in `mode` at `price`.
///
/// The pool must hold the debt of the vault. In recovery, a vault whose
/// collateral ratio is above the minimum gives only the collateral that covers
/// its debt at the minimum ratio, and stays; else the vault gives all of its
/// margin and goes. `None` where the arithmetic fails or a provider has less
/// than falls to it.
pub open spec fn liquidation_of(vault: Vault, pool: Seq<(Principal, TAL)>, mode: Mode, price: Parts) -> Option<
    Liquidation,
> {
    let debt = vault.borrowed_tal_amount.0;
    let margin = vault.ckbtc_margin_amount.0;
    if total_balance(pool) < debt {
        None
    } else {
        match collateral_ratio(vault, price) {
            None => None,
            Some(ratio) => if mode == Mode::Recovery && scaled(ratio) > scaled(minimum_ratio()) {
                match token_times(debt as int, minimum_ratio()) {
                    None => None,
                    Some(covered) => match token_over(covered as int, price) {
                        None => None,
                        Some(seized) => if seized > margin {
                            None
                        } else {
                            settled(true, seized, distribution_across_lps(pool, debt, seized), pool)
                        },
                    },
                }
            } else {
                settled(false, margin, distribution_across_lps(pool, debt, margin), pool)
            },
        }
    }
}

/// The pool after the first `n` entries were debited.
pub open spec fn pool_after(pool: Seq<(Principal, TAL)>, entries: Seq<DistributeEntry>, n: int) -> Seq<
    (Principal, TAL),
>
    decreases n,
{
    if n <= 0 {
        pool
    } else {
        debited(pool_after(pool, entries, n - 1), entries[n - 1].owner, entries[n - 1].tal_to_debit.0)
    }
}

/// The returns after the first `n` entries were credited.
pub open spec fn returns_after(rewards: Seq<(Principal, CKBTC)>, entries: Seq<DistributeEntry>, n: int) -> Seq<
    (Principal, CKBTC),
>
    decreases n,
{
    if n <= 0 {
        rewards
    } else {
        credited(
            returns_after(rewards, entries, n - 1),
            entries[n - 1].owner,
            entries[n - 1].ckbtc_reward.0,
        )
    }
}

impl State {
    /// The liquidation of the vault `vault_id`, if there is such a vault.
    pub open spec fn liquidation(&self, vault_id: u64, mode: Mode, price: Parts) -> Option<Liquidation> {
        if self.vaults().contains_key(vault_id) {
            liquidation_of(self.vaults()[vault_id], self.liquidity_pool.listing(), mode, price)
        } else {
            None
        }
    }

    /// Computes the liquidation of a vault, and changes nothing.
    pub fn plan_liquidation(&self, vault_id: u64, mode: Mode, btc_rate: UsdBtc) -> (plan: Option<
        LiquidationPlan,
    >)
        requires
            self.wf(),
        ensures
            plan_view(plan) == self.liquidation(vault_id, mode, btc_rate@),
    {
        let vault = match self.vault_id_to_vaults.get(&vault_id) {
            Some(vault) => *vault,
            None => {
                return None;
            },
        };
        if sum_of_balances(&self.liquidity_pool) < vault.borrowed_tal_amount.0 {
            return None;
        }
        let vault_collateral_ratio = compute_collateral_ratio(&vault, btc_rate)?;
        let partial = mode == Mode::Recovery && vault_collateral_ratio.gt(&minimum_collateral_ratio());
        let seized = if partial {
            let covered = vault.borrowed_tal_amount.checked_mul_ratio(minimum_collateral_ratio())?;
            if btc_rate.0.is_zero() {
                return None;
            }
            let partial_margin = covered.checked_div_rate(btc_rate)?;
            if partial_margin.0 > vault.ckbtc_margin_amount.0 {
                return None;
            }
            partial_margin
        } else {
            vault.ckbtc_margin_amount
        };
        let entries = distribute_across_lps(&self.liquidity_pool, vault.borrowed_tal_amount, seized)?;
        proof {
            lemma_distribution_across_lps(
                self.liquidity_pool.listing(),
                vault.borrowed_tal_amount.0,
                seized.0,
            );
        }
        if entries[0].tal_to_debit.0 > self.liquidity_pool.entry_at(0).1.0 {
            return None;
        }
        Some(LiquidationPlan { partial, seized, entries })
    }

    /// Liquidates a vault by the liquidity pool, where its liquidation is
    /// defined: the providers are debited and rewarded as the liquidation
    /// says, and the vault loses what was seized, or goes.
    pub fn liquidate_vault(&mut self, vault_id: u64, mode: Mode, btc_rate: UsdBtc) -> (liquidated: bool)
        requires
            old(self).wf(),
        ensures
            final(self).wf(),
            liquidated == old(self).liquidation(vault_id, mode, btc_rate@) is Some,
            !liquidated ==> *final(self) == *old(self),
            liquidated ==> ({
                let plan = old(self).liquidation(vault_id, mode, btc_rate@)->0;
                let vault = old(self).vaults()[vault_id];
                &&& *final(self) == (State {
                    vault_id_to_vaults: final(self).vault_id_to_vaults,
                    principal_to_vault_ids: final(self).principal_to_vault_ids,
                    liquidity_pool: final(self).liquidity_pool,
                    liquidity_returns: final(self).liquidity_returns,
                    ..*old(self)
                })
                &&& final(self).vaults() == if plan.partial {
                    old(self).vaults().insert(
                        vault_id,
                        Vault {
                            borrowed_tal_amount: Token(0, PhantomData),
                            ckbtc_margin_amount: Token(
                                (vault.ckbtc_margin_amount.0 - plan.seized) as u64,
                                PhantomData,
                            ),
                            ..vault
                        },
                    )
                } else {
                    old(self).vaults().remove(vault_id)
                }
                &&& final(self).vault_id_to_vaults.listing() == if plan.partial {
                    with_entry(
                        old(self).vault_id_to_vaults.listing(),
                        vault_id,
                        Vault {
                            borrowed_tal_amount: Token(0, PhantomData),
                            ckbtc_margin_amount: Token(
                                (vault.ckbtc_margin_amount.0 - plan.seized) as u64,
                                PhantomData,
                            ),
                            ..vault
                        },
                    )
                } else {
                    without_key(old(self).vault_id_to_vaults.listing(), vault_id)
                }
                &&& final(self).owner_index() == if plan.partial {
                    old(self).owner_index()
                } else {
                    old(self).owner_index().insert(
                        vault.owner,
                        old(self).ids_of(vault.owner).remove(vault_id),
                    )
                }
                &&& final(self).liquidity_pool.listing() == pool_after(
                    old(self).liquidity_pool.listing(),
                    plan.entries,
                    plan.entries.len() as int,
                )
                &&& final(self).liquidity_returns.listing() == returns_after(
                    old(self).liquidity_returns.listing(),
                    plan.entries,
                    plan.entries.len() as int,
                )
                &&& final(self).debt_sum() == old(self).debt_sum() - vault.borrowed_tal_amount.0
                &&& final(self).pool_sum() == old(self).pool_sum() - vault.borrowed_tal_amount.0
                &&& final(self).margin_sum() == old(self).margin_sum() - plan.seized
                &&& final(self).returns_sum() == old(self).returns_sum() + plan.seized
            }),
    {
        let plan = match self.plan_liquidation(vault_id, mode, btc_rate) {
            Some(plan) => plan,
            None => {
                return false;
            },
        };
        let vault = *self.vault_id_to_vaults.get(&vault_id).unwrap();
        let ghost pool = self.liquidity_pool.listing();
        let ghost rewards = self.liquidity_returns.listing();
        let ghost entries = plan.entries@;
        proof {
            lemma_distribution_across_lps(pool, vault.borrowed_tal_amount.0, plan.seized.0);
            self.lemma_vault_within_sums(vault_id);
        }
        if plan.partial {
            self.set_amounts(
                vault_id,
                TAL::new(0),
                CKBTC::new(vault.ckbtc_margin_amount.0 - plan.seized.0),
            );
        } else {
            self.drop_vault(vault_id);
        }
        let ghost changed = *self;
        let mut i: usize = 0;
        proof {
            assert forall|j: int| 0 <= j < entries.len() implies held(pool, (#[trigger] entries[j]).owner)
                == pool[j].1.0 by {
                lemma_entry_found(pool, j);
            }
            assert(nowhere_negative(entries, debit_of()));
            assert(nowhere_negative(entries, reward_of()));
        }
        while i < plan.entries.len()
            invariant
                entries == plan.entries@,
                entries.len() == pool.len(),
                increasing(pool),
                forall|j: int| 0 <= j < entries.len() ==> (#[trigger] entries[j]).owner == pool[j].0,
                forall|j: int|
                    0 <= j < entries.len() ==> (#[trigger] entries[j]).tal_to_debit.0 <= pool[j].1.0,
                0 <= i <= entries.len(),
                *self == (State {
                    liquidity_pool: self.liquidity_pool,
                    liquidity_returns: self.liquidity_returns,
                    ..changed
                }),
                self.liquidity_pool.wf(),
                self.liquidity_returns.wf(),
                crate::state::all_positive(self.liquidity_pool@),
                crate::state::all_positive(self.liquidity_returns@),
                self.liquidity_pool.listing() == pool_after(pool, entries, i as int),
                self.liquidity_returns.listing() == returns_after(rewards, entries, i as int),
                forall|j: int|
                    i <= j < entries.len() ==> held(
                        self.liquidity_pool.listing(),
                        (#[trigger] entries[j]).owner,
                    ) == pool[j].1.0,
                total_balance(self.liquidity_pool.listing()) == total_balance(pool) - sum_by(
                    entries.take(i as int),
                    debit_of(),
                ),
                total_balance(self.liquidity_returns.listing()) == total_balance(rewards) + sum_by(
                    entries.take(i as int),
                    reward_of(),
                ),
                nowhere_negative(entries, debit_of()),
                nowhere_negative(entries, reward_of()),
                sum_by(entries, reward_of()) == plan.seized.0,
                total_balance(rewards) + plan.seized.0 <= u64::MAX,
            decreases entries.len() - i,
        {
            let entry = plan.entries[i];
            proof {
                lemma_sum_by_take(entries, i as int, debit_of());
                lemma_sum_by_take(entries, i as int, reward_of());
                lemma_sum_by_prefix(entries, i + 1, reward_of());
                lemma_debited(self.liquidity_pool.listing(), entry.owner, entry.tal_to_debit.0);
                assert forall|j: int| i + 1 <= j < entries.len() implies (#[trigger] entries[j]).owner
                    != entry.owner by {
                    assert(pool[i as int].0.rank() < pool[j].0.rank());
                }
            }
            debit(&mut self.liquidity_pool, entry.owner, entry.tal_to_debit.0);
            credit(&mut self.liquidity_returns, entry.owner, entry.ckbtc_reward.0);
            i = i + 1;
        }
        proof {
            lemma_sum_by_all(entries, debit_of());
            lemma_sum_by_all(entries, reward_of());
            lemma_balances_not_negative(self.liquidity_pool.listing());
            lemma_balances_not_negative(self.liquidity_returns.listing());
        }
        true
    }
}

} // verus!
