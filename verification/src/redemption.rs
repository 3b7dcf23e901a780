//! Redemption: holders of TAL exchange it for collateral at the price of
//! the oracle. The debt that is redeemed is taken from the vaults with the
//! lowest collateral ratios first, with the collateral that it buys.

use crate::id_map::IdMap;
use crate::decimal::{pow10, product, scaled, sum, whole, Fixed, Parts};
use crate::numeric::{amount_value, power, proportion, token_over, Ratio, Token, UsdBtc, CKBTC, TAL};
use crate::ordered_map::{
    as_map, has_key, increasing, lemma_with_entry, value_of, with_entry, OrdMap,
};
use crate::state::{debt, lemma_vault_sums_not_negative, margin, total_debt, total_margin, State};
use crate::sums::lemma_sum_by_with_entry;
use crate::vault::Vault;
use crate::{collateral_ratio, compute_collateral_ratio};
use std::marker::PhantomData;
use vstd::prelude::*;

verus! {

/// The part of the redeemed proportion that enters the fee: 0.5.
pub open spec fn redeemed_proportion() -> Parts {
    (5, 1)
}

/// The factor by which the base rate decays in an hour: 0.94.
pub open spec fn decay_factor() -> Parts {
    (94, 2)
}

/// The lowest redemption fee: 0.005.
pub open spec fn lowest_fee() -> Parts {
    (5, 3)
}

/// The highest redemption fee: 0.05.
pub open spec fn highest_fee() -> Parts {
    (5, 2)
}

/// `rate`, but at least the lowest and at most the highest fee.
pub open spec fn clamped(rate: Parts) -> Parts {
    let raised = if scaled(rate) > scaled(lowest_fee()) {
        rate
    } else {
        lowest_fee()
    };
    if scaled(raised) > scaled(highest_fee()) {
        highest_fee()
    } else {
        raised
    }
}

/// The fee for redeeming `redeemed` of a total debt of `total`, when the
/// last fee was `base` and `hours` have passed since: the last fee decayed
/// by 0.94 per hour, plus half the redeemed proportion of the debt, kept
/// between 0.005 and 0.05. Zero where there is no debt. `None` where the
/// arithmetic overflows.
pub open spec fn redemption_fee(hours: nat, redeemed: int, total: int, base: Parts) -> Option<Parts> {
    if total == 0 {
        Some(whole(0))
    } else {
        match power(decay_factor(), hours) {
            None => None,
            Some(decay) => match product(base, decay) {
                None => None,
                Some(rate) => match proportion(redeemed, total) {
                    None => None,
                    Some(part) => match product(part, redeemed_proportion()) {
                        None => None,
                        Some(added) => match sum(rate, added) {
                            None => None,
                            Some(total_rate) => Some(clamped(total_rate)),
                        },
                    },
                },
            },
        }
    }
}

/// Powers of ten are positive.
pub proof fn lemma_pow10_positive(e: nat)
    ensures
        pow10(e) > 0,
    decreases e,
{
    if e > 0 {
        lemma_pow10_positive((e - 1) as nat);
    }
}

/// A redemption fee is zero where there is no debt, and else lies between
/// the lowest and the highest fee.
pub proof fn lemma_redemption_fee_in_range(hours: nat, redeemed: int, total: int, base: Parts)
    requires
        redemption_fee(hours, redeemed, total, base) is Some,
    ensures
        total == 0 ==> redemption_fee(hours, redeemed, total, base) == Some(whole(0)),
        total != 0 ==> scaled(lowest_fee()) <= scaled(redemption_fee(hours, redeemed, total, base)->0)
            <= scaled(highest_fee()),
{
    lemma_pow10_positive(25);
    assert(pow10(26) == 10 * pow10(25));
}

/// The fee for a redemption.
pub fn compute_redemption_fee(
    elapsed_hours: u64,
    redeemed_amount: TAL,
    total_borrowed_tal_amount: TAL,
    current_base_rate: Ratio,
) -> (fee: Option<Ratio>)
    ensures
        amount_value(fee) == redemption_fee(
            elapsed_hours as nat,
            redeemed_amount.0 as int,
            total_borrowed_tal_amount.0 as int,
            current_base_rate@,
        ),
{
    if total_borrowed_tal_amount.0 == 0 {
        return Some(Ratio::new(Fixed::zero()));
    }
    let reedemed_proportion = Ratio::new(Fixed::new(5, 1).unwrap());
    let decay_factor = Ratio::new(Fixed::new(94, 2).unwrap());
    let decay = decay_factor.pow(elapsed_hours)?;
    let rate = current_base_rate.checked_mul(decay)?;
    let part = redeemed_amount.checked_div(total_borrowed_tal_amount)?;
    let added = part.checked_mul(reedemed_proportion)?;
    let total_rate = rate.checked_add(added)?;
    Some(
        total_rate.max(Ratio::new(Fixed::new(5, 3).unwrap())).min(
            Ratio::new(Fixed::new(5, 2).unwrap()),
        ),
    )
}

/// Nanoseconds in an hour.
pub const HOUR_NANOS: u64 = 3_600_000_000_000;

/// Whether `a` comes before `b` among the vaults that are redeemed from:
/// by the lower collateral ratio, and by the lower id where the ratios are equal.
pub open spec fn comes_before(a: (Parts, u64), b: (Parts, u64)) -> bool {
    scaled(a.0) < scaled(b.0) || (scaled(a.0) == scaled(b.0) && a.1 < b.1)
}

/// The place of `x` in a ranking: behind the last entry that comes before it.
pub open spec fn place(ranking: Seq<(Parts, u64)>, x: (Parts, u64)) -> int
    decreases ranking.len(),
{
    if ranking.len() == 0 {
        0
    } else if comes_before(ranking.last(), x) {
        ranking.len() as int
    } else {
        place(ranking.drop_last(), x)
    }
}

/// The first `n` listed vaults, ranked by collateral ratio and id. `None`
/// where a collateral ratio is undefined.
pub open spec fn ranking(vaults: Seq<(u64, Vault)>, price: Parts, n: int) -> Option<Seq<(Parts, u64)>>
    decreases n,
{
    if n <= 0 {
        Some(Seq::empty())
    } else {
        match ranking(vaults, price, n - 1) {
            None => None,
            Some(ranked) => match collateral_ratio(vaults[n - 1].1, price) {
                None => None,
                Some(ratio) => {
                    let x = (ratio, vaults[n - 1].1.vault_id);
                    Some(ranked.insert(place(ranked, x), x))
                },
            },
        }
    }
}

/// Once the ranking of some vaults is undefined, that of more is.
pub proof fn lemma_ranking_stays_undefined(vaults: Seq<(u64, Vault)>, price: Parts, low: int, high: int)
    requires
        low <= high,
        ranking(vaults, price, low) is None,
    ensures
        ranking(vaults, price, high) is None,
    decreases high - low,
{
    if low < high {
        lemma_ranking_stays_undefined(vaults, price, low, high - 1);
    }
}

/// The place of an entry lies within the ranking.
pub proof fn lemma_place_in_range(ranking: Seq<(Parts, u64)>, x: (Parts, u64))
    ensures
        0 <= place(ranking, x) <= ranking.len(),
    decreases ranking.len(),
{
    if ranking.len() > 0 && !comes_before(ranking.last(), x) {
        lemma_place_in_range(ranking.drop_last(), x);
    }
}

/// Whether no entry of a ranking comes before an earlier one.
pub open spec fn ranked(ranking: Seq<(Parts, u64)>) -> bool {
    forall|i: int, j: int|
        0 <= i < j < ranking.len() ==> !comes_before(#[trigger] ranking[j], #[trigger] ranking[i])
}

/// In a ranking, the entries before the place of `x` do not come after
/// `x`, and those from its place on do not come before it.
pub proof fn lemma_place_splits(ranking: Seq<(Parts, u64)>, x: (Parts, u64))
    requires
        ranked(ranking),
    ensures
        forall|i: int| 0 <= i < place(ranking, x) ==> !comes_before(x, #[trigger] ranking[i]),
        forall|i: int| place(ranking, x) <= i < ranking.len() ==> !comes_before(#[trigger] ranking[i], x),
    decreases ranking.len(),
{
    lemma_place_in_range(ranking, x);
    if ranking.len() > 0 {
        let last = ranking.last();
        if comes_before(last, x) {
            assert forall|i: int| 0 <= i < ranking.len() implies !comes_before(x, #[trigger] ranking[i]) by {
                if i < ranking.len() - 1 {
                    assert(!comes_before(ranking[ranking.len() - 1], ranking[i]));
                }
            }
        } else {
            let rest = ranking.drop_last();
            assert(ranked(rest)) by {
                assert forall|i: int, j: int| 0 <= i < j < rest.len() implies !comes_before(
                    #[trigger] rest[j],
                    #[trigger] rest[i],
                ) by {
                    assert(rest[i] == ranking[i] && rest[j] == ranking[j]);
                }
            }
            lemma_place_splits(rest, x);
            lemma_place_in_range(rest, x);
            assert forall|i: int| 0 <= i < place(ranking, x) implies !comes_before(
                x,
                #[trigger] ranking[i],
            ) by {
                assert(rest[i] == ranking[i]);
            }
            assert forall|i: int| place(ranking, x) <= i < ranking.len() implies !comes_before(
                #[trigger] ranking[i],
                x,
            ) by {
                if i < rest.len() {
                    assert(rest[i] == ranking[i]);
                }
            }
        }
    }
}

/// The vaults are redeemed from in the order of their collateral ratios,
/// the lowest first: in a ranking, no entry comes before an earlier one.
pub proof fn lemma_ranking_is_ranked(vaults: Seq<(u64, Vault)>, price: Parts, n: int)
    requires
        ranking(vaults, price, n) is Some,
    ensures
        ranked(ranking(vaults, price, n)->0),
    decreases n,
{
    if n > 0 {
        lemma_ranking_is_ranked(vaults, price, n - 1);
        let before = ranking(vaults, price, n - 1)->0;
        let x = (collateral_ratio(vaults[n - 1].1, price)->0, vaults[n - 1].1.vault_id);
        let p = place(before, x);
        let now = before.insert(p, x);
        lemma_place_in_range(before, x);
        lemma_place_splits(before, x);
        assert forall|i: int, j: int| 0 <= i < j < now.len() implies !comes_before(
            #[trigger] now[j],
            #[trigger] now[i],
        ) by {
            let i0 = if i < p {
                i
            } else {
                i - 1
            };
            let j0 = if j < p {
                j
            } else {
                j - 1
            };
            if i != p && j != p {
                assert(now[i] == before[i0] && now[j] == before[j0]);
                assert(!comes_before(before[j0], before[i0]));
            } else if i == p {
                assert(now[j] == before[j0]);
                assert(!comes_before(before[j0], x));
            } else {
                assert(now[i] == before[i0]);
                assert(!comes_before(x, before[i0]));
            }
        }
    }
}

/// The entry of the listed vault `i` in a ranking: its collateral ratio
/// and its id.
pub open spec fn ranked_as(vaults: Seq<(u64, Vault)>, price: Parts, i: int) -> (Parts, u64) {
    (collateral_ratio(vaults[i].1, price)->0, vaults[i].1.vault_id)
}

/// A ranking of the first `n` listed vaults has one entry for each of
/// them, and no other.
pub proof fn lemma_ranking_lists_the_vaults(vaults: Seq<(u64, Vault)>, price: Parts, n: int)
    requires
        0 <= n <= vaults.len(),
        ranking(vaults, price, n) is Some,
    ensures
        ranking(vaults, price, n)->0.len() == n,
        forall|i: int|
            0 <= i < n ==> ranking(vaults, price, n)->0.contains(#[trigger] ranked_as(vaults, price, i)),
        forall|j: int|
            0 <= j < n ==> exists|i: int|
                0 <= i < n && #[trigger] ranked_as(vaults, price, i) == (#[trigger] ranking(
                    vaults,
                    price,
                    n,
                )->0[j]),
    decreases n,
{
    if n > 0 {
        lemma_ranking_lists_the_vaults(vaults, price, n - 1);
        let before = ranking(vaults, price, n - 1)->0;
        let x = ranked_as(vaults, price, n - 1);
        let p = place(before, x);
        let now = before.insert(p, x);
        lemma_place_in_range(before, x);
        assert(ranking(vaults, price, n)->0 == now);
        assert forall|i: int| 0 <= i < n implies now.contains(#[trigger] ranked_as(vaults, price, i)) by {
            if i == n - 1 {
                assert(now[p] == x);
            } else {
                assert(before.contains(ranked_as(vaults, price, i)));
                let j0 = choose|j: int| 0 <= j < before.len() && before[j] == ranked_as(vaults, price, i);
                let j = if j0 < p {
                    j0
                } else {
                    j0 + 1
                };
                assert(now[j] == before[j0]);
            }
        }
        assert forall|j: int| 0 <= j < n implies exists|i: int|
            0 <= i < n && #[trigger] ranked_as(vaults, price, i) == (#[trigger] now[j]) by {
            if j == p {
                assert(ranked_as(vaults, price, n - 1) == now[j]);
            } else {
                let j0 = if j < p {
                    j
                } else {
                    j - 1
                };
                assert(now[j] == before[j0]);
                let i = choose|i: int|
                    0 <= i < n - 1 && #[trigger] ranked_as(vaults, price, i) == before[j0];
                assert(ranked_as(vaults, price, i) == now[j]);
            }
        }
    }
}

/// The model of a ranking as it was computed.
pub open spec fn ranks_view(ranking: Seq<(Ratio, u64)>) -> Seq<(Parts, u64)> {
    Seq::new(ranking.len(), |i: int| (ranking[i].0@, ranking[i].1))
}

/// The ids of a ranking, in its order.
pub open spec fn ids_of_ranking(ranking: Seq<(Parts, u64)>) -> Seq<u64> {
    Seq::new(ranking.len(), |i: int| ranking[i].1)
}

/// The vaults after `tal` of debt and `ckbtc` of margin were taken from the
/// vault `id`. `None` where there is no such vault or it has less.
pub open spec fn deducted(vaults: Seq<(u64, Vault)>, id: u64, ckbtc: u64, tal: u64) -> Option<
    Seq<(u64, Vault)>,
> {
    if !has_key(vaults, id) {
        None
    } else {
        let vault = value_of(vaults, id);
        if vault.borrowed_tal_amount.0 < tal || vault.ckbtc_margin_amount.0 < ckbtc {
            None
        } else {
            Some(
                with_entry(
                    vaults,
                    id,
                    Vault {
                        borrowed_tal_amount: Token(
                            (vault.borrowed_tal_amount.0 - tal) as u64,
                            PhantomData,
                        ),
                        ckbtc_margin_amount: Token(
                            (vault.ckbtc_margin_amount.0 - ckbtc) as u64,
                            PhantomData,
                        ),
                        ..vault
                    },
                ),
            )
        }
    }
}

/// The vaults after `amount` of debt was redeemed from them, walking
/// `order` from `index` on: a vault with at least the amount that is left gives
/// it, with the collateral that it buys, and the walk ends; a vault with less
/// gives all of its debt, with the collateral that it buys, and the walk goes
/// on with the rest. `None` where a vault is missing, the price is zero, the
/// arithmetic overflows, or a vault has less margin than its debt buys.
pub open spec fn redeemed(vaults: Seq<(u64, Vault)>, order: Seq<u64>, price: Parts, index: int, amount: u64) -> Option<
    Seq<(u64, Vault)>,
>
    decreases order.len() - index,
{
    if amount == 0 || index < 0 || index >= order.len() {
        Some(vaults)
    } else if !has_key(vaults, order[index]) {
        None
    } else {
        let vault = value_of(vaults, order[index]);
        if vault.borrowed_tal_amount.0 >= amount {
            match token_over(amount as int, price) {
                None => None,
                Some(ckbtc) => deducted(vaults, order[index], ckbtc, amount),
            }
        } else {
            match token_over(vault.borrowed_tal_amount.0 as int, price) {
                None => None,
                Some(ckbtc) => match deducted(
                    vaults,
                    order[index],
                    ckbtc,
                    vault.borrowed_tal_amount.0,
                ) {
                    None => None,
                    Some(rest) => redeemed(
                        rest,
                        order,
                        price,
                        index + 1,
                        (amount - vault.borrowed_tal_amount.0) as u64,
                    ),
                },
            }
        }
    }
}

/// Whether two listings hold the same vaults but for their amounts, of
/// which the second has no more than the first.
pub open spec fn reduced(before: Seq<(u64, Vault)>, after: Seq<(u64, Vault)>) -> bool {
    &&& increasing(after)
    &&& as_map(after).dom() == as_map(before).dom()
    &&& forall|id: u64| #[trigger]
        as_map(before).contains_key(id) ==> as_map(after)[id].owner == as_map(before)[id].owner
            && as_map(after)[id].vault_id == as_map(before)[id].vault_id
    &&& 0 <= total_debt(after) <= total_debt(before)
    &&& 0 <= total_margin(after) <= total_margin(before)
}

/// Taking amounts from a vault leaves the same vaults, with no more debt
/// and margin.
pub proof fn lemma_deducted(vaults: Seq<(u64, Vault)>, id: u64, ckbtc: u64, tal: u64)
    requires
        increasing(vaults),
        deducted(vaults, id, ckbtc, tal) is Some,
    ensures
        reduced(vaults, deducted(vaults, id, ckbtc, tal)->0),
        total_debt(deducted(vaults, id, ckbtc, tal)->0) == total_debt(vaults) - tal,
        total_margin(deducted(vaults, id, ckbtc, tal)->0) == total_margin(vaults) - ckbtc,
{
    let vault = value_of(vaults, id);
    let changed = Vault {
        borrowed_tal_amount: Token((vault.borrowed_tal_amount.0 - tal) as u64, PhantomData),
        ckbtc_margin_amount: Token((vault.ckbtc_margin_amount.0 - ckbtc) as u64, PhantomData),
        ..vault
    };
    lemma_with_entry(vaults, id, changed);
    lemma_sum_by_with_entry(vaults, id, changed, debt());
    lemma_sum_by_with_entry(vaults, id, changed, margin());
    let after = deducted(vaults, id, ckbtc, tal)->0;
    lemma_vault_sums_not_negative(after);
    assert(as_map(after).dom() =~= as_map(vaults).dom());
}

/// Takes `tal` of debt and `ckbtc` of margin from the vault `vault_id`, if
/// there is such a vault and it has as much.
pub fn deduct_amount_from_vault(
    vaults: &mut IdMap<Vault>,
    ckbtc_amount_to_deduct: CKBTC,
    tal_amount_to_deduct: TAL,
    vault_id: u64,
) -> (done: bool)
    requires
        old(vaults).wf(),
    ensures
        done == deducted(
            old(vaults).listing(),
            vault_id,
            ckbtc_amount_to_deduct.0,
            tal_amount_to_deduct.0,
        ) is Some,
        done ==> Some(final(vaults).listing()) == deducted(
            old(vaults).listing(),
            vault_id,
            ckbtc_amount_to_deduct.0,
            tal_amount_to_deduct.0,
        ),
        !done ==> *final(vaults) == *old(vaults),
{
    let vault = match vaults.get(&vault_id) {
        Some(vault) => *vault,
        None => {
            return false;
        },
    };
    if vault.borrowed_tal_amount.0 < tal_amount_to_deduct.0 || vault.ckbtc_margin_amount.0
        < ckbtc_amount_to_deduct.0 {
        return false;
    }
    vaults.insert(
        vault_id,
        Vault {
            owner: vault.owner,
            borrowed_tal_amount: TAL::new(vault.borrowed_tal_amount.0 - tal_amount_to_deduct.0),
            ckbtc_margin_amount: CKBTC::new(vault.ckbtc_margin_amount.0 - ckbtc_amount_to_deduct.0),
            vault_id: vault.vault_id,
        },
    );
    true
}

/// Ranks the vaults by collateral ratio and id.
pub fn rank_vaults(vaults: &IdMap<Vault>, current_btc_rate: UsdBtc) -> (ranking: Option<
    Vec<(Ratio, u64)>,
>)
    ensures
        match ranking {
            Some(ranked) => Some(ranks_view(ranked@)),
            None => None,
        } == crate::redemption::ranking(
            vaults.listing(),
            current_btc_rate@,
            vaults.listing().len() as int,
        ),
{
    let ghost listing = vaults.listing();
    let ghost price = current_btc_rate@;
    let mut ranked: Vec<(Ratio, u64)> = Vec::new();
    let mut i: usize = 0;
    assert(ranks_view(ranked@) =~= Seq::<(Parts, u64)>::empty());
    let walk = vaults.entries();
    while i < walk.len()
        invariant
            walk@ == listing,
            listing == vaults.listing(),
            price == current_btc_rate@,
            0 <= i <= listing.len(),
            crate::redemption::ranking(listing, price, i as int) == Some(ranks_view(ranked@)),
        decreases listing.len() - i,
    {
        let vault = walk[i].1;
        let ratio = match compute_collateral_ratio(&vault, current_btc_rate) {
            Some(ratio) => ratio,
            None => {
                proof {
                    lemma_ranking_stays_undefined(listing, price, i + 1, listing.len() as int);
                }
                return None;
            },
        };
        let ghost before = ranks_view(ranked@);
        let ghost x = (ratio@, vault.vault_id);
        let mut k: usize = ranked.len();
        assert(before.take(k as int) =~= before);
        while k > 0 && !(ranked[k - 1].0.lt(&ratio) || (!ratio.lt(&ranked[k - 1].0) && ranked[k - 1].1
            < vault.vault_id))
            invariant
                before == ranks_view(ranked@),
                x == (ratio@, vault.vault_id),
                0 <= k <= ranked@.len(),
                place(before, x) == place(before.take(k as int), x),
            decreases k,
        {
            assert(before.take(k as int).last() == before[k - 1]);
            assert(before.take(k as int).drop_last() =~= before.take(k - 1));
            k = k - 1;
        }
        proof {
            if k > 0 {
                assert(before.take(k as int).last() == before[k - 1]);
            }
            assert(place(before, x) == k);
        }
        ranked.insert(k, (ratio, vault.vault_id));
        assert(ranks_view(ranked@) =~= before.insert(k as int, x));
        i = i + 1;
    }
    Some(ranked)
}

impl State {
    /// The hours that have passed at `current_time` since the last redemption.
    pub open spec fn hours_since_redemption(&self, current_time: u64) -> nat {
        ((current_time - self.last_redemption_time) / (HOUR_NANOS as int)) as nat
    }

    /// The fee for redeeming `redeemed_amount` at `current_time`.
    pub fn get_redemption_fee(&self, redeemed_amount: TAL, current_time: u64) -> (fee: Option<Ratio>)
        requires
            self.wf(),
            self.last_redemption_time <= current_time,
        ensures
            amount_value(fee) == redemption_fee(
                self.hours_since_redemption(current_time),
                redeemed_amount.0 as int,
                self.debt_sum(),
                self.current_base_rate@,
            ),
    {
        let last_redemption_time = self.last_redemption_time;
        let elapsed_hours = (current_time - last_redemption_time) / 1_000_000_000 / 3600;
        assert(elapsed_hours == (current_time - last_redemption_time) / (HOUR_NANOS as int)) by {
            let d = (current_time - last_redemption_time) as int;
            assert(d / 1_000_000_000 / 3600 == d / 3_600_000_000_000) by (nonlinear_arith)
                requires
                    d >= 0,
            ;
        }
        compute_redemption_fee(
            elapsed_hours,
            redeemed_amount,
            self.total_borrowed_tal_amount(),
            self.current_base_rate,
        )
    }

    /// The vaults after `amount` of debt was redeemed from them at `price`,
    /// the vaults with the lowest collateral ratios first.
    pub open spec fn redemption(&self, amount: u64, price: Parts) -> Option<Seq<(u64, Vault)>> {
        let listing = self.vault_id_to_vaults.listing();
        match ranking(listing, price, listing.len() as int) {
            None => None,
            Some(ranked) => redeemed(listing, ids_of_ranking(ranked), price, 0, amount),
        }
    }

    /// Redeems `tal_amount` of debt from the vaults, where the redemption is
    /// defined: the vaults lose the debt and the collateral that it buys.
    pub fn redeem_on_vaults(&mut self, tal_amount: TAL, current_btc_rate: UsdBtc) -> (done: bool)
        requires
            old(self).wf(),
        ensures
            final(self).wf(),
            done == old(self).redemption(tal_amount.0, current_btc_rate@) is Some,
            !done ==> *final(self) == *old(self),
            done ==> *final(self) == (State {
                vault_id_to_vaults: final(self).vault_id_to_vaults,
                ..*old(self)
            }),
            done ==> Some(final(self).vault_id_to_vaults.listing()) == old(self).redemption(
                tal_amount.0,
                current_btc_rate@,
            ),
            done ==> reduced(
                old(self).vault_id_to_vaults.listing(),
                final(self).vault_id_to_vaults.listing(),
            ),
    {
        let ghost listing = self.vault_id_to_vaults.listing();
        let ghost price = current_btc_rate@;
        let ranked = match rank_vaults(&self.vault_id_to_vaults, current_btc_rate) {
            Some(ranked) => ranked,
            None => {
                return false;
            },
        };
        let ghost order = ids_of_ranking(ranks_view(ranked@));
        let mut vaults = self.vault_id_to_vaults.copy();
        let mut tal_amount_to_convert = tal_amount.0;
        let mut index: usize = 0;
        proof {
            lemma_vault_sums_not_negative(listing);
        }
        while tal_amount_to_convert > 0 && index < ranked.len()
            invariant
                *self == *old(self),
                self.wf(),
                listing == self.vault_id_to_vaults.listing(),
                ranking(listing, price, listing.len() as int) == Some(ranks_view(ranked@)),
                order == ids_of_ranking(ranks_view(ranked@)),
                price == current_btc_rate@,
                increasing(listing),
                0 <= index <= ranked@.len(),
                vaults.wf(),
                reduced(listing, vaults.listing()),
                redeemed(listing, order, price, 0, tal_amount.0) == redeemed(
                    vaults.listing(),
                    order,
                    price,
                    index as int,
                    tal_amount_to_convert,
                ),
            decreases ranked@.len() - index, tal_amount_to_convert,
        {
            let vault_id = ranked[index].1;
            assert(order[index as int] == vault_id);
            let ghost before = vaults.listing();
            let vault = match vaults.get(&vault_id) {
                Some(vault) => *vault,
                None => {
                    return false;
                },
            };
            if current_btc_rate.0.is_zero() {
                return false;
            }
            if vault.borrowed_tal_amount.0 >= tal_amount_to_convert {
                let redeemable_ckbtc_amount = match TAL::new(tal_amount_to_convert).checked_div_rate(
                    current_btc_rate,
                ) {
                    Some(amount) => amount,
                    None => {
                        return false;
                    },
                };
                if !deduct_amount_from_vault(
                    &mut vaults,
                    redeemable_ckbtc_amount,
                    TAL::new(tal_amount_to_convert),
                    vault_id,
                ) {
                    return false;
                }
                proof {
                    lemma_deducted(
                        before,
                        vault_id,
                        redeemable_ckbtc_amount.0,
                        tal_amount_to_convert,
                    );
                }
                tal_amount_to_convert = 0;
            } else {
                let redeemable_tal_amount = vault.borrowed_tal_amount;
                let redeemable_ckbtc_amount = match redeemable_tal_amount.checked_div_rate(
                    current_btc_rate,
                ) {
                    Some(amount) => amount,
                    None => {
                        return false;
                    },
                };
                if !deduct_amount_from_vault(
                    &mut vaults,
                    redeemable_ckbtc_amount,
                    redeemable_tal_amount,
                    vault_id,
                ) {
                    return false;
                }
                proof {
                    lemma_deducted(
                        before,
                        vault_id,
                        redeemable_ckbtc_amount.0,
                        redeemable_tal_amount.0,
                    );
                }
                tal_amount_to_convert = tal_amount_to_convert - redeemable_tal_amount.0;
                index = index + 1;
            }
        }
        self.vault_id_to_vaults = vaults;
        true
    }
}

} // verus!
