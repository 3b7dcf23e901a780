//! Redistribution of a vault: where the pool cannot take its debt over, the
//! other vaults do, each in proportion to its margin, and share its
//! collateral in the same proportion.

use crate::id_map::IdMap;
use crate::numeric::{proportion, token_times, Token, CKBTC, TAL};
use crate::ordered_map::{
    has_key, increasing, lemma_entry_found, lemma_slot_splits, slot, value_of, with_entry,
    without_key, OrdMap, OrderedKey,
};
use crate::state::{debt, margin, total_margin, State};
use crate::sums::{
    lemma_sum_by_all, lemma_sum_by_bounds, lemma_sum_by_prefix, lemma_sum_by_push,
    lemma_sum_by_same_terms, lemma_sum_by_take, lemma_sum_by_update, nowhere_negative, sum_by,
};
use crate::vault::Vault;
use std::marker::PhantomData;
use vstd::prelude::*;

verus! {

/// What one vault takes over of a redistributed vault.
#[derive(Clone, Copy, Debug)]
pub struct DistributeToVaultEntry {
    pub vault_id: u64,
    pub ckbtc_share_amount: CKBTC,
    pub tal_share_amount: TAL,
}

/// The debt that an entry takes over.
pub open spec fn tal_share() -> spec_fn(DistributeToVaultEntry) -> int {
    |e: DistributeToVaultEntry| e.tal_share_amount.0 as int
}

/// The collateral that an entry receives.
pub open spec fn ckbtc_share() -> spec_fn(DistributeToVaultEntry) -> int {
    |e: DistributeToVaultEntry| e.ckbtc_share_amount.0 as int
}

/// The margin of a listed vault, counted as nothing for the vault `target_id`.
pub open spec fn margin_but(target_id: u64) -> spec_fn((u64, Vault)) -> int {
    |e: (u64, Vault)|
        if e.0 == target_id {
            0
        } else {
            e.1.ckbtc_margin_amount.0 as int
        }
}

/// The sum of the margins of the listed vaults but `target_id`.
pub open spec fn margin_of_others(vaults: Seq<(u64, Vault)>, target_id: u64) -> int {
    sum_by(vaults, margin_but(target_id))
}

/// The distance between two numbers.
pub open spec fn gap(a: int, b: int) -> int {
    if a >= b {
        a - b
    } else {
        b - a
    }
}

/// The part of the debt and the margin of `target` that falls to a vault by
/// the share of its margin in `total`, rounded down. `None` where the
/// arithmetic overflows.
pub open spec fn vault_entry(total: int, target: Vault, other: (u64, Vault)) -> Option<
    DistributeToVaultEntry,
> {
    match proportion(other.1.ckbtc_margin_amount.0 as int, total) {
        None => None,
        Some(share) => match token_times(target.ckbtc_margin_amount.0 as int, share) {
            None => None,
            Some(part_of_margin) => match token_times(target.borrowed_tal_amount.0 as int, share) {
                None => None,
                Some(part_of_debt) => Some(
                    DistributeToVaultEntry {
                        vault_id: other.0,
                        ckbtc_share_amount: Token(part_of_margin, PhantomData),
                        tal_share_amount: Token(part_of_debt, PhantomData),
                    },
                ),
            },
        },
    }
}

/// The parts of the first `n` listed vaults, `target` left out.
pub open spec fn vault_entries(vaults: Seq<(u64, Vault)>, target: Vault, n: int) -> Option<
    Seq<DistributeToVaultEntry>,
>
    decreases n,
{
    if n <= 0 {
        Some(Seq::empty())
    } else {
        match vault_entries(vaults, target, n - 1) {
            None => None,
            Some(entries) => if vaults[n - 1].0 == target.vault_id {
                Some(entries)
            } else {
                match vault_entry(margin_of_others(vaults, target.vault_id), target, vaults[n - 1]) {
                    None => None,
                    Some(entry) => Some(entries.push(entry)),
                }
            },
        }
    }
}

/// The first entry with the distance between what was shared out and what
/// was to be shared out added to it.
pub open spec fn with_gaps(parts: Seq<DistributeToVaultEntry>, target: Vault) -> Seq<
    DistributeToVaultEntry,
> {
    parts.update(
        0,
        DistributeToVaultEntry {
            vault_id: parts[0].vault_id,
            ckbtc_share_amount: Token(
                (parts[0].ckbtc_share_amount.0 + gap(
                    target.ckbtc_margin_amount.0 as int,
                    sum_by(parts, ckbtc_share()),
                )) as u64,
                PhantomData,
            ),
            tal_share_amount: Token(
                (parts[0].tal_share_amount.0 + gap(
                    target.borrowed_tal_amount.0 as int,
                    sum_by(parts, tal_share()),
                )) as u64,
                PhantomData,
            ),
        },
    )
}

/// How the debt and the margin of `target` are shared out among the other
/// vaults: each gets its part, and the first also the distance between the
/// sum of the parts and what was to be shared out. `None` where there is no
/// vault, where the others have no margin, where a part is undefined, or
/// where a sum does not fit.
pub open spec fn distribution_across_vaults(vaults: Seq<(u64, Vault)>, target: Vault) -> Option<
    Seq<DistributeToVaultEntry>,
> {
    if vaults.len() == 0 || margin_of_others(vaults, target.vault_id) == 0 {
        None
    } else {
        match vault_entries(vaults, target, vaults.len() as int) {
            None => None,
            Some(parts) => if parts.len() == 0 || sum_by(parts, ckbtc_share()) > u64::MAX || sum_by(
                parts,
                tal_share(),
            ) > u64::MAX || parts[0].ckbtc_share_amount.0 + gap(
                target.ckbtc_margin_amount.0 as int,
                sum_by(parts, ckbtc_share()),
            ) > u64::MAX || parts[0].tal_share_amount.0 + gap(
                target.borrowed_tal_amount.0 as int,
                sum_by(parts, tal_share()),
            ) > u64::MAX {
                None
            } else {
                Some(with_gaps(parts, target))
            },
        }
    }
}

/// Once the parts of some vaults are undefined, those of more are.
pub proof fn lemma_vault_entries_stay_undefined(vaults: Seq<(u64, Vault)>, target: Vault, low: int, high: int)
    requires
        low <= high,
        vault_entries(vaults, target, low) is None,
    ensures
        vault_entries(vaults, target, high) is None,
    decreases high - low,
{
    if low < high {
        lemma_vault_entries_stay_undefined(vaults, target, low, high - 1);
    }
}

/// Every part is that of a listed vault other than the target.
pub proof fn lemma_vault_entries(vaults: Seq<(u64, Vault)>, target: Vault, n: int)
    requires
        0 <= n <= vaults.len(),
        vault_entries(vaults, target, n) is Some,
    ensures
        vault_entries(vaults, target, n)->0.len() <= n,
        forall|i: int|
            0 <= i < vault_entries(vaults, target, n)->0.len() ==> (#[trigger] vault_entries(
                vaults,
                target,
                n,
            )->0[i]).vault_id != target.vault_id && exists|j: int|
                0 <= j < n && (#[trigger] vaults[j]).0 == vault_entries(vaults, target, n)->0[i].vault_id,
    decreases n,
{
    if n > 0 {
        lemma_vault_entries(vaults, target, n - 1);
        let before = vault_entries(vaults, target, n - 1)->0;
        let now = vault_entries(vaults, target, n)->0;
        assert forall|i: int| 0 <= i < now.len() implies (#[trigger] now[i]).vault_id != target.vault_id
            && exists|j: int| 0 <= j < n && (#[trigger] vaults[j]).0 == now[i].vault_id by {
            if i < before.len() {
                assert(now[i] == before[i]);
                let j = choose|j: int| 0 <= j < n - 1 && (#[trigger] vaults[j]).0 == before[i].vault_id;
                assert(vaults[j].0 == now[i].vault_id);
            } else {
                assert(vaults[n - 1].0 == now[i].vault_id);
            }
        }
    }
}

/// A distribution across the vaults whose parts, as rounded, do not exceed
/// what is shared out shares out all of the debt and all of the margin of
/// the target.
pub proof fn lemma_distribution_across_vaults(vaults: Seq<(u64, Vault)>, target: Vault)
    requires
        distribution_across_vaults(vaults, target) is Some,
        sum_by(vault_entries(vaults, target, vaults.len() as int)->0, tal_share())
            <= target.borrowed_tal_amount.0,
        sum_by(vault_entries(vaults, target, vaults.len() as int)->0, ckbtc_share())
            <= target.ckbtc_margin_amount.0,
    ensures
        sum_by(distribution_across_vaults(vaults, target)->0, tal_share())
            == target.borrowed_tal_amount.0,
        sum_by(distribution_across_vaults(vaults, target)->0, ckbtc_share())
            == target.ckbtc_margin_amount.0,
{
    let parts = vault_entries(vaults, target, vaults.len() as int)->0;
    let entries = with_gaps(parts, target);
    lemma_sum_by_update(parts, 0, entries[0], tal_share());
    lemma_sum_by_update(parts, 0, entries[0], ckbtc_share());
}

/// The sum of a distribution across the vaults, whatever its parts: what
/// the parts sum to and the distance from there to what was to be shared out.
pub proof fn lemma_distribution_across_vaults_sums(vaults: Seq<(u64, Vault)>, target: Vault)
    requires
        distribution_across_vaults(vaults, target) is Some,
    ensures
        ({
            let parts = vault_entries(vaults, target, vaults.len() as int)->0;
            let entries = distribution_across_vaults(vaults, target)->0;
            &&& entries.len() == parts.len()
            &&& forall|i: int| 0 <= i < entries.len() ==> (#[trigger] entries[i]).vault_id == parts[i].vault_id
            &&& sum_by(entries, tal_share()) == sum_by(parts, tal_share()) + gap(
                target.borrowed_tal_amount.0 as int,
                sum_by(parts, tal_share()),
            )
            &&& sum_by(entries, ckbtc_share()) == sum_by(parts, ckbtc_share()) + gap(
                target.ckbtc_margin_amount.0 as int,
                sum_by(parts, ckbtc_share()),
            )
        }),
{
    let parts = vault_entries(vaults, target, vaults.len() as int)->0;
    let entries = with_gaps(parts, target);
    lemma_sum_by_update(parts, 0, entries[0], tal_share());
    lemma_sum_by_update(parts, 0, entries[0], ckbtc_share());
}

/// The margins of the vaults but one sum to the margins of all, less that
/// of the one where it is listed.
pub proof fn lemma_margin_of_others(vaults: Seq<(u64, Vault)>, target_id: u64)
    requires
        increasing(vaults),
    ensures
        margin_of_others(vaults, target_id) == total_margin(vaults) - if has_key(vaults, target_id) {
            value_of(vaults, target_id).ckbtc_margin_amount.0 as int
        } else {
            0
        },
        0 <= margin_of_others(vaults, target_id) <= total_margin(vaults),
{
    lemma_slot_splits(vaults, target_id.rank());
    assert(nowhere_negative(vaults, margin_but(target_id)));
    lemma_sum_by_bounds(vaults, margin_but(target_id));
    if has_key(vaults, target_id) {
        let k = slot(vaults, target_id.rank());
        let emptied = (
            target_id,
            Vault { ckbtc_margin_amount: Token(0, PhantomData), ..vaults[k].1 },
        );
        let changed = vaults.update(k, emptied);
        lemma_sum_by_update(vaults, k, emptied, margin());
        assert forall|i: int| 0 <= i < vaults.len() implies margin_but(target_id)(#[trigger] vaults[i])
            == margin()(changed[i]) by {
            if i != k {
                lemma_entry_found(vaults, i);
            }
        }
        lemma_sum_by_same_terms(vaults, margin_but(target_id), changed, margin());
    } else {
        assert forall|i: int| 0 <= i < vaults.len() implies margin_but(target_id)(#[trigger] vaults[i])
            == margin()(vaults[i]) by {
            if vaults[i].0 == target_id {
                lemma_entry_found(vaults, i);
            }
        }
        lemma_sum_by_same_terms(vaults, margin_but(target_id), vaults, margin());
    }
}

/// The model of an optional list of entries.
pub open spec fn vault_entries_view(entries: Option<Vec<DistributeToVaultEntry>>) -> Option<
    Seq<DistributeToVaultEntry>,
> {
    match entries {
        Some(entries) => Some(entries@),
        None => None,
    }
}

/// The sum of the margins of the vaults but `target_id`.
fn sum_of_other_margins(vaults: &IdMap<Vault>, target_id: u64) -> (total: u64)
    requires
        vaults.wf(),
        total_margin(vaults.listing()) <= u64::MAX,
    ensures
        total == margin_of_others(vaults.listing(), target_id),
{
    let ghost listing = vaults.listing();
    let ghost f = margin_but(target_id);
    let mut total: u64 = 0;
    let mut i: usize = 0;
    proof {
        lemma_margin_of_others(listing, target_id);
        assert(nowhere_negative(listing, f));
    }
    let walk = vaults.entries();
    while i < walk.len()
        invariant
            walk@ == listing,
            listing == vaults.listing(),
            f == margin_but(target_id),
            0 <= i <= listing.len(),
            total == sum_by(listing.take(i as int), f),
            sum_by(listing, f) <= u64::MAX,
            nowhere_negative(listing, f),
        decreases listing.len() - i,
    {
        let entry = walk[i];
        proof {
            lemma_sum_by_take(listing, i as int, f);
            lemma_sum_by_prefix(listing, i + 1, f);
        }
        if entry.0 != target_id {
            total = total + entry.1.ckbtc_margin_amount.0;
        }
        i = i + 1;
    }
    proof {
        lemma_sum_by_all(listing, f);
    }
    total
}

/// Shares the debt and the margin of a vault out among the other vaults.
pub fn distribute_accross_vaults(vaults: &IdMap<Vault>, target_vault: Vault) -> (entries: Option<
    Vec<DistributeToVaultEntry>,
>)
    requires
        vaults.wf(),
        total_margin(vaults.listing()) <= u64::MAX,
    ensures
        vault_entries_view(entries) == distribution_across_vaults(vaults.listing(), target_vault),
{
    let ghost listing = vaults.listing();
    let count = vaults.len();
    if count == 0 {
        return None;
    }
    let target_vault_id = target_vault.vault_id;
    let total_ckbtc_margin_amount = sum_of_other_margins(vaults, target_vault_id);
    if total_ckbtc_margin_amount == 0 {
        return None;
    }
    let mut result: Vec<DistributeToVaultEntry> = Vec::new();
    let mut distributed_ckbtc: u128 = 0;
    let mut distributed_tal: u128 = 0;
    let mut i: usize = 0;
    let walk = vaults.entries();
    while i < count
        invariant
            walk@ == listing,
            listing == vaults.listing(),
            count == listing.len(),
            target_vault_id == target_vault.vault_id,
            total_ckbtc_margin_amount == margin_of_others(listing, target_vault_id),
            0 <= i <= count,
            vault_entries(listing, target_vault, i as int) == Some(result@),
            result@.len() <= i,
            distributed_ckbtc == sum_by(result@, ckbtc_share()),
            distributed_tal == sum_by(result@, tal_share()),
            distributed_ckbtc <= i * u64::MAX,
            distributed_tal <= i * u64::MAX,
        decreases count - i,
    {
        let other = walk[i];
        if other.0 != target_vault_id {
            let share = if total_ckbtc_margin_amount == 0 {
                None
            } else {
                other.1.ckbtc_margin_amount.checked_div(CKBTC::new(total_ckbtc_margin_amount))
            };
            let entry = match share {
                None => None,
                Some(share) => match target_vault.ckbtc_margin_amount.checked_mul_ratio(share) {
                    None => None,
                    Some(ckbtc_share_amount) => match target_vault.borrowed_tal_amount.checked_mul_ratio(
                        share,
                    ) {
                        None => None,
                        Some(tal_share_amount) => Some(
                            DistributeToVaultEntry {
                                vault_id: other.0,
                                ckbtc_share_amount,
                                tal_share_amount,
                            },
                        ),
                    },
                },
            };
            assert(entry == vault_entry(
                margin_of_others(listing, target_vault_id),
                target_vault,
                listing[i as int],
            ));
            match entry {
                None => {
                    proof {
                        lemma_vault_entries_stay_undefined(listing, target_vault, i + 1, count as int);
                    }
                    return None;
                },
                Some(entry) => {
                    proof {
                        lemma_sum_by_push(result@, entry, ckbtc_share());
                        lemma_sum_by_push(result@, entry, tal_share());
                    }
                    result.push(entry);
                    distributed_ckbtc = distributed_ckbtc + entry.ckbtc_share_amount.0 as u128;
                    distributed_tal = distributed_tal + entry.tal_share_amount.0 as u128;
                },
            }
        }
        i = i + 1;
    }
    if result.len() == 0 || distributed_ckbtc > u64::MAX as u128 || distributed_tal > u64::MAX as u128 {
        return None;
    }
    let first = result[0];
    let target_tal = target_vault.borrowed_tal_amount.0 as u128;
    let target_ckbtc = target_vault.ckbtc_margin_amount.0 as u128;
    let tal_gap = if target_tal >= distributed_tal {
        target_tal - distributed_tal
    } else {
        distributed_tal - target_tal
    };
    let ckbtc_gap = if target_ckbtc >= distributed_ckbtc {
        target_ckbtc - distributed_ckbtc
    } else {
        distributed_ckbtc - target_ckbtc
    };
    let tal_share_amount = first.tal_share_amount.0 as u128 + tal_gap;
    let ckbtc_share_amount = first.ckbtc_share_amount.0 as u128 + ckbtc_gap;
    if tal_share_amount > u64::MAX as u128 || ckbtc_share_amount > u64::MAX as u128 {
        return None;
    }
    let ghost parts = result@;
    result[0] = DistributeToVaultEntry {
        vault_id: first.vault_id,
        ckbtc_share_amount: CKBTC::new(ckbtc_share_amount as u64),
        tal_share_amount: TAL::new(tal_share_amount as u64),
    };
    assert(result@ =~= with_gaps(parts, target_vault));
    Some(result)
}

/// The vaults after one of them took its share.
pub open spec fn with_share(vaults: Seq<(u64, Vault)>, entry: DistributeToVaultEntry) -> Seq<(u64, Vault)> {
    let vault = value_of(vaults, entry.vault_id);
    with_entry(
        vaults,
        entry.vault_id,
        Vault {
            borrowed_tal_amount: Token(
                (vault.borrowed_tal_amount.0 + entry.tal_share_amount.0) as u64,
                PhantomData,
            ),
            ckbtc_margin_amount: Token(
                (vault.ckbtc_margin_amount.0 + entry.ckbtc_share_amount.0) as u64,
                PhantomData,
            ),
            ..vault
        },
    )
}

/// The vaults after the first `n` entries took their shares.
pub open spec fn vaults_after(vaults: Seq<(u64, Vault)>, entries: Seq<DistributeToVaultEntry>, n: int) -> Seq<
    (u64, Vault),
>
    decreases n,
{
    if n <= 0 {
        vaults
    } else {
        with_share(vaults_after(vaults, entries, n - 1), entries[n - 1])
    }
}

/// The sums of the shares of a list of entries.
fn sums_of_shares(entries: &Vec<DistributeToVaultEntry>) -> (sums: (u128, u128))
    ensures
        sums.0 == sum_by(entries@, tal_share()),
        sums.1 == sum_by(entries@, ckbtc_share()),
{
    let mut tal: u128 = 0;
    let mut ckbtc: u128 = 0;
    let mut i: usize = 0;
    while i < entries.len()
        invariant
            0 <= i <= entries@.len(),
            tal == sum_by(entries@.take(i as int), tal_share()),
            ckbtc == sum_by(entries@.take(i as int), ckbtc_share()),
            tal <= i * u64::MAX,
            ckbtc <= i * u64::MAX,
        decreases entries@.len() - i,
    {
        proof {
            lemma_sum_by_take(entries@, i as int, tal_share());
            lemma_sum_by_take(entries@, i as int, ckbtc_share());
        }
        tal = tal + entries[i].tal_share_amount.0 as u128;
        ckbtc = ckbtc + entries[i].ckbtc_share_amount.0 as u128;
        i = i + 1;
    }
    proof {
        lemma_sum_by_all(entries@, tal_share());
        lemma_sum_by_all(entries@, ckbtc_share());
    }
    (tal, ckbtc)
}

impl State {
    /// The redistribution of the vault `vault_id`: what falls to each of the
    /// other vaults. `None` where there is no such vault, where its
    /// distribution is undefined, or where the sums of the state would not fit.
    pub open spec fn redistribution(&self, vault_id: u64) -> Option<Seq<DistributeToVaultEntry>> {
        if self.vaults().contains_key(vault_id) {
            let vault = self.vaults()[vault_id];
            match distribution_across_vaults(self.vault_id_to_vaults.listing(), vault) {
                None => None,
                Some(entries) => if self.debt_sum() - vault.borrowed_tal_amount.0 + sum_by(
                    entries,
                    tal_share(),
                ) > u64::MAX || self.margin_sum() - vault.ckbtc_margin_amount.0 + sum_by(
                    entries,
                    ckbtc_share(),
                ) + self.returns_sum() > u64::MAX {
                    None
                } else {
                    Some(entries)
                },
            }
        } else {
            None
        }
    }

    /// Computes the redistribution of a vault, and changes nothing.
    pub fn plan_redistribution(&self, vault_id: u64) -> (plan: Option<Vec<DistributeToVaultEntry>>)
        requires
            self.wf(),
        ensures
            vault_entries_view(plan) == self.redistribution(vault_id),
    {
        let vault = match self.vault_id_to_vaults.get(&vault_id) {
            Some(vault) => *vault,
            None => {
                return None;
            },
        };
        let entries = distribute_accross_vaults(&self.vault_id_to_vaults, vault)?;
        let sums = sums_of_shares(&entries);
        let debt_sum = self.total_borrowed_tal_amount().0 as u128;
        let margin_sum = self.total_ckbtc_margin_amount().0 as u128;
        let returns_sum = self.total_available_returns().0 as u128;
        proof {
            self.lemma_vault_within_sums(vault_id);
        }
        if sums.0 > u64::MAX as u128 || sums.1 > u64::MAX as u128 {
            return None;
        }
        if debt_sum - vault.borrowed_tal_amount.0 as u128 + sums.0 > u64::MAX as u128 || margin_sum
            - vault.ckbtc_margin_amount.0 as u128 + sums.1 + returns_sum > u64::MAX as u128 {
            return None;
        }
        Some(entries)
    }

    /// Redistributes a vault to the other vaults, where its redistribution
    /// is defined: each of them takes its share of the debt and of the
    /// margin, and the vault goes.
    pub fn redistribute_vault(&mut self, vault_id: u64) -> (redistributed: bool)
        requires
            old(self).wf(),
        ensures
            final(self).wf(),
            redistributed == old(self).redistribution(vault_id) is Some,
            !redistributed ==> *final(self) == *old(self),
            redistributed ==> ({
                let entries = old(self).redistribution(vault_id)->0;
                let vault = old(self).vaults()[vault_id];
                &&& final(self).same_but_vaults(old(self))
                &&& final(self).vault_id_to_vaults.listing() == vaults_after(
                    without_key(old(self).vault_id_to_vaults.listing(), vault_id),
                    entries,
                    entries.len() as int,
                )
                &&& final(self).owner_index() == old(self).owner_index().insert(
                    vault.owner,
                    old(self).ids_of(vault.owner).remove(vault_id),
                )
                &&& final(self).debt_sum() == old(self).debt_sum() - vault.borrowed_tal_amount.0
                    + sum_by(entries, tal_share())
                &&& final(self).margin_sum() == old(self).margin_sum() - vault.ckbtc_margin_amount.0
                    + sum_by(entries, ckbtc_share())
            }),
    {
        let plan = match self.plan_redistribution(vault_id) {
            Some(plan) => plan,
            None => {
                return false;
            },
        };
        let ghost entries = plan@;
        let ghost listing = self.vault_id_to_vaults.listing();
        let ghost target = self.vaults()[vault_id];
        proof {
            lemma_distribution_across_vaults_sums(listing, target);
            lemma_vault_entries(listing, target, listing.len() as int);
            let parts = vault_entries(listing, target, listing.len() as int)->0;
            assert forall|j: int| 0 <= j < entries.len() implies (#[trigger] entries[j]).vault_id
                != vault_id && self.vaults().contains_key(entries[j].vault_id) by {
                assert(parts[j].vault_id == entries[j].vault_id);
                let k = choose|k: int|
                    0 <= k < listing.len() && (#[trigger] listing[k]).0 == parts[j].vault_id;
                lemma_entry_found(listing, k);
            }
            assert(nowhere_negative(entries, tal_share()));
            assert(nowhere_negative(entries, ckbtc_share()));
        }
        self.drop_vault(vault_id);
        let ghost dropped = *self;
        let mut i: usize = 0;
        while i < plan.len()
            invariant
                entries == plan@,
                0 <= i <= entries.len(),
                self.wf(),
                self.same_but_vaults(&dropped),
                self.principal_to_vault_ids == dropped.principal_to_vault_ids,
                self.vaults().dom() == dropped.vaults().dom(),
                forall|j: int|
                    0 <= j < entries.len() ==> dropped.vaults().contains_key(
                        (#[trigger] entries[j]).vault_id,
                    ),
                self.vault_id_to_vaults.listing() == vaults_after(
                    dropped.vault_id_to_vaults.listing(),
                    entries,
                    i as int,
                ),
                self.debt_sum() == dropped.debt_sum() + sum_by(entries.take(i as int), tal_share()),
                self.margin_sum() == dropped.margin_sum() + sum_by(
                    entries.take(i as int),
                    ckbtc_share(),
                ),
                dropped.debt_sum() + sum_by(entries, tal_share()) <= u64::MAX,
                dropped.margin_sum() + sum_by(entries, ckbtc_share()) + dropped.returns_sum()
                    <= u64::MAX,
                nowhere_negative(entries, tal_share()),
                nowhere_negative(entries, ckbtc_share()),
            decreases entries.len() - i,
        {
            let entry = plan[i];
            proof {
                lemma_sum_by_take(entries, i as int, tal_share());
                lemma_sum_by_take(entries, i as int, ckbtc_share());
                lemma_sum_by_prefix(entries, i + 1, tal_share());
                lemma_sum_by_prefix(entries, i + 1, ckbtc_share());
                assert(self.vaults().contains_key(entry.vault_id));
                self.lemma_vault_within_sums(entry.vault_id);
            }
            let vault = *self.vault_id_to_vaults.get(&entry.vault_id).unwrap();
            self.set_amounts(
                entry.vault_id,
                TAL::new(vault.borrowed_tal_amount.0 + entry.tal_share_amount.0),
                CKBTC::new(vault.ckbtc_margin_amount.0 + entry.ckbtc_share_amount.0),
            );
            assert(self.vaults().dom() =~= dropped.vaults().dom());
            i = i + 1;
        }
        proof {
            lemma_sum_by_all(entries, tal_share());
            lemma_sum_by_all(entries, ckbtc_share());
        }
        true
    }
}

} // verus!
