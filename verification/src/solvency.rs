//! Solvency: the collateral ratio of the whole protocol, the mode that
//! follows from it, and the sweep that liquidates the vaults whose
//! collateral no longer covers their debt.

use crate::decimal::{scaled, Parts};
use crate::event::{Books, Event};
use crate::numeric::{amount_value, Ratio, UsdBtc};
use crate::recording::{log_matches, record_liquidate_vault, record_redistribute_vault};
use crate::state::{total_balance, Mode, State};
use crate::vault::Vault;
use crate::{
    collateral_ratio, compute_collateral_ratio, ratio_at, recovery_collateral_ratio, recovery_ratio,
    unit_ratio,
};
use vstd::prelude::*;

verus! {

/// The mode that follows from the collateral ratio of the protocol:
/// read-only below 1, recovery below 1.5, and general availability else.
pub open spec fn mode_at(ratio: Parts) -> Mode {
    if scaled(ratio) < scaled(unit_ratio()) {
        Mode::ReadOnly
    } else if scaled(ratio) < scaled(recovery_ratio()) {
        Mode::Recovery
    } else {
        Mode::GeneralAvailability
    }
}

/// The number one as the protocol writes it: 1.0.
pub fn one() -> (ratio: Ratio)
    ensures
        ratio@ == unit_ratio(),
{
    Ratio::new(crate::decimal::Fixed::new(10, 1).unwrap())
}

impl State {
    /// The collateral ratio of the protocol at `price`: the value of all
    /// margins in proportion to all debts.
    pub open spec fn collateral_ratio_at(&self, price: Parts) -> Option<Parts> {
        ratio_at(self.margin_sum(), self.debt_sum(), price)
    }

    /// The collateral ratio of the protocol at a price.
    pub fn compute_total_collateral_ratio(&self, btc_rate: UsdBtc) -> (ratio: Option<Ratio>)
        requires
            self.wf(),
        ensures
            amount_value(ratio) == self.collateral_ratio_at(btc_rate@),
    {
        let debt_sum = self.total_borrowed_tal_amount();
        if debt_sum.0 == 0 {
            return Some(Ratio::new(crate::decimal::Fixed::max_value()));
        }
        self.total_ckbtc_margin_amount().checked_mul_rate(btc_rate)?.checked_div(debt_sum)
    }

    /// Sets the collateral ratio of the protocol at a price and the mode
    /// that follows from it, where the ratio is defined.
    pub fn update_total_collateral_ratio_and_mode(&mut self, btc_rate: UsdBtc) -> (updated: bool)
        requires
            old(self).wf(),
        ensures
            final(self).wf(),
            updated == old(self).collateral_ratio_at(btc_rate@) is Some,
            !updated ==> *final(self) == *old(self),
            updated ==> {
                &&& Some(final(self).total_collateral_ratio@) == old(self).collateral_ratio_at(
                    btc_rate@,
                )
                &&& final(self).mode == mode_at(final(self).total_collateral_ratio@)
                &&& *final(self) == (State {
                    total_collateral_ratio: final(self).total_collateral_ratio,
                    mode: final(self).mode,
                    ..*old(self)
                })
            },
    {
        let new_total_collateral_ratio = match self.compute_total_collateral_ratio(btc_rate) {
            Some(ratio) => ratio,
            None => {
                return false;
            },
        };
        self.total_collateral_ratio = new_total_collateral_ratio;
        if new_total_collateral_ratio.lt(&recovery_collateral_ratio()) {
            self.mode = Mode::Recovery;
        } else {
            self.mode = Mode::GeneralAvailability
        }
        if new_total_collateral_ratio.lt(&one()) {
            self.mode = Mode::ReadOnly
        }
        proof {
            crate::redemption::lemma_pow10_positive(27);
        }
        true
    }
}

/// What the sweep did with a vault.
#[derive(Clone, Copy, Debug, PartialEq, Eq, Structural)]
pub enum VaultCheck {
    /// The pool took the vault over.
    Liquidated { vault_id: u64 },
    /// The other vaults took the vault over.
    Redistributed { vault_id: u64 },
    /// Nobody could take the vault over, and the protocol is solvent: the
    /// vault stays for the next sweep.
    Kept { vault_id: u64 },
    /// Nobody could take the vault over, and the protocol is not solvent:
    /// it became read-only.
    Halted { vault_id: u64 },
    /// The vault was to be taken over, and this was not defined: the vault stays.
    Failed { vault_id: u64 },
}

/// The vaults among the first `n` listed whose collateral ratio at `price`
/// is below `minimum`. `None` where a collateral ratio is undefined.
pub open spec fn unhealthy(vaults: Seq<(u64, Vault)>, minimum: Parts, price: Parts, n: int) -> Option<
    Seq<Vault>,
>
    decreases n,
{
    if n <= 0 {
        Some(Seq::empty())
    } else {
        match unhealthy(vaults, minimum, price, n - 1) {
            None => None,
            Some(found) => match collateral_ratio(vaults[n - 1].1, price) {
                None => None,
                Some(ratio) => if scaled(ratio) < scaled(minimum) {
                    Some(found.push(vaults[n - 1].1))
                } else {
                    Some(found)
                },
            },
        }
    }
}

/// Once the unhealthy vaults among some are undefined, those among more are.
pub proof fn lemma_unhealthy_stays_undefined(
    vaults: Seq<(u64, Vault)>,
    minimum: Parts,
    price: Parts,
    low: int,
    high: int,
)
    requires
        low <= high,
        unhealthy(vaults, minimum, price, low) is None,
    ensures
        unhealthy(vaults, minimum, price, high) is None,
    decreases high - low,
{
    if low < high {
        lemma_unhealthy_stays_undefined(vaults, minimum, price, low, high - 1);
    }
}

/// The state of a sweep: the books and the mode, and the events and the
/// reports that it has made.
pub struct Sweep {
    pub books: Books,
    pub mode: Mode,
    pub events: Seq<Event>,
    pub checks: Seq<VaultCheck>,
}

/// A sweep after it looked at one unhealthy vault, as it was when the
/// sweep began.
///
/// Where the pool holds the debt of the vault, the pool takes the vault
/// over. Else, where there is a healthy vault, the other vaults take it over.
/// Else the vault stays, and the protocol becomes read-only unless its
/// collateral ratio is above 1.
pub open spec fn sweep_step(sweep: Sweep, ratio: Parts, any_healthy: bool, vault: Vault, price: UsdBtc) -> Sweep {
    let id = vault.vault_id;
    if vault.borrowed_tal_amount.0 <= total_balance(sweep.books.pool) {
        match sweep.books.liquidated(id, sweep.mode, price@) {
            Some(books) => Sweep {
                books,
                events: sweep.events.push(
                    Event::LiquidateVault { vault_id: id, mode: sweep.mode, btc_rate: price },
                ),
                checks: sweep.checks.push(VaultCheck::Liquidated { vault_id: id }),
                ..sweep
            },
            None => Sweep { checks: sweep.checks.push(VaultCheck::Failed { vault_id: id }), ..sweep },
        }
    } else if any_healthy {
        match sweep.books.redistributed(id) {
            Some(books) => Sweep {
                books,
                events: sweep.events.push(Event::RedistributeVault { vault_id: id }),
                checks: sweep.checks.push(VaultCheck::Redistributed { vault_id: id }),
                ..sweep
            },
            None => Sweep { checks: sweep.checks.push(VaultCheck::Failed { vault_id: id }), ..sweep },
        }
    } else if scaled(ratio) > scaled(unit_ratio()) {
        Sweep { checks: sweep.checks.push(VaultCheck::Kept { vault_id: id }), ..sweep }
    } else {
        Sweep {
            mode: Mode::ReadOnly,
            checks: sweep.checks.push(VaultCheck::Halted { vault_id: id }),
            ..sweep
        }
    }
}

/// A sweep after it looked at the first `n` of the unhealthy vaults.
pub open spec fn swept(start: Sweep, ratio: Parts, any_healthy: bool, vaults: Seq<Vault>, price: UsdBtc, n: int) -> Sweep
    decreases n,
{
    if n <= 0 {
        start
    } else {
        sweep_step(swept(start, ratio, any_healthy, vaults, price, n - 1), ratio, any_healthy, vaults[n - 1], price)
    }
}

/// The model of an optional list of vaults.
pub open spec fn vaults_view(vaults: Option<Vec<Vault>>) -> Option<Seq<Vault>> {
    match vaults {
        Some(vaults) => Some(vaults@),
        None => None,
    }
}

impl State {
    /// The vaults whose collateral ratio at `price` is below `minimum`.
    pub open spec fn unhealthy_at(&self, minimum: Parts, price: Parts) -> Option<Seq<Vault>> {
        unhealthy(
            self.vault_id_to_vaults.listing(),
            minimum,
            price,
            self.vault_id_to_vaults.listing().len() as int,
        )
    }

    /// Finds the vaults whose collateral ratio at a price is below a minimum.
    pub fn unhealthy_vaults(&self, minimum: Ratio, btc_rate: UsdBtc) -> (found: Option<Vec<Vault>>)
        ensures
            vaults_view(found) == self.unhealthy_at(minimum@, btc_rate@),
            found matches Some(vaults) ==> vaults@.len() <= self.vault_id_to_vaults.listing().len(),
    {
        let ghost listing = self.vault_id_to_vaults.listing();
        let count = self.vault_id_to_vaults.len();
        let mut unhealthy_vaults: Vec<Vault> = Vec::new();
        let mut i: usize = 0;
        let walk = self.vault_id_to_vaults.entries();
        while i < count
            invariant
                walk@ == listing,
                listing == self.vault_id_to_vaults.listing(),
                count == listing.len(),
                0 <= i <= count,
                unhealthy(listing, minimum@, btc_rate@, i as int) == Some(unhealthy_vaults@),
                unhealthy_vaults@.len() <= i,
            decreases count - i,
        {
            let vault = walk[i].1;
            let ratio = match compute_collateral_ratio(&vault, btc_rate) {
                Some(ratio) => ratio,
                None => {
                    proof {
                        lemma_unhealthy_stays_undefined(
                            listing,
                            minimum@,
                            btc_rate@,
                            i + 1,
                            count as int,
                        );
                    }
                    return None;
                },
            };
            if ratio.lt(&minimum) {
                unhealthy_vaults.push(vault);
            }
            i = i + 1;
        }
        Some(unhealthy_vaults)
    }
}

/// What a sweep over the unhealthy vaults `found` leaves: the books, the
/// mode, the log and the reports are those of the sweep, and nothing else
/// changed.
pub open spec fn sweeps(
    before: &State,
    log_before: Seq<Event>,
    after: &State,
    log_after: Seq<Event>,
    checks: Seq<VaultCheck>,
    found: Seq<Vault>,
    any_healthy: bool,
    price: UsdBtc,
) -> bool {
    let start = Sweep {
        books: before.books(),
        mode: before.mode,
        events: log_before,
        checks: Seq::empty(),
    };
    let end = swept(
        start,
        before.total_collateral_ratio@,
        any_healthy,
        found,
        price,
        found.len() as int,
    );
    &&& after.same_settings(before)
    &&& after.books() == end.books
    &&& after.mode == end.mode
    &&& log_after == end.events
    &&& checks == end.checks
    &&& log_matches(log_before, before) ==> log_matches(log_after, after)
}

/// Has the unhealthy vaults taken over, in their order.
pub fn sweep(
    state: &mut State,
    log: &mut Vec<Event>,
    unhealthy_vaults: &Vec<Vault>,
    any_healthy: bool,
    last_btc_rate: UsdBtc,
) -> (checks: Vec<VaultCheck>)
    requires
        old(state).wf(),
    ensures
        final(state).wf(),
        sweeps(
            old(state),
            old(log)@,
            final(state),
            final(log)@,
            checks@,
            unhealthy_vaults@,
            any_healthy,
            last_btc_rate,
        ),
{
    let total_collateral_ratio = state.total_collateral_ratio;
    let ghost start = Sweep {
        books: state.books(),
        mode: state.mode,
        events: log@,
        checks: Seq::empty(),
    };
    let ghost found = unhealthy_vaults@;
    let mut checks: Vec<VaultCheck> = Vec::new();
    let mut k: usize = 0;
    while k < unhealthy_vaults.len()
        invariant
            found == unhealthy_vaults@,
            0 <= k <= found.len(),
            state.wf(),
            state.same_settings(old(state)),
            state.total_collateral_ratio == total_collateral_ratio,
            total_collateral_ratio == old(state).total_collateral_ratio,
            log_matches(old(log)@, old(state)) ==> log_matches(log@, state),
            ({
                let now = swept(
                    start,
                    total_collateral_ratio@,
                    any_healthy,
                    found,
                    last_btc_rate,
                    k as int,
                );
                &&& state.books() == now.books
                &&& state.mode == now.mode
                &&& log@ == now.events
                &&& checks@ == now.checks
            }),
        decreases found.len() - k,
    {
        let vault = unhealthy_vaults[k];
        let provided_liquidity = state.total_provided_liquidity_amount();
        let mode = state.mode;
        let check = if vault.borrowed_tal_amount.0 <= provided_liquidity.0 {
            if record_liquidate_vault(state, log, vault.vault_id, mode, last_btc_rate) {
                VaultCheck::Liquidated { vault_id: vault.vault_id }
            } else {
                VaultCheck::Failed { vault_id: vault.vault_id }
            }
        } else if any_healthy {
            if record_redistribute_vault(state, log, vault.vault_id) {
                VaultCheck::Redistributed { vault_id: vault.vault_id }
            } else {
                VaultCheck::Failed { vault_id: vault.vault_id }
            }
        } else if total_collateral_ratio.gt(&one()) {
            VaultCheck::Kept { vault_id: vault.vault_id }
        } else {
            state.mode = Mode::ReadOnly;
            VaultCheck::Halted { vault_id: vault.vault_id }
        };
        checks.push(check);
        k = k + 1;
    }
    checks
}

/// What a look at every vault leaves, where the price is `price`: a sweep
/// over the vaults whose collateral ratio is below the minimum of the mode;
/// or nothing changed, and no report, where a collateral ratio is undefined.
pub open spec fn checked(
    before: &State,
    log_before: Seq<Event>,
    after: &State,
    log_after: Seq<Event>,
    checks: Option<Seq<VaultCheck>>,
    price: UsdBtc,
) -> bool {
    let found = before.unhealthy_at(before.mode.minimum_liquidation_ratio(), price@);
    match checks {
        None => found is None && *after == *before && log_after == log_before,
        Some(checks) => found is Some && sweeps(
            before,
            log_before,
            after,
            log_after,
            checks,
            found->0,
            found->0.len() < before.vault_id_to_vaults.listing().len(),
            price,
        ),
    }
}

/// The model of an optional list of reports.
pub open spec fn checks_view(checks: Option<Vec<VaultCheck>>) -> Option<Seq<VaultCheck>> {
    match checks {
        Some(checks) => Some(checks@),
        None => None,
    }
}

/// Looks at every vault, and has those taken over whose collateral ratio at
/// the last price is below the minimum of the mode.
///
/// Returns what became of each of these vaults, in their order; or `None`,
/// and changes nothing, where a collateral ratio is undefined.
pub fn check_vaults(state: &mut State, log: &mut Vec<Event>) -> (checks: Option<Vec<VaultCheck>>)
    requires
        old(state).wf(),
        old(state).last_btc_rate is Some,
    ensures
        final(state).wf(),
        checked(
            old(state),
            old(log)@,
            final(state),
            final(log)@,
            checks_view(checks),
            old(state).last_btc_rate->0,
        ),
{
    let last_btc_rate = state.last_btc_rate.unwrap();
    let minimum = state.mode.get_minimum_liquidation_collateral_ratio();
    let unhealthy_vaults = state.unhealthy_vaults(minimum, last_btc_rate)?;
    let any_healthy = unhealthy_vaults.len() < state.vault_id_to_vaults.len();
    Some(sweep(state, log, &unhealthy_vaults, any_healthy, last_btc_rate))
}

} // verus!
