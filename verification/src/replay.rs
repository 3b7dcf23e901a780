//! Applying events to the state, and rebuilding the state from a log.

use crate::bookkeeping::lemma_held_in_map;
use crate::decimal::whole;
use crate::event::{opened_vaults, replayed, replayed_mode, Event};
use crate::numeric::{UsdBtc, CKBTC, TAL};
use crate::principal::Principal;
use crate::state::{Mode, PendingMarginTransfer, State, CKBTC_TRANSFER_FEE};
use crate::vault::Vault;
use crate::UpgradeArg;
use vstd::prelude::*;

verus! {

/// Why a log of events could not be replayed.
#[derive(Debug)]
pub enum ReplayLogError {
    /// There are no events in the event log.
    EmptyLog,
    /// The event log is inconsistent.
    InconsistentLog(String),
}

/// The mode that an event leaves the protocol in.
pub open spec fn mode_after(mode: Mode, event: Event) -> Mode {
    match event {
        Event::Upgrade(UpgradeArg { mode: Some(set) }) => set,
        _ => mode,
    }
}

impl State {
    /// What an applied event did: the books are those after the event, and
    /// nothing else changed but the mode that an upgrade sets.
    pub open spec fn follows(&self, before: &State, event: Event) -> bool {
        &&& Some(self.books()) == before.books().after(event)
        &&& self.same_settings(before)
        &&& self.mode == mode_after(before.mode, event)
    }

    fn apply_open_vault(&mut self, vault: Vault, block_index: u64) -> (applied: bool)
        requires
            old(self).wf(),
        ensures
            final(self).wf(),
            applied == old(self).books().opened(vault) is Some,
            !applied ==> *final(self) == *old(self),
            applied ==> final(self).follows(old(self), Event::OpenVault { vault, block_index }),
    {
        if self.vault_id_to_vaults.contains_key(&vault.vault_id) {
            return false;
        }
        let debt_sum = self.total_borrowed_tal_amount().0;
        let margin_sum = self.total_ckbtc_margin_amount().0;
        let returns_sum = self.total_available_returns().0;
        if vault.borrowed_tal_amount.0 > u64::MAX - debt_sum || vault.ckbtc_margin_amount.0 > u64::MAX
            - margin_sum - returns_sum {
            return false;
        }
        self.open_vault(vault);
        assert(self.books() =~= old(self).books().opened(vault)->0);
        true
    }

    fn apply_close_vault(&mut self, vault_id: u64, block_index: Option<u64>) -> (applied: bool)
        requires
            old(self).wf(),
        ensures
            final(self).wf(),
            applied == old(self).books().closed(vault_id) is Some,
            !applied ==> *final(self) == *old(self),
            applied ==> final(self).follows(old(self), Event::CloseVault { vault_id, block_index }),
    {
        if !self.vault_id_to_vaults.contains_key(&vault_id) {
            return false;
        }
        self.close_vault(vault_id);
        assert(self.books() =~= old(self).books().closed(vault_id)->0);
        true
    }

    fn apply_borrow(&mut self, vault_id: u64, borrowed_amount: TAL, fee_amount: TAL, block_index: u64) -> (applied:
        bool)
        requires
            old(self).wf(),
        ensures
            final(self).wf(),
            applied == old(self).books().borrowed(vault_id, borrowed_amount.0, fee_amount.0) is Some,
            !applied ==> *final(self) == *old(self),
            applied ==> final(self).follows(
                old(self),
                Event::BorrowFromVault { vault_id, borrowed_amount, fee_amount, block_index },
            ),
    {
        if !self.vault_id_to_vaults.contains_key(&vault_id) {
            return false;
        }
        let debt_sum = self.total_borrowed_tal_amount().0;
        let pool_sum = self.total_provided_liquidity_amount().0;
        if borrowed_amount.0 > u64::MAX - debt_sum || fee_amount.0 > u64::MAX - pool_sum {
            return false;
        }
        proof {
            self.lemma_vault_within_sums(vault_id);
        }
        self.provide_liquidity(fee_amount, self.developer_principal);
        self.borrow_from_vault(vault_id, borrowed_amount);
        assert(self.books() =~= old(self).books().borrowed(
            vault_id,
            borrowed_amount.0,
            fee_amount.0,
        )->0);
        true
    }

    fn apply_repay(&mut self, vault_id: u64, repayed_amount: TAL, block_index: u64) -> (applied: bool)
        requires
            old(self).wf(),
        ensures
            final(self).wf(),
            applied == old(self).books().after(
                Event::RepayToVault { vault_id, repayed_amount, block_index },
            ) is Some,
            !applied ==> *final(self) == *old(self),
            applied ==> final(self).follows(
                old(self),
                Event::RepayToVault { vault_id, repayed_amount, block_index },
            ),
    {
        let vault = match self.vault_id_to_vaults.get(&vault_id) {
            Some(vault) => *vault,
            None => {
                return false;
            },
        };
        proof {
            self.lemma_vault_within_sums(vault_id);
        }
        if repayed_amount.0 > vault.borrowed_tal_amount.0 {
            return false;
        }
        self.repay_to_vault(vault_id, repayed_amount);
        assert(self.books() =~= old(self).books().after(
            Event::RepayToVault { vault_id, repayed_amount, block_index },
        )->0);
        true
    }

    fn apply_add_margin(&mut self, vault_id: u64, margin_added: CKBTC, block_index: u64) -> (applied: bool)
        requires
            old(self).wf(),
        ensures
            final(self).wf(),
            applied == old(self).books().after(
                Event::AddMarginToVault { vault_id, margin_added, block_index },
            ) is Some,
            !applied ==> *final(self) == *old(self),
            applied ==> final(self).follows(
                old(self),
                Event::AddMarginToVault { vault_id, margin_added, block_index },
            ),
    {
        if !self.vault_id_to_vaults.contains_key(&vault_id) {
            return false;
        }
        let margin_sum = self.total_ckbtc_margin_amount().0;
        let returns_sum = self.total_available_returns().0;
        proof {
            self.lemma_vault_within_sums(vault_id);
        }
        if margin_added.0 > u64::MAX - margin_sum - returns_sum {
            return false;
        }
        self.add_margin_to_vault(vault_id, margin_added);
        assert(self.books() =~= old(self).books().after(
            Event::AddMarginToVault { vault_id, margin_added, block_index },
        )->0);
        true
    }

    fn apply_provide(&mut self, amount: TAL, block_index: u64, caller: Principal) -> (applied: bool)
        requires
            old(self).wf(),
        ensures
            final(self).wf(),
            applied == old(self).books().provided(amount.0, caller) is Some,
            !applied ==> *final(self) == *old(self),
            applied ==> final(self).follows(
                old(self),
                Event::ProvideLiquidity { amount, block_index, caller },
            ),
    {
        let pool_sum = self.total_provided_liquidity_amount().0;
        if amount.0 > u64::MAX - pool_sum {
            return false;
        }
        self.provide_liquidity(amount, caller);
        assert(self.books() =~= old(self).books().provided(amount.0, caller)->0);
        true
    }

    fn apply_withdraw(&mut self, amount: TAL, block_index: u64, caller: Principal) -> (applied: bool)
        requires
            old(self).wf(),
        ensures
            final(self).wf(),
            applied == old(self).books().withdrawn(amount.0, caller) is Some,
            !applied ==> *final(self) == *old(self),
            applied ==> final(self).follows(
                old(self),
                Event::WithdrawLiquidity { amount, block_index, caller },
            ),
    {
        proof {
            lemma_held_in_map(self.liquidity_pool.listing());
        }
        let provided = match self.liquidity_pool.get(&caller) {
            Some(provided) => provided.0,
            None => {
                return false;
            },
        };
        if provided < amount.0 {
            return false;
        }
        self.withdraw_liquidity(amount, caller);
        assert(self.books() =~= old(self).books().withdrawn(amount.0, caller)->0);
        true
    }

    fn apply_claim(&mut self, amount: CKBTC, block_index: u64, caller: Principal) -> (applied: bool)
        requires
            old(self).wf(),
        ensures
            final(self).wf(),
            applied == old(self).books().claimed(amount.0, caller) is Some,
            !applied ==> *final(self) == *old(self),
            applied ==> final(self).follows(
                old(self),
                Event::ClaimLiquidityReturns { amount, block_index, caller },
            ),
    {
        proof {
            lemma_held_in_map(self.liquidity_returns.listing());
        }
        let waiting = match self.liquidity_returns.get(&caller) {
            Some(waiting) => waiting.0,
            None => {
                return false;
            },
        };
        if waiting < amount.0 {
            return false;
        }
        self.claim_liquidity_returns(amount, caller);
        assert(self.books() =~= old(self).books().claimed(amount.0, caller)->0);
        true
    }

    fn apply_liquidation(&mut self, vault_id: u64, mode: Mode, btc_rate: UsdBtc) -> (applied: bool)
        requires
            old(self).wf(),
        ensures
            final(self).wf(),
            applied == old(self).books().liquidated(vault_id, mode, btc_rate@) is Some,
            !applied ==> *final(self) == *old(self),
            applied ==> final(self).follows(
                old(self),
                Event::LiquidateVault { vault_id, mode, btc_rate },
            ),
    {
        let applied = self.liquidate_vault(vault_id, mode, btc_rate);
        proof {
            if applied {
                assert(self.books() =~= old(self).books().liquidated(vault_id, mode, btc_rate@)->0);
            }
        }
        applied
    }

    fn apply_redistribution(&mut self, vault_id: u64) -> (applied: bool)
        requires
            old(self).wf(),
        ensures
            final(self).wf(),
            applied == old(self).books().redistributed(vault_id) is Some,
            !applied ==> *final(self) == *old(self),
            applied ==> final(self).follows(old(self), Event::RedistributeVault { vault_id }),
    {
        let applied = self.redistribute_vault(vault_id);
        proof {
            if applied {
                assert(self.books() =~= old(self).books().redistributed(vault_id)->0);
            }
        }
        applied
    }

    fn apply_redemption(
        &mut self,
        owner: Principal,
        current_btc_rate: UsdBtc,
        tal_amount: TAL,
        fee_amount: TAL,
        tal_block_index: u64,
    ) -> (applied: bool)
        requires
            old(self).wf(),
        ensures
            final(self).wf(),
            applied == old(self).books().redeemed_for(
                owner,
                current_btc_rate@,
                tal_amount.0,
                fee_amount.0,
                tal_block_index,
            ) is Some,
            !applied ==> *final(self) == *old(self),
            applied ==> final(self).follows(
                old(self),
                Event::RedemptionOnVaults {
                    owner,
                    current_btc_rate,
                    tal_amount,
                    fee_amount,
                    tal_block_index,
                },
            ),
    {
        if current_btc_rate.0.is_zero() {
            return false;
        }
        let margin = match tal_amount.checked_div_rate(current_btc_rate) {
            Some(margin) => margin,
            None => {
                return false;
            },
        };
        let pool_sum = self.total_provided_liquidity_amount().0;
        if fee_amount.0 > u64::MAX - pool_sum {
            return false;
        }
        if !self.redeem_on_vaults(tal_amount, current_btc_rate) {
            return false;
        }
        self.provide_liquidity(fee_amount, self.developer_principal);
        self.pending_redemption_transfer.insert(
            tal_block_index,
            PendingMarginTransfer { owner, margin },
        );
        assert(self.books() =~= old(self).books().redeemed_for(
            owner,
            current_btc_rate@,
            tal_amount.0,
            fee_amount.0,
            tal_block_index,
        )->0);
        true
    }

    /// Applies an event to the state, where it fits the books, and leaves
    /// the state as it is where it does not.
    pub fn apply_event(&mut self, event: &Event) -> (applied: bool)
        requires
            old(self).wf(),
        ensures
            final(self).wf(),
            applied == old(self).books().after(*event) is Some,
            !applied ==> *final(self) == *old(self),
            applied ==> final(self).follows(old(self), *event),
    {
        match *event {
            Event::OpenVault { vault, block_index } => self.apply_open_vault(vault, block_index),
            Event::CloseVault { vault_id, block_index } => self.apply_close_vault(vault_id, block_index),
            Event::LiquidateVault { vault_id, mode, btc_rate } => self.apply_liquidation(
                vault_id,
                mode,
                btc_rate,
            ),
            Event::RedistributeVault { vault_id } => self.apply_redistribution(vault_id),
            Event::BorrowFromVault { vault_id, borrowed_amount, fee_amount, block_index } => self.apply_borrow(
                vault_id,
                borrowed_amount,
                fee_amount,
                block_index,
            ),
            Event::RedemptionOnVaults {
                owner,
                current_btc_rate,
                tal_amount,
                fee_amount,
                tal_block_index,
            } => self.apply_redemption(owner, current_btc_rate, tal_amount, fee_amount, tal_block_index),
            Event::RedemptionTransfered { tal_block_index, .. } => {
                self.pending_redemption_transfer.remove(&tal_block_index);
                assert(self.books() =~= old(self).books().after(*event)->0);
                true
            },
            Event::AddMarginToVault { vault_id, margin_added, block_index } => self.apply_add_margin(
                vault_id,
                margin_added,
                block_index,
            ),
            Event::RepayToVault { vault_id, repayed_amount, block_index } => self.apply_repay(
                vault_id,
                repayed_amount,
                block_index,
            ),
            Event::ProvideLiquidity { amount, block_index, caller } => self.apply_provide(
                amount,
                block_index,
                caller,
            ),
            Event::WithdrawLiquidity { amount, block_index, caller } => self.apply_withdraw(
                amount,
                block_index,
                caller,
            ),
            Event::ClaimLiquidityReturns { amount, block_index, caller } => self.apply_claim(
                amount,
                block_index,
                caller,
            ),
            Event::Init(_) => false,
            Event::Upgrade(upgrade_args) => {
                self.upgrade(upgrade_args);
                assert(self.books() =~= old(self).books());
                true
            },
            Event::MarginTransfer { vault_id, .. } => {
                self.pending_margin_transfers.remove(&vault_id);
                assert(self.books() =~= old(self).books().after(*event)->0);
                true
            },
        }
    }

    /// Whether the state has the settings that a replay leaves: those that
    /// the protocol starts with.
    pub open spec fn has_opening_settings(&self) -> bool {
        &&& self.last_redemption_time == 0
        &&& self.current_base_rate@ == whole(0)
        &&& self.total_collateral_ratio@ == whole(crate::decimal::MAX_MANTISSA as int)
        &&& self.ckbtc_ledger_fee.0 == CKBTC_TRANSFER_FEE
        &&& self.last_btc_rate is None
        &&& self.last_btc_timestamp is None
        &&& self.principal_guards@ == Set::<Principal>::empty()
        &&& !self.is_timer_running
        &&& !self.is_fetching_rate
    }
}

/// A log that cannot be replayed cannot be replayed when it goes on.
pub proof fn lemma_replay_stays_undefined(events: Seq<Event>, n: int)
    requires
        1 <= n <= events.len(),
        replayed(events.take(n)) is None,
    ensures
        replayed(events) is None,
    decreases events.len() - n,
{
    if n < events.len() {
        assert(events.take(n + 1).drop_last() =~= events.take(n));
        lemma_replay_stays_undefined(events, n + 1);
    } else {
        assert(events.take(n) =~= events);
    }
}

/// Replaying a log that goes on by one event applies that event to the
/// books that the log made.
pub proof fn lemma_replay_goes_on(events: Seq<Event>, event: Event)
    requires
        replayed(events) is Some,
    ensures
        replayed(events.push(event)) == replayed(events)->0.after(event),
{
    assert(events.push(event).drop_last() =~= events);
}

/// Writes `what`, a colon and the event as `Debug` shows it, with
/// `format!`. Nothing is claimed of the text.
#[verifier::external_body]
fn describe(what: &str, event: &Event) -> String {
    format!("{}: {:?}", what, event)
}

/// Whether no event of a log but the first starts the protocol.
pub open spec fn starts_once(events: Seq<Event>) -> bool {
    forall|i: int| 1 <= i < events.len() ==> !(#[trigger] events[i] is Init)
}

/// Says whether no event of a log but the first starts the protocol.
pub fn has_one_start(events: &Vec<Event>) -> (once: bool)
    ensures
        once == starts_once(events@),
{
    let mut i: usize = 1;
    while i < events.len()
        invariant
            1 <= i,
            forall|j: int| 1 <= j < i && j < events@.len() ==> !(#[trigger] events@[j] is Init),
        decreases events@.len() - i,
    {
        if let Event::Init(_) = events[i] {
            return false;
        }
        i = i + 1;
    }
    true
}

/// Rebuilds the state from a log of events in which the protocol starts
/// once.
///
/// The first event must start the protocol. Each of the others is applied
/// to the state in turn. The counter of vault ids is the number of vaults
/// that the log opened.
pub fn replay(events: &Vec<Event>) -> (result: Result<State, ReplayLogError>)
    requires
        starts_once(events@),
    ensures
        match result {
            Ok(state) => {
                &&& state.wf()
                &&& replayed(events@) == Some(state.books())
                &&& state.mode == replayed_mode(events@, events@.len() as int)
                &&& state.next_available_vault_id == opened_vaults(events@, events@.len() as int)
                &&& state.has_opening_settings()
            },
            Err(ReplayLogError::EmptyLog) => events@.len() == 0,
            Err(ReplayLogError::InconsistentLog(_)) => events@.len() > 0 && replayed(events@) is None,
        },
{
    if events.len() == 0 {
        return Err(ReplayLogError::EmptyLog);
    }
    assert(events@.take(1).len() == 1 && events@.take(1)[0] == events@[0]);
    let started = match events[0] {
        Event::Init(args) => State::new(args),
        _ => None,
    };
    let mut state = match started {
        Some(state) => state,
        None => {
            proof {
                lemma_replay_stays_undefined(events@, 1);
            }
            return Err(
                ReplayLogError::InconsistentLog(describe("The first event is not Init", &events[0])),
            );
        },
    };
    assert(state.books() =~= replayed(events@.take(1))->0);
    assert(opened_vaults(events@, 0) == 0);
    let mut vault_id: u64 = 0;
    let mut i: usize = 1;
    while i < events.len()
        invariant
            1 <= i <= events@.len(),
            state.wf(),
            replayed(events@.take(i as int)) == Some(state.books()),
            state.mode == replayed_mode(events@, i as int),
            vault_id == opened_vaults(events@, i as int),
            vault_id <= i,
            state.next_available_vault_id == 0,
            state.has_opening_settings(),
            opened_vaults(events@, 1) == 0,
        decreases events@.len() - i,
    {
        let event = events[i];
        assert(events@.take(i + 1).drop_last() =~= events@.take(i as int));
        assert(events@.take(i + 1).last() == event);
        if !state.apply_event(&event) {
            proof {
                lemma_replay_stays_undefined(events@, i + 1);
            }
            return Err(
                ReplayLogError::InconsistentLog(describe("The event does not fit the state", &event)),
            );
        }
        if let Event::OpenVault { .. } = event {
            vault_id = vault_id + 1;
        }
        i = i + 1;
    }
    assert(events@.take(i as int) =~= events@);
    state.next_available_vault_id = vault_id;
    Ok(state)
}

} // verus!
