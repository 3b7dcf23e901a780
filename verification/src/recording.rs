//! Recording: every change of the books is made together with the event
//! that tells of it, so that the log always makes the books of the state.

use crate::event::{replayed, Event};
use crate::numeric::{UsdBtc, CKBTC, TAL};
use crate::principal::Principal;
use crate::replay::lemma_replay_goes_on;
use crate::state::{Mode, State};
use crate::vault::Vault;
use vstd::prelude::*;

verus! {

/// Whether a log of events makes the books of a state.
pub open spec fn log_matches(log: Seq<Event>, state: &State) -> bool {
    replayed(log) == Some(state.books())
}

/// What recording an event does: the event is added to the log, the state
/// follows it, and a log that made the books of the state still does.
pub open spec fn recorded(
    before: &State,
    log_before: Seq<Event>,
    after: &State,
    log_after: Seq<Event>,
    event: Event,
) -> bool {
    &&& log_after == log_before.push(event)
    &&& after.follows(before, event)
    &&& log_matches(log_before, before) ==> log_matches(log_after, after)
}

/// Records an event that fits the books.
fn record(state: &mut State, log: &mut Vec<Event>, event: Event)
    requires
        old(state).wf(),
        old(state).books().after(event) is Some,
    ensures
        final(state).wf(),
        recorded(old(state), old(log)@, final(state), final(log)@, event),
{
    proof {
        if log_matches(log@, state) {
            lemma_replay_goes_on(log@, event);
        }
    }
    log.push(event);
    let applied = state.apply_event(&event);
    assert(applied);
}

/// Records an event if it fits the books, and says whether it did.
pub(crate) fn try_record(state: &mut State, log: &mut Vec<Event>, event: Event) -> (done: bool)
    requires
        old(state).wf(),
    ensures
        final(state).wf(),
        done == old(state).books().after(event) is Some,
        done ==> recorded(old(state), old(log)@, final(state), final(log)@, event),
        !done ==> *final(state) == *old(state) && final(log)@ == old(log)@,
{
    proof {
        if log_matches(log@, state) {
            lemma_replay_goes_on(log@, event);
        }
    }
    if state.apply_event(&event) {
        log.push(event);
        true
    } else {
        false
    }
}

/// Liquidates a vault by the pool and records it, where the liquidation is
/// defined.
pub fn record_liquidate_vault(
    state: &mut State,
    log: &mut Vec<Event>,
    vault_id: u64,
    mode: Mode,
    btc_rate: UsdBtc,
) -> (done: bool)
    requires
        old(state).wf(),
    ensures
        final(state).wf(),
        done == old(state).books().liquidated(vault_id, mode, btc_rate@) is Some,
        done ==> recorded(
            old(state),
            old(log)@,
            final(state),
            final(log)@,
            Event::LiquidateVault { vault_id, mode, btc_rate },
        ),
        !done ==> *final(state) == *old(state) && final(log)@ == old(log)@,
{
    try_record(state, log, Event::LiquidateVault { vault_id, mode, btc_rate })
}

/// Redistributes a vault to the others and records it, where the
/// redistribution is defined.
pub fn record_redistribute_vault(state: &mut State, log: &mut Vec<Event>, vault_id: u64) -> (done: bool)
    requires
        old(state).wf(),
    ensures
        final(state).wf(),
        done == old(state).books().redistributed(vault_id) is Some,
        done ==> recorded(
            old(state),
            old(log)@,
            final(state),
            final(log)@,
            Event::RedistributeVault { vault_id },
        ),
        !done ==> *final(state) == *old(state) && final(log)@ == old(log)@,
{
    try_record(state, log, Event::RedistributeVault { vault_id })
}

/// Records that `caller` provided liquidity.
pub fn record_provide_liquidity(
    state: &mut State,
    log: &mut Vec<Event>,
    amount: TAL,
    caller: Principal,
    block_index: u64,
)
    requires
        old(state).wf(),
        old(state).books().provided(amount.0, caller) is Some,
    ensures
        final(state).wf(),
        recorded(
            old(state),
            old(log)@,
            final(state),
            final(log)@,
            Event::ProvideLiquidity { amount, block_index, caller },
        ),
{
    record(state, log, Event::ProvideLiquidity { amount, block_index, caller });
}

/// Records that `caller` withdrew liquidity.
pub fn record_withdraw_liquidity(
    state: &mut State,
    log: &mut Vec<Event>,
    amount: TAL,
    caller: Principal,
    block_index: u64,
)
    requires
        old(state).wf(),
        old(state).books().withdrawn(amount.0, caller) is Some,
    ensures
        final(state).wf(),
        recorded(
            old(state),
            old(log)@,
            final(state),
            final(log)@,
            Event::WithdrawLiquidity { amount, block_index, caller },
        ),
{
    record(state, log, Event::WithdrawLiquidity { amount, block_index, caller });
}

/// Records that `caller` claimed returns.
pub fn record_claim_liquidity_returns(
    state: &mut State,
    log: &mut Vec<Event>,
    amount: CKBTC,
    caller: Principal,
    block_index: u64,
)
    requires
        old(state).wf(),
        old(state).books().claimed(amount.0, caller) is Some,
    ensures
        final(state).wf(),
        recorded(
            old(state),
            old(log)@,
            final(state),
            final(log)@,
            Event::ClaimLiquidityReturns { amount, block_index, caller },
        ),
{
    record(state, log, Event::ClaimLiquidityReturns { amount, block_index, caller });
}

/// Records the opening of a vault.
pub fn record_open_vault(state: &mut State, log: &mut Vec<Event>, vault: Vault, block_index: u64)
    requires
        old(state).wf(),
        old(state).books().opened(vault) is Some,
    ensures
        final(state).wf(),
        recorded(
            old(state),
            old(log)@,
            final(state),
            final(log)@,
            Event::OpenVault { vault, block_index },
        ),
{
    record(state, log, Event::OpenVault { vault, block_index });
}

/// Records the closing of a vault.
pub fn record_close_vault(state: &mut State, log: &mut Vec<Event>, vault_id: u64, block_index: Option<u64>)
    requires
        old(state).wf(),
        old(state).books().closed(vault_id) is Some,
    ensures
        final(state).wf(),
        recorded(
            old(state),
            old(log)@,
            final(state),
            final(log)@,
            Event::CloseVault { vault_id, block_index },
        ),
{
    record(state, log, Event::CloseVault { vault_id, block_index });
}

/// Records that the margin of a closed vault was sent to its owner.
pub fn record_margin_transfer(state: &mut State, log: &mut Vec<Event>, vault_id: u64, block_index: u64)
    requires
        old(state).wf(),
    ensures
        final(state).wf(),
        recorded(
            old(state),
            old(log)@,
            final(state),
            final(log)@,
            Event::MarginTransfer { vault_id, block_index },
        ),
{
    record(state, log, Event::MarginTransfer { vault_id, block_index });
}

/// Records that a vault borrowed.
pub fn record_borrow_from_vault(
    state: &mut State,
    log: &mut Vec<Event>,
    vault_id: u64,
    borrowed_amount: TAL,
    fee_amount: TAL,
    block_index: u64,
)
    requires
        old(state).wf(),
        old(state).books().borrowed(vault_id, borrowed_amount.0, fee_amount.0) is Some,
    ensures
        final(state).wf(),
        recorded(
            old(state),
            old(log)@,
            final(state),
            final(log)@,
            Event::BorrowFromVault { vault_id, borrowed_amount, fee_amount, block_index },
        ),
{
    record(state, log, Event::BorrowFromVault { vault_id, block_index, fee_amount, borrowed_amount });
}

/// Records that debt was repaid to a vault.
pub fn record_repayed_to_vault(
    state: &mut State,
    log: &mut Vec<Event>,
    vault_id: u64,
    repayed_amount: TAL,
    block_index: u64,
)
    requires
        old(state).wf(),
        old(state).books().repaid(vault_id, repayed_amount.0) is Some,
    ensures
        final(state).wf(),
        recorded(
            old(state),
            old(log)@,
            final(state),
            final(log)@,
            Event::RepayToVault { vault_id, repayed_amount, block_index },
        ),
{
    record(state, log, Event::RepayToVault { vault_id, block_index, repayed_amount });
}

/// Records that margin was added to a vault.
pub fn record_add_margin_to_vault(
    state: &mut State,
    log: &mut Vec<Event>,
    vault_id: u64,
    margin_added: CKBTC,
    block_index: u64,
)
    requires
        old(state).wf(),
        old(state).books().with_margin(vault_id, margin_added.0) is Some,
    ensures
        final(state).wf(),
        recorded(
            old(state),
            old(log)@,
            final(state),
            final(log)@,
            Event::AddMarginToVault { vault_id, margin_added, block_index },
        ),
{
    record(state, log, Event::AddMarginToVault { vault_id, margin_added, block_index });
}

/// Redeems TAL on the vaults and records it, where the redemption is defined.
pub fn record_redemption_on_vaults(
    state: &mut State,
    log: &mut Vec<Event>,
    owner: Principal,
    tal_amount: TAL,
    fee_amount: TAL,
    current_btc_rate: UsdBtc,
    tal_block_index: u64,
) -> (done: bool)
    requires
        old(state).wf(),
    ensures
        final(state).wf(),
        done == old(state).books().redeemed_for(
            owner,
            current_btc_rate@,
            tal_amount.0,
            fee_amount.0,
            tal_block_index,
        ) is Some,
        done ==> recorded(
            old(state),
            old(log)@,
            final(state),
            final(log)@,
            Event::RedemptionOnVaults { owner, current_btc_rate, tal_amount, fee_amount, tal_block_index },
        ),
        !done ==> *final(state) == *old(state) && final(log)@ == old(log)@,
{
    try_record(
        state,
        log,
        Event::RedemptionOnVaults { owner, current_btc_rate, tal_amount, fee_amount, tal_block_index },
    )
}

/// Records that the collateral of a redemption was sent.
pub fn record_redemption_transfered(
    state: &mut State,
    log: &mut Vec<Event>,
    tal_block_index: u64,
    ckbtc_block_index: u64,
)
    requires
        old(state).wf(),
    ensures
        final(state).wf(),
        recorded(
            old(state),
            old(log)@,
            final(state),
            final(log)@,
            Event::RedemptionTransfered { tal_block_index, ckbtc_block_index },
        ),
{
    record(state, log, Event::RedemptionTransfered { tal_block_index, ckbtc_block_index });
}

} // verus!
