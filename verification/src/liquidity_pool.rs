//! The calls by which providers put TAL into the liquidity pool, take it
//! out again, and claim the collateral that liquidations brought them.

use crate::calls::{answers, guard_refusal_as, rule, Refusal};
use crate::event::Event;
use crate::guard::GuardPrincipal;
use crate::ledger::{TransferError, TransferFromError};
use crate::management::{
    learn_fee, mint_tal, sends, takes, transfer_ckbtc, transfer_tal_from, TransferArg,
    TransferFromArgs,
};
use crate::numeric::{Token, CKBTC, TAL};
use crate::principal::Principal;
use crate::recording::try_record;
use crate::state::State;
use crate::text::join_all;
use crate::{ProtocolError, MIN_LIQUIDITY_AMOUNT};
use std::marker::PhantomData;
use vstd::prelude::*;

verus! {

impl State {
    /// Why the providing of liquidity is refused, if it is.
    pub open spec fn provide_refusal(
        &self,
        caller: Principal,
        amount: u64,
        current_time: u64,
    ) -> Option<Refusal> {
        if self.entry_refusal(caller, current_time, true) is Some {
            self.entry_refusal(caller, current_time, true)
        } else if self.guard_refusal(caller) is Some {
            guard_refusal_as(self.guard_refusal(caller))
        } else if amount < MIN_LIQUIDITY_AMOUNT {
            Some(Refusal::AmountTooLow { minimum_amount: MIN_LIQUIDITY_AMOUNT })
        } else {
            None
        }
    }

    /// Why a withdrawal of liquidity is refused, if it is.
    pub open spec fn withdraw_refusal(
        &self,
        caller: Principal,
        amount: u64,
        current_time: u64,
    ) -> Option<Refusal> {
        if self.entry_refusal(caller, current_time, true) is Some {
            self.entry_refusal(caller, current_time, true)
        } else if self.guard_refusal(caller) is Some {
            guard_refusal_as(self.guard_refusal(caller))
        } else if amount < MIN_LIQUIDITY_AMOUNT {
            Some(Refusal::AmountTooLow { minimum_amount: MIN_LIQUIDITY_AMOUNT })
        } else if !self.liquidity_pool@.contains_key(caller) || amount
            > self.liquidity_pool@[caller].0 {
            Some(Refusal::Rule)
        } else {
            None
        }
    }

    /// Why a claim of returns is refused, if it is.
    pub open spec fn claim_refusal(&self, caller: Principal, current_time: u64) -> Option<Refusal> {
        if self.entry_refusal(caller, current_time, false) is Some {
            self.entry_refusal(caller, current_time, false)
        } else if self.guard_refusal(caller) is Some {
            guard_refusal_as(self.guard_refusal(caller))
        } else if !self.liquidity_returns@.contains_key(caller) {
            Some(Refusal::Rule)
        } else {
            None
        }
    }
}

/// Begins the providing of liquidity: says which transfer takes the TAL
/// from the caller. A read-only protocol takes no liquidity.
pub fn provide_liquidity(
    state: &mut State,
    caller: Principal,
    amount: u64,
    protocol_id: Principal,
    current_time: u64,
) -> (begun: Result<(GuardPrincipal, TransferFromArgs), ProtocolError>)
    requires
        old(state).wf(),
    ensures
        final(state).wf(),
        answers(begun, old(state).provide_refusal(caller, amount, current_time)),
        begun is Err ==> *final(state) == *old(state),
        begun matches Ok((guard, transfer)) ==> {
            &&& guard.holder() == caller
            &&& final(state).began(old(state), caller)
            &&& takes(transfer, old(state).taler_ledger_principal, amount, caller, protocol_id, None)
        },
{
    state.enter(caller, current_time, true)?;
    if let Err(refusal) = state.admits(caller) {
        return Err(ProtocolError::from(refusal));
    }
    if amount < MIN_LIQUIDITY_AMOUNT {
        return Err(ProtocolError::AmountTooLow { minimum_amount: MIN_LIQUIDITY_AMOUNT });
    }
    let guard = state.let_in(caller)?;
    let transfer = transfer_tal_from(state, TAL::new(amount), caller, protocol_id);
    Ok((guard, transfer))
}

/// Ends the providing of liquidity when the ledger has answered: where the
/// TAL was taken, it is recorded as liquidity of the caller.
pub fn complete_provide_liquidity(
    state: &mut State,
    log: &mut Vec<Event>,
    guard: GuardPrincipal,
    amount: u64,
    outcome: Result<u64, TransferFromError>,
) -> (provided: Result<u64, ProtocolError>)
    requires
        old(state).wf(),
    ensures
        final(state).wf(),
        final(state).same_counters(old(state)),
        match outcome {
            Ok(block_index) => {
                let event = Event::ProvideLiquidity {
                    amount: Token(amount, PhantomData),
                    block_index,
                    caller: guard.holder(),
                };
                let fits = old(state).books().after(event) is Some;
                &&& fits ==> provided == Ok::<u64, ProtocolError>(block_index) && final(state).ended(
                    final(log)@,
                    old(state),
                    old(log)@,
                    guard.holder(),
                    Some(event),
                )
                &&& !fits ==> answers(provided, Some(Refusal::Rule)) && final(state).ended(
                    final(log)@,
                    old(state),
                    old(log)@,
                    guard.holder(),
                    None,
                )
            },
            Err(error) => {
                &&& provided == Err::<u64, ProtocolError>(
                    ProtocolError::TransferFromError(error, amount),
                )
                &&& final(state).ended(final(log)@, old(state), old(log)@, guard.holder(), None)
            },
        },
{
    let caller = guard.caller();
    let provided = match outcome {
        Ok(block_index) => {
            if try_record(
                state,
                log,
                Event::ProvideLiquidity { amount: TAL::new(amount), block_index, caller },
            ) {
                Ok(block_index)
            } else {
                Err(rule("the liquidity does not fit the books"))
            }
        },
        Err(transfer_from_error) => Err(ProtocolError::TransferFromError(transfer_from_error, amount)),
    };
    guard.release(state);
    provided
}

/// Begins a withdrawal of liquidity: says which transfer mints the TAL to
/// the caller. A read-only protocol gives no liquidity back.
pub fn withdraw_liquidity(
    state: &mut State,
    caller: Principal,
    amount: u64,
    current_time: u64,
) -> (begun: Result< (GuardPrincipal, TransferArg), ProtocolError, >)
    requires
        old(state).wf(),
    ensures
        final(state).wf(),
        answers(begun, old(state).withdraw_refusal(caller, amount, current_time)),
        begun is Err ==> *final(state) == *old(state),
        begun matches Ok((guard, transfer)) ==> {
            &&& guard.holder() == caller
            &&& final(state).began(old(state), caller)
            &&& sends(transfer, old(state).taler_ledger_principal, amount, caller, None)
        },
{
    state.enter(caller, current_time, true)?;
    if let Err(refusal) = state.admits(caller) {
        return Err(ProtocolError::from(refusal));
    }
    if amount < MIN_LIQUIDITY_AMOUNT {
        return Err(ProtocolError::AmountTooLow { minimum_amount: MIN_LIQUIDITY_AMOUNT });
    }
    let provided_liquidity = match state.liquidity_pool.get(&caller) {
        Some(provided) => *provided,
        None => {
            return Err(rule("no provided liquidity"));
        },
    };
    if amount > provided_liquidity.0 {
        let asked = TAL::new(amount).to_string();
        let provided = provided_liquidity.to_string();
        let mut parts: Vec<&str> = Vec::new();
        parts.push("cannot withdraw: ");
        parts.push(asked.as_str());
        parts.push(", provided: ");
        parts.push(provided.as_str());
        return Err(rule(join_all(&parts).as_str()));
    }
    let guard = state.let_in(caller)?;
    let transfer = mint_tal(state, TAL::new(amount), caller);
    Ok((guard, transfer))
}

/// Ends a withdrawal of liquidity when the ledger has answered: where the
/// TAL was minted, it is taken from the liquidity of the caller.
pub fn complete_withdraw_liquidity(
    state: &mut State,
    log: &mut Vec<Event>,
    guard: GuardPrincipal,
    amount: u64,
    outcome: Result<u64, TransferError>,
) -> (withdrawn: Result<u64, ProtocolError>)
    requires
        old(state).wf(),
    ensures
        final(state).wf(),
        final(state).same_counters(old(state)),
        match outcome {
            Ok(block_index) => {
                let event = Event::WithdrawLiquidity {
                    amount: Token(amount, PhantomData),
                    block_index,
                    caller: guard.holder(),
                };
                let fits = old(state).books().after(event) is Some;
                &&& fits ==> withdrawn == Ok::<u64, ProtocolError>(block_index) && final(state).ended(
                    final(log)@,
                    old(state),
                    old(log)@,
                    guard.holder(),
                    Some(event),
                )
                &&& !fits ==> answers(withdrawn, Some(Refusal::Rule)) && final(state).ended(
                    final(log)@,
                    old(state),
                    old(log)@,
                    guard.holder(),
                    None,
                )
            },
            Err(error) => {
                &&& withdrawn == Err::<u64, ProtocolError>(ProtocolError::TransferError(error))
                &&& final(state).ended(final(log)@, old(state), old(log)@, guard.holder(), None)
            },
        },
{
    let caller = guard.caller();
    let withdrawn = match outcome {
        Ok(block_index) => {
            if try_record(
                state,
                log,
                Event::WithdrawLiquidity { amount: TAL::new(amount), block_index, caller },
            ) {
                Ok(block_index)
            } else {
                Err(rule("the withdrawal does not fit the books"))
            }
        },
        Err(transfer_error) => Err(ProtocolError::TransferError(transfer_error)),
    };
    guard.release(state);
    withdrawn
}

/// Begins a claim of returns: says which transfer sends all the returns
/// that wait for the caller, and how much they are.
pub fn claim_liquidity_returns(
    state: &mut State,
    caller: Principal,
    current_time: u64,
) -> (begun: Result< (GuardPrincipal, CKBTC, TransferArg), ProtocolError, >)
    requires
        old(state).wf(),
    ensures
        final(state).wf(),
        answers(begun, old(state).claim_refusal(caller, current_time)),
        begun is Err ==> *final(state) == *old(state),
        begun matches Ok((guard, return_amount, transfer)) ==> {
            &&& guard.holder() == caller
            &&& final(state).began(old(state), caller)
            &&& return_amount == old(state).liquidity_returns@[caller]
            &&& sends(
                transfer,
                old(state).ckbtc_ledger_principal,
                return_amount.0,
                caller,
                Some(old(state).ckbtc_ledger_fee.0),
            )
        },
{
    state.enter(caller, current_time, false)?;
    if let Err(refusal) = state.admits(caller) {
        return Err(ProtocolError::from(refusal));
    }
    let return_amount = match state.liquidity_returns.get(&caller) {
        Some(waiting) => *waiting,
        None => {
            return Err(rule("No reward"));
        },
    };
    let guard = state.let_in(caller)?;
    let transfer = transfer_ckbtc(state, return_amount, caller);
    Ok((guard, return_amount, transfer))
}

/// Ends a claim of returns when the ledger has answered: where the
/// returns were sent, they are taken from those that wait for the caller.
/// Where the ledger refused the transfer for its fee, the fee that it asks
/// for is taken over.
pub fn complete_claim_liquidity_returns(
    state: &mut State,
    log: &mut Vec<Event>,
    guard: GuardPrincipal,
    return_amount: CKBTC,
    outcome: Result<u64, TransferError>,
) -> (claimed: Result<u64, ProtocolError>)
    requires
        old(state).wf(),
    ensures
        final(state).wf(),
        final(state).next_available_vault_id == old(state).next_available_vault_id,
        final(state).current_base_rate == old(state).current_base_rate,
        final(state).last_redemption_time == old(state).last_redemption_time,
        match outcome {
            Ok(block_index) => {
                let event = Event::ClaimLiquidityReturns {
                    amount: return_amount,
                    block_index,
                    caller: guard.holder(),
                };
                let fits = old(state).books().after(event) is Some;
                &&& final(state).ckbtc_ledger_fee == old(state).ckbtc_ledger_fee
                &&& fits ==> claimed == Ok::<u64, ProtocolError>(block_index) && final(state).ended(
                    final(log)@,
                    old(state),
                    old(log)@,
                    guard.holder(),
                    Some(event),
                )
                &&& !fits ==> answers(claimed, Some(Refusal::Rule)) && final(state).ended(
                    final(log)@,
                    old(state),
                    old(log)@,
                    guard.holder(),
                    None,
                )
            },
            Err(error) => {
                &&& claimed == Err::<u64, ProtocolError>(ProtocolError::TransferError(error))
                &&& final(state).ckbtc_ledger_fee.0 == match crate::ledger::expected_fee_of(error) {
                    Some(fee) if fee <= u64::MAX => fee as u64,
                    _ => old(state).ckbtc_ledger_fee.0,
                }
                &&& final(state).ended(final(log)@, old(state), old(log)@, guard.holder(), None)
            },
        },
{
    let caller = guard.caller();
    let claimed = match outcome {
        Ok(block_index) => {
            if try_record(
                state,
                log,
                Event::ClaimLiquidityReturns { amount: return_amount, block_index, caller },
            ) {
                Ok(block_index)
            } else {
                Err(rule("the claim does not fit the books"))
            }
        },
        Err(transfer_error) => {
            learn_fee(state, &transfer_error);
            Err(ProtocolError::TransferError(transfer_error))
        },
    };
    guard.release(state);
    claimed
}

} // verus!
