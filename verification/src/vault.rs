//! Vaults, and the calls by which their owners use them.
//!
//! Every call is made in two steps around the transfer that it needs. The
//! first checks the caller, the price, the mode and the amounts, lets the
//! caller in and says which transfer is to be made; the second takes the
//! answer of the ledger.

use crate::calls::{answers, guard_refusal_as, rule, Refusal};
use crate::decimal::{whole, Parts};
use crate::event::Event;
use crate::guard::GuardPrincipal;
use crate::ledger::{TransferError, TransferFromError};
use crate::management::{
    learn_fee_from, mint_tal, sends, takes, transfer_ckbtc_from, transfer_tal_from, TransferArg,
    TransferFromArgs,
};
use crate::numeric::{token_over, token_times, Token, UsdBtc, CKBTC, TAL};
use crate::principal::Principal;
use crate::recording::try_record;
use crate::redemption::redemption_fee;
use crate::state::{Mode, State};
use crate::text::{join_all, number};
use crate::{ProtocolError, SuccessWithFee, MIN_CKBTC_AMOUNT, MIN_TAL_AMOUNT};
use std::marker::PhantomData;
use vstd::prelude::*;
use vstd::std_specs::cmp::PartialEqSpecImpl;

verus! {

/// The answer to the opening of a vault.
#[derive(Clone, Copy, Debug, PartialEq, Eq)]
pub struct OpenVaultSuccess {
    pub vault_id: u64,
    pub block_index: u64,
}

/// A vault and an amount.
#[derive(Clone, Copy, Debug)]
pub struct VaultArg {
    pub vault_id: u64,
    pub amount: u64,
}

/// Collateral locked by an owner, and the debt borrowed against it.
#[derive(Clone, Copy, Debug)]
pub struct Vault {
    pub owner: Principal,
    pub borrowed_tal_amount: TAL,
    pub ckbtc_margin_amount: CKBTC,
    pub vault_id: u64,
}

impl PartialEq for Vault {
    fn eq(&self, other: &Self) -> (equal: bool) {
        self.owner == other.owner && self.borrowed_tal_amount.0 == other.borrowed_tal_amount.0
            && self.ckbtc_margin_amount.0 == other.ckbtc_margin_amount.0 && self.vault_id
            == other.vault_id
    }
}

impl Eq for Vault {}

impl PartialEqSpecImpl for Vault {
    open spec fn obeys_eq_spec() -> bool {
        true
    }

    open spec fn eq_spec(&self, other: &Self) -> bool {
        *self == *other
    }
}

/// A vault as it is shown to callers, its amounts in 10^-8 units.
#[derive(Clone, Copy, Debug)]
pub struct CandidVault {
    pub owner: Principal,
    pub borrowed_tal_amount: u64,
    pub ckbtc_margin_amount: u64,
    pub vault_id: u64,
}

impl Vault {
    /// The vault as it is shown to callers.
    pub fn to_candid(&self) -> (shown: CandidVault)
        ensures
            shown.owner == self.owner,
            shown.borrowed_tal_amount == self.borrowed_tal_amount.0,
            shown.ckbtc_margin_amount == self.ckbtc_margin_amount.0,
            shown.vault_id == self.vault_id,
    {
        CandidVault {
            owner: self.owner,
            borrowed_tal_amount: self.borrowed_tal_amount.to_u64(),
            ckbtc_margin_amount: self.ckbtc_margin_amount.to_u64(),
            vault_id: self.vault_id,
        }
    }
}

/// The most that a vault can owe at a price in a mode: the value of its
/// margin divided by the minimum collateral ratio of the mode.
pub open spec fn borrowing_limit(vault: Vault, price: Parts, mode: Mode) -> Option<u64> {
    match token_times(vault.ckbtc_margin_amount.0 as int, price) {
        None => None,
        Some(value) => token_over(value as int, mode.minimum_liquidation_ratio()),
    }
}

impl State {
    /// Why the opening of a vault is refused, if it is.
    pub open spec fn open_vault_refusal(
        &self,
        caller: Principal,
        ckbtc_margin: u64,
        current_time: u64,
    ) -> Option<Refusal> {
        if self.entry_refusal(caller, current_time, true) is Some {
            self.entry_refusal(caller, current_time, true)
        } else if self.guard_refusal(caller) is Some {
            guard_refusal_as(self.guard_refusal(caller))
        } else if ckbtc_margin < MIN_CKBTC_AMOUNT {
            Some(Refusal::AmountTooLow { minimum_amount: MIN_CKBTC_AMOUNT })
        } else {
            None
        }
    }

    /// The fee for borrowing `amount` in the mode of the protocol.
    pub open spec fn borrowing_fee(&self, amount: u64) -> Option<u64> {
        token_times(
            amount as int,
            if self.mode == Mode::Recovery {
                whole(0)
            } else {
                self.fee@
            },
        )
    }

    /// Why borrowing is refused, if it is.
    pub open spec fn borrow_refusal(
        &self,
        caller: Principal,
        arg: VaultArg,
        current_time: u64,
    ) -> Option<Refusal> {
        if self.entry_refusal(caller, current_time, true) is Some {
            self.entry_refusal(caller, current_time, true)
        } else if self.guard_refusal(caller) is Some {
            guard_refusal_as(self.guard_refusal(caller))
        } else if arg.amount < MIN_TAL_AMOUNT {
            Some(Refusal::AmountTooLow { minimum_amount: MIN_TAL_AMOUNT })
        } else if !self.vaults().contains_key(arg.vault_id) {
            Some(Refusal::Rule)
        } else if self.last_btc_rate is None {
            Some(Refusal::NoPrice)
        } else if self.vaults()[arg.vault_id].owner != caller {
            Some(Refusal::CallerNotOwner)
        } else {
            let vault = self.vaults()[arg.vault_id];
            match borrowing_limit(vault, self.last_btc_rate->0@, self.mode) {
                None => Some(Refusal::Rule),
                Some(limit) => if vault.borrowed_tal_amount.0 + arg.amount > limit {
                    Some(Refusal::Rule)
                } else {
                    match self.borrowing_fee(arg.amount) {
                        None => Some(Refusal::Rule),
                        Some(fee) => if fee > arg.amount {
                            Some(Refusal::Rule)
                        } else {
                            None
                        },
                    }
                },
            }
        }
    }

    /// Why a repayment is refused, if it is.
    pub open spec fn repay_refusal(
        &self,
        caller: Principal,
        arg: VaultArg,
        current_time: u64,
    ) -> Option<Refusal> {
        if self.entry_refusal(caller, current_time, false) is Some {
            self.entry_refusal(caller, current_time, false)
        } else if self.guard_refusal(caller) is Some {
            guard_refusal_as(self.guard_refusal(caller))
        } else if !self.vaults().contains_key(arg.vault_id) {
            Some(Refusal::Rule)
        } else if self.vaults()[arg.vault_id].owner != caller {
            Some(Refusal::CallerNotOwner)
        } else if arg.amount < MIN_TAL_AMOUNT {
            Some(Refusal::AmountTooLow { minimum_amount: MIN_TAL_AMOUNT })
        } else if self.vaults()[arg.vault_id].borrowed_tal_amount.0 < arg.amount {
            Some(Refusal::Rule)
        } else {
            None
        }
    }

    /// Why the adding of margin is refused, if it is.
    pub open spec fn add_margin_refusal(
        &self,
        caller: Principal,
        arg: VaultArg,
        current_time: u64,
    ) -> Option<Refusal> {
        if self.entry_refusal(caller, current_time, false) is Some {
            self.entry_refusal(caller, current_time, false)
        } else if self.guard_refusal(caller) is Some {
            guard_refusal_as(self.guard_refusal(caller))
        } else if arg.amount < MIN_CKBTC_AMOUNT {
            Some(Refusal::AmountTooLow { minimum_amount: MIN_CKBTC_AMOUNT })
        } else if !self.vaults().contains_key(arg.vault_id) {
            Some(Refusal::Rule)
        } else if self.vaults()[arg.vault_id].owner != caller {
            Some(Refusal::CallerNotOwner)
        } else {
            None
        }
    }

    /// Why the closing of a vault is refused, if it is. A read-only
    /// protocol closes a vault without debt, and no other.
    pub open spec fn close_refusal(
        &self,
        caller: Principal,
        vault_id: u64,
        current_time: u64,
    ) -> Option<Refusal> {
        if self.entry_refusal(caller, current_time, false) is Some {
            self.entry_refusal(caller, current_time, false)
        } else if self.guard_refusal(caller) is Some {
            guard_refusal_as(self.guard_refusal(caller))
        } else if !self.vaults().contains_key(vault_id) {
            Some(Refusal::Rule)
        } else if self.vaults()[vault_id].owner != caller {
            Some(Refusal::CallerNotOwner)
        } else if self.vaults()[vault_id].borrowed_tal_amount.0 != 0 && self.mode == Mode::ReadOnly {
            Some(Refusal::ReadOnly)
        } else {
            None
        }
    }

    /// Why a redemption is refused, if it is.
    pub open spec fn redeem_refusal(
        &self,
        caller: Principal,
        tal_amount: u64,
        current_time: u64,
    ) -> Option<Refusal> {
        if self.entry_refusal(caller, current_time, true) is Some {
            self.entry_refusal(caller, current_time, true)
        } else if self.guard_refusal(caller) is Some {
            guard_refusal_as(self.guard_refusal(caller))
        } else if tal_amount < MIN_TAL_AMOUNT {
            Some(Refusal::AmountTooLow { minimum_amount: MIN_TAL_AMOUNT })
        } else if self.last_btc_rate is None {
            Some(Refusal::NoPrice)
        } else {
            None
        }
    }
}

/// Begins the opening of a vault with a margin of `ckbtc_margin`: says
/// which transfer takes the margin from the caller. A read-only protocol
/// opens no vault.
pub fn open_vault(
    state: &mut State,
    caller: Principal,
    ckbtc_margin: u64,
    protocol_id: Principal,
    current_time: u64,
) -> (begun: Result<(GuardPrincipal, TransferFromArgs), ProtocolError>)
    requires
        old(state).wf(),
    ensures
        final(state).wf(),
        answers(begun, old(state).open_vault_refusal(caller, ckbtc_margin, current_time)),
        begun is Err ==> *final(state) == *old(state),
        begun matches Ok((guard, transfer)) ==> {
            &&& guard.holder() == caller
            &&& final(state).began(old(state), caller)
            &&& takes(
                transfer,
                old(state).ckbtc_ledger_principal,
                ckbtc_margin,
                caller,
                protocol_id,
                Some(old(state).ckbtc_ledger_fee.0),
            )
        },
{
    state.enter(caller, current_time, true)?;
    if let Err(refusal) = state.admits(caller) {
        return Err(ProtocolError::from(refusal));
    }
    if ckbtc_margin < MIN_CKBTC_AMOUNT {
        return Err(ProtocolError::AmountTooLow { minimum_amount: MIN_CKBTC_AMOUNT });
    }
    let guard = state.let_in(caller)?;
    let transfer = transfer_ckbtc_from(state, CKBTC::new(ckbtc_margin), caller, protocol_id);
    Ok((guard, transfer))
}

/// Ends the opening of a vault when the ledger has answered.
///
/// Where the margin was transferred, the vault gets the next id, and its
/// opening is recorded. Where the ledger refused the transfer for its fee,
/// the fee that it asks for is taken over.
pub fn complete_open_vault(
    state: &mut State,
    log: &mut Vec<Event>,
    guard: GuardPrincipal,
    ckbtc_margin: u64,
    outcome: Result<u64, TransferFromError>,
) -> (opened: Result<OpenVaultSuccess, ProtocolError>)
    requires
        old(state).wf(),
    ensures
        final(state).wf(),
        final(state).current_base_rate == old(state).current_base_rate,
        final(state).last_redemption_time == old(state).last_redemption_time,
        match outcome {
            Ok(block_index) => {
                let vault = Vault {
                    owner: guard.holder(),
                    borrowed_tal_amount: Token(0, PhantomData),
                    ckbtc_margin_amount: Token(ckbtc_margin, PhantomData),
                    vault_id: old(state).next_available_vault_id,
                };
                let fits = vault.vault_id < u64::MAX && old(state).books().opened(vault) is Some;
                &&& final(state).ckbtc_ledger_fee == old(state).ckbtc_ledger_fee
                &&& fits ==> opened == Ok::<OpenVaultSuccess, ProtocolError>(
                    OpenVaultSuccess { vault_id: vault.vault_id, block_index },
                ) && final(state).next_available_vault_id == vault.vault_id + 1 && final(state).ended(
                    final(log)@,
                    old(state),
                    old(log)@,
                    guard.holder(),
                    Some(Event::OpenVault { vault, block_index }),
                )
                &&& !fits ==> answers(opened, Some(Refusal::Rule)) && final(state).next_available_vault_id
                    == vault.vault_id && final(state).ended(
                    final(log)@,
                    old(state),
                    old(log)@,
                    guard.holder(),
                    None,
                )
            },
            Err(error) => {
                &&& opened == Err::<OpenVaultSuccess, ProtocolError>(
                    ProtocolError::TransferFromError(error, ckbtc_margin),
                )
                &&& final(state).next_available_vault_id == old(state).next_available_vault_id
                &&& final(state).ckbtc_ledger_fee.0 == match crate::ledger::expected_fee_of_from(error) {
                    Some(fee) if fee <= u64::MAX => fee as u64,
                    _ => old(state).ckbtc_ledger_fee.0,
                }
                &&& final(state).ended(final(log)@, old(state), old(log)@, guard.holder(), None)
            },
        },
{
    let ghost holder = guard.holder();
    let caller = guard.caller();
    let opened = match outcome {
        Ok(block_index) => {
            let vault_id = state.next_available_vault_id;
            let vault = Vault {
                owner: caller,
                borrowed_tal_amount: TAL::new(0),
                ckbtc_margin_amount: CKBTC::new(ckbtc_margin),
                vault_id,
            };
            if vault_id < u64::MAX && try_record(state, log, Event::OpenVault { vault, block_index }) {
                state.next_available_vault_id = vault_id + 1;
                Ok(OpenVaultSuccess { vault_id, block_index })
            } else {
                Err(rule("the vault does not fit the books"))
            }
        },
        Err(transfer_from_error) => {
            learn_fee_from(state, &transfer_from_error);
            Err(ProtocolError::TransferFromError(transfer_from_error, ckbtc_margin))
        },
    };
    guard.release(state);
    opened
}

/// Begins a borrowing: says which transfer mints the borrowed TAL, less
/// the fee, to the caller, and what the fee is. A read-only protocol lends
/// nothing.
pub fn borrow_from_vault(
    state: &mut State,
    caller: Principal,
    arg: VaultArg,
    current_time: u64,
) -> (begun: Result< (GuardPrincipal, TAL, TransferArg), ProtocolError, >)
    requires
        old(state).wf(),
    ensures
        final(state).wf(),
        answers(begun, old(state).borrow_refusal(caller, arg, current_time)),
        begun is Err ==> *final(state) == *old(state),
        begun matches Ok((guard, fee, transfer)) ==> {
            &&& guard.holder() == caller
            &&& final(state).began(old(state), caller)
            &&& Some(fee.0) == old(state).borrowing_fee(arg.amount)
            &&& sends(
                transfer,
                old(state).taler_ledger_principal,
                (arg.amount - fee.0) as u64,
                caller,
                None,
            )
        },
{
    state.enter(caller, current_time, true)?;
    if let Err(refusal) = state.admits(caller) {
        return Err(ProtocolError::from(refusal));
    }
    let amount = TAL::new(arg.amount);
    if arg.amount < MIN_TAL_AMOUNT {
        return Err(ProtocolError::AmountTooLow { minimum_amount: MIN_TAL_AMOUNT });
    }
    let vault = match state.vault_id_to_vaults.get(&arg.vault_id) {
        Some(vault) => *vault,
        None => {
            return Err(rule("there is no such vault"));
        },
    };
    let last_btc_rate = match state.last_btc_rate {
        Some(rate) => rate,
        None => {
            return Err(ProtocolError::TemporarilyUnavailable("No BTC price fetched".to_string()));
        },
    };
    if caller != vault.owner {
        return Err(ProtocolError::CallerNotOwner);
    }
    let margin_value = match vault.ckbtc_margin_amount.checked_mul_rate(last_btc_rate) {
        Some(value) => value,
        None => {
            return Err(rule("failed to borrow from vault, the value of the margin is too large"));
        },
    };
    let max_borrowable_amount = match margin_value.checked_div_ratio(
        state.mode.get_minimum_liquidation_collateral_ratio(),
    ) {
        Some(limit) => limit,
        None => {
            return Err(rule("failed to borrow from vault, the value of the margin is too large"));
        },
    };
    if vault.borrowed_tal_amount.0 as u128 + arg.amount as u128 > max_borrowable_amount.0 as u128 {
        let limit = max_borrowable_amount.to_string();
        let borrowed = vault.borrowed_tal_amount.to_string();
        let asked = amount.to_string();
        let price = last_btc_rate.to_string();
        let mut parts: Vec<&str> = Vec::new();
        parts.push("failed to borrow from vault, max borrowable amount: ");
        parts.push(limit.as_str());
        parts.push(", already borrowed: ");
        parts.push(borrowed.as_str());
        parts.push(", asked to borrow ");
        parts.push(asked.as_str());
        parts.push(" \n last_btc_rate: ");
        parts.push(price.as_str());
        return Err(rule(join_all(&parts).as_str()));
    }
    let fee = match amount.checked_mul_ratio(state.get_borrowing_fee()) {
        Some(fee) => fee,
        None => {
            return Err(rule("failed to borrow from vault, the fee is too large"));
        },
    };
    if fee.0 > arg.amount {
        return Err(rule("failed to borrow from vault, the fee is too large"));
    }
    let guard = state.let_in(caller)?;
    let transfer = mint_tal(state, TAL::new(arg.amount - fee.0), caller);
    Ok((guard, fee, transfer))
}

/// Ends a borrowing when the ledger has answered: where the TAL was
/// minted, the borrowing is recorded.
pub fn complete_borrow_from_vault(
    state: &mut State,
    log: &mut Vec<Event>,
    guard: GuardPrincipal,
    arg: VaultArg,
    fee: TAL,
    outcome: Result<u64, TransferError>,
) -> (borrowed: Result<SuccessWithFee, ProtocolError>)
    requires
        old(state).wf(),
    ensures
        final(state).wf(),
        final(state).same_counters(old(state)),
        match outcome {
            Ok(block_index) => {
                let fits = old(state).books().borrowed(arg.vault_id, arg.amount, fee.0) is Some;
                &&& fits ==> borrowed == Ok::<SuccessWithFee, ProtocolError>(
                    SuccessWithFee { block_index, fee_amount_paid: fee.0 },
                ) && final(state).ended(
                    final(log)@,
                    old(state),
                    old(log)@,
                    guard.holder(),
                    Some(
                        Event::BorrowFromVault {
                            vault_id: arg.vault_id,
                            borrowed_amount: Token(arg.amount, PhantomData),
                            fee_amount: fee,
                            block_index,
                        },
                    ),
                )
                &&& !fits ==> answers(borrowed, Some(Refusal::Rule)) && final(state).ended(
                    final(log)@,
                    old(state),
                    old(log)@,
                    guard.holder(),
                    None,
                )
            },
            Err(error) => {
                &&& borrowed == Err::<SuccessWithFee, ProtocolError>(ProtocolError::TransferError(error))
                &&& final(state).ended(final(log)@, old(state), old(log)@, guard.holder(), None)
            },
        },
{
    let borrowed = match outcome {
        Ok(block_index) => {
            if try_record(
                state,
                log,
                Event::BorrowFromVault {
                    vault_id: arg.vault_id,
                    borrowed_amount: TAL::new(arg.amount),
                    fee_amount: fee,
                    block_index,
                },
            ) {
                Ok(SuccessWithFee { block_index, fee_amount_paid: fee.to_u64() })
            } else {
                Err(rule("the borrowing does not fit the books"))
            }
        },
        Err(mint_error) => Err(ProtocolError::TransferError(mint_error)),
    };
    guard.release(state);
    borrowed
}

/// Begins a repayment: says which transfer takes the TAL from the caller.
pub fn repay_to_vault(
    state: &mut State,
    caller: Principal,
    arg: VaultArg,
    protocol_id: Principal,
    current_time: u64,
) -> (begun: Result<(GuardPrincipal, TransferFromArgs), ProtocolError>)
    requires
        old(state).wf(),
    ensures
        final(state).wf(),
        answers(begun, old(state).repay_refusal(caller, arg, current_time)),
        begun is Err ==> *final(state) == *old(state),
        begun matches Ok((guard, transfer)) ==> {
            &&& guard.holder() == caller
            &&& final(state).began(old(state), caller)
            &&& takes(transfer, old(state).taler_ledger_principal, arg.amount, caller, protocol_id, None)
        },
{
    state.enter(caller, current_time, false)?;
    if let Err(refusal) = state.admits(caller) {
        return Err(ProtocolError::from(refusal));
    }
    let vault = match state.vault_id_to_vaults.get(&arg.vault_id) {
        Some(vault) => *vault,
        None => {
            return Err(rule("there is no such vault"));
        },
    };
    if caller != vault.owner {
        return Err(ProtocolError::CallerNotOwner);
    }
    if arg.amount < MIN_TAL_AMOUNT {
        return Err(ProtocolError::AmountTooLow { minimum_amount: MIN_TAL_AMOUNT });
    }
    if vault.borrowed_tal_amount.0 < arg.amount {
        let borrowed = vault.borrowed_tal_amount.to_string();
        let asked = number(arg.amount);
        let mut parts: Vec<&str> = Vec::new();
        parts.push("cannot repay more than borrowed, borrowed: ");
        parts.push(borrowed.as_str());
        parts.push(" TAL, asked to repay: ");
        parts.push(asked.as_str());
        parts.push(" TAL");
        return Err(rule(join_all(&parts).as_str()));
    }
    let guard = state.let_in(caller)?;
    let transfer = transfer_tal_from(state, TAL::new(arg.amount), caller, protocol_id);
    Ok((guard, transfer))
}

/// Ends a repayment when the ledger has answered: where the TAL was
/// taken, the repayment is recorded.
pub fn complete_repay_to_vault(
    state: &mut State,
    log: &mut Vec<Event>,
    guard: GuardPrincipal,
    arg: VaultArg,
    outcome: Result<u64, TransferFromError>,
) -> (repaid: Result<u64, ProtocolError>)
    requires
        old(state).wf(),
    ensures
        final(state).wf(),
        final(state).same_counters(old(state)),
        match outcome {
            Ok(block_index) => {
                let event = Event::RepayToVault {
                    vault_id: arg.vault_id,
                    repayed_amount: Token(arg.amount, PhantomData),
                    block_index,
                };
                let fits = old(state).books().after(event) is Some;
                &&& fits ==> repaid == Ok::<u64, ProtocolError>(block_index) && final(state).ended(
                    final(log)@,
                    old(state),
                    old(log)@,
                    guard.holder(),
                    Some(event),
                )
                &&& !fits ==> answers(repaid, Some(Refusal::Rule)) && final(state).ended(
                    final(log)@,
                    old(state),
                    old(log)@,
                    guard.holder(),
                    None,
                )
            },
            Err(error) => {
                &&& repaid == Err::<u64, ProtocolError>(
                    ProtocolError::TransferFromError(error, arg.amount),
                )
                &&& final(state).ended(final(log)@, old(state), old(log)@, guard.holder(), None)
            },
        },
{
    let repaid = match outcome {
        Ok(block_index) => {
            if try_record(
                state,
                log,
                Event::RepayToVault {
                    vault_id: arg.vault_id,
                    repayed_amount: TAL::new(arg.amount),
                    block_index,
                },
            ) {
                Ok(block_index)
            } else {
                Err(rule("the repayment does not fit the books"))
            }
        },
        Err(transfer_from_error) => Err(
            ProtocolError::TransferFromError(transfer_from_error, arg.amount),
        ),
    };
    guard.release(state);
    repaid
}

/// Begins the adding of margin: says which transfer takes the ckBTC from
/// the caller.
pub fn add_margin_to_vault(
    state: &mut State,
    caller: Principal,
    arg: VaultArg,
    protocol_id: Principal,
    current_time: u64,
) -> (begun: Result<(GuardPrincipal, TransferFromArgs), ProtocolError>)
    requires
        old(state).wf(),
    ensures
        final(state).wf(),
        answers(begun, old(state).add_margin_refusal(caller, arg, current_time)),
        begun is Err ==> *final(state) == *old(state),
        begun matches Ok((guard, transfer)) ==> {
            &&& guard.holder() == caller
            &&& final(state).began(old(state), caller)
            &&& takes(
                transfer,
                old(state).ckbtc_ledger_principal,
                arg.amount,
                caller,
                protocol_id,
                Some(old(state).ckbtc_ledger_fee.0),
            )
        },
{
    state.enter(caller, current_time, false)?;
    if let Err(refusal) = state.admits(caller) {
        return Err(ProtocolError::from(refusal));
    }
    if arg.amount < MIN_CKBTC_AMOUNT {
        return Err(ProtocolError::AmountTooLow { minimum_amount: MIN_CKBTC_AMOUNT });
    }
    let vault = match state.vault_id_to_vaults.get(&arg.vault_id) {
        Some(vault) => *vault,
        None => {
            return Err(rule("there is no such vault"));
        },
    };
    if caller != vault.owner {
        return Err(ProtocolError::CallerNotOwner);
    }
    let guard = state.let_in(caller)?;
    let transfer = transfer_ckbtc_from(state, CKBTC::new(arg.amount), caller, protocol_id);
    Ok((guard, transfer))
}

/// Ends the adding of margin when the ledger has answered: where the
/// ckBTC was taken, the margin is recorded. Where the ledger refused the
/// transfer for its fee, the fee that it asks for is taken over.
pub fn complete_add_margin_to_vault(
    state: &mut State,
    log: &mut Vec<Event>,
    guard: GuardPrincipal,
    arg: VaultArg,
    outcome: Result<u64, TransferFromError>,
) -> (added: Result<u64, ProtocolError>)
    requires
        old(state).wf(),
    ensures
        final(state).wf(),
        final(state).next_available_vault_id == old(state).next_available_vault_id,
        final(state).current_base_rate == old(state).current_base_rate,
        final(state).last_redemption_time == old(state).last_redemption_time,
        match outcome {
            Ok(block_index) => {
                let event = Event::AddMarginToVault {
                    vault_id: arg.vault_id,
                    margin_added: Token(arg.amount, PhantomData),
                    block_index,
                };
                let fits = old(state).books().after(event) is Some;
                &&& final(state).ckbtc_ledger_fee == old(state).ckbtc_ledger_fee
                &&& fits ==> added == Ok::<u64, ProtocolError>(block_index) && final(state).ended(
                    final(log)@,
                    old(state),
                    old(log)@,
                    guard.holder(),
                    Some(event),
                )
                &&& !fits ==> answers(added, Some(Refusal::Rule)) && final(state).ended(
                    final(log)@,
                    old(state),
                    old(log)@,
                    guard.holder(),
                    None,
                )
            },
            Err(error) => {
                &&& added == Err::<u64, ProtocolError>(
                    ProtocolError::TransferFromError(error, arg.amount),
                )
                &&& final(state).ckbtc_ledger_fee.0 == match crate::ledger::expected_fee_of_from(error) {
                    Some(fee) if fee <= u64::MAX => fee as u64,
                    _ => old(state).ckbtc_ledger_fee.0,
                }
                &&& final(state).ended(final(log)@, old(state), old(log)@, guard.holder(), None)
            },
        },
{
    let added = match outcome {
        Ok(block_index) => {
            if try_record(
                state,
                log,
                Event::AddMarginToVault {
                    vault_id: arg.vault_id,
                    margin_added: CKBTC::new(arg.amount),
                    block_index,
                },
            ) {
                Ok(block_index)
            } else {
                Err(rule("the margin does not fit the books"))
            }
        },
        Err(error) => {
            learn_fee_from(state, &error);
            Err(ProtocolError::TransferFromError(error, arg.amount))
        },
    };
    guard.release(state);
    added
}

/// How the closing of a vault goes on.
#[derive(Debug)]
pub enum Closing {
    /// The vault had no debt and is closed.
    Closed,
    /// The debt of the vault is to be paid off by this transfer first.
    PayOff { guard: GuardPrincipal, amount_to_pay_off: TAL, transfer: TransferFromArgs },
}

/// Begins the closing of a vault. A vault without debt is closed at once,
/// and its margin is owed to its owner. For a vault with debt, says which
/// transfer takes the TAL that pays the debt off from the caller, unless
/// the protocol is read-only.
pub fn close_vault(
    state: &mut State,
    log: &mut Vec<Event>,
    caller: Principal,
    vault_id: u64,
    protocol_id: Principal,
    current_time: u64,
) -> (begun: Result<Closing, ProtocolError>)
    requires
        old(state).wf(),
    ensures
        final(state).wf(),
        answers(begun, old(state).close_refusal(caller, vault_id, current_time)),
        begun is Err ==> *final(state) == *old(state) && final(log)@ == old(log)@,
        begun matches Ok(closing) ==> {
            let debt = old(state).vaults()[vault_id].borrowed_tal_amount;
            match closing {
                Closing::Closed => {
                    &&& debt.0 == 0
                    &&& final(state).same_counters(old(state))
                    &&& final(state).principal_guards@ == old(state).principal_guards@
                    &&& final(state).ended(
                        final(log)@,
                        old(state),
                        old(log)@,
                        caller,
                        Some(Event::CloseVault { vault_id, block_index: None }),
                    )
                },
                Closing::PayOff { guard, amount_to_pay_off, transfer } => {
                    &&& debt.0 != 0
                    &&& amount_to_pay_off == debt
                    &&& guard.holder() == caller
                    &&& final(state).began(old(state), caller)
                    &&& final(log)@ == old(log)@
                    &&& takes(
                        transfer,
                        old(state).taler_ledger_principal,
                        debt.0,
                        caller,
                        protocol_id,
                        None,
                    )
                },
            }
        },
{
    state.enter(caller, current_time, false)?;
    if let Err(refusal) = state.admits(caller) {
        return Err(ProtocolError::from(refusal));
    }
    let vault = match state.vault_id_to_vaults.get(&vault_id) {
        Some(vault) => *vault,
        None => {
            return Err(rule("there is no such vault"));
        },
    };
    if caller != vault.owner {
        return Err(ProtocolError::CallerNotOwner);
    }
    let amount_to_pay_off = vault.borrowed_tal_amount;
    if amount_to_pay_off.0 == 0 {
        let done = try_record(state, log, Event::CloseVault { vault_id, block_index: None });
        assert(done);
        assert(state.principal_guards@ =~= old(state).principal_guards@.remove(caller));
        return Ok(Closing::Closed);
    }
    state.validate_mode()?;
    let guard = state.let_in(caller)?;
    let transfer = transfer_tal_from(state, amount_to_pay_off, caller, protocol_id);
    Ok(Closing::PayOff { guard, amount_to_pay_off, transfer })
}

/// Ends the closing of a vault with debt when the ledger has answered:
/// where the debt was paid off, the closing is recorded, and the margin
/// of the vault is owed to its owner.
pub fn complete_close_vault(
    state: &mut State,
    log: &mut Vec<Event>,
    guard: GuardPrincipal,
    vault_id: u64,
    amount_to_pay_off: TAL,
    outcome: Result<u64, TransferFromError>,
) -> (closed: Result<Option<u64>, ProtocolError>)
    requires
        old(state).wf(),
    ensures
        final(state).wf(),
        final(state).same_counters(old(state)),
        match outcome {
            Ok(block_index) => {
                let event = Event::CloseVault { vault_id, block_index: Some(block_index) };
                let fits = old(state).books().after(event) is Some;
                &&& fits ==> closed == Ok::<Option<u64>, ProtocolError>(Some(block_index)) && final(state).ended(final(log)@, old(state), old(log)@, guard.holder(), Some(event))
                &&& !fits ==> answers(closed, Some(Refusal::Rule)) && final(state).ended(
                    final(log)@,
                    old(state),
                    old(log)@,
                    guard.holder(),
                    None,
                )
            },
            Err(error) => {
                &&& closed == Err::<Option<u64>, ProtocolError>(
                    ProtocolError::TransferFromError(error, amount_to_pay_off.0),
                )
                &&& final(state).ended(final(log)@, old(state), old(log)@, guard.holder(), None)
            },
        },
{
    let closed = match outcome {
        Ok(block_index) => {
            if try_record(state, log, Event::CloseVault { vault_id, block_index: Some(block_index) }) {
                Ok(Some(block_index))
            } else {
                Err(rule("there is no such vault any more"))
            }
        },
        Err(burn_from_error) => Err(
            ProtocolError::TransferFromError(burn_from_error, amount_to_pay_off.to_u64()),
        ),
    };
    guard.release(state);
    closed
}

/// Begins a redemption of `tal_amount`: says which transfer takes the TAL
/// from the caller, and at which price it will be redeemed. A read-only
/// protocol redeems nothing.
pub fn redeem_ckbtc(
    state: &mut State,
    caller: Principal,
    tal_amount: u64,
    protocol_id: Principal,
    current_time: u64,
) -> (begun: Result<(GuardPrincipal, UsdBtc, TransferFromArgs), ProtocolError>)
    requires
        old(state).wf(),
    ensures
        final(state).wf(),
        answers(begun, old(state).redeem_refusal(caller, tal_amount, current_time)),
        begun is Err ==> *final(state) == *old(state),
        begun matches Ok((guard, price, transfer)) ==> {
            &&& guard.holder() == caller
            &&& final(state).began(old(state), caller)
            &&& Some(price) == old(state).last_btc_rate
            &&& takes(transfer, old(state).taler_ledger_principal, tal_amount, caller, protocol_id, None)
        },
{
    state.enter(caller, current_time, true)?;
    if let Err(refusal) = state.admits(caller) {
        return Err(ProtocolError::from(refusal));
    }
    if tal_amount < MIN_TAL_AMOUNT {
        return Err(ProtocolError::AmountTooLow { minimum_amount: MIN_TAL_AMOUNT });
    }
    let current_btc_rate = match state.last_btc_rate {
        Some(rate) => rate,
        None => {
            return Err(ProtocolError::TemporarilyUnavailable("No BTC price fetched".to_string()));
        },
    };
    let guard = state.let_in(caller)?;
    let transfer = transfer_tal_from(state, TAL::new(tal_amount), caller, protocol_id);
    Ok((guard, current_btc_rate, transfer))
}

impl State {
    /// What a redemption of `tal_amount` at `current_time` charges and
    /// redeems: the fee rate, the fee, and the amount that is left to redeem.
    /// `None` where the time is before the last redemption or the arithmetic
    /// overflows.
    pub open spec fn redemption_terms(&self, tal_amount: u64, current_time: u64) -> Option<
        (Parts, u64, u64),
    > {
        if current_time < self.last_redemption_time {
            None
        } else {
            match redemption_fee(
                self.hours_since_redemption(current_time),
                tal_amount as int,
                self.debt_sum(),
                self.current_base_rate@,
            ) {
                None => None,
                Some(rate) => match token_times(tal_amount as int, rate) {
                    None => None,
                    Some(fee) => if fee > tal_amount {
                        None
                    } else {
                        Some((rate, fee, (tal_amount - fee) as u64))
                    },
                },
            }
        }
    }
}

/// Ends a redemption when the ledger has answered.
///
/// Where the TAL was taken, the fee is the redemption fee of this time,
/// which becomes the base rate; the rest is redeemed on the vaults at the
/// price at which the redemption began, and the collateral that it buys is
/// owed to the caller.
pub fn complete_redeem_ckbtc(
    state: &mut State,
    log: &mut Vec<Event>,
    guard: GuardPrincipal,
    tal_amount: u64,
    current_btc_rate: UsdBtc,
    current_time: u64,
    outcome: Result<u64, TransferFromError>,
) -> (redeemed: Result<SuccessWithFee, ProtocolError>)
    requires
        old(state).wf(),
    ensures
        final(state).wf(),
        final(state).next_available_vault_id == old(state).next_available_vault_id,
        final(state).ckbtc_ledger_fee == old(state).ckbtc_ledger_fee,
        match outcome {
            Ok(block_index) => {
                let unchanged = answers(redeemed, Some(Refusal::Rule)) && final(state).current_base_rate == old(state).current_base_rate && final(state).last_redemption_time == old(state).last_redemption_time && final(state).ended(
                    final(log)@,
                    old(state),
                    old(log)@,
                    guard.holder(),
                    None,
                );
                match old(state).redemption_terms(tal_amount, current_time) {
                    None => unchanged,
                    Some((rate, fee, rest)) => {
                        let event = Event::RedemptionOnVaults {
                            owner: guard.holder(),
                            current_btc_rate,
                            tal_amount: Token(rest, PhantomData),
                            fee_amount: Token(fee, PhantomData),
                            tal_block_index: block_index,
                        };
                        if old(state).books().after(event) is Some {
                            &&& redeemed == Ok::<SuccessWithFee, ProtocolError>(
                                SuccessWithFee { block_index, fee_amount_paid: fee },
                            )
                            &&& final(state).current_base_rate@ == rate
                            &&& final(state).last_redemption_time == current_time
                            &&& final(state).ended(
                                final(log)@,
                                old(state),
                                old(log)@,
                                guard.holder(),
                                Some(event),
                            )
                        } else {
                            unchanged
                        }
                    },
                }
            },
            Err(error) => {
                &&& redeemed == Err::<SuccessWithFee, ProtocolError>(
                    ProtocolError::TransferFromError(error, tal_amount),
                )
                &&& final(state).current_base_rate == old(state).current_base_rate
                &&& final(state).last_redemption_time == old(state).last_redemption_time
                &&& final(state).ended(final(log)@, old(state), old(log)@, guard.holder(), None)
            },
        },
{
    let caller = guard.caller();
    let redeemed = match outcome {
        Ok(block_index) => {
            let terms = if current_time < state.last_redemption_time {
                None
            } else {
                match state.get_redemption_fee(TAL::new(tal_amount), current_time) {
                    None => None,
                    Some(base_fee) => match TAL::new(tal_amount).checked_mul_ratio(base_fee) {
                        None => None,
                        Some(fee_amount) => if fee_amount.0 > tal_amount {
                            None
                        } else {
                            Some((base_fee, fee_amount))
                        },
                    },
                }
            };
            match terms {
                Some((base_fee, fee_amount)) => {
                    if try_record(
                        state,
                        log,
                        Event::RedemptionOnVaults {
                            owner: caller,
                            current_btc_rate,
                            tal_amount: TAL::new(tal_amount - fee_amount.0),
                            fee_amount,
                            tal_block_index: block_index,
                        },
                    ) {
                        state.current_base_rate = base_fee;
                        state.last_redemption_time = current_time;
                        Ok(SuccessWithFee { block_index, fee_amount_paid: fee_amount.to_u64() })
                    } else {
                        Err(rule("the redemption does not fit the books"))
                    }
                },
                None => Err(rule("the redemption fee cannot be computed")),
            }
        },
        Err(transfer_from_error) => Err(
            ProtocolError::TransferFromError(transfer_from_error, tal_amount),
        ),
    };
    guard.release(state);
    redeemed
}

} // verus!
