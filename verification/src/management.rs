//! What the protocol asks of the services around it: the transfers that the
//! ledgers are to make, and the price that the exchange rate service is to give.

use crate::ledger::{BigNat, TransferError, TransferFromError};
use crate::numeric::{CKBTC, TAL};
use crate::principal::Principal;
use crate::state::State;
use crate::text::join;
use crate::SEC_NANOS;
use vstd::prelude::*;

verus! {

/// Represents an error from a management canister call
#[derive(Debug, Clone, PartialEq, Eq)]
pub struct CallError {
    method: String,
    reason: Reason,
}

impl CallError {
    /// The method and the reason of the error.
    pub closed spec fn parts(&self) -> (String, Reason) {
        (self.method, self.reason)
    }

    /// An error of the call of `method`.
    pub fn new(method: String, reason: Reason) -> (error: CallError)
        ensures
            error.parts() == (method, reason),
    {
        CallError { method, reason }
    }

    /// Returns the name of the method that resulted in this error.
    pub fn method(&self) -> (method: &str)
        ensures
            method@ == self.parts().0@,
    {
        self.method.as_str()
    }

    /// Returns the failure reason.
    pub fn reason(&self) -> (reason: &Reason)
        ensures
            *reason == self.parts().1,
    {
        &self.reason
    }
}

impl CallError {
    /// The error in words.
    pub fn to_string(&self) -> (text: String)
        ensures
            text@ == "management call '"@ + self.parts().0@ + "' failed: "@ + self.parts().1.text(),
    {
        let begun = join("management call '", self.method.as_str());
        let named = join(begun.as_str(), "' failed: ");
        let reason = self.reason.to_string();
        join(named.as_str(), reason.as_str())
    }
}

impl Reason {
    /// The reason in words.
    pub open spec fn text(self) -> Seq<char> {
        match self {
            Reason::QueueIsFull => "the canister queue is full"@,
            Reason::OutOfCycles => "the canister is out of cycles"@,
            Reason::CanisterError(msg) => "canister error: "@ + msg@,
            Reason::Rejected(msg) => "the management canister rejected the call: "@ + msg@,
        }
    }

    /// The reason in words.
    pub fn to_string(&self) -> (text: String)
        ensures
            text@ == self.text(),
    {
        match self {
            Reason::QueueIsFull => "the canister queue is full".to_string(),
            Reason::OutOfCycles => "the canister is out of cycles".to_string(),
            Reason::CanisterError(msg) => join("canister error: ", msg.as_str()),
            Reason::Rejected(msg) => join(
                "the management canister rejected the call: ",
                msg.as_str(),
            ),
        }
    }
}

#[derive(Debug, Clone, PartialEq, Eq)]
/// The reason for the management call failure.
pub enum Reason {
    /// Failed to send a signature request because the local output queue is
    /// full.
    QueueIsFull,
    /// The canister does not have enough cycles to submit the request.
    OutOfCycles,
    /// The call failed with an error.
    CanisterError(String),
    /// The management canister rejected the signature request (not enough
    /// cycles, the ECDSA subnet is overloaded, etc.).
    Rejected(String),
}

/// The data that the exchange rate service is late by, in seconds.
pub const XRC_MARGIN_SEC: u64 = 60;

/// What a price fetch costs, in cycles.
pub const XRC_CALL_COST_CYCLES: u64 = 10_000_000_000;

/// A transfer that a ledger is to make from the protocol's account.
#[derive(Debug, Clone, PartialEq, Eq)]
pub struct TransferArg {
    /// The ledger that is to make the transfer.
    pub ledger: Principal,
    pub to: Principal,
    pub fee: Option<BigNat>,
    pub amount: BigNat,
}

/// A transfer that a ledger is to make to the protocol's account on behalf
/// of the owner of another.
#[derive(Debug, Clone, PartialEq, Eq)]
pub struct TransferFromArgs {
    /// The ledger that is to make the transfer.
    pub ledger: Principal,
    pub from: Principal,
    pub to: Principal,
    pub amount: BigNat,
    pub fee: Option<BigNat>,
}

/// The model of an optional number.
pub open spec fn optional_value(number: Option<BigNat>) -> Option<nat> {
    match number {
        Some(n) => Some(n@),
        None => None,
    }
}

/// Whether `transfer` moves `amount` from the protocol to `to` on `ledger`
/// at `fee`.
pub open spec fn sends(transfer: TransferArg, ledger: Principal, amount: u64, to: Principal, fee: Option<u64>) -> bool {
    &&& transfer.ledger == ledger
    &&& transfer.to == to
    &&& transfer.amount@ == amount
    &&& optional_value(transfer.fee) == match fee {
        Some(fee) => Some(fee as nat),
        None => None,
    }
}

/// Whether `transfer` moves `amount` from `from` to the protocol on
/// `ledger` at `fee`.
pub open spec fn takes(
    transfer: TransferFromArgs,
    ledger: Principal,
    amount: u64,
    from: Principal,
    protocol_id: Principal,
    fee: Option<u64>,
) -> bool {
    &&& transfer.ledger == ledger
    &&& transfer.from == from
    &&& transfer.to == protocol_id
    &&& transfer.amount@ == amount
    &&& optional_value(transfer.fee) == match fee {
        Some(fee) => Some(fee as nat),
        None => None,
    }
}

/// The time for which a price is asked at `now`: a minute earlier, in
/// seconds. `None` in the first minute of time.
pub fn fetch_btc_price(now: u64) -> (timestamp_sec: Option<u64>)
    ensures
        timestamp_sec == if now / SEC_NANOS >= XRC_MARGIN_SEC {
            Some((now / SEC_NANOS - XRC_MARGIN_SEC) as u64)
        } else {
            None
        },
{
    (now / SEC_NANOS).checked_sub(XRC_MARGIN_SEC)
}

/// The transfer that mints `amount` TAL to `to`.
pub fn mint_tal(state: &State, amount: TAL, to: Principal) -> (transfer: TransferArg)
    ensures
        sends(transfer, state.taler_ledger_principal, amount.0, to, None),
{
    TransferArg { ledger: state.taler_ledger_principal, to, fee: None, amount: amount.to_nat() }
}

/// The transfer that takes `amount` TAL from `caller` to the protocol.
pub fn transfer_tal_from(state: &State, amount: TAL, caller: Principal, protocol_id: Principal) -> (transfer:
    TransferFromArgs)
    ensures
        takes(transfer, state.taler_ledger_principal, amount.0, caller, protocol_id, None),
{
    TransferFromArgs {
        ledger: state.taler_ledger_principal,
        from: caller,
        to: protocol_id,
        amount: amount.to_nat(),
        fee: None,
    }
}

/// The transfer that takes `amount` ckBTC from `caller` to the protocol,
/// at the fee that the ledger is known to charge.
pub fn transfer_ckbtc_from(state: &State, amount: CKBTC, caller: Principal, protocol_id: Principal) -> (transfer:
    TransferFromArgs)
    ensures
        takes(
            transfer,
            state.ckbtc_ledger_principal,
            amount.0,
            caller,
            protocol_id,
            Some(state.ckbtc_ledger_fee.0),
        ),
{
    TransferFromArgs {
        ledger: state.ckbtc_ledger_principal,
        from: caller,
        to: protocol_id,
        amount: amount.to_nat(),
        fee: Some(state.ckbtc_ledger_fee.to_nat()),
    }
}

/// The transfer that sends `amount` ckBTC to `to`, at the fee that the
/// ledger is known to charge.
pub fn transfer_ckbtc(state: &State, amount: CKBTC, to: Principal) -> (transfer: TransferArg)
    ensures
        sends(transfer, state.ckbtc_ledger_principal, amount.0, to, Some(state.ckbtc_ledger_fee.0)),
{
    TransferArg {
        ledger: state.ckbtc_ledger_principal,
        to,
        fee: Some(state.ckbtc_ledger_fee.to_nat()),
        amount: amount.to_nat(),
    }
}

/// What a call that did not reach the ledger is reported as.
pub fn transfer_not_delivered(code: u64, message: String) -> (error: TransferError)
    ensures
        error matches TransferError::GenericError { error_code, message: reported } && error_code@
            == code && reported == message,
{
    TransferError::GenericError { error_code: BigNat::from_u64(code), message }
}

/// What a call on behalf of an owner that did not reach the ledger is reported as.
pub fn transfer_from_not_delivered(code: u64, message: String) -> (error: TransferFromError)
    ensures
        error matches TransferFromError::GenericError { error_code, message: reported }
            && error_code@ == code && reported == message,
{
    TransferFromError::GenericError { error_code: BigNat::from_u64(code), message }
}

/// Takes over the fee that the collateral ledger asks for, where it
/// refused a transfer for its fee and the fee fits.
pub fn learn_fee(state: &mut State, error: &TransferError)
    ensures
        *final(state) == (State { ckbtc_ledger_fee: final(state).ckbtc_ledger_fee, ..*old(state) }),
        final(state).ckbtc_ledger_fee.0 == match crate::ledger::expected_fee_of(*error) {
            Some(fee) if fee <= u64::MAX => fee as u64,
            _ => old(state).ckbtc_ledger_fee.0,
        },
{
    if let TransferError::BadFee { expected_fee } = error {
        if let Some(fee) = expected_fee.to_u64() {
            state.ckbtc_ledger_fee = CKBTC::new(fee);
        }
    }
}

/// Takes over the fee that the collateral ledger asks for, where it
/// refused a transfer on behalf of an owner for its fee and the fee fits.
pub fn learn_fee_from(state: &mut State, error: &TransferFromError)
    ensures
        *final(state) == (State { ckbtc_ledger_fee: final(state).ckbtc_ledger_fee, ..*old(state) }),
        final(state).ckbtc_ledger_fee.0 == match crate::ledger::expected_fee_of_from(*error) {
            Some(fee) if fee <= u64::MAX => fee as u64,
            _ => old(state).ckbtc_ledger_fee.0,
        },
{
    if let TransferFromError::BadFee { expected_fee } = error {
        if let Some(fee) = expected_fee.to_u64() {
            state.ckbtc_ledger_fee = CKBTC::new(fee);
        }
    }
}

} // verus!
