//! What is common to the calls of the protocol: the reasons for which a call
//! is refused, the checks that every call passes first, and what a call
//! leaves behind when it is done.

use crate::event::Event;
use crate::guard::{GuardError, GuardPrincipal};
use crate::ledger::{TransferError, TransferFromError};
use crate::principal::Principal;
use crate::recording::log_matches;
use crate::state::{Mode, State};
use crate::ProtocolError;
use vstd::prelude::*;

verus! {

/// Why a call is refused.
pub enum Refusal {
    /// The caller is anonymous.
    Anonymous,
    /// The caller has another request in flight.
    AlreadyProcessing,
    /// Too many callers have a request in flight.
    TooManyRequests,
    /// No price was ever fetched.
    NoPrice,
    /// The last price is older than ten minutes.
    StalePrice,
    /// The protocol is read-only.
    ReadOnly,
    /// The amount is below the minimum.
    AmountTooLow { minimum_amount: u64 },
    /// The caller does not own the vault.
    CallerNotOwner,
    /// A rule of the protocol forbids the call, or the books cannot take it.
    Rule,
    /// The ledger refused the transfer from the caller of this amount.
    TransferFrom { error: TransferFromError, amount: u64 },
    /// The ledger refused the transfer.
    Transfer { error: TransferError },
}

/// Whether `error` is how `refusal` is reported.
pub open spec fn refused_as(error: ProtocolError, refusal: Refusal) -> bool {
    match refusal {
        Refusal::Anonymous => error == ProtocolError::AnonymousCallerNotAllowed,
        Refusal::AlreadyProcessing => error == ProtocolError::AlreadyProcessing,
        Refusal::TooManyRequests => error matches ProtocolError::TemporarilyUnavailable(reason)
            && reason@ == "too many concurrent requests"@,
        Refusal::NoPrice => error matches ProtocolError::TemporarilyUnavailable(reason) && reason@
            == "No BTC price fetched"@,
        Refusal::StalePrice => error matches ProtocolError::TemporarilyUnavailable(reason) && reason@
            == "Last known BTC price too old"@,
        Refusal::ReadOnly => error matches ProtocolError::TemporarilyUnavailable(reason) && reason@
            == "protocol temporarly unavailable, please wait for an upgrade or for total collateral ratio to go above 100%"@,
        Refusal::AmountTooLow { minimum_amount } => error == (ProtocolError::AmountTooLow {
            minimum_amount,
        }),
        Refusal::CallerNotOwner => error == ProtocolError::CallerNotOwner,
        Refusal::Rule => error is GenericError,
        Refusal::TransferFrom { error: reason, amount } => error == ProtocolError::TransferFromError(
            reason,
            amount,
        ),
        Refusal::Transfer { error: reason } => error == ProtocolError::TransferError(reason),
    }
}

/// The refusal that a guard's refusal is.
pub open spec fn guard_refusal_as(refusal: Option<GuardError>) -> Option<Refusal> {
    match refusal {
        Some(GuardError::AlreadyProcessing) => Some(Refusal::AlreadyProcessing),
        Some(GuardError::TooManyConcurrentRequests) => Some(Refusal::TooManyRequests),
        None => None,
    }
}

/// Whether a result reports the refusal that was due, and succeeds where
/// none was.
pub open spec fn answers<T>(result: Result<T, ProtocolError>, due: Option<Refusal>) -> bool {
    match result {
        Ok(_) => due is None,
        Err(error) => due matches Some(refusal) && refused_as(error, refusal),
    }
}

/// An error for a call that a rule of the protocol forbids.
pub fn rule(reason: &str) -> (error: ProtocolError)
    ensures
        refused_as(error, Refusal::Rule),
{
    ProtocolError::GenericError(reason.to_string())
}

impl State {
    /// Why a call by `caller` at `current_time` is refused before it is
    /// looked at, if it is: the caller is anonymous, or the price is not fresh.
    pub open spec fn call_refusal(&self, caller: Principal, current_time: u64) -> Option<Refusal> {
        if caller@ == seq![crate::principal::ANONYMOUS_TAG] {
            Some(Refusal::Anonymous)
        } else if self.last_btc_timestamp is None {
            Some(Refusal::NoPrice)
        } else if !self.price_is_fresh(current_time) {
            Some(Refusal::StalePrice)
        } else {
            None
        }
    }

    /// Refuses anonymous callers, and every caller while the price is not fresh.
    pub fn validate_call(&self, caller: Principal, current_time: u64) -> (checked: Result<
        (),
        ProtocolError,
    >)
        ensures
            answers(checked, self.call_refusal(caller, current_time)),
    {
        if caller.is_anonymous() {
            return Err(ProtocolError::AnonymousCallerNotAllowed);
        }
        self.check_price_not_too_old(current_time)
    }

    /// Why a call is refused before it is looked at, if it is: for what
    /// [`Self::call_refusal`] says, or, where the call is one that a
    /// read-only protocol does not take, because the protocol is read-only.
    pub open spec fn entry_refusal(&self, caller: Principal, current_time: u64, gated: bool) -> Option<
        Refusal,
    > {
        if self.call_refusal(caller, current_time) is Some {
            self.call_refusal(caller, current_time)
        } else if gated && self.mode == Mode::ReadOnly {
            Some(Refusal::ReadOnly)
        } else {
            None
        }
    }

    /// The checks that every call passes first: the caller is not
    /// anonymous, the price is fresh, and the protocol is not read-only
    /// where the call is one that a read-only protocol does not take.
    pub fn enter(&self, caller: Principal, current_time: u64, gated: bool) -> (checked: Result<
        (),
        ProtocolError,
    >)
        ensures
            answers(checked, self.entry_refusal(caller, current_time, gated)),
    {
        self.validate_call(caller, current_time)?;
        if gated {
            self.validate_mode()?;
        }
        Ok(())
    }

    /// Refuses the calls that a read-only protocol does not take.
    pub fn validate_mode(&self) -> (checked: Result<(), ProtocolError>)
        ensures
            answers(
                checked,
                if self.mode == Mode::ReadOnly {
                    Some(Refusal::ReadOnly)
                } else {
                    None
                },
            ),
    {
        match self.mode {
            Mode::ReadOnly => Err(
                ProtocolError::TemporarilyUnavailable(
                    "protocol temporarly unavailable, please wait for an upgrade or for total collateral ratio to go above 100%".to_string(),
                )
            ),
            Mode::GeneralAvailability => Ok(()),
            Mode::Recovery => Ok(()),
        }
    }

    /// Lets `caller` in, unless it has a request in flight or too many callers have.
    pub fn let_in(&mut self, caller: Principal) -> (guard: Result<GuardPrincipal, ProtocolError>)
        requires
            old(self).wf(),
        ensures
            final(self).wf(),
            answers(guard, guard_refusal_as(old(self).guard_refusal(caller))),
            guard is Err ==> *final(self) == *old(self),
            guard matches Ok(g) ==> g.holder() == caller && final(self).began(old(self), caller),
    {
        match GuardPrincipal::new(self, caller) {
            Ok(guard) => Ok(guard),
            Err(refusal) => Err(ProtocolError::from(refusal)),
        }
    }

    /// What the beginning of a call by `caller` leaves: the caller has a
    /// request in flight, and nothing else changed.
    pub open spec fn began(&self, before: &State, caller: Principal) -> bool {
        &&& self.principal_guards@ == before.principal_guards@.insert(caller)
        &&& *self == (State { principal_guards: self.principal_guards, ..*before })
    }

    /// Whether the state has the counter of vault ids, the fee of the
    /// collateral ledger and the base rate of redemptions of `before`.
    pub open spec fn same_counters(&self, before: &State) -> bool {
        &&& self.next_available_vault_id == before.next_available_vault_id
        &&& self.ckbtc_ledger_fee == before.ckbtc_ledger_fee
        &&& self.current_base_rate == before.current_base_rate
        &&& self.last_redemption_time == before.last_redemption_time
    }

    /// What the end of a call of `holder` leaves when it recorded `event`,
    /// or nothing: the caller has no request in flight any more, the books
    /// are those after the event, and the log tells of it.
    pub open spec fn ended(
        &self,
        log: Seq<Event>,
        before: &State,
        log_before: Seq<Event>,
        holder: Principal,
        event: Option<Event>,
    ) -> bool {
        &&& self.principal_guards@ == before.principal_guards@.remove(holder)
        &&& self.mode == before.mode
        &&& self.total_collateral_ratio == before.total_collateral_ratio
        &&& self.last_btc_rate == before.last_btc_rate
        &&& self.last_btc_timestamp == before.last_btc_timestamp
        &&& self.is_timer_running == before.is_timer_running
        &&& self.is_fetching_rate == before.is_fetching_rate
        &&& match event {
            Some(event) => log == log_before.push(event) && Some(self.books())
                == before.books().after(event),
            None => log == log_before && self.books() == before.books(),
        }
        &&& log_matches(log_before, before) ==> log_matches(log, self)
    }
}

} // verus!
