//! Guards: marks in the state that keep a caller from having two requests
//! in flight, and the two periodic tasks from running twice at a time.

use crate::principal::Principal;
use crate::state::State;
use crate::ProtocolError;
use vstd::prelude::*;
use vstd::std_specs::convert::FromSpecImpl;

verus! {

/// The largest number of callers that can have a request in flight.
pub const MAX_CONCURRENT: usize = 100;

/// Guards a block from executing twice when called by the same user and from being
/// executed [MAX_CONCURRENT] or more times in parallel.
#[must_use]
#[derive(Debug)]
pub struct GuardPrincipal {
    principal: Principal,
}

/// Why a caller was not let in.
#[derive(Clone, Copy, Debug, PartialEq, Eq, Structural)]
pub enum GuardError {
    AlreadyProcessing,
    TooManyConcurrentRequests,
}

impl From<GuardError> for ProtocolError {
    fn from(e: GuardError) -> (error: Self)
        ensures
            reports(error, e),
    {
        match e {
            GuardError::AlreadyProcessing => Self::AlreadyProcessing,
            GuardError::TooManyConcurrentRequests => Self::TemporarilyUnavailable(
                "too many concurrent requests".to_string(),
            ),
        }
    }
}

impl FromSpecImpl<GuardError> for ProtocolError {
    open spec fn obeys_from_spec() -> bool {
        false
    }

    open spec fn from_spec(e: GuardError) -> Self {
        ProtocolError::AlreadyProcessing
    }
}

/// Whether `error` is what a refusal by a guard is reported as.
pub open spec fn reports(error: ProtocolError, refusal: GuardError) -> bool {
    match refusal {
        GuardError::AlreadyProcessing => error == ProtocolError::AlreadyProcessing,
        GuardError::TooManyConcurrentRequests => error matches ProtocolError::TemporarilyUnavailable(reason)
            && reason@ == "too many concurrent requests"@,
    }
}

impl State {
    /// The number of callers with a request in flight.
    pub open spec fn guard_count(&self) -> nat {
        self.principal_guards.listing().len()
    }
}

impl State {
    /// Why a guard would not let `principal` in, if it would not.
    pub open spec fn guard_refusal(&self, principal: Principal) -> Option<GuardError> {
        if self.principal_guards@.contains(principal) {
            Some(GuardError::AlreadyProcessing)
        } else if self.guard_count() >= MAX_CONCURRENT {
            Some(GuardError::TooManyConcurrentRequests)
        } else {
            None
        }
    }

    /// Says whether a guard would let `principal` in, and takes none.
    pub fn admits(&self, principal: Principal) -> (admitted: Result<(), GuardError>)
        requires
            self.wf(),
        ensures
            admitted == match self.guard_refusal(principal) {
                Some(refusal) => Err::<(), GuardError>(refusal),
                None => Ok(()),
            },
    {
        if self.principal_guards.contains(&principal) {
            return Err(GuardError::AlreadyProcessing);
        }
        if self.principal_guards.len() >= MAX_CONCURRENT {
            return Err(GuardError::TooManyConcurrentRequests);
        }
        Ok(())
    }
}

impl GuardPrincipal {
    /// The caller that the guard stands for.
    pub closed spec fn holder(&self) -> Principal {
        self.principal
    }

    /// Attempts to create a new guard for the current block. Fails if there is
    /// already a pending request for the specified [principal] or if there
    /// are at least [MAX_CONCURRENT] pending requests.
    pub fn new(state: &mut State, principal: Principal) -> (guard: Result<Self, GuardError>)
        requires
            old(state).wf(),
        ensures
            final(state).wf(),
            match guard {
                Ok(guard) => {
                    &&& !old(state).principal_guards@.contains(principal)
                    &&& old(state).guard_count() < MAX_CONCURRENT
                    &&& guard.holder() == principal
                    &&& final(state).principal_guards@ == old(state).principal_guards@.insert(principal)
                    &&& *final(state) == (State {
                        principal_guards: final(state).principal_guards,
                        ..*old(state)
                    })
                },
                Err(GuardError::AlreadyProcessing) => {
                    &&& old(state).principal_guards@.contains(principal)
                    &&& *final(state) == *old(state)
                },
                Err(GuardError::TooManyConcurrentRequests) => {
                    &&& !old(state).principal_guards@.contains(principal)
                    &&& old(state).guard_count() >= MAX_CONCURRENT
                    &&& *final(state) == *old(state)
                },
            },
    {
        if state.principal_guards.contains(&principal) {
            return Err(GuardError::AlreadyProcessing);
        }
        if state.principal_guards.len() >= MAX_CONCURRENT {
            return Err(GuardError::TooManyConcurrentRequests);
        }
        state.principal_guards.insert(principal);
        Ok(Self { principal })
    }

    /// The caller that the guard stands for.
    pub fn caller(&self) -> (principal: Principal)
        ensures
            principal == self.holder(),
    {
        self.principal
    }

    /// Lets the caller in again.
    pub fn release(self, state: &mut State)
        requires
            old(state).wf(),
        ensures
            final(state).wf(),
            final(state).principal_guards@ == old(state).principal_guards@.remove(self.holder()),
            *final(state) == (State { principal_guards: final(state).principal_guards, ..*old(state) }),
    {
        state.principal_guards.remove(&self.principal);
    }
}

/// Marks that pending transfers are being processed.
#[must_use]
#[derive(Debug)]
pub struct TimerLogicGuard(());

impl TimerLogicGuard {
    /// Takes the mark, unless it is taken.
    pub fn new(state: &mut State) -> (guard: Option<Self>)
        ensures
            guard is Some <==> !old(state).is_timer_running,
            *final(state) == (State { is_timer_running: true, ..*old(state) }),
    {
        if state.is_timer_running {
            return None;
        }
        state.is_timer_running = true;
        Some(TimerLogicGuard(()))
    }

    /// Gives the mark back.
    pub fn release(self, state: &mut State)
        ensures
            *final(state) == (State { is_timer_running: false, ..*old(state) }),
    {
        state.is_timer_running = false;
    }
}

/// Marks that a price is being fetched.
#[must_use]
#[derive(Debug)]
pub struct FetchXrcGuard(());

impl FetchXrcGuard {
    /// Takes the mark, unless it is taken.
    pub fn new(state: &mut State) -> (guard: Option<Self>)
        ensures
            guard is Some <==> !old(state).is_fetching_rate,
            *final(state) == (State { is_fetching_rate: true, ..*old(state) }),
    {
        if state.is_fetching_rate {
            return None;
        }
        state.is_fetching_rate = true;
        Some(FetchXrcGuard(()))
    }

    /// Gives the mark back.
    pub fn release(self, state: &mut State)
        ensures
            *final(state) == (State { is_fetching_rate: false, ..*old(state) }),
    {
        state.is_fetching_rate = false;
    }
}

} // verus!
