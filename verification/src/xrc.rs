//! The oracle: what a fetched price does to the protocol.

use crate::decimal::{decimal_div, pow10, quotient, scaled, whole, Fixed, Parts};
use crate::event::Event;
use crate::numeric::UsdBtc;
use crate::redemption::lemma_pow10_positive;
use crate::solvency::{checked, mode_at, sweep, VaultCheck};
use crate::state::{Mode, State};
use crate::SEC_NANOS;
use vstd::prelude::*;

verus! {

/// The seconds between two fetches of the price.
pub const FETCHING_BTC_RATE_INTERVAL: u64 = 60;

/// A price as the exchange rate service gives it: the rate in units of
/// 10^-decimals dollars, and the time of the rate in seconds.
#[derive(Clone, Copy, Debug, PartialEq, Eq)]
pub struct ExchangeRate {
    pub rate: u64,
    pub decimals: u32,
    pub timestamp: u64,
}

/// The price below which something is wrong with the oracle: 1000 dollars.
pub open spec fn lowest_sane_price() -> Parts {
    whole(1000)
}

/// The price and the time in nanoseconds that a quote gives. `None` where
/// the power of ten, the division or the time overflows.
pub open spec fn quoted(quote: ExchangeRate) -> Option<(Parts, u64)> {
    if pow10(quote.decimals as nat) > u64::MAX || quote.timestamp * SEC_NANOS > u64::MAX {
        None
    } else {
        match quotient(whole(quote.rate as int), whole(pow10(quote.decimals as nat))) {
            None => None,
            Some(price) => Some((price, (quote.timestamp * SEC_NANOS) as u64)),
        }
    }
}

/// What a fetch gives to read: the price and the time of its quote, if it
/// brought one that can be read.
pub open spec fn quote_of(fetched: Option<ExchangeRate>) -> Option<(Parts, u64)> {
    match fetched {
        Some(quote) => quoted(quote),
        None => None,
    }
}

/// Powers of ten grow.
pub proof fn lemma_pow10_grows(low: nat, high: nat)
    requires
        low <= high,
    ensures
        pow10(low) <= pow10(high),
    decreases high - low,
{
    if low < high {
        lemma_pow10_grows(low, (high - 1) as nat);
        lemma_pow10_positive((high - 1) as nat);
    }
}

/// Reads the price and the time of a quote.
pub fn read_quote(quote: &ExchangeRate) -> (read: Option<(UsdBtc, u64)>)
    ensures
        match read {
            Some((price, time)) => Some((price@, time)),
            None => None,
        } == quoted(*quote),
{
    let mut unit: u64 = 1;
    let mut i: u32 = 0;
    while i < quote.decimals
        invariant
            0 <= i <= quote.decimals,
            unit == pow10(i as nat),
        decreases quote.decimals - i,
    {
        unit = match unit.checked_mul(10) {
            Some(next) => next,
            None => {
                proof {
                    lemma_pow10_grows((i + 1) as nat, quote.decimals as nat);
                }
                return None;
            },
        };
        i = i + 1;
    }
    let time = quote.timestamp.checked_mul(SEC_NANOS)?;
    let price = decimal_div(&Fixed::from_u64(quote.rate), &Fixed::from_u64(unit))?;
    Some((UsdBtc::new(price), time))
}

/// The model of an optional price.
pub open spec fn price_view(price: Option<UsdBtc>) -> Option<Parts> {
    match price {
        Some(price) => Some(price@),
        None => None,
    }
}

impl State {
    /// The last price and its time after `quote` was fetched: those of the
    /// quote where it is newer than the last, or the first.
    pub open spec fn price_after(&self, quote: (Parts, u64)) -> (Option<Parts>, Option<u64>) {
        match self.last_btc_timestamp {
            Some(last) if last >= quote.1 => (price_view(self.last_btc_rate), self.last_btc_timestamp),
            _ => (Some(quote.0), Some(quote.1)),
        }
    }

    /// What a fetch of the price leaves before the vaults are looked at.
    ///
    /// A quote below 1000 dollars makes the protocol read-only. A quote that
    /// is newer than the last price takes its place. Then, where there is a
    /// price, the collateral ratio of the protocol at it is set, and the mode
    /// that follows from the ratio.
    pub open spec fn priced(&self, quote: Option<(Parts, u64)>, after: &State) -> bool {
        let last = match quote {
            Some(quote) => self.price_after(quote),
            None => (price_view(self.last_btc_rate), self.last_btc_timestamp),
        };
        let mode = match quote {
            Some(quote) if scaled(quote.0) < scaled(lowest_sane_price()) => Mode::ReadOnly,
            _ => self.mode,
        };
        &&& price_view(after.last_btc_rate) == last.0
        &&& after.last_btc_timestamp == last.1
        &&& match last.0 {
            Some(price) => {
                &&& Some(after.total_collateral_ratio@) == self.collateral_ratio_at(price)
                &&& after.mode == mode_at(after.total_collateral_ratio@)
            },
            None => after.total_collateral_ratio == self.total_collateral_ratio && after.mode == mode,
        }
        &&& *after == (State {
            last_btc_rate: after.last_btc_rate,
            last_btc_timestamp: after.last_btc_timestamp,
            total_collateral_ratio: after.total_collateral_ratio,
            mode: after.mode,
            ..*self
        })
    }

    /// Whether a fetch of the price is defined: the quote can be read, and
    /// the collateral ratio of the protocol at the price that will be the
    /// last is defined.
    pub open spec fn can_price(&self, fetched: Option<ExchangeRate>) -> bool {
        let quote = quote_of(fetched);
        let last = match quote {
            Some(quote) => self.price_after(quote).0,
            None => price_view(self.last_btc_rate),
        };
        &&& fetched is Some ==> quote is Some
        &&& last matches Some(price) ==> self.collateral_ratio_at(price) is Some
    }

    /// The price that is the last once `fetched` was taken: that of the
    /// quote where it is newer than the last, else the last.
    pub open spec fn price_with(&self, fetched: Option<ExchangeRate>) -> Option<Parts> {
        match quote_of(fetched) {
            Some(quote) => self.price_after(quote).0,
            None => price_view(self.last_btc_rate),
        }
    }

    /// Whether a fetch of the price is carried out: the price can be taken,
    /// and unless the collateral ratio of the protocol at it makes the
    /// protocol read-only, the collateral ratio of every vault at it is
    /// defined.
    pub open spec fn can_fetch(&self, fetched: Option<ExchangeRate>) -> bool {
        &&& self.can_price(fetched)
        &&& match self.price_with(fetched) {
            Some(price) => {
                let mode = mode_at(self.collateral_ratio_at(price)->0);
                mode != Mode::ReadOnly ==> self.unhealthy_at(mode.minimum_liquidation_ratio(), price) is Some
            },
            None => true,
        }
    }

    /// Takes a fetched price, or the failure to fetch one, into the state,
    /// where this is defined.
    pub fn take_price(&mut self, fetched: Option<ExchangeRate>) -> (taken: bool)
        requires
            old(self).wf(),
        ensures
            final(self).wf(),
            taken == old(self).can_price(fetched),
            !taken ==> *final(self) == *old(self),
            taken ==> old(self).priced(quote_of(fetched), final(self)),
    {
        let quote = match fetched {
            Some(quote) => match read_quote(&quote) {
                Some(read) => Some(read),
                None => {
                    return false;
                },
            },
            None => None,
        };
        let newer = match quote {
            Some((price, time)) => match self.last_btc_timestamp {
                Some(last) => if last < time {
                    Some((price, time))
                } else {
                    None
                },
                None => Some((price, time)),
            },
            None => None,
        };
        let last_btc_rate = match newer {
            Some((price, _)) => Some(price),
            None => self.last_btc_rate,
        };
        let ratio = match last_btc_rate {
            Some(price) => match self.compute_total_collateral_ratio(price) {
                Some(ratio) => Some(ratio),
                None => {
                    return false;
                },
            },
            None => None,
        };
        if let Some((price, _)) = quote {
            if price.lt(&UsdBtc::new(Fixed::from_u64(1000))) {
                self.mode = Mode::ReadOnly;
            }
        }
        if let Some((price, time)) = newer {
            self.last_btc_rate = Some(price);
            self.last_btc_timestamp = Some(time);
        }
        if let Some(price) = self.last_btc_rate {
            let updated = self.update_total_collateral_ratio_and_mode(price);
            assert(updated);
        }
        true
    }
}

/// What the protocol does when a price was fetched, or could not be
/// fetched: it takes the price, and unless it is read-only then, it looks at
/// every vault and has the unhealthy ones taken over.
///
/// Returns what became of the unhealthy vaults, which are none where there
/// is no price yet or the protocol is read-only; or `None`, and changes
/// nothing, where the price cannot be taken or a collateral ratio is undefined.
pub fn fetch_btc_rate(state: &mut State, log: &mut Vec<Event>, fetched: Option<ExchangeRate>) -> (checks:
    Option<Vec<VaultCheck>>)
    requires
        old(state).wf(),
    ensures
        final(state).wf(),
        crate::recording::log_matches(old(log)@, old(state)) ==> crate::recording::log_matches(
            final(log)@,
            final(state),
        ),
        checks is Some <==> old(state).can_fetch(fetched),
        checks is None ==> *final(state) == *old(state) && final(log)@ == old(log)@,
        checks matches Some(reports) ==> old(state).can_price(fetched) && exists|priced: State| #[trigger]
            old(state).priced(quote_of(fetched), &priced) && if priced.mode != Mode::ReadOnly && priced.last_btc_rate is Some {
                checked(
                    &priced,
                    old(log)@,
                    final(state),
                    final(log)@,
                    Some(reports@),
                    priced.last_btc_rate->0,
                )
            } else {
                *final(state) == priced && final(log)@ == old(log)@ && reports@.len() == 0
            },
{
    let ghost quote = quote_of(fetched);
    let last_btc_rate = match fetched {
        Some(quote) => match read_quote(&quote) {
            Some((price, time)) => match state.last_btc_timestamp {
                Some(last) if last >= time => state.last_btc_rate,
                _ => Some(price),
            },
            None => {
                return None;
            },
        },
        None => state.last_btc_rate,
    };
    let price = match last_btc_rate {
        Some(price) => price,
        None => {
            if state.take_price(fetched) {
                assert(old(state).priced(quote, state));
                return Some(Vec::new());
            } else {
                return None;
            }
        },
    };
    let ratio = match state.compute_total_collateral_ratio(price) {
        Some(ratio) => ratio,
        None => {
            return None;
        },
    };
    let mode = if ratio.lt(&crate::solvency::one()) {
        Mode::ReadOnly
    } else if ratio.lt(&crate::recovery_collateral_ratio()) {
        Mode::Recovery
    } else {
        Mode::GeneralAvailability
    };
    proof {
        lemma_pow10_positive(27);
    }
    if mode == Mode::ReadOnly {
        let taken = state.take_price(fetched);
        assert(taken);
        assert(old(state).priced(quote, state));
        return Some(Vec::new());
    }
    let unhealthy_vaults = state.unhealthy_vaults(mode.get_minimum_liquidation_collateral_ratio(), price)?;
    let any_healthy = unhealthy_vaults.len() < state.vault_id_to_vaults.len();
    let taken = state.take_price(fetched);
    assert(taken);
    let ghost priced = *state;
    assert(old(state).priced(quote, &priced));
    proof {
        crate::numeric::lemma_amount_determined_by_view(priced.last_btc_rate->0, price);
    }
    let checks = sweep(state, log, &unhealthy_vaults, any_healthy, price);
    assert(checked(&priced, old(log)@, state, log@, Some(checks@), priced.last_btc_rate->0));
    Some(checks)
}

} // verus!
