//! The core of an over-collateralised stablecoin protocol.
//!
//! Owners lock collateral (ckBTC) in vaults and borrow a dollar-pegged token
//! (TAL) against it. A pool of TAL absorbs the debt of vaults whose
//! collateral no longer covers it, in exchange for their collateral; holders
//! of TAL redeem it for collateral at the price of the oracle. Every change
//! of the state is recorded as an event, and the state can be rebuilt from
//! the events.
//!
//! The library decides and keeps the books. It moves no tokens and asks no
//! oracle: it says which transfer is to be made and takes the outcome.

pub mod bookkeeping;
pub mod calls;
pub mod decimal;
pub mod event;
pub mod guard;
pub mod id_map;
pub mod invariants;
pub mod ledger;
pub mod liquidation;
pub mod liquidity_pool;
pub mod management;
pub mod numeric;
pub mod ordered_map;
pub mod principal;
pub mod queries;
pub mod recording;
pub mod redemption;
pub mod redistribution;
pub mod replay;
pub mod solvency;
pub mod state;
pub mod sums;
pub mod text;
pub mod transfers;
pub mod vault;
pub mod xrc;

use crate::ledger::{TransferError, TransferFromError};
use crate::numeric::{Ratio, UsdBtc, TAL};
use crate::principal::Principal;
use crate::state::Mode;
use crate::vault::Vault;
use vstd::prelude::*;

verus! {

/// Nanoseconds in a second.
pub const SEC_NANOS: u64 = 1_000_000_000;

/// The number of 10^-8 units in one token.
pub const E8S: u64 = 100_000_000;

/// The smallest amount of TAL that can be provided to or withdrawn from the pool.
pub const MIN_LIQUIDITY_AMOUNT: u64 = 1_000_000_000;

/// The smallest margin of ckBTC that can be put into a vault.
pub const MIN_CKBTC_AMOUNT: u64 = 100_000;

/// The smallest amount of TAL that can be borrowed, repaid or redeemed.
pub const MIN_TAL_AMOUNT: u64 = 1_000_000_000;

/// The collateral ratio below which the protocol is in recovery: 1.5.
pub fn recovery_collateral_ratio() -> (ratio: Ratio)
    ensures
        ratio@ == recovery_ratio(),
{
    Ratio::new(crate::decimal::Fixed::new(15, 1).unwrap())
}

/// The collateral ratio below which a vault is liquidated: 1.1.
pub fn minimum_collateral_ratio() -> (ratio: Ratio)
    ensures
        ratio@ == minimum_ratio(),
{
    Ratio::new(crate::decimal::Fixed::new(11, 1).unwrap())
}

/// The model of 1.5.
pub open spec fn recovery_ratio() -> (int, int) {
    (15, 1)
}

/// The model of 1.1.
pub open spec fn minimum_ratio() -> (int, int) {
    (11, 1)
}

/// The model of the number one as the protocol writes it, 1.0.
pub open spec fn unit_ratio() -> (int, int) {
    (10, 1)
}

/// What the protocol is started or upgraded with.
#[derive(Clone, Copy, Debug, PartialEq, Eq)]
pub enum ProtocolArg {
    Init(InitArg),
    Upgrade(UpgradeArg),
}

/// What the protocol is started with.
#[derive(Clone, Copy, Debug, PartialEq, Eq)]
pub struct InitArg {
    pub xrc_principal: Principal,
    pub taler_ledger_principal: Principal,
    pub ckbtc_ledger_principal: Principal,
    pub fee_e8s: u64,
    pub developer_principal: Principal,
}

/// What an upgrade may change.
#[derive(Clone, Copy, Debug, PartialEq, Eq)]
pub struct UpgradeArg {
    pub mode: Option<Mode>,
}

/// The answer to a call that was charged a fee.
#[derive(Clone, Copy, Debug, PartialEq, Eq)]
pub struct SuccessWithFee {
    pub block_index: u64,
    pub fee_amount_paid: u64,
}

/// A range of events.
#[derive(Clone, Copy, Debug, PartialEq, Eq)]
pub struct GetEventsArg {
    pub start: u64,
    pub length: u64,
}

/// Why the protocol refused a call.
#[derive(Clone, Debug, PartialEq, Eq)]
pub enum ProtocolError {
    TransferFromError(TransferFromError, u64),
    TransferError(TransferError),
    TemporarilyUnavailable(String),
    AlreadyProcessing,
    AnonymousCallerNotAllowed,
    CallerNotOwner,
    AmountTooLow { minimum_amount: u64 },
    GenericError(String),
}

/// The value of `margin` at `price` in proportion to `debt`, and the
/// largest number where there is no debt. `None` where the arithmetic
/// overflows.
pub open spec fn ratio_at(margin: int, debt: int, price: (int, int)) -> Option<(int, int)> {
    if debt == 0 {
        Some(crate::decimal::whole(crate::decimal::MAX_MANTISSA as int))
    } else {
        match crate::numeric::token_times(margin, price) {
            None => None,
            Some(value) => crate::numeric::proportion(value as int, debt),
        }
    }
}

/// The collateral ratio of a vault at a price: the value of its margin in
/// proportion to its debt.
pub open spec fn collateral_ratio(vault: Vault, price: (int, int)) -> Option<(int, int)> {
    ratio_at(vault.ckbtc_margin_amount.0 as int, vault.borrowed_tal_amount.0 as int, price)
}

/// The collateral ratio of a vault at a price.
pub fn compute_collateral_ratio(vault: &Vault, btc_rate: UsdBtc) -> (ratio: Option<Ratio>)
    ensures
        crate::numeric::amount_value(ratio) == collateral_ratio(*vault, btc_rate@),
{
    if vault.borrowed_tal_amount.0 == 0 {
        return Some(Ratio::new(crate::decimal::Fixed::max_value()));
    }
    let margin_value: TAL = vault.ckbtc_margin_amount.checked_mul_rate(btc_rate)?;
    margin_value.checked_div(vault.borrowed_tal_amount)
}

} // verus!
