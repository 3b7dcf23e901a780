//! The state of the protocol and the ways in which it changes.

use crate::id_map::{IdMap, IdSet};
use crate::decimal::{quotient, whole, Fixed, Parts};
use crate::numeric::{Ratio, Token, UsdBtc, CKBTC, TAL};
use crate::ordered_map::{OrdMap, OrdSet};
use crate::principal::Principal;
use crate::sums::{
    lemma_sum_by_all, lemma_sum_by_prefix, lemma_sum_by_take, nowhere_negative, sum_by,
};
use crate::vault::Vault;
use crate::{minimum_collateral_ratio, minimum_ratio, recovery_collateral_ratio, recovery_ratio};
use crate::{InitArg, ProtocolError, UpgradeArg, E8S};
use vstd::prelude::*;
use vstd::std_specs::cmp::PartialEqSpecImpl;

verus! {

/// Controls which operations the protocol can perform.
#[derive(Clone, Copy, Debug, PartialEq, Eq, Structural)]
pub enum Mode {
    /// Protocol's state is read-only.
    ReadOnly,
    /// No restrictions on the protocol interactions.
    GeneralAvailability,
    /// The protocols tries to get back to a total
    /// collateral ratio above 150%
    Recovery,
}

/// The fee of the collateral ledger that the protocol starts with.
pub const CKBTC_TRANSFER_FEE: u64 = 10;

/// The age beyond which a price is too old to act on: ten minutes.
pub const TEN_MINS_NANOS: u64 = 600_000_000_000;

impl Mode {
    pub fn is_available(&self) -> (available: bool)
        ensures
            available == (*self != Mode::ReadOnly),
    {
        match self {
            Mode::ReadOnly => false,
            Mode::GeneralAvailability => true,
            Mode::Recovery => true,
        }
    }

    /// The ratio below which a vault is liquidated in this mode.
    pub open spec fn minimum_liquidation_ratio(self) -> Parts {
        if self == Mode::Recovery {
            recovery_ratio()
        } else {
            minimum_ratio()
        }
    }

    pub fn get_minimum_liquidation_collateral_ratio(&self) -> (ratio: Ratio)
        ensures
            ratio@ == self.minimum_liquidation_ratio(),
    {
        match self {
            Mode::ReadOnly => minimum_collateral_ratio(),
            Mode::GeneralAvailability => minimum_collateral_ratio(),
            Mode::Recovery => recovery_collateral_ratio(),
        }
    }

    /// The name of the mode.
    pub fn to_string(&self) -> (name: String)
        ensures
            name@ == match self {
                Mode::ReadOnly => "Read-only"@,
                Mode::GeneralAvailability => "General availability"@,
                Mode::Recovery => "Recovery"@,
            },
    {
        match self {
            Mode::ReadOnly => "Read-only".to_string(),
            Mode::GeneralAvailability => "General availability".to_string(),
            Mode::Recovery => "Recovery".to_string(),
        }
    }
}

impl Default for Mode {
    fn default() -> (mode: Self)
        ensures
            mode == Mode::GeneralAvailability,
    {
        Self::GeneralAvailability
    }
}

pub type VaultId = u64;

/// Collateral that is owed to an owner and not yet sent.
#[derive(Clone, Copy, Debug)]
pub struct PendingMarginTransfer {
    pub owner: Principal,
    pub margin: CKBTC,
}

impl PartialEq for PendingMarginTransfer {
    fn eq(&self, other: &Self) -> (equal: bool) {
        self.owner == other.owner && self.margin.0 == other.margin.0
    }
}

impl Eq for PendingMarginTransfer {}

impl PartialEqSpecImpl for PendingMarginTransfer {
    open spec fn obeys_eq_spec() -> bool {
        true
    }

    open spec fn eq_spec(&self, other: &Self) -> bool {
        *self == *other
    }
}

/// The state of the protocol.
#[derive(Debug)]
pub struct State {
    /// Maps vault id to vault.
    pub vault_id_to_vaults: IdMap<Vault>,
    /// Maps vault owner to vault ids.
    pub principal_to_vault_ids: OrdMap<Principal, IdSet>,
    /// Maps liquidity provider to provided TAL liquidity amount.
    pub liquidity_pool: OrdMap<Principal, TAL>,
    /// Returns of the liquidity pool, in ckBTC.
    pub liquidity_returns: OrdMap<Principal, CKBTC>,
    /// The margins of closed vaults that are owed to their owners.
    pub pending_margin_transfers: IdMap<PendingMarginTransfer>,
    /// The collateral owed for redemptions, by the block of the redeemed TAL.
    pub pending_redemption_transfer: IdMap<PendingMarginTransfer>,
    pub last_redemption_time: u64,
    pub current_base_rate: Ratio,
    /// The mode in which the protocol runs.
    pub mode: Mode,
    /// The fee charged when borrowing.
    pub fee: Ratio,
    /// Who receives the fees.
    pub developer_principal: Principal,
    pub next_available_vault_id: u64,
    pub total_collateral_ratio: Ratio,
    /// Principal of the exchange rate service.
    pub xrc_principal: Principal,
    /// Principal of the TAL ledger.
    pub taler_ledger_principal: Principal,
    /// Principal of the ckBTC ledger.
    pub ckbtc_ledger_principal: Principal,
    pub ckbtc_ledger_fee: CKBTC,
    /// Last Bitcoin rate that was fetched.
    pub last_btc_rate: Option<UsdBtc>,
    /// The time of the last Bitcoin rate that was fetched.
    pub last_btc_timestamp: Option<u64>,
    /// The callers that have a request in flight.
    pub principal_guards: OrdSet<Principal>,
    pub is_timer_running: bool,
    pub is_fetching_rate: bool,
}

/// The debt of a listed vault.
pub open spec fn debt() -> spec_fn((u64, Vault)) -> int {
    |e: (u64, Vault)| e.1.borrowed_tal_amount.0 as int
}

/// The margin of a listed vault.
pub open spec fn margin() -> spec_fn((u64, Vault)) -> int {
    |e: (u64, Vault)| e.1.ckbtc_margin_amount.0 as int
}

/// The amount of a listed balance.
pub open spec fn balance<K, T>() -> spec_fn((K, Token<T>)) -> int {
    |e: (K, Token<T>)| e.1.0 as int
}

/// The sum of the debts of the listed vaults.
pub open spec fn total_debt(vaults: Seq<(u64, Vault)>) -> int {
    sum_by(vaults, debt())
}

/// The sum of the margins of the listed vaults.
pub open spec fn total_margin(vaults: Seq<(u64, Vault)>) -> int {
    sum_by(vaults, margin())
}

/// The sum of the listed balances.
pub open spec fn total_balance<K, T>(balances: Seq<(K, Token<T>)>) -> int {
    sum_by(balances, balance::<K, T>())
}

/// The sets of vault ids by owner.
pub open spec fn ids_by_owner(index: Map<Principal, IdSet>) -> Map<Principal, Set<u64>> {
    index.map_values(|ids: IdSet| ids@)
}

/// Whether the index by owner and the vaults agree: every vault stands
/// under its id and is listed under its owner, and every id listed under an
/// owner is that of a vault of this owner.
pub open spec fn indexed(vaults: Map<u64, Vault>, index: Map<Principal, Set<u64>>) -> bool {
    &&& forall|id: u64| #[trigger]
        vaults.contains_key(id) ==> vaults[id].vault_id == id && index.contains_key(vaults[id].owner)
            && index[vaults[id].owner].contains(id)
    &&& forall|owner: Principal, id: u64|
        index.contains_key(owner) && #[trigger] index[owner].contains(id) ==> vaults.contains_key(id)
            && vaults[id].owner == owner
}

/// Whether every balance is more than zero.
pub open spec fn all_positive<T>(balances: Map<Principal, Token<T>>) -> bool {
    forall|owner: Principal| #[trigger] balances.contains_key(owner) ==> balances[owner].0 > 0
}

/// The sums of debts and margins are not negative.
pub proof fn lemma_vault_sums_not_negative(vaults: Seq<(u64, Vault)>)
    ensures
        total_debt(vaults) >= 0,
        total_margin(vaults) >= 0,
{
    assert(nowhere_negative(vaults, debt()));
    assert(nowhere_negative(vaults, margin()));
    crate::sums::lemma_sum_by_bounds(vaults, debt());
    crate::sums::lemma_sum_by_bounds(vaults, margin());
}

/// A sum of balances is not negative.
pub proof fn lemma_balances_not_negative<K, T>(balances: Seq<(K, Token<T>)>)
    ensures
        total_balance(balances) >= 0,
{
    assert(nowhere_negative(balances, balance::<K, T>()));
    crate::sums::lemma_sum_by_bounds(balances, balance::<K, T>());
}

/// The sum of the balances of a map.
pub(crate) fn sum_of_balances<T>(balances: &OrdMap<Principal, Token<T>>) -> (total: u64)
    requires
        balances.wf(),
        total_balance(balances.listing()) <= u64::MAX,
    ensures
        total == total_balance(balances.listing()),
{
    let ghost listing = balances.listing();
    let ghost f = balance::<Principal, T>();
    let mut total: u64 = 0;
    let mut i: usize = 0;
    assert(nowhere_negative(listing, f));
    while i < balances.len()
        invariant
            listing == balances.listing(),
            f == balance::<Principal, T>(),
            0 <= i <= listing.len(),
            total == sum_by(listing.take(i as int), f),
            sum_by(listing, f) <= u64::MAX,
            nowhere_negative(listing, f),
        decreases listing.len() - i,
    {
        let amount = balances.entry_at(i).1.0;
        proof {
            lemma_sum_by_take(listing, i as int, f);
            lemma_sum_by_prefix(listing, i + 1, f);
        }
        total = total + amount;
        i = i + 1;
    }
    proof {
        lemma_sum_by_all(listing, f);
    }
    total
}

impl State {
    /// The vaults by id.
    pub open spec fn vaults(&self) -> Map<u64, Vault> {
        self.vault_id_to_vaults@
    }

    /// The ids of the vaults of each owner.
    pub open spec fn owner_index(&self) -> Map<Principal, Set<u64>> {
        ids_by_owner(self.principal_to_vault_ids@)
    }

    /// The sum of the debts of all vaults.
    pub open spec fn debt_sum(&self) -> int {
        total_debt(self.vault_id_to_vaults.listing())
    }

    /// The sum of the margins of all vaults.
    pub open spec fn margin_sum(&self) -> int {
        total_margin(self.vault_id_to_vaults.listing())
    }

    /// The sum of the provided liquidity.
    pub open spec fn pool_sum(&self) -> int {
        total_balance(self.liquidity_pool.listing())
    }

    /// The sum of the returns that wait to be claimed.
    pub open spec fn returns_sum(&self) -> int {
        total_balance(self.liquidity_returns.listing())
    }

    /// Whether every collection keeps its order.
    pub open spec fn ordered(&self) -> bool {
        &&& self.vault_id_to_vaults.wf()
        &&& self.principal_to_vault_ids.wf()
        &&& self.liquidity_pool.wf()
        &&& self.liquidity_returns.wf()
        &&& self.pending_margin_transfers.wf()
        &&& self.pending_redemption_transfer.wf()
        &&& self.principal_guards.wf()
        &&& forall|owner: Principal| #[trigger]
            self.principal_to_vault_ids@.contains_key(owner)
                ==> self.principal_to_vault_ids@[owner].wf()
    }

    /// Whether the sums of the state fit the numbers that report them: the
    /// debt, the liquidity of the pool, and the collateral that the protocol
    /// holds in vaults and as returns together.
    pub open spec fn bounded(&self) -> bool {
        &&& 0 <= self.debt_sum() <= u64::MAX
        &&& 0 <= self.pool_sum() <= u64::MAX
        &&& 0 <= self.margin_sum()
        &&& 0 <= self.returns_sum()
        &&& self.margin_sum() + self.returns_sum() <= u64::MAX
    }

    /// What holds of every state of the protocol: the collections keep
    /// their order, vaults and owners agree, no balance of the pool or of its
    /// returns is zero, and the sums fit.
    pub open spec fn wf(&self) -> bool {
        &&& self.ordered()
        &&& indexed(self.vaults(), self.owner_index())
        &&& all_positive(self.liquidity_pool@)
        &&& all_positive(self.liquidity_returns@)
        &&& self.bounded()
    }

    /// The borrowing fee as a proportion: `fee_e8s` in 10^-8.
    pub open spec fn fee_of(fee_e8s: u64) -> Option<Parts> {
        quotient(whole(fee_e8s as int), whole(E8S as int))
    }

    /// The state that the protocol starts in. `None` where the fee cannot
    /// be written as a proportion.
    pub fn new(args: InitArg) -> (started: Option<State>)
        ensures
            started is Some <==> Self::fee_of(args.fee_e8s) is Some,
            started matches Some(state) ==> {
                &&& state.wf()
                &&& state.vaults() == Map::<u64, Vault>::empty()
                &&& state.vault_id_to_vaults.listing() == Seq::<(u64, Vault)>::empty()
                &&& state.liquidity_pool.listing() == Seq::<(Principal, TAL)>::empty()
                &&& state.liquidity_returns.listing() == Seq::<(Principal, CKBTC)>::empty()
                &&& state.owner_index() == Map::<Principal, Set<u64>>::empty()
                &&& state.liquidity_pool@ == Map::<Principal, TAL>::empty()
                &&& state.liquidity_returns@ == Map::<Principal, CKBTC>::empty()
                &&& state.pending_margin_transfers@ == Map::<u64, PendingMarginTransfer>::empty()
                &&& state.pending_redemption_transfer@ == Map::<
                    u64,
                    PendingMarginTransfer,
                >::empty()
                &&& state.principal_guards@ == Set::<Principal>::empty()
                &&& state.last_redemption_time == 0
                &&& state.current_base_rate@ == whole(0)
                &&& Some(state.fee@) == Self::fee_of(args.fee_e8s)
                &&& state.developer_principal == args.developer_principal
                &&& state.xrc_principal == args.xrc_principal
                &&& state.taler_ledger_principal == args.taler_ledger_principal
                &&& state.ckbtc_ledger_principal == args.ckbtc_ledger_principal
                &&& state.ckbtc_ledger_fee.0 == CKBTC_TRANSFER_FEE
                &&& state.mode == Mode::GeneralAvailability
                &&& state.total_collateral_ratio@ == whole(crate::decimal::MAX_MANTISSA as int)
                &&& state.last_btc_timestamp is None
                &&& state.last_btc_rate is None
                &&& state.next_available_vault_id == 0
                &&& !state.is_timer_running
                &&& !state.is_fetching_rate
            },
    {
        let fee = crate::decimal::decimal_div(&Fixed::from_u64(args.fee_e8s), &Fixed::from_u64(E8S))?;
        let state = State {
            last_redemption_time: 0,
            current_base_rate: Ratio::new(Fixed::zero()),
            fee: Ratio::new(fee),
            developer_principal: args.developer_principal,
            principal_to_vault_ids: OrdMap::new(),
            pending_redemption_transfer: IdMap::new(),
            vault_id_to_vaults: IdMap::new(),
            xrc_principal: args.xrc_principal,
            taler_ledger_principal: args.taler_ledger_principal,
            ckbtc_ledger_principal: args.ckbtc_ledger_principal,
            ckbtc_ledger_fee: CKBTC::new(CKBTC_TRANSFER_FEE),
            mode: Mode::GeneralAvailability,
            total_collateral_ratio: Ratio::new(Fixed::max_value()),
            last_btc_timestamp: None,
            last_btc_rate: None,
            next_available_vault_id: 0,
            liquidity_pool: OrdMap::new(),
            liquidity_returns: OrdMap::new(),
            principal_guards: OrdSet::new(),
            pending_margin_transfers: IdMap::new(),
            is_timer_running: false,
            is_fetching_rate: false,
        };
        assert(state.owner_index() =~= Map::<Principal, Set<u64>>::empty());
        Some(state)
    }

    /// Whether the price is fresh at `current_time`: one was fetched, and
    /// not more than ten minutes ago.
    pub open spec fn price_is_fresh(&self, current_time: u64) -> bool {
        match self.last_btc_timestamp {
            Some(fetched) => current_time <= fetched || current_time - fetched <= TEN_MINS_NANOS,
            None => false,
        }
    }

    /// Refuses to act on a price that is too old.
    pub fn check_price_not_too_old(&self, current_time: u64) -> (checked: Result<(), ProtocolError>)
        ensures
            checked is Ok <==> self.price_is_fresh(current_time),
            checked matches Err(e) ==> (e matches ProtocolError::TemporarilyUnavailable(reason)
                && reason@ == if self.last_btc_timestamp is None {
                "No BTC price fetched"@
            } else {
                "Last known BTC price too old"@
            }),
    {
        let last_btc_timestamp = match self.last_btc_timestamp {
            Some(last_btc_timestamp) => last_btc_timestamp,
            None => {
                return Err(ProtocolError::TemporarilyUnavailable("No BTC price fetched".to_string()))
            },
        };
        if current_time.saturating_sub(last_btc_timestamp) > TEN_MINS_NANOS {
            return Err(
                ProtocolError::TemporarilyUnavailable("Last known BTC price too old".to_string()),
            );
        }
        Ok(())
    }

    /// Hands out the next vault id.
    pub fn increment_vault_id(&mut self) -> (vault_id: u64)
        requires
            old(self).next_available_vault_id < u64::MAX,
        ensures
            vault_id == old(self).next_available_vault_id,
            *final(self) == (State { next_available_vault_id: (vault_id + 1) as u64, ..*old(self) }),
    {
        let vault_id = self.next_available_vault_id;
        self.next_available_vault_id += 1;
        vault_id
    }

    /// Takes over what an upgrade changes.
    pub fn upgrade(&mut self, args: UpgradeArg)
        ensures
            *final(self) == (State {
                mode: match args.mode {
                    Some(mode) => mode,
                    None => old(self).mode,
                },
                ..*old(self)
            }),
    {
        if let Some(mode) = args.mode {
            self.mode = mode;
        }
    }

    /// The sum of the debts of all vaults.
    pub fn total_borrowed_tal_amount(&self) -> (total: TAL)
        requires
            self.wf(),
        ensures
            total.0 == self.debt_sum(),
    {
        let ghost listing = self.vault_id_to_vaults.listing();
        let mut total: u64 = 0;
        let mut i: usize = 0;
        assert(nowhere_negative(listing, debt()));
        let walk = self.vault_id_to_vaults.entries();
        while i < walk.len()
            invariant
                walk@ == listing,
                listing == self.vault_id_to_vaults.listing(),
                0 <= i <= listing.len(),
                total == sum_by(listing.take(i as int), debt()),
                sum_by(listing, debt()) <= u64::MAX,
                nowhere_negative(listing, debt()),
            decreases listing.len() - i,
        {
            let amount = walk[i].1.borrowed_tal_amount.0;
            proof {
                lemma_sum_by_take(listing, i as int, debt());
                lemma_sum_by_prefix(listing, i + 1, debt());
            }
            total = total + amount;
            i = i + 1;
        }
        proof {
            lemma_sum_by_all(listing, debt());
        }
        TAL::new(total)
    }

    /// The sum of the margins of all vaults.
    pub fn total_ckbtc_margin_amount(&self) -> (total: CKBTC)
        requires
            self.wf(),
        ensures
            total.0 == self.margin_sum(),
    {
        let ghost listing = self.vault_id_to_vaults.listing();
        let mut total: u64 = 0;
        let mut i: usize = 0;
        assert(nowhere_negative(listing, margin()));
        let walk = self.vault_id_to_vaults.entries();
        while i < walk.len()
            invariant
                walk@ == listing,
                listing == self.vault_id_to_vaults.listing(),
                0 <= i <= listing.len(),
                total == sum_by(listing.take(i as int), margin()),
                sum_by(listing, margin()) <= u64::MAX,
                nowhere_negative(listing, margin()),
            decreases listing.len() - i,
        {
            let amount = walk[i].1.ckbtc_margin_amount.0;
            proof {
                lemma_sum_by_take(listing, i as int, margin());
                lemma_sum_by_prefix(listing, i + 1, margin());
            }
            total = total + amount;
            i = i + 1;
        }
        proof {
            lemma_sum_by_all(listing, margin());
        }
        CKBTC::new(total)
    }

    /// The fee for borrowing in the mode of the protocol: none in recovery.
    pub fn get_borrowing_fee(&self) -> (fee: Ratio)
        ensures
            fee@ == if self.mode == Mode::Recovery {
                whole(0)
            } else {
                self.fee@
            },
    {
        match self.mode {
            Mode::Recovery => Ratio::new(Fixed::zero()),
            Mode::GeneralAvailability => self.fee,
            Mode::ReadOnly => self.fee,
        }
    }

    /// The returns that wait for `principal`.
    pub fn get_liquidity_returns_of(&self, principal: Principal) -> (rewards: CKBTC)
        requires
            self.wf(),
        ensures
            rewards.0 == if self.liquidity_returns@.contains_key(principal) {
                self.liquidity_returns@[principal].0
            } else {
                0
            },
    {
        match self.liquidity_returns.get(&principal) {
            Some(rewards) => *rewards,
            None => CKBTC::new(0),
        }
    }

    /// The liquidity that `principal` has in the pool.
    pub fn get_provided_liquidity(&self, principal: Principal) -> (provided: TAL)
        requires
            self.wf(),
        ensures
            provided.0 == if self.liquidity_pool@.contains_key(principal) {
                self.liquidity_pool@[principal].0
            } else {
                0
            },
    {
        match self.liquidity_pool.get(&principal) {
            Some(provided) => *provided,
            None => TAL::new(0),
        }
    }

    /// The sum of the provided liquidity.
    pub fn total_provided_liquidity_amount(&self) -> (total: TAL)
        requires
            self.wf(),
        ensures
            total.0 == self.pool_sum(),
    {
        TAL::new(sum_of_balances(&self.liquidity_pool))
    }

    /// The sum of the returns that wait to be claimed.
    pub fn total_available_returns(&self) -> (total: CKBTC)
        requires
            self.wf(),
        ensures
            total.0 == self.returns_sum(),
    {
        CKBTC::new(sum_of_balances(&self.liquidity_returns))
    }
}

} // verus!
