//! The events that record every change of the books, and what each of them
//! does to the books.

use crate::bookkeeping::{credited, debited, held};
use crate::decimal::Parts;
use crate::liquidation::{liquidation_of, pool_after, returns_after};
use crate::numeric::{token_over, Token, UsdBtc, CKBTC, TAL};
use crate::ordered_map::{has_key, value_of, with_entry, without_key};
use crate::principal::Principal;
use crate::redemption::{ids_of_ranking, ranking, redeemed};
use crate::redistribution::{ckbtc_share, distribution_across_vaults, tal_share, vaults_after};
use crate::state::{total_balance, total_debt, total_margin, Mode, PendingMarginTransfer, State};
use crate::sums::sum_by;
use crate::vault::Vault;
use crate::{InitArg, UpgradeArg};
use std::marker::PhantomData;
use vstd::prelude::*;

verus! {

/// A change of the books, with what is needed to make it again.
#[derive(Clone, Copy, Debug, PartialEq, Eq)]
pub enum Event {
    OpenVault { vault: Vault, block_index: u64 },
    CloseVault { vault_id: u64, block_index: Option<u64> },
    MarginTransfer { vault_id: u64, block_index: u64 },
    LiquidateVault { vault_id: u64, mode: Mode, btc_rate: UsdBtc },
    RedemptionOnVaults {
        owner: Principal,
        current_btc_rate: UsdBtc,
        tal_amount: TAL,
        fee_amount: TAL,
        tal_block_index: u64,
    },
    RedemptionTransfered { tal_block_index: u64, ckbtc_block_index: u64 },
    RedistributeVault { vault_id: u64 },
    BorrowFromVault { vault_id: u64, borrowed_amount: TAL, fee_amount: TAL, block_index: u64 },
    RepayToVault { vault_id: u64, repayed_amount: TAL, block_index: u64 },
    AddMarginToVault { vault_id: u64, margin_added: CKBTC, block_index: u64 },
    ProvideLiquidity { amount: TAL, block_index: u64, caller: Principal },
    WithdrawLiquidity { amount: TAL, block_index: u64, caller: Principal },
    ClaimLiquidityReturns { amount: CKBTC, block_index: u64, caller: Principal },
    Init(InitArg),
    Upgrade(UpgradeArg),
}

impl Event {
    /// Whether the event is part of the history of the vault `filter_vault_id`.
    pub fn is_vault_related(&self, filter_vault_id: &u64) -> (related: bool)
        ensures
            related == match *self {
                Event::OpenVault { vault, .. } => vault.vault_id == *filter_vault_id,
                Event::CloseVault { vault_id, .. } => vault_id == *filter_vault_id,
                Event::MarginTransfer { vault_id, .. } => vault_id == *filter_vault_id,
                Event::LiquidateVault { vault_id, .. } => vault_id == *filter_vault_id,
                Event::RedemptionOnVaults { .. } => true,
                Event::RedemptionTransfered { .. } => false,
                Event::RedistributeVault { vault_id } => vault_id == *filter_vault_id,
                Event::BorrowFromVault { vault_id, .. } => vault_id == *filter_vault_id,
                Event::RepayToVault { vault_id, .. } => vault_id == *filter_vault_id,
                Event::AddMarginToVault { vault_id, .. } => vault_id == *filter_vault_id,
                Event::ProvideLiquidity { .. } => false,
                Event::WithdrawLiquidity { .. } => false,
                Event::ClaimLiquidityReturns { .. } => false,
                Event::Init(_) => false,
                Event::Upgrade(_) => false,
            },
    {
        match self {
            Event::OpenVault { vault, .. } => vault.vault_id == *filter_vault_id,
            Event::CloseVault { vault_id, .. } => *vault_id == *filter_vault_id,
            Event::MarginTransfer { vault_id, .. } => *vault_id == *filter_vault_id,
            Event::LiquidateVault { vault_id, .. } => *vault_id == *filter_vault_id,
            Event::RedemptionOnVaults { .. } => true,
            Event::RedemptionTransfered { .. } => false,
            Event::RedistributeVault { vault_id, .. } => *vault_id == *filter_vault_id,
            Event::BorrowFromVault { vault_id, .. } => *vault_id == *filter_vault_id,
            Event::RepayToVault { vault_id, .. } => *vault_id == *filter_vault_id,
            Event::AddMarginToVault { vault_id, .. } => *vault_id == *filter_vault_id,
            Event::ProvideLiquidity { .. } => false,
            Event::WithdrawLiquidity { .. } => false,
            Event::ClaimLiquidityReturns { .. } => false,
            Event::Init(_) => false,
            Event::Upgrade(_) => false,
        }
    }
}

/// The books of the protocol: what the events determine.
#[verifier::ext_equal]
pub struct Books {
    /// The vaults in the order of their ids.
    pub vaults: Seq<(u64, Vault)>,
    /// The ids of the vaults of each owner.
    pub owners: Map<Principal, Set<u64>>,
    /// The liquidity of the providers, in their order.
    pub pool: Seq<(Principal, TAL)>,
    /// The returns that wait for the providers, in their order.
    pub rewards: Seq<(Principal, CKBTC)>,
    /// The margins that are owed to the owners of closed vaults.
    pub pending_margin: Map<u64, PendingMarginTransfer>,
    /// The collateral that is owed for redemptions.
    pub pending_redemption: Map<u64, PendingMarginTransfer>,
    /// The borrowing fee.
    pub fee: Parts,
    pub developer: Principal,
    pub xrc: Principal,
    pub taler_ledger: Principal,
    pub ckbtc_ledger: Principal,
}

impl Books {
    /// The ids of the vaults of `owner`.
    pub open spec fn ids_of(self, owner: Principal) -> Set<u64> {
        if self.owners.contains_key(owner) {
            self.owners[owner]
        } else {
            Set::empty()
        }
    }

    /// The books after `vault` was opened. `None` where its id is taken or
    /// the sums would not fit.
    pub open spec fn opened(self, vault: Vault) -> Option<Books> {
        if has_key(self.vaults, vault.vault_id) || total_debt(self.vaults)
            + vault.borrowed_tal_amount.0 > u64::MAX || total_margin(self.vaults) + total_balance(
            self.rewards,
        ) + vault.ckbtc_margin_amount.0 > u64::MAX {
            None
        } else {
            Some(
                Books {
                    vaults: with_entry(self.vaults, vault.vault_id, vault),
                    owners: self.owners.insert(
                        vault.owner,
                        self.ids_of(vault.owner).insert(vault.vault_id),
                    ),
                    ..self
                },
            )
        }
    }

    /// The books without the vault `vault_id`. `None` where there is none.
    pub open spec fn without_vault(self, vault_id: u64) -> Option<Books> {
        if !has_key(self.vaults, vault_id) {
            None
        } else {
            let vault = value_of(self.vaults, vault_id);
            Some(
                Books {
                    vaults: without_key(self.vaults, vault_id),
                    owners: self.owners.insert(vault.owner, self.ids_of(vault.owner).remove(vault_id)),
                    ..self
                },
            )
        }
    }

    /// The books after the vault `vault_id` was closed: the vault is gone
    /// and its margin is owed to its owner. `None` where there is no such vault.
    pub open spec fn closed(self, vault_id: u64) -> Option<Books> {
        match self.without_vault(vault_id) {
            None => None,
            Some(books) => {
                let vault = value_of(self.vaults, vault_id);
                Some(
                    Books {
                        pending_margin: self.pending_margin.insert(
                            vault_id,
                            PendingMarginTransfer {
                                owner: vault.owner,
                                margin: vault.ckbtc_margin_amount,
                            },
                        ),
                        ..books
                    },
                )
            },
        }
    }

    /// The books with the amounts of the vault `vault_id` set. `None` where
    /// there is no such vault or the sums would not fit.
    pub open spec fn with_amounts(self, vault_id: u64, borrowed: int, margin_amount: int) -> Option<Books> {
        if !has_key(self.vaults, vault_id) {
            None
        } else {
            let vault = value_of(self.vaults, vault_id);
            if borrowed < 0 || margin_amount < 0 || total_debt(self.vaults)
                - vault.borrowed_tal_amount.0 + borrowed > u64::MAX || total_margin(self.vaults)
                + total_balance(self.rewards) - vault.ckbtc_margin_amount.0 + margin_amount
                > u64::MAX {
                None
            } else {
                Some(
                    Books {
                        vaults: with_entry(
                            self.vaults,
                            vault_id,
                            Vault {
                                borrowed_tal_amount: Token(borrowed as u64, PhantomData),
                                ckbtc_margin_amount: Token(margin_amount as u64, PhantomData),
                                ..vault
                            },
                        ),
                        ..self
                    },
                )
            }
        }
    }

    /// The books after `amount` of the debt of the vault `vault_id` was
    /// repaid. `None` where there is no such vault or it owes less.
    pub open spec fn repaid(self, vault_id: u64, amount: u64) -> Option<Books> {
        self.with_amounts(
            vault_id,
            value_of(self.vaults, vault_id).borrowed_tal_amount.0 - amount,
            value_of(self.vaults, vault_id).ckbtc_margin_amount.0 as int,
        )
    }

    /// The books after `amount` of margin was added to the vault
    /// `vault_id`. `None` where there is no such vault or the sum would not fit.
    pub open spec fn with_margin(self, vault_id: u64, amount: u64) -> Option<Books> {
        self.with_amounts(
            vault_id,
            value_of(self.vaults, vault_id).borrowed_tal_amount.0 as int,
            value_of(self.vaults, vault_id).ckbtc_margin_amount.0 + amount,
        )
    }

    /// The books after `amount` was provided to the pool by `caller`.
    /// `None` where the sum would not fit.
    pub open spec fn provided(self, amount: u64, caller: Principal) -> Option<Books> {
        if total_balance(self.pool) + amount > u64::MAX {
            None
        } else {
            Some(Books { pool: credited(self.pool, caller, amount), ..self })
        }
    }

    /// The books after `caller` withdrew `amount` from the pool. `None`
    /// where the caller has no liquidity or less.
    pub open spec fn withdrawn(self, amount: u64, caller: Principal) -> Option<Books> {
        if !has_key(self.pool, caller) || held(self.pool, caller) < amount {
            None
        } else {
            Some(Books { pool: debited(self.pool, caller, amount), ..self })
        }
    }

    /// The books after `caller` claimed `amount` of its returns. `None`
    /// where the caller has no returns or less.
    pub open spec fn claimed(self, amount: u64, caller: Principal) -> Option<Books> {
        if !has_key(self.rewards, caller) || held(self.rewards, caller) < amount {
            None
        } else {
            Some(Books { rewards: debited(self.rewards, caller, amount), ..self })
        }
    }

    /// The books after the vault `vault_id` borrowed, the fee going to the
    /// developer's liquidity.
    pub open spec fn borrowed(self, vault_id: u64, borrowed_amount: u64, fee_amount: u64) -> Option<Books> {
        match self.provided(fee_amount, self.developer) {
            None => None,
            Some(books) => books.with_amounts(
                vault_id,
                value_of(self.vaults, vault_id).borrowed_tal_amount.0 + borrowed_amount,
                value_of(self.vaults, vault_id).ckbtc_margin_amount.0 as int,
            ),
        }
    }

    /// The books after the vault `vault_id` was liquidated by the pool.
    pub open spec fn liquidated(self, vault_id: u64, mode: Mode, price: Parts) -> Option<Books> {
        if !has_key(self.vaults, vault_id) {
            None
        } else {
            let vault = value_of(self.vaults, vault_id);
            match liquidation_of(vault, self.pool, mode, price) {
                None => None,
                Some(plan) => {
                    let rest = if plan.partial {
                        Books {
                            vaults: with_entry(
                                self.vaults,
                                vault_id,
                                Vault {
                                    borrowed_tal_amount: Token(0, PhantomData),
                                    ckbtc_margin_amount: Token(
                                        (vault.ckbtc_margin_amount.0 - plan.seized) as u64,
                                        PhantomData,
                                    ),
                                    ..vault
                                },
                            ),
                            ..self
                        }
                    } else {
                        self.without_vault(vault_id)->0
                    };
                    Some(
                        Books {
                            pool: pool_after(self.pool, plan.entries, plan.entries.len() as int),
                            rewards: returns_after(
                                self.rewards,
                                plan.entries,
                                plan.entries.len() as int,
                            ),
                            ..rest
                        },
                    )
                },
            }
        }
    }

    /// The books after the vault `vault_id` was redistributed to the others.
    pub open spec fn redistributed(self, vault_id: u64) -> Option<Books> {
        if !has_key(self.vaults, vault_id) {
            None
        } else {
            let vault = value_of(self.vaults, vault_id);
            match distribution_across_vaults(self.vaults, vault) {
                None => None,
                Some(entries) => if total_debt(self.vaults) - vault.borrowed_tal_amount.0 + sum_by(
                    entries,
                    tal_share(),
                ) > u64::MAX || total_margin(self.vaults) - vault.ckbtc_margin_amount.0 + sum_by(
                    entries,
                    ckbtc_share(),
                ) + total_balance(self.rewards) > u64::MAX {
                    None
                } else {
                    Some(
                        Books {
                            vaults: vaults_after(
                                without_key(self.vaults, vault_id),
                                entries,
                                entries.len() as int,
                            ),
                            ..self.without_vault(vault_id)->0
                        },
                    )
                },
            }
        }
    }

    /// The books after `tal_amount` was redeemed for `owner` at `price`:
    /// the fee goes to the developer's liquidity, the vaults give the debt
    /// and its collateral, and the collateral that the amount buys is owed
    /// to the owner under the block of the redeemed TAL.
    pub open spec fn redeemed_for(
        self,
        owner: Principal,
        price: Parts,
        tal_amount: u64,
        fee_amount: u64,
        tal_block_index: u64,
    ) -> Option<Books> {
        match self.provided(fee_amount, self.developer) {
            None => None,
            Some(books) => match ranking(self.vaults, price, self.vaults.len() as int) {
                None => None,
                Some(ranked) => match redeemed(self.vaults, ids_of_ranking(ranked), price, 0, tal_amount) {
                    None => None,
                    Some(vaults) => match token_over(tal_amount as int, price) {
                        None => None,
                        Some(bought) => Some(
                            Books {
                                vaults,
                                pending_redemption: self.pending_redemption.insert(
                                    tal_block_index,
                                    PendingMarginTransfer { owner, margin: Token(bought, PhantomData) },
                                ),
                                ..books
                            },
                        ),
                    },
                },
            },
        }
    }

    /// The books after an event. `None` where the event does not fit the
    /// books: it names a vault or a balance that they do not hold, asks for
    /// more than they hold, overflows, or starts the protocol a second time.
    pub open spec fn after(self, event: Event) -> Option<Books> {
        match event {
            Event::OpenVault { vault, .. } => self.opened(vault),
            Event::CloseVault { vault_id, .. } => self.closed(vault_id),
            Event::MarginTransfer { vault_id, .. } => Some(
                Books { pending_margin: self.pending_margin.remove(vault_id), ..self },
            ),
            Event::LiquidateVault { vault_id, mode, btc_rate } => self.liquidated(
                vault_id,
                mode,
                btc_rate@,
            ),
            Event::RedemptionOnVaults {
                owner,
                current_btc_rate,
                tal_amount,
                fee_amount,
                tal_block_index,
            } => self.redeemed_for(
                owner,
                current_btc_rate@,
                tal_amount.0,
                fee_amount.0,
                tal_block_index,
            ),
            Event::RedemptionTransfered { tal_block_index, .. } => Some(
                Books { pending_redemption: self.pending_redemption.remove(tal_block_index), ..self },
            ),
            Event::RedistributeVault { vault_id } => self.redistributed(vault_id),
            Event::BorrowFromVault { vault_id, borrowed_amount, fee_amount, .. } => self.borrowed(
                vault_id,
                borrowed_amount.0,
                fee_amount.0,
            ),
            Event::RepayToVault { vault_id, repayed_amount, .. } => self.repaid(
                vault_id,
                repayed_amount.0,
            ),
            Event::AddMarginToVault { vault_id, margin_added, .. } => self.with_margin(
                vault_id,
                margin_added.0,
            ),
            Event::ProvideLiquidity { amount, caller, .. } => self.provided(amount.0, caller),
            Event::WithdrawLiquidity { amount, caller, .. } => self.withdrawn(amount.0, caller),
            Event::ClaimLiquidityReturns { amount, caller, .. } => self.claimed(amount.0, caller),
            Event::Init(_) => None,
            Event::Upgrade(_) => Some(self),
        }
    }
}

/// The books that the protocol starts with. `None` where the fee cannot be
/// written as a proportion.
pub open spec fn opening_books(args: InitArg) -> Option<Books> {
    match State::fee_of(args.fee_e8s) {
        None => None,
        Some(fee) => Some(
            Books {
                vaults: Seq::empty(),
                owners: Map::empty(),
                pool: Seq::empty(),
                rewards: Seq::empty(),
                pending_margin: Map::empty(),
                pending_redemption: Map::empty(),
                fee,
                developer: args.developer_principal,
                xrc: args.xrc_principal,
                taler_ledger: args.taler_ledger_principal,
                ckbtc_ledger: args.ckbtc_ledger_principal,
            },
        ),
    }
}

/// The books that a log of events makes: those of its first event, which
/// starts the protocol, after each of the others in turn. `None` where the
/// log is empty, does not begin by starting the protocol, or holds an event
/// that does not fit the books that the events before it made.
pub open spec fn replayed(events: Seq<Event>) -> Option<Books>
    decreases events.len(),
{
    if events.len() == 0 {
        None
    } else if events.len() == 1 {
        match events[0] {
            Event::Init(args) => opening_books(args),
            _ => None,
        }
    } else {
        match replayed(events.drop_last()) {
            None => None,
            Some(books) => books.after(events.last()),
        }
    }
}

/// The mode that the first `n` events of a log leave the protocol in: the
/// mode of the last upgrade that set one, and general availability where
/// there was none.
pub open spec fn replayed_mode(events: Seq<Event>, n: int) -> Mode
    decreases n,
{
    if n <= 1 {
        Mode::GeneralAvailability
    } else {
        match events[n - 1] {
            Event::Upgrade(UpgradeArg { mode: Some(mode) }) => mode,
            _ => replayed_mode(events, n - 1),
        }
    }
}

/// The number of vaults that the first `n` events of a log open.
pub open spec fn opened_vaults(events: Seq<Event>, n: int) -> int
    decreases n,
{
    if n <= 0 {
        0
    } else {
        opened_vaults(events, n - 1) + if events[n - 1] is OpenVault {
            1int
        } else {
            0int
        }
    }
}

impl State {
    /// The books of the state.
    pub open spec fn books(&self) -> Books {
        Books {
            vaults: self.vault_id_to_vaults.listing(),
            owners: self.owner_index(),
            pool: self.liquidity_pool.listing(),
            rewards: self.liquidity_returns.listing(),
            pending_margin: self.pending_margin_transfers@,
            pending_redemption: self.pending_redemption_transfer@,
            fee: self.fee@,
            developer: self.developer_principal,
            xrc: self.xrc_principal,
            taler_ledger: self.taler_ledger_principal,
            ckbtc_ledger: self.ckbtc_ledger_principal,
        }
    }

    /// Whether the state agrees with `other` in what is no part of the
    /// books and no event changes.
    pub open spec fn same_settings(&self, other: &State) -> bool {
        &&& self.last_redemption_time == other.last_redemption_time
        &&& self.current_base_rate == other.current_base_rate
        &&& self.next_available_vault_id == other.next_available_vault_id
        &&& self.total_collateral_ratio == other.total_collateral_ratio
        &&& self.ckbtc_ledger_fee == other.ckbtc_ledger_fee
        &&& self.last_btc_rate == other.last_btc_rate
        &&& self.last_btc_timestamp == other.last_btc_timestamp
        &&& self.principal_guards == other.principal_guards
        &&& self.is_timer_running == other.is_timer_running
        &&& self.is_fetching_rate == other.is_fetching_rate
    }
}

} // verus!
