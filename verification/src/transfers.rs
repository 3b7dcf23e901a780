//! The payouts that the protocol owes: the margins of closed vaults and
//! the collateral of redemptions, which are sent until the ledger confirms.

use crate::id_map::IdMap;
use crate::event::{Books, Event};
use crate::ledger::TransferError;
use crate::numeric::{Token, CKBTC};
use crate::ordered_map::{
    as_map, increasing, lemma_same_map_same_listing, lemma_with_entry, lemma_without_key, with_entry,
    without_key, OrdMap,
};
use crate::principal::Principal;
use crate::recording::{record_margin_transfer, record_redemption_transfered, recorded};
use crate::state::{PendingMarginTransfer, State};
use crate::vault::Vault;
use std::marker::PhantomData;
use vstd::prelude::*;

verus! {

/// What a payout is owed for.
#[derive(Clone, Copy, Debug, PartialEq, Eq, Structural)]
pub enum Payout {
    /// The margin of the closed vault `vault_id`.
    Margin { vault_id: u64 },
    /// The collateral of the redemption whose TAL went at `tal_block_index`.
    Redemption { tal_block_index: u64 },
}

/// A payout that is to be sent: to whom, and how much after the fee of the
/// ledger.
#[derive(Clone, Copy, Debug)]
pub struct PendingPayout {
    pub payout: Payout,
    pub owner: Principal,
    pub amount: CKBTC,
}

/// The payout of an entry of what is owed, which covers the fee.
pub open spec fn payout_of(entry: (u64, PendingMarginTransfer), fee: u64, for_margin: bool) -> PendingPayout {
    PendingPayout {
        payout: if for_margin {
            Payout::Margin { vault_id: entry.0 }
        } else {
            Payout::Redemption { tal_block_index: entry.0 }
        },
        owner: entry.1.owner,
        amount: Token((entry.1.margin.0 - fee) as u64, PhantomData),
    }
}

/// The payouts of the first `n` entries of what is owed, in their order.
pub open spec fn payouts(pending: Seq<(u64, PendingMarginTransfer)>, fee: u64, for_margin: bool, n: int) -> Seq<
    PendingPayout,
>
    decreases n,
{
    if n <= 0 {
        Seq::empty()
    } else {
        payouts(pending, fee, for_margin, n - 1).push(payout_of(pending[n - 1], fee, for_margin))
    }
}

/// Whether each of the amounts that are owed covers `fee`.
pub open spec fn covers(pending: Seq<(u64, PendingMarginTransfer)>, fee: u64) -> bool {
    forall|i: int| 0 <= i < pending.len() ==> (#[trigger] pending[i]).1.margin.0 >= fee
}

/// Says whether each of the amounts that are owed covers `fee`.
fn all_cover(pending: &IdMap<PendingMarginTransfer>, fee: u64) -> (all: bool)
    ensures
        all == covers(pending.listing(), fee),
{
    let mut i: usize = 0;
    let walk = pending.entries();
    while i < walk.len()
        invariant
            walk@ == pending.listing(),
            0 <= i <= pending.listing().len(),
            forall|j: int| 0 <= j < i ==> (#[trigger] pending.listing()[j]).1.margin.0 >= fee,
        decreases pending.listing().len() - i,
    {
        if walk[i].1.margin.0 < fee {
            return false;
        }
        i = i + 1;
    }
    true
}

impl State {
    /// Whether everything that the protocol owes covers the fee of the
    /// ledger, so that it can be sent.
    pub open spec fn payouts_cover_fee(&self) -> bool {
        &&& covers(self.pending_margin_transfers.listing(), self.ckbtc_ledger_fee.0)
        &&& covers(self.pending_redemption_transfer.listing(), self.ckbtc_ledger_fee.0)
    }

    /// Says whether everything that the protocol owes covers the fee of
    /// the ledger.
    pub fn can_pay_out(&self) -> (can: bool)
        ensures
            can == self.payouts_cover_fee(),
    {
        let fee = self.ckbtc_ledger_fee.0;
        all_cover(&self.pending_margin_transfers, fee) && all_cover(&self.pending_redemption_transfer, fee)
    }
}

/// A vault that is opened and closed again leaves the vaults as they were
/// and its whole margin owed to its owner; what is then sent is the margin
/// less the fee of the ledger.
pub proof fn lemma_closed_vault_pays_its_margin(books: Books, vault: Vault, fee: u64)
    requires
        increasing(books.vaults),
        books.opened(vault) is Some,
    ensures
        books.opened(vault)->0.closed(vault.vault_id) is Some,
        ({
            let after = books.opened(vault)->0.closed(vault.vault_id)->0;
            let owed = PendingMarginTransfer { owner: vault.owner, margin: vault.ckbtc_margin_amount };
            &&& after.vaults == books.vaults
            &&& after.pending_margin == books.pending_margin.insert(vault.vault_id, owed)
            &&& after.pool == books.pool
            &&& after.rewards == books.rewards
            &&& payout_of((vault.vault_id, owed), fee, true).owner == vault.owner
            &&& vault.ckbtc_margin_amount.0 >= fee ==> payout_of((vault.vault_id, owed), fee, true).amount.0
                == vault.ckbtc_margin_amount.0 - fee
        }),
{
    let id = vault.vault_id;
    let opened = with_entry(books.vaults, id, vault);
    lemma_with_entry(books.vaults, id, vault);
    lemma_without_key(opened, id);
    assert(as_map(opened).contains_key(id));
    assert(as_map(opened)[id] == vault);
    assert(as_map(without_key(opened, id)) =~= as_map(books.vaults));
    lemma_same_map_same_listing(without_key(opened, id), books.vaults);
}

/// Adds the payouts of what is owed to a list.
fn add_payouts(
    list: &mut Vec<PendingPayout>,
    pending: &IdMap<PendingMarginTransfer>,
    fee: u64,
    for_margin: bool,
)
    requires
        covers(pending.listing(), fee),
    ensures
        final(list)@ == old(list)@ + payouts(
            pending.listing(),
            fee,
            for_margin,
            pending.listing().len() as int,
        ),
{
    let mut i: usize = 0;
    assert(list@ =~= old(list)@ + payouts(pending.listing(), fee, for_margin, 0));
    let walk = pending.entries();
    while i < walk.len()
        invariant
            walk@ == pending.listing(),
            0 <= i <= pending.listing().len(),
            covers(pending.listing(), fee),
            list@ == old(list)@ + payouts(pending.listing(), fee, for_margin, i as int),
        decreases pending.listing().len() - i,
    {
        let entry = walk[i];
        assert(pending.listing()[i as int].1.margin.0 >= fee);
        list.push(
            PendingPayout {
                payout: if for_margin {
                    Payout::Margin { vault_id: entry.0 }
                } else {
                    Payout::Redemption { tal_block_index: entry.0 }
                },
                owner: entry.1.owner,
                amount: CKBTC::new(entry.1.margin.0 - fee),
            },
        );
        assert(list@ =~= old(list)@ + payouts(pending.listing(), fee, for_margin, i + 1));
        i = i + 1;
    }
}

/// The payouts that are to be sent now: the margins of the closed vaults,
/// then the collateral of the redemptions, each less the fee of the ledger,
/// which each of them covers.
pub fn process_pending_transfer(state: &State) -> (list: Vec<PendingPayout>)
    requires
        state.payouts_cover_fee(),
    ensures
        list@ == payouts(
            state.pending_margin_transfers.listing(),
            state.ckbtc_ledger_fee.0,
            true,
            state.pending_margin_transfers.listing().len() as int,
        ) + payouts(
            state.pending_redemption_transfer.listing(),
            state.ckbtc_ledger_fee.0,
            false,
            state.pending_redemption_transfer.listing().len() as int,
        ),
{
    let mut list: Vec<PendingPayout> = Vec::new();
    let fee = state.ckbtc_ledger_fee.0;
    add_payouts(&mut list, &state.pending_margin_transfers, fee, true);
    add_payouts(&mut list, &state.pending_redemption_transfer, fee, false);
    list
}

/// The event that tells that a payout was sent.
pub open spec fn payout_event(payout: Payout, block_index: u64) -> Event {
    match payout {
        Payout::Margin { vault_id } => Event::MarginTransfer { vault_id, block_index },
        Payout::Redemption { tal_block_index } => Event::RedemptionTransfered {
            tal_block_index,
            ckbtc_block_index: block_index,
        },
    }
}

/// Takes the answer of the ledger to a payout: where it was sent, this is
/// recorded, and it is owed no more; where it was not, it stays owed.
pub fn complete_pending_transfer(
    state: &mut State,
    log: &mut Vec<Event>,
    payout: Payout,
    outcome: &Result<u64, TransferError>,
) -> (sent: bool)
    requires
        old(state).wf(),
    ensures
        final(state).wf(),
        sent == outcome is Ok,
        match *outcome {
            Ok(block_index) => recorded(
                old(state),
                old(log)@,
                final(state),
                final(log)@,
                payout_event(payout, block_index),
            ),
            Err(_) => *final(state) == *old(state) && final(log)@ == old(log)@,
        },
{
    match outcome {
        Ok(block_index) => {
            match payout {
                Payout::Margin { vault_id } => record_margin_transfer(
                    state,
                    log,
                    vault_id,
                    *block_index,
                ),
                Payout::Redemption { tal_block_index } => record_redemption_transfered(
                    state,
                    log,
                    tal_block_index,
                    *block_index,
                ),
            }
            true
        },
        Err(_) => false,
    }
}

/// Whether a payout is still owed, so that payouts are to be sent again.
pub fn has_pending_transfers(state: &State) -> (pending: bool)
    ensures
        pending == (state.pending_margin_transfers.listing().len() > 0
            || state.pending_redemption_transfer.listing().len() > 0),
{
    !state.pending_margin_transfers.is_empty() || !state.pending_redemption_transfer.is_empty()
}

} // verus!
