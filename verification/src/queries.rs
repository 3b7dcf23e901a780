//! What callers can ask of the protocol without changing it.

use crate::event::Event;
use crate::principal::Principal;
use crate::state::State;
use crate::vault::{CandidVault, Vault};
use crate::GetEventsArg;
use vstd::prelude::*;

verus! {

/// The largest number of events that one query returns.
pub const MAX_EVENTS_PER_QUERY: u64 = 2000;

/// The smaller of two numbers.
pub open spec fn smaller(a: int, b: int) -> int {
    if a <= b {
        a
    } else {
        b
    }
}

/// The events of a log from `args.start` on: as many as `args.length`, at
/// most 2000, and no more than there are.
pub fn get_events(log: &Vec<Event>, args: GetEventsArg) -> (events: Vec<Event>)
    ensures
        ({
            let start = smaller(args.start as int, log@.len() as int);
            let end = smaller(
                start + smaller(args.length as int, MAX_EVENTS_PER_QUERY as int),
                log@.len() as int,
            );
            events@ == log@.subrange(start, end)
        }),
{
    let count: u64 = if args.length < MAX_EVENTS_PER_QUERY {
        args.length
    } else {
        MAX_EVENTS_PER_QUERY
    };
    let start: usize = if args.start < log.len() as u64 {
        args.start as usize
    } else {
        log.len()
    };
    let end: usize = if count < (log.len() - start) as u64 {
        start + count as usize
    } else {
        log.len()
    };
    let mut events: Vec<Event> = Vec::new();
    let mut i: usize = start;
    while i < end
        invariant
            0 <= start <= i <= end <= log@.len(),
            events@ == log@.subrange(start as int, i as int),
        decreases end - i,
    {
        events.push(log[i]);
        assert(events@ =~= log@.subrange(start as int, i + 1));
        i = i + 1;
    }
    events
}

/// What an event has to do with a vault.
pub open spec fn related(event: Event, vault_id: u64) -> bool {
    match event {
        Event::OpenVault { vault, .. } => vault.vault_id == vault_id,
        Event::CloseVault { vault_id: id, .. } => id == vault_id,
        Event::MarginTransfer { vault_id: id, .. } => id == vault_id,
        Event::LiquidateVault { vault_id: id, .. } => id == vault_id,
        Event::RedemptionOnVaults { .. } => true,
        Event::RedistributeVault { vault_id: id } => id == vault_id,
        Event::BorrowFromVault { vault_id: id, .. } => id == vault_id,
        Event::RepayToVault { vault_id: id, .. } => id == vault_id,
        Event::AddMarginToVault { vault_id: id, .. } => id == vault_id,
        _ => false,
    }
}

/// The events among the first `n` of a log that belong to the history of
/// a vault: those that name it, and every redemption.
pub open spec fn history(log: Seq<Event>, vault_id: u64, n: int) -> Seq<Event>
    decreases n,
{
    if n <= 0 {
        Seq::empty()
    } else if related(log[n - 1], vault_id) {
        history(log, vault_id, n - 1).push(log[n - 1])
    } else {
        history(log, vault_id, n - 1)
    }
}

/// The history of a vault.
pub fn get_vault_history(log: &Vec<Event>, vault_id: u64) -> (vault_events: Vec<Event>)
    ensures
        vault_events@ == history(log@, vault_id, log@.len() as int),
{
    let mut vault_events: Vec<Event> = Vec::new();
    let mut i: usize = 0;
    while i < log.len()
        invariant
            0 <= i <= log@.len(),
            vault_events@ == history(log@, vault_id, i as int),
        decreases log@.len() - i,
    {
        if log[i].is_vault_related(&vault_id) {
            vault_events.push(log[i]);
        }
        i = i + 1;
    }
    vault_events
}

/// A vault as it is shown to callers.
pub open spec fn shown(vault: Vault) -> CandidVault {
    CandidVault {
        owner: vault.owner,
        borrowed_tal_amount: vault.borrowed_tal_amount.0,
        ckbtc_margin_amount: vault.ckbtc_margin_amount.0,
        vault_id: vault.vault_id,
    }
}

/// The vaults of `target` in the order of their ids, or all vaults where no
/// owner is given.
pub fn get_vaults(state: &State, target: Option<Principal>) -> (vaults: Vec<CandidVault>)
    requires
        state.wf(),
    ensures
        match target {
            Some(owner) => if state.principal_to_vault_ids@.contains_key(owner) {
                let ids = state.principal_to_vault_ids@[owner].listing();
                &&& vaults@.len() == ids.len()
                &&& forall|i: int|
                    0 <= i < ids.len() ==> state.vaults().contains_key(ids[i]) && #[trigger] vaults@[i]
                        == shown(state.vaults()[ids[i]])
            } else {
                vaults@.len() == 0
            },
            None => {
                let listing = state.vault_id_to_vaults.listing();
                &&& vaults@.len() == listing.len()
                &&& forall|i: int| 0 <= i < listing.len() ==> #[trigger] vaults@[i] == shown(listing[i].1)
            },
        },
{
    let mut vaults: Vec<CandidVault> = Vec::new();
    match target {
        Some(owner) => {
            if let Some(vault_ids) = state.principal_to_vault_ids.get(&owner) {
                proof {
                    vault_ids.lemma_listing();
                    assert(state.owner_index().contains_key(owner));
                    assert(state.owner_index()[owner] == vault_ids@);
                }
                let mut i: usize = 0;
                let ids = vault_ids.members();
                while i < ids.len()
                    invariant
                        ids@ == vault_ids.listing(),
                        state.wf(),
                        vault_ids.wf(),
                        state.owner_index().contains_key(owner),
                        state.owner_index()[owner] == vault_ids@,
                        0 <= i <= vault_ids.listing().len(),
                        vaults@.len() == i,
                        forall|k: int|
                            0 <= k < i ==> state.vaults().contains_key(vault_ids.listing()[k])
                                && #[trigger] vaults@[k] == shown(
                                state.vaults()[vault_ids.listing()[k]],
                            ),
                    decreases vault_ids.listing().len() - i,
                {
                    let id = ids[i];
                    proof {
                        vault_ids.lemma_listing();
                        assert(vault_ids@.contains(vault_ids.listing()[i as int]));
                        assert(state.owner_index()[owner].contains(id));
                    }
                    let vault = state.vault_id_to_vaults.get(&id).unwrap();
                    vaults.push(vault.to_candid());
                    i = i + 1;
                }
            }
        },
        None => {
            let mut i: usize = 0;
            let walk = state.vault_id_to_vaults.entries();
            while i < walk.len()
                invariant
                    walk@ == state.vault_id_to_vaults.listing(),
                    0 <= i <= state.vault_id_to_vaults.listing().len(),
                    vaults@.len() == i,
                    forall|k: int|
                        0 <= k < i ==> #[trigger] vaults@[k] == shown(
                            state.vault_id_to_vaults.listing()[k].1,
                        ),
                decreases state.vault_id_to_vaults.listing().len() - i,
            {
                vaults.push(walk[i].1.to_candid());
                i = i + 1;
            }
        },
    }
    vaults
}

} // verus!
