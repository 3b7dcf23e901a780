use protocol_canister::decimal::Fixed;
use protocol_canister::event::Event;
use protocol_canister::liquidation::distribute_across_lps;
use protocol_canister::numeric::{Ratio, UsdBtc, CKBTC, TAL};
use protocol_canister::id_map::{IdMap, IdSet};
use protocol_canister::ordered_map::{OrdMap, OrdSet};
use protocol_canister::principal::Principal;
use protocol_canister::redemption::compute_redemption_fee;
use protocol_canister::redistribution::distribute_accross_vaults;
use protocol_canister::replay::{has_one_start, replay, ReplayLogError};
use protocol_canister::state::{Mode, State};
use protocol_canister::vault::Vault;
use protocol_canister::{compute_collateral_ratio, InitArg, UpgradeArg, E8S};
use rust_decimal::Decimal;
use std::str::FromStr;

fn dec(text: &str) -> Fixed {
    let d = Decimal::from_str(text).unwrap();
    Fixed::new(d.mantissa(), d.scale()).unwrap()
}

fn user(n: u8) -> Principal {
    Principal::from_slice(&[n, n, n, 2]).unwrap()
}

fn init_arg(fee_e8s: u64) -> InitArg {
    InitArg {
        xrc_principal: user(101),
        taler_ledger_principal: user(102),
        ckbtc_ledger_principal: user(103),
        fee_e8s,
        developer_principal: Principal::anonymous(),
    }
}

fn vault(owner: Principal, vault_id: u64, margin: u64, borrowed: u64) -> Vault {
    Vault {
        owner,
        vault_id,
        ckbtc_margin_amount: CKBTC::from(margin),
        borrowed_tal_amount: TAL::from(borrowed),
    }
}

#[test]
fn test_distribute_across_on_lp() {
    let mut provided_liquidity = OrdMap::new();
    provided_liquidity.insert(Principal::anonymous(), TAL::from(500_000));
    let result =
        distribute_across_lps(&provided_liquidity, TAL::from(500_000), CKBTC::from(1_000_000))
            .unwrap();

    assert_eq!(result.len(), 1);

    let distribute_entry = &result[0];
    assert_eq!(distribute_entry.ckbtc_reward, CKBTC::from(1_000_000));
    assert_eq!(distribute_entry.tal_to_debit, TAL::from(500_000));
}

#[test]
fn test_distribute_accross_vaults() {
    let mut vaults = IdMap::new();
    let vault1 = vault(Principal::anonymous(), 1, 500_000, 300_000);
    let vault2 = vault(Principal::anonymous(), 2, 300_000, 200_000);
    vaults.insert(1, vault1);
    vaults.insert(2, vault2);

    let target_vault = vault(Principal::anonymous(), 3, 700_000, 400_000);

    let result = distribute_accross_vaults(&vaults, target_vault).unwrap();

    assert_eq!(result.len(), 2);

    let distribute_entry1 = &result[0];
    assert_eq!(distribute_entry1.ckbtc_share_amount, CKBTC::from(437_500));
    assert_eq!(distribute_entry1.tal_share_amount, TAL::from(250_000));

    let distribute_entry2 = &result[1];
    assert_eq!(distribute_entry2.ckbtc_share_amount, CKBTC::from(262_500));
    assert_eq!(distribute_entry2.tal_share_amount, TAL::from(150_000));
}

#[test]
fn should_compute_redemption_fee() {
    let elapsed_hours: u64 = 2;
    let redeemed_amount = TAL::from(150_000 * E8S);
    let total_borrowed_tal_amount = TAL::from(10_000_000 * E8S);
    let current_base_rate = Ratio::from(dec("0.014"));
    let result = compute_redemption_fee(
        elapsed_hours,
        redeemed_amount,
        total_borrowed_tal_amount,
        current_base_rate,
    );
    assert_eq!(result, Some(Ratio::from(dec("0.0198704"))));
}

#[test]
fn max_redemption_fee() {
    let elapsed_hours: u64 = 0;
    let redeemed_amount = TAL::from(150_000 * E8S);
    let total_borrowed_tal_amount = TAL::from(10_000_000 * E8S);
    let current_base_rate = Ratio::from(dec("0.05"));
    let result = compute_redemption_fee(
        elapsed_hours,
        redeemed_amount,
        total_borrowed_tal_amount,
        current_base_rate,
    );
    assert_eq!(result, Some(Ratio::from(dec("0.05"))));
}

#[test]
fn min_redemption_fee() {
    let elapsed_hours: u64 = 1_000_000;
    let redeemed_amount = TAL::from(E8S);
    let total_borrowed_tal_amount = TAL::from(10_000_000 * E8S);
    let current_base_rate = Ratio::from(dec("0.05"));
    let result = compute_redemption_fee(
        elapsed_hours,
        redeemed_amount,
        total_borrowed_tal_amount,
        current_base_rate,
    );
    assert_eq!(result, Some(Ratio::from(dec("0.005"))));
}

#[test]
fn redemption_fee_without_debt_is_zero() {
    let result = compute_redemption_fee(3, TAL::from(E8S), TAL::from(0), Ratio::from(dec("0.05")));
    assert_eq!(result, Some(Ratio::from(dec("0"))));
}

#[test]
fn redemption_fee_falls_with_time_and_rises_with_the_amount() {
    let total = TAL::from(10_000_000 * E8S);
    let base = Ratio::from(dec("0.03"));
    let mut last = compute_redemption_fee(0, TAL::from(100_000 * E8S), total, base).unwrap();
    for hours in 1..40 {
        let fee = compute_redemption_fee(hours, TAL::from(100_000 * E8S), total, base).unwrap();
        assert!(!fee.gt(&last));
        assert!(!fee.lt(&Ratio::from(dec("0.005"))));
        assert!(!fee.gt(&Ratio::from(dec("0.05"))));
        last = fee;
    }
    let mut last = compute_redemption_fee(5, TAL::from(0), total, base).unwrap();
    for step in 1..40 {
        let fee = compute_redemption_fee(5, TAL::from(step * 20_000 * E8S), total, base).unwrap();
        assert!(!fee.lt(&last));
        assert!(!fee.lt(&Ratio::from(dec("0.005"))));
        assert!(!fee.gt(&Ratio::from(dec("0.05"))));
        last = fee;
    }
}

struct Dice(u64);

impl Dice {
    fn roll(&mut self, below: u64) -> u64 {
        self.0 = self.0.wrapping_mul(6364136223846793005).wrapping_add(1442695040888963407);
        (self.0 >> 33) % below
    }
}

#[test]
fn distribution_across_lps_shares_out_everything() {
    let mut dice = Dice(7);
    for _ in 0..200 {
        let mut pool = OrdMap::new();
        let providers = 1 + dice.roll(9);
        let mut total: u64 = 0;
        for p in 0..providers {
            let provided = 1 + dice.roll(21_000_000_00_000_000);
            total += provided;
            pool.insert(user(p as u8), TAL::from(provided));
        }
        let debt = (1 + dice.roll(21_000_000_00_000_000)).min(total);
        let reward = 1 + dice.roll(21_000_000_00_000_000);
        let entries = distribute_across_lps(&pool, TAL::from(debt), CKBTC::from(reward)).unwrap();
        assert_eq!(entries.len() as u64, providers);
        assert_eq!(entries.iter().map(|e| e.tal_to_debit.to_u64()).sum::<u64>(), debt);
        assert_eq!(entries.iter().map(|e| e.ckbtc_reward.to_u64()).sum::<u64>(), reward);
        for (i, entry) in entries.iter().enumerate() {
            assert!(entry.owner == pool.entry_at(i).0);
            if i > 0 {
                assert!(entry.tal_to_debit.to_u64() <= pool.entry_at(i).1.to_u64());
            }
        }
    }
}

#[test]
fn distribution_across_lps_may_ask_the_first_for_more_than_it_has() {
    let mut pool = OrdMap::new();
    pool.insert(user(1), TAL::from(1));
    pool.insert(user(2), TAL::from(1));
    pool.insert(user(3), TAL::from(1));
    let entries = distribute_across_lps(&pool, TAL::from(2), CKBTC::from(5)).unwrap();
    assert_eq!(entries[0].tal_to_debit, TAL::from(2));
    assert_eq!(entries[1].tal_to_debit, TAL::from(0));
    assert_eq!(entries[2].tal_to_debit, TAL::from(0));
    assert_eq!(entries[0].ckbtc_reward, CKBTC::from(3));
    assert_eq!(entries[1].ckbtc_reward, CKBTC::from(1));
    assert_eq!(entries[2].ckbtc_reward, CKBTC::from(1));
}

#[test]
fn distribution_across_lps_needs_a_pool_that_covers_the_debt() {
    let empty: OrdMap<Principal, TAL> = OrdMap::new();
    assert!(distribute_across_lps(&empty, TAL::from(0), CKBTC::from(5)).is_none());
    let mut pool = OrdMap::new();
    pool.insert(user(1), TAL::from(10));
    assert!(distribute_across_lps(&pool, TAL::from(11), CKBTC::from(5)).is_none());
    assert!(distribute_across_lps(&pool, TAL::from(10), CKBTC::from(5)).is_some());
}

#[test]
fn distribution_across_vaults_shares_out_everything() {
    let mut dice = Dice(11);
    for _ in 0..200 {
        let mut vaults = IdMap::new();
        let count = 1 + dice.roll(9);
        let mut margins: u64 = 0;
        for id in 1..=count {
            let margin = (1 + dice.roll(21_000_000_00_000_000)).max(1_000_000);
            margins += margin;
            vaults.insert(id, vault(user(id as u8), id, margin, dice.roll(u64::MAX / 16)));
        }
        let borrowed = dice.roll(u64::MAX / 16);
        let margin = (1 + dice.roll(21_000_000_00_000_000)).max(1_000_000).min(margins);
        let target = vault(Principal::anonymous(), count + 1, margin, borrowed);
        let entries = distribute_accross_vaults(&vaults, target).unwrap();
        assert_eq!(entries.len() as u64, count);
        assert_eq!(entries.iter().map(|e| e.tal_share_amount.to_u64()).sum::<u64>(), borrowed);
        assert_eq!(entries.iter().map(|e| e.ckbtc_share_amount.to_u64()).sum::<u64>(), margin);
    }
}

#[test]
fn distribution_across_vaults_leaves_the_target_out() {
    let mut vaults = IdMap::new();
    vaults.insert(1, vault(user(1), 1, 500_000, 300_000));
    vaults.insert(2, vault(user(2), 2, 300_000, 200_000));
    vaults.insert(3, vault(user(3), 3, 700_000, 400_000));
    let target = vault(user(3), 3, 700_000, 400_000);
    let entries = distribute_accross_vaults(&vaults, target).unwrap();
    assert_eq!(entries.len(), 2);
    assert_eq!(entries[0].vault_id, 1);
    assert_eq!(entries[1].vault_id, 2);
    assert_eq!(entries[0].ckbtc_share_amount, CKBTC::from(437_500));
    assert_eq!(entries[1].tal_share_amount, TAL::from(150_000));

    let mut alone = IdMap::new();
    alone.insert(3, target);
    assert!(distribute_accross_vaults(&alone, target).is_none());
    let nothing: IdMap<Vault> = IdMap::new();
    assert!(distribute_accross_vaults(&nothing, target).is_none());
}

#[test]
fn collateral_ratio_of_a_vault() {
    let price = UsdBtc::new(dec("20000"));
    let indebted = vault(user(1), 0, E8S, 10_000 * E8S);
    assert_eq!(compute_collateral_ratio(&indebted, price), Some(Ratio::new(dec("2"))));
    let free = vault(user(1), 0, E8S, 0);
    assert_eq!(compute_collateral_ratio(&free, price), Some(Ratio::new(Fixed::max_value())));
    let rich = vault(user(1), 0, u64::MAX, 1);
    assert_eq!(compute_collateral_ratio(&rich, UsdBtc::new(dec("100000"))), None);
}

#[test]
fn ordered_maps_keep_their_order() {
    let mut map = OrdMap::new();
    assert!(map.is_empty());
    assert_eq!(map.insert(5u64, 50u64), None);
    assert_eq!(map.insert(1, 10), None);
    assert_eq!(map.insert(3, 30), None);
    assert_eq!(map.insert(3, 31), Some(30));
    assert_eq!(map.len(), 3);
    assert_eq!(*map.entry_at(0), (1, 10));
    assert_eq!(*map.entry_at(1), (3, 31));
    assert_eq!(*map.entry_at(2), (5, 50));
    assert_eq!(map.get(&3), Some(&31));
    assert_eq!(map.get(&4), None);
    assert!(map.contains_key(&5));
    assert_eq!(map.remove(&1), Some(10));
    assert_eq!(map.remove(&1), None);
    assert_eq!(*map.entry_at(0), (3, 31));
    let copy = map.copy();
    assert_eq!(copy.len(), 2);
    assert_eq!(*copy.entry_at(1), (5, 50));

    let mut set = OrdSet::new();
    assert!(set.insert(9u64));
    assert!(set.insert(2));
    assert!(!set.insert(9));
    assert_eq!(set.len(), 2);
    assert_eq!(set.member_at(0), 2);
    assert_eq!(set.member_at(1), 9);
    assert!(set.contains(&9));
    assert!(set.remove(&9));
    assert!(!set.remove(&9));
    assert!(!set.contains(&9));
}

#[test]
fn maps_of_ids_list_their_entries_in_order() {
    let mut map = IdMap::new();
    assert!(map.is_empty());
    assert_eq!(map.insert(5, 50u64), None);
    assert_eq!(map.insert(1, 10), None);
    assert_eq!(map.insert(3, 30), None);
    assert_eq!(map.insert(3, 31), Some(30));
    assert_eq!(map.len(), 3);
    assert_eq!(map.entries(), vec![(1, 10), (3, 31), (5, 50)]);
    assert_eq!(map.get(&3), Some(&31));
    assert_eq!(map.get(&4), None);
    assert!(map.contains_key(&5));
    assert_eq!(map.remove(&1), Some(10));
    assert_eq!(map.remove(&1), None);
    let copy = map.copy();
    assert_eq!(copy.entries(), vec![(3, 31), (5, 50)]);
    assert_eq!(map.entries(), copy.entries());

    let mut set = IdSet::new();
    assert!(set.insert(9));
    assert!(set.insert(2));
    assert!(!set.insert(9));
    assert_eq!(set.len(), 2);
    assert_eq!(set.members(), vec![2, 9]);
    assert!(set.contains(&9));
    assert!(set.remove(&9));
    assert!(!set.remove(&9));
    assert!(!set.contains(&9));
    assert_eq!(set.members(), vec![2]);
}

#[test]
fn principals_are_ordered_by_length_and_then_by_bytes() {
    let mut map = OrdMap::new();
    map.insert(Principal::from_slice(&[9, 9]).unwrap(), 1u64);
    map.insert(Principal::from_slice(&[200]).unwrap(), 2);
    map.insert(Principal::from_slice(&[9, 8]).unwrap(), 3);
    map.insert(Principal::from_slice(&[]).unwrap(), 4);
    map.insert(Principal::anonymous(), 5);
    assert_eq!(map.entry_at(0).1, 4);
    assert_eq!(map.entry_at(1).1, 5);
    assert_eq!(map.entry_at(2).1, 2);
    assert_eq!(map.entry_at(3).1, 3);
    assert_eq!(map.entry_at(4).1, 1);
    assert!(Principal::from_slice(&[0; 30]).is_none());
    assert!(Principal::from_slice(&[0; 29]).is_some());
    assert_eq!(Principal::anonymous().to_bytes(), vec![4]);
    assert!(Principal::anonymous().is_anonymous());
    assert!(!user(4).is_anonymous());
    assert!(Principal::from_slice(&[4]).unwrap() == Principal::anonymous());
    assert_eq!(user(7).to_bytes(), vec![7, 7, 7, 2]);
}

#[test]
fn the_books_of_the_state() {
    let mut state = State::new(init_arg(500_000)).unwrap();
    assert_eq!(state.fee, Ratio::new(dec("0.005")));
    assert_eq!(state.mode, Mode::GeneralAvailability);
    assert_eq!(state.total_collateral_ratio, Ratio::new(Fixed::max_value()));
    assert_eq!(state.get_borrowing_fee(), Ratio::new(dec("0.005")));
    state.mode = Mode::Recovery;
    assert_eq!(state.get_borrowing_fee(), Ratio::new(dec("0")));
    state.mode = Mode::GeneralAvailability;

    assert_eq!(state.increment_vault_id(), 0);
    assert_eq!(state.increment_vault_id(), 1);
    state.open_vault(vault(user(1), 0, 3 * E8S, 0));
    state.open_vault(vault(user(1), 1, E8S, 0));
    state.open_vault(vault(user(2), 2, 2 * E8S, 0));
    state.borrow_from_vault(0, TAL::from(700));
    state.borrow_from_vault(2, TAL::from(300));
    state.repay_to_vault(0, TAL::from(200));
    state.add_margin_to_vault(1, CKBTC::from(5));
    assert_eq!(state.total_borrowed_tal_amount(), TAL::from(800));
    assert_eq!(state.total_ckbtc_margin_amount(), CKBTC::from(6 * E8S + 5));
    assert_eq!(state.principal_to_vault_ids.get(&user(1)).unwrap().len(), 2);
    assert!(state.check_invariants().is_ok());

    state.close_vault(1);
    assert_eq!(state.vault_id_to_vaults.len(), 2);
    assert_eq!(state.total_ckbtc_margin_amount(), CKBTC::from(5 * E8S));
    assert_eq!(state.principal_to_vault_ids.get(&user(1)).unwrap().len(), 1);
    let owed = state.pending_margin_transfers.get(&1).unwrap();
    assert!(owed.owner == user(1));
    assert_eq!(owed.margin, CKBTC::from(E8S + 5));

    state.provide_liquidity(TAL::from(0), user(3));
    assert!(state.liquidity_pool.is_empty());
    state.provide_liquidity(TAL::from(40), user(3));
    state.provide_liquidity(TAL::from(2), user(3));
    state.provide_liquidity(TAL::from(8), user(4));
    assert_eq!(state.get_provided_liquidity(user(3)), TAL::from(42));
    assert_eq!(state.get_provided_liquidity(user(5)), TAL::from(0));
    assert_eq!(state.total_provided_liquidity_amount(), TAL::from(50));
    state.withdraw_liquidity(TAL::from(2), user(3));
    assert_eq!(state.get_provided_liquidity(user(3)), TAL::from(40));
    state.withdraw_liquidity(TAL::from(40), user(3));
    assert_eq!(state.liquidity_pool.len(), 1);
    assert_eq!(state.total_provided_liquidity_amount(), TAL::from(8));
    assert_eq!(state.get_liquidity_returns_of(user(4)), CKBTC::from(0));
    assert_eq!(state.total_available_returns(), CKBTC::from(0));
    assert!(state.check_invariants().is_ok());

    state.upgrade(UpgradeArg { mode: None });
    assert_eq!(state.mode, Mode::GeneralAvailability);
    state.upgrade(UpgradeArg { mode: Some(Mode::ReadOnly) });
    assert_eq!(state.mode, Mode::ReadOnly);
    assert!(!state.mode.is_available());
    assert!(Mode::Recovery.is_available());
    assert!(Mode::GeneralAvailability.is_available());
    assert_eq!(Mode::default(), Mode::GeneralAvailability);
    assert_eq!(Mode::ReadOnly.to_string(), "Read-only");
    assert_eq!(Mode::GeneralAvailability.to_string(), "General availability");
    assert_eq!(Mode::Recovery.to_string(), "Recovery");
    assert_eq!(
        Mode::Recovery.get_minimum_liquidation_collateral_ratio(),
        Ratio::new(dec("1.5"))
    );
    assert_eq!(
        Mode::ReadOnly.get_minimum_liquidation_collateral_ratio(),
        Ratio::new(dec("1.1"))
    );
}

#[test]
fn liquidation_by_the_pool() {
    let price = UsdBtc::new(dec("20000"));
    let mut state = State::new(init_arg(0)).unwrap();
    state.open_vault(vault(user(1), 0, E8S, 19_000 * E8S));
    state.provide_liquidity(TAL::from(30_000 * E8S), user(2));
    state.provide_liquidity(TAL::from(10_000 * E8S), user(3));

    let plan = state.plan_liquidation(0, Mode::GeneralAvailability, price).unwrap();
    assert!(!plan.partial);
    assert_eq!(plan.seized, CKBTC::from(E8S));
    assert!(state.plan_liquidation(7, Mode::GeneralAvailability, price).is_none());

    assert!(state.liquidate_vault(0, Mode::GeneralAvailability, price));
    assert!(state.vault_id_to_vaults.is_empty());
    assert_eq!(state.get_provided_liquidity(user(2)), TAL::from(15_750 * E8S));
    assert_eq!(state.get_provided_liquidity(user(3)), TAL::from(5_250 * E8S));
    assert_eq!(state.get_liquidity_returns_of(user(2)), CKBTC::from(75_000_000));
    assert_eq!(state.get_liquidity_returns_of(user(3)), CKBTC::from(25_000_000));
    assert_eq!(state.total_available_returns(), CKBTC::from(E8S));
    assert!(!state.liquidate_vault(0, Mode::GeneralAvailability, price));
    assert!(state.check_invariants().is_ok());
}

#[test]
fn liquidation_in_recovery_takes_what_covers_the_debt() {
    let price = UsdBtc::new(dec("20000"));
    let mut state = State::new(init_arg(0)).unwrap();
    state.open_vault(vault(user(1), 0, E8S, 15_000 * E8S));
    state.provide_liquidity(TAL::from(15_000 * E8S), user(2));
    assert!(state.liquidate_vault(0, Mode::Recovery, price));
    let left = state.vault_id_to_vaults.get(&0).unwrap();
    assert_eq!(left.borrowed_tal_amount, TAL::from(0));
    assert_eq!(left.ckbtc_margin_amount, CKBTC::from(E8S - 82_500_000));
    assert!(state.liquidity_pool.is_empty());
    assert_eq!(state.get_liquidity_returns_of(user(2)), CKBTC::from(82_500_000));
}

#[test]
fn liquidation_needs_a_pool_that_covers_the_debt() {
    let price = UsdBtc::new(dec("20000"));
    let mut state = State::new(init_arg(0)).unwrap();
    state.open_vault(vault(user(1), 0, E8S, 19_000 * E8S));
    state.provide_liquidity(TAL::from(18_999 * E8S), user(2));
    assert!(!state.liquidate_vault(0, Mode::GeneralAvailability, price));
    assert_eq!(state.vault_id_to_vaults.len(), 1);
    assert_eq!(state.get_provided_liquidity(user(2)), TAL::from(18_999 * E8S));
    assert!(!state.liquidate_vault(0, Mode::GeneralAvailability, UsdBtc::new(dec("0"))));
}

#[test]
fn redistribution_to_the_other_vaults() {
    let mut state = State::new(init_arg(0)).unwrap();
    state.open_vault(vault(user(1), 1, 500_000, 300_000));
    state.open_vault(vault(user(1), 2, 300_000, 200_000));
    state.open_vault(vault(user(2), 3, 700_000, 400_000));
    assert!(state.plan_redistribution(9).is_none());
    assert!(state.redistribute_vault(3));
    assert_eq!(state.vault_id_to_vaults.len(), 2);
    let first = state.vault_id_to_vaults.get(&1).unwrap();
    assert_eq!(first.ckbtc_margin_amount, CKBTC::from(937_500));
    assert_eq!(first.borrowed_tal_amount, TAL::from(550_000));
    let second = state.vault_id_to_vaults.get(&2).unwrap();
    assert_eq!(second.ckbtc_margin_amount, CKBTC::from(562_500));
    assert_eq!(second.borrowed_tal_amount, TAL::from(350_000));
    assert_eq!(state.total_borrowed_tal_amount(), TAL::from(900_000));
    assert_eq!(state.total_ckbtc_margin_amount(), CKBTC::from(1_500_000));
    assert_eq!(state.principal_to_vault_ids.get(&user(2)).unwrap().len(), 0);
    assert!(!state.redistribute_vault(3));
    assert!(state.redistribute_vault(1));
    assert!(!state.redistribute_vault(2));
    assert!(state.check_invariants().is_ok());
}

#[test]
fn redemption_takes_from_the_lowest_collateral_ratio_first() {
    let price = UsdBtc::new(dec("20000"));
    let mut state = State::new(init_arg(0)).unwrap();
    state.open_vault(vault(user(1), 0, E8S, 5_000 * E8S));
    state.open_vault(vault(user(1), 1, E8S, 10_000 * E8S));
    state.open_vault(vault(user(2), 2, E8S, 8_000 * E8S));
    state.open_vault(vault(user(2), 3, E8S, 10_000 * E8S));
    let ranked = protocol_canister::redemption::rank_vaults(&state.vault_id_to_vaults, price).unwrap();
    assert_eq!(ranked.iter().map(|r| r.1).collect::<Vec<u64>>(), vec![1, 3, 2, 0]);

    assert!(state.redeem_on_vaults(TAL::from(24_000 * E8S), price));
    let debts: Vec<u64> = (0..4)
        .map(|id| state.vault_id_to_vaults.get(&id).unwrap().borrowed_tal_amount.to_u64())
        .collect();
    assert_eq!(debts, vec![5_000 * E8S, 0, 4_000 * E8S, 0]);
    let margins: Vec<u64> = (0..4)
        .map(|id| state.vault_id_to_vaults.get(&id).unwrap().ckbtc_margin_amount.to_u64())
        .collect();
    assert_eq!(margins, vec![E8S, E8S / 2, E8S - E8S / 5, E8S / 2]);

    assert!(!state.redeem_on_vaults(TAL::from(E8S), UsdBtc::new(dec("0"))));
    assert!(state.redeem_on_vaults(TAL::from(0), UsdBtc::new(dec("0"))));
    assert!(!state.redeem_on_vaults(TAL::from(9_000 * E8S), UsdBtc::new(dec("1"))));
    assert_eq!(state.total_borrowed_tal_amount(), TAL::from(9_000 * E8S));
    assert!(state.redeem_on_vaults(TAL::from(20_000 * E8S), price));
    assert_eq!(state.total_borrowed_tal_amount(), TAL::from(0));
}

#[test]
fn replay_rebuilds_the_state() {
    let price = UsdBtc::new(dec("20000"));
    let events = vec![
        Event::Init(init_arg(0)),
        Event::OpenVault { vault: vault(user(1), 0, E8S, 0), block_index: 11 },
        Event::OpenVault { vault: vault(user(2), 1, 2 * E8S, 0), block_index: 13 },
        Event::BorrowFromVault {
            vault_id: 0,
            borrowed_amount: TAL::from(18_000 * E8S),
            fee_amount: TAL::from(90 * E8S),
            block_index: 0,
        },
        Event::ProvideLiquidity { amount: TAL::from(20_000 * E8S), block_index: 2, caller: user(2) },
        Event::AddMarginToVault { vault_id: 1, margin_added: CKBTC::from(E8S), block_index: 15 },
        Event::RepayToVault { vault_id: 0, repayed_amount: TAL::from(1_000 * E8S), block_index: 3 },
        Event::LiquidateVault { vault_id: 0, mode: Mode::GeneralAvailability, btc_rate: price },
        Event::WithdrawLiquidity { amount: TAL::from(E8S), block_index: 4, caller: user(2) },
        Event::ClaimLiquidityReturns { amount: CKBTC::from(5), block_index: 16, caller: user(2) },
        Event::CloseVault { vault_id: 1, block_index: None },
        Event::MarginTransfer { vault_id: 1, block_index: 17 },
        Event::Upgrade(UpgradeArg { mode: Some(Mode::Recovery) }),
        Event::Upgrade(UpgradeArg { mode: None }),
    ];
    let state = replay(&events).unwrap();
    assert_eq!(state.next_available_vault_id, 2);
    assert_eq!(state.mode, Mode::Recovery);
    assert!(state.vault_id_to_vaults.is_empty());
    assert!(state.pending_margin_transfers.is_empty());
    let from_fees = state.get_provided_liquidity(Principal::anonymous()).to_u64();
    let from_provider = state.get_provided_liquidity(user(2)).to_u64();
    assert_eq!(from_fees + from_provider, (90 + 20_000 - 17_000 - 1) * E8S);
    let rewards = state.total_available_returns().to_u64();
    assert_eq!(rewards, E8S - 5);
    assert!(state.check_invariants().is_ok());

    let again = replay(&events).unwrap();
    assert!(state.check_semantically_eq(&again).is_ok());
    let shorter = replay(&events[..11].to_vec()).unwrap();
    assert!(state.check_semantically_eq(&shorter).is_err());
}

#[test]
fn replay_refuses_logs_that_do_not_fit() {
    assert!(matches!(replay(&Vec::new()), Err(ReplayLogError::EmptyLog)));
    let not_init = vec![Event::RedistributeVault { vault_id: 0 }];
    assert!(matches!(replay(&not_init), Err(ReplayLogError::InconsistentLog(_))));
    let twice = vec![Event::Init(init_arg(0)), Event::Init(init_arg(0))];
    assert!(!has_one_start(&twice));
    assert!(has_one_start(&vec![Event::Init(init_arg(0))]));
    assert!(has_one_start(&Vec::new()));
    let unknown = vec![Event::Init(init_arg(0)), Event::CloseVault { vault_id: 3, block_index: None }];
    assert!(has_one_start(&unknown));
    assert!(matches!(replay(&unknown), Err(ReplayLogError::InconsistentLog(_))));
    let taken = vec![
        Event::Init(init_arg(0)),
        Event::OpenVault { vault: vault(user(1), 0, E8S, 0), block_index: 11 },
        Event::OpenVault { vault: vault(user(2), 0, E8S, 0), block_index: 12 },
    ];
    assert!(matches!(replay(&taken), Err(ReplayLogError::InconsistentLog(_))));
    let too_much = vec![
        Event::Init(init_arg(0)),
        Event::ProvideLiquidity { amount: TAL::from(5), block_index: 2, caller: user(2) },
        Event::WithdrawLiquidity { amount: TAL::from(6), block_index: 4, caller: user(2) },
    ];
    assert!(matches!(replay(&too_much), Err(ReplayLogError::InconsistentLog(_))));
    let only_init = vec![Event::Init(init_arg(0))];
    assert!(replay(&only_init).is_ok());
}

#[test]
fn events_of_a_vault() {
    let open = Event::OpenVault { vault: vault(user(1), 4, E8S, 0), block_index: 11 };
    assert!(open.is_vault_related(&4));
    assert!(!open.is_vault_related(&5));
    assert!(Event::CloseVault { vault_id: 4, block_index: None }.is_vault_related(&4));
    assert!(Event::RedistributeVault { vault_id: 4 }.is_vault_related(&4));
    assert!(!Event::RedistributeVault { vault_id: 4 }.is_vault_related(&3));
    let redemption = Event::RedemptionOnVaults {
        owner: user(1),
        current_btc_rate: UsdBtc::new(dec("1")),
        tal_amount: TAL::from(1),
        fee_amount: TAL::from(0),
        tal_block_index: 0,
    };
    assert!(redemption.is_vault_related(&4));
    assert!(!Event::RedemptionTransfered { tal_block_index: 4, ckbtc_block_index: 4 }
        .is_vault_related(&4));
    assert!(!Event::Init(init_arg(0)).is_vault_related(&0));
    assert!(!Event::Upgrade(UpgradeArg { mode: None }).is_vault_related(&0));
    assert!(!Event::ProvideLiquidity { amount: TAL::from(1), block_index: 0, caller: user(1) }
        .is_vault_related(&0));
}
