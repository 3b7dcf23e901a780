use protocol_canister::decimal::Fixed;
use protocol_canister::event::Event;
use protocol_canister::guard::{FetchXrcGuard, GuardError, GuardPrincipal, TimerLogicGuard};
use protocol_canister::invariants::check_invariants;
use protocol_canister::ledger::{BigNat, TransferError, TransferFromError};
use protocol_canister::liquidity_pool::{
    claim_liquidity_returns, complete_claim_liquidity_returns, complete_provide_liquidity,
    complete_withdraw_liquidity, provide_liquidity, withdraw_liquidity,
};
use protocol_canister::management::{
    fetch_btc_price, learn_fee, learn_fee_from, mint_tal, transfer_ckbtc, transfer_ckbtc_from,
    transfer_from_not_delivered, transfer_not_delivered, transfer_tal_from, CallError, Reason,
};
use protocol_canister::numeric::{Ratio, UsdBtc, CKBTC, TAL};
use protocol_canister::principal::Principal;
use protocol_canister::queries::{get_events, get_vault_history, get_vaults};
use protocol_canister::replay::{replay, ReplayLogError};
use protocol_canister::solvency::{check_vaults, VaultCheck};
use protocol_canister::state::{Mode, PendingMarginTransfer, State};
use protocol_canister::transfers::{
    complete_pending_transfer, has_pending_transfers, process_pending_transfer, Payout,
};
use protocol_canister::vault::{
    add_margin_to_vault, borrow_from_vault, close_vault, complete_borrow_from_vault,
    complete_add_margin_to_vault, complete_close_vault, complete_open_vault, complete_redeem_ckbtc, complete_repay_to_vault,
    open_vault, redeem_ckbtc, repay_to_vault, Closing, OpenVaultSuccess, Vault, VaultArg,
};
use protocol_canister::xrc::{fetch_btc_rate, read_quote, ExchangeRate};
use protocol_canister::{
    GetEventsArg, InitArg, ProtocolError, SuccessWithFee, E8S, MIN_CKBTC_AMOUNT,
    MIN_LIQUIDITY_AMOUNT, MIN_TAL_AMOUNT, SEC_NANOS,
};
use rust_decimal::Decimal;
use std::str::FromStr;

fn dec(text: &str) -> Fixed {
    let d = Decimal::from_str(text).unwrap();
    Fixed::new(d.mantissa(), d.scale()).unwrap()
}

fn user(n: u8) -> Principal {
    Principal::from_slice(&[n, 7, 7, 2]).unwrap()
}

fn protocol() -> Principal {
    user(200)
}

fn init_arg(fee_e8s: u64) -> InitArg {
    InitArg {
        xrc_principal: user(101),
        taler_ledger_principal: user(102),
        ckbtc_ledger_principal: user(103),
        fee_e8s,
        developer_principal: Principal::anonymous(),
    }
}

const NOW: u64 = 1_700_000_000 * SEC_NANOS;

/// A state with a price of 20 000 dollars, fetched a minute ago.
fn priced_state(fee_e8s: u64) -> (State, Vec<Event>) {
    let args = init_arg(fee_e8s);
    let mut state = State::new(args).unwrap();
    let mut log = vec![Event::Init(args)];
    let quote = ExchangeRate { rate: 20_000 * E8S, decimals: 8, timestamp: NOW / SEC_NANOS - 60 };
    assert_eq!(fetch_btc_rate(&mut state, &mut log, Some(quote)), Some(vec![]));
    (state, log)
}

fn open(state: &mut State, log: &mut Vec<Event>, owner: Principal, margin: u64) -> u64 {
    let (guard, _) = open_vault(state, owner, margin, protocol(), NOW).unwrap();
    complete_open_vault(state, log, guard, margin, Ok(11)).unwrap().vault_id
}

fn borrow(state: &mut State, log: &mut Vec<Event>, owner: Principal, vault_id: u64, amount: u64) {
    let arg = VaultArg { vault_id, amount };
    let (guard, fee, _) = borrow_from_vault(state, owner, arg, NOW).unwrap();
    complete_borrow_from_vault(state, log, guard, arg, fee, Ok(1)).unwrap();
}

fn check_log(state: &State, log: &Vec<Event>) {
    state.check_invariants().unwrap();
    let recovered = replay(log).unwrap();
    state.check_semantically_eq(&recovered).unwrap();
}

#[test]
fn tokens_are_written_in_tokens() {
    assert_eq!(TAL::from(0).to_string(), "0.0");
    assert_eq!(TAL::from(1).to_string(), "0.00000001");
    assert_eq!(TAL::from(100_000_000).to_string(), "1.0");
    assert_eq!(TAL::from(150_000_000).to_string(), "1.5");
    assert_eq!(TAL::from(123_456_789).to_string(), "1.23456789");
    assert_eq!(CKBTC::from(2_000_120_000).to_string(), "20.0012");
    assert_eq!(CKBTC::from(u64::MAX).to_string(), "184467440737.09551615");
    assert_eq!(CKBTC::from(2_000_120_000).written(), (20, 4, 12));
    assert_eq!(CKBTC::from(700_000_000).written(), (7, 1, 0));
    assert_eq!(Ratio::new(dec("1.50")).to_string(), "1.50");
    assert_eq!(UsdBtc::new(dec("-20000.125")).to_string(), "-20000.125");
}

#[test]
fn guards_let_each_caller_in_once() {
    let (mut state, _) = priced_state(0);
    let guard = GuardPrincipal::new(&mut state, user(1)).unwrap();
    assert!(guard.caller() == user(1));
    assert_eq!(
        GuardPrincipal::new(&mut state, user(1)).unwrap_err(),
        GuardError::AlreadyProcessing
    );
    assert_eq!(state.admits(user(1)), Err(GuardError::AlreadyProcessing));
    assert_eq!(state.admits(user(2)), Ok(()));
    let other = GuardPrincipal::new(&mut state, user(2)).unwrap();
    guard.release(&mut state);
    assert_eq!(state.principal_guards.len(), 1);
    let again = GuardPrincipal::new(&mut state, user(1)).unwrap();
    again.release(&mut state);
    other.release(&mut state);
    assert_eq!(state.principal_guards.len(), 0);

    let mut guards = Vec::new();
    for n in 0..100 {
        guards.push(GuardPrincipal::new(&mut state, user(n)).unwrap());
    }
    assert_eq!(
        GuardPrincipal::new(&mut state, user(100)).unwrap_err(),
        GuardError::TooManyConcurrentRequests
    );
    assert_eq!(
        GuardPrincipal::new(&mut state, user(5)).unwrap_err(),
        GuardError::AlreadyProcessing
    );
    assert_eq!(
        open_vault(&mut state, user(100), E8S, protocol(), NOW).unwrap_err(),
        ProtocolError::TemporarilyUnavailable("too many concurrent requests".to_string())
    );
    assert_eq!(
        open_vault(&mut state, user(5), E8S, protocol(), NOW).unwrap_err(),
        ProtocolError::AlreadyProcessing
    );
    guards.pop().unwrap().release(&mut state);
    assert!(GuardPrincipal::new(&mut state, user(100)).is_ok());

    assert_eq!(ProtocolError::from(GuardError::AlreadyProcessing), ProtocolError::AlreadyProcessing);
    assert_eq!(
        ProtocolError::from(GuardError::TooManyConcurrentRequests),
        ProtocolError::TemporarilyUnavailable("too many concurrent requests".to_string())
    );
}

#[test]
fn tasks_run_once_at_a_time() {
    let mut state = State::new(init_arg(0)).unwrap();
    let timer = TimerLogicGuard::new(&mut state).unwrap();
    assert!(state.is_timer_running);
    assert!(TimerLogicGuard::new(&mut state).is_none());
    assert!(state.is_timer_running);
    timer.release(&mut state);
    assert!(!state.is_timer_running);
    assert!(TimerLogicGuard::new(&mut state).is_some());

    let fetch = FetchXrcGuard::new(&mut state).unwrap();
    assert!(state.is_fetching_rate);
    assert!(FetchXrcGuard::new(&mut state).is_none());
    fetch.release(&mut state);
    assert!(!state.is_fetching_rate);
    assert!(FetchXrcGuard::new(&mut state).is_some());
}

#[test]
fn calls_are_checked_first() {
    let mut state = State::new(init_arg(0)).unwrap();
    assert_eq!(
        state.validate_call(Principal::anonymous(), NOW),
        Err(ProtocolError::AnonymousCallerNotAllowed)
    );
    assert_eq!(
        state.validate_call(user(1), NOW),
        Err(ProtocolError::TemporarilyUnavailable("No BTC price fetched".to_string()))
    );
    assert_eq!(
        state.check_price_not_too_old(NOW),
        Err(ProtocolError::TemporarilyUnavailable("No BTC price fetched".to_string()))
    );
    state.last_btc_timestamp = Some(NOW);
    assert_eq!(state.validate_call(user(1), NOW), Ok(()));
    assert_eq!(state.validate_call(user(1), NOW - 5), Ok(()));
    assert_eq!(state.validate_call(user(1), NOW + 600 * SEC_NANOS), Ok(()));
    assert_eq!(
        state.validate_call(user(1), NOW + 600 * SEC_NANOS + 1),
        Err(ProtocolError::TemporarilyUnavailable("Last known BTC price too old".to_string()))
    );
    assert_eq!(state.validate_mode(), Ok(()));
    state.mode = Mode::Recovery;
    assert_eq!(state.validate_mode(), Ok(()));
    state.mode = Mode::ReadOnly;
    assert!(matches!(state.validate_mode(), Err(ProtocolError::TemporarilyUnavailable(_))));
}

#[test]
fn amounts_below_the_minimum_are_refused() {
    let (mut state, mut log) = priced_state(0);
    let owner = user(1);
    assert_eq!(
        open_vault(&mut state, owner, MIN_CKBTC_AMOUNT - 1, protocol(), NOW).unwrap_err(),
        ProtocolError::AmountTooLow { minimum_amount: 100_000 }
    );
    let vault_id = open(&mut state, &mut log, owner, MIN_CKBTC_AMOUNT);
    assert_eq!(state.principal_guards.len(), 0);
    let little = VaultArg { vault_id, amount: MIN_TAL_AMOUNT - 1 };
    assert_eq!(
        borrow_from_vault(&mut state, owner, little, NOW).unwrap_err(),
        ProtocolError::AmountTooLow { minimum_amount: 1_000_000_000 }
    );
    assert_eq!(
        repay_to_vault(&mut state, owner, little, protocol(), NOW).unwrap_err(),
        ProtocolError::AmountTooLow { minimum_amount: 1_000_000_000 }
    );
    assert_eq!(
        add_margin_to_vault(
            &mut state,
            owner,
            VaultArg { vault_id, amount: MIN_CKBTC_AMOUNT - 1 },
            protocol(), NOW
        )
        .unwrap_err(),
        ProtocolError::AmountTooLow { minimum_amount: 100_000 }
    );
    assert_eq!(
        redeem_ckbtc(&mut state, owner, MIN_TAL_AMOUNT - 1, protocol(), NOW).unwrap_err(),
        ProtocolError::AmountTooLow { minimum_amount: 1_000_000_000 }
    );
    assert_eq!(
        provide_liquidity(&mut state, owner, MIN_LIQUIDITY_AMOUNT - 1, protocol(), NOW).unwrap_err(),
        ProtocolError::AmountTooLow { minimum_amount: 1_000_000_000 }
    );
    assert_eq!(
        withdraw_liquidity(&mut state, owner, MIN_LIQUIDITY_AMOUNT - 1, NOW).unwrap_err(),
        ProtocolError::AmountTooLow { minimum_amount: 1_000_000_000 }
    );
    assert_eq!(state.principal_guards.len(), 0);
    check_log(&state, &log);
}

#[test]
fn what_the_books_do_not_hold_is_refused() {
    let (mut state, mut log) = priced_state(0);
    let owner = user(1);
    let unknown = VaultArg { vault_id: 9, amount: 10 * E8S };
    assert!(matches!(
        borrow_from_vault(&mut state, owner, unknown, NOW),
        Err(ProtocolError::GenericError(_))
    ));
    assert!(matches!(
        repay_to_vault(&mut state, owner, unknown, protocol(), NOW),
        Err(ProtocolError::GenericError(_))
    ));
    assert!(matches!(
        add_margin_to_vault(&mut state, owner, unknown, protocol(), NOW),
        Err(ProtocolError::GenericError(_))
    ));
    assert!(matches!(
        close_vault(&mut state, &mut log, owner, 9, protocol(), NOW),
        Err(ProtocolError::GenericError(_))
    ));
    assert!(matches!(
        withdraw_liquidity(&mut state, owner, 10 * E8S, NOW),
        Err(ProtocolError::GenericError(_))
    ));
    assert!(matches!(
        claim_liquidity_returns(&mut state, owner, NOW),
        Err(ProtocolError::GenericError(_))
    ));
    let vault_id = open(&mut state, &mut log, owner, E8S);
    assert!(matches!(
        repay_to_vault(&mut state, owner, VaultArg { vault_id, amount: 10 * E8S }, protocol(), NOW),
        Err(ProtocolError::GenericError(_))
    ));
    let state_without_price = &mut State::new(init_arg(0)).unwrap();
    assert_eq!(
        redeem_ckbtc(state_without_price, owner, 10 * E8S, protocol(), NOW).unwrap_err(),
        ProtocolError::TemporarilyUnavailable("No BTC price fetched".to_string())
    );
    assert_eq!(log.len(), 2);
    check_log(&state, &log);
}

#[test]
fn borrowing_charges_the_fee_to_the_developer() {
    let (mut state, mut log) = priced_state(500_000);
    let owner = user(1);
    let vault_id = open(&mut state, &mut log, owner, E8S);
    let arg = VaultArg { vault_id, amount: 18_181 * E8S };
    let (guard, fee, transfer) = borrow_from_vault(&mut state, owner, arg, NOW).unwrap();
    assert_eq!(fee, TAL::from(9_090_500_000));
    assert_eq!(transfer, mint_tal(&state, TAL::from(18_181 * E8S - 9_090_500_000), owner));
    assert_eq!(state.principal_guards.len(), 1);
    let refused = TransferError::TemporarilyUnavailable;
    assert_eq!(
        complete_borrow_from_vault(&mut state, &mut log, guard, arg, fee, Err(refused.clone())),
        Err(ProtocolError::TransferError(refused))
    );
    assert_eq!(state.principal_guards.len(), 0);
    assert_eq!(state.total_borrowed_tal_amount(), TAL::from(0));

    let (guard, fee, _) = borrow_from_vault(&mut state, owner, arg, NOW).unwrap();
    assert_eq!(
        complete_borrow_from_vault(&mut state, &mut log, guard, arg, fee, Ok(4)),
        Ok(SuccessWithFee { block_index: 4, fee_amount_paid: 9_090_500_000 })
    );
    assert_eq!(state.total_borrowed_tal_amount(), TAL::from(18_181 * E8S));
    assert_eq!(state.get_provided_liquidity(Principal::anonymous()), TAL::from(9_090_500_000));
    assert_eq!(
        log.last(),
        Some(&Event::BorrowFromVault {
            vault_id,
            borrowed_amount: TAL::from(18_181 * E8S),
            fee_amount: TAL::from(9_090_500_000),
            block_index: 4,
        })
    );
    // One more unit is more than the margin covers.
    assert!(matches!(
        borrow_from_vault(&mut state, owner, VaultArg { vault_id, amount: 82 * E8S }, NOW),
        Err(ProtocolError::GenericError(_))
    ));
    state.mode = Mode::Recovery;
    assert!(matches!(
        borrow_from_vault(&mut state, owner, VaultArg { vault_id, amount: 10 * E8S }, NOW),
        Err(ProtocolError::GenericError(_))
    ));
    check_log(&state, &log);
}

#[test]
fn borrowing_in_recovery_is_free() {
    let (mut state, mut log) = priced_state(500_000);
    let owner = user(1);
    let vault_id = open(&mut state, &mut log, owner, E8S);
    state.mode = Mode::Recovery;
    let arg = VaultArg { vault_id, amount: 13_333 * E8S };
    let (guard, fee, _) = borrow_from_vault(&mut state, owner, arg, NOW).unwrap();
    assert_eq!(fee, TAL::from(0));
    assert!(complete_borrow_from_vault(&mut state, &mut log, guard, arg, fee, Ok(4)).is_ok());
    assert!(state.liquidity_pool.is_empty());
    assert!(matches!(
        borrow_from_vault(&mut state, owner, VaultArg { vault_id, amount: 10 * E8S }, NOW),
        Err(ProtocolError::GenericError(_))
    ));
}

#[test]
fn repaying_and_closing() {
    let (mut state, mut log) = priced_state(0);
    let owner = user(1);
    let vault_id = open(&mut state, &mut log, owner, E8S);
    borrow(&mut state, &mut log, owner, vault_id, 100 * E8S);

    let arg = VaultArg { vault_id, amount: 40 * E8S };
    let (guard, transfer) = repay_to_vault(&mut state, owner, arg, protocol(), NOW).unwrap();
    assert_eq!(transfer, transfer_tal_from(&state, TAL::from(40 * E8S), owner, protocol()));
    let refused = TransferFromError::InsufficientAllowance { allowance: BigNat::from_u64(3) };
    assert_eq!(
        complete_repay_to_vault(&mut state, &mut log, guard, arg, Err(refused.clone())),
        Err(ProtocolError::TransferFromError(refused, 40 * E8S))
    );
    let (guard, _) = repay_to_vault(&mut state, owner, arg, protocol(), NOW).unwrap();
    assert_eq!(complete_repay_to_vault(&mut state, &mut log, guard, arg, Ok(8)), Ok(8));
    assert_eq!(state.total_borrowed_tal_amount(), TAL::from(60 * E8S));

    let closing = close_vault(&mut state, &mut log, owner, vault_id, protocol(), NOW).unwrap();
    let (guard, debt) = match closing {
        Closing::PayOff { guard, amount_to_pay_off, transfer } => {
            assert_eq!(transfer, transfer_tal_from(&state, TAL::from(60 * E8S), owner, protocol()));
            (guard, amount_to_pay_off)
        }
        Closing::Closed => panic!("the vault has debt"),
    };
    assert_eq!(debt, TAL::from(60 * E8S));
    let refused = TransferFromError::TooOld;
    assert_eq!(
        complete_close_vault(&mut state, &mut log, guard, vault_id, debt, Err(refused.clone())),
        Err(ProtocolError::TransferFromError(refused, 60 * E8S))
    );
    assert_eq!(state.vault_id_to_vaults.len(), 1);
    let closing = close_vault(&mut state, &mut log, owner, vault_id, protocol(), NOW).unwrap();
    match closing {
        Closing::PayOff { guard, amount_to_pay_off, .. } => {
            assert_eq!(
                complete_close_vault(&mut state, &mut log, guard, vault_id, amount_to_pay_off, Ok(9)),
                Ok(Some(9))
            );
        }
        Closing::Closed => panic!("the vault has debt"),
    }
    assert!(state.vault_id_to_vaults.is_empty());
    assert_eq!(
        log.last(),
        Some(&Event::CloseVault { vault_id, block_index: Some(9) })
    );
    let owed = state.pending_margin_transfers.get(&vault_id).unwrap();
    assert!(*owed == PendingMarginTransfer { owner, margin: CKBTC::from(E8S) });
    assert_eq!(state.principal_guards.len(), 0);
    check_log(&state, &log);
}

#[test]
fn the_ledger_teaches_its_fee() {
    let (mut state, mut log) = priced_state(0);
    let owner = user(1);
    let (guard, transfer) = open_vault(&mut state, owner, E8S, protocol(), NOW).unwrap();
    assert_eq!(transfer, transfer_ckbtc_from(&state, CKBTC::from(E8S), owner, protocol()));
    assert_eq!(transfer.fee, Some(BigNat::from_u64(10)));
    let refused = TransferFromError::BadFee { expected_fee: BigNat::from_u64(111) };
    assert_eq!(
        complete_open_vault(&mut state, &mut log, guard, E8S, Err(refused.clone())),
        Err(ProtocolError::TransferFromError(refused, E8S))
    );
    assert_eq!(state.ckbtc_ledger_fee, CKBTC::from(111));
    assert_eq!(state.next_available_vault_id, 0);
    let (guard, transfer) = open_vault(&mut state, owner, E8S, protocol(), NOW).unwrap();
    assert_eq!(transfer.fee, Some(BigNat::from_u64(111)));
    assert_eq!(
        complete_open_vault(&mut state, &mut log, guard, E8S, Ok(12)),
        Ok(OpenVaultSuccess { vault_id: 0, block_index: 12 })
    );
    assert_eq!(state.next_available_vault_id, 1);

    learn_fee(&mut state, &TransferError::BadFee { expected_fee: BigNat::from_u64(7) });
    assert_eq!(state.ckbtc_ledger_fee, CKBTC::from(7));
    learn_fee(&mut state, &TransferError::BadFee { expected_fee: BigNat { digits: vec![0, 0, 1] } });
    assert_eq!(state.ckbtc_ledger_fee, CKBTC::from(7));
    learn_fee(&mut state, &TransferError::TooOld);
    assert_eq!(state.ckbtc_ledger_fee, CKBTC::from(7));
    learn_fee_from(
        &mut state,
        &TransferFromError::InsufficientFunds { balance: BigNat::from_u64(9) },
    );
    assert_eq!(state.ckbtc_ledger_fee, CKBTC::from(7));
    learn_fee_from(&mut state, &TransferFromError::BadFee { expected_fee: BigNat::from_u64(9) });
    assert_eq!(state.ckbtc_ledger_fee, CKBTC::from(9));
    check_log(&state, &log);
}

#[test]
fn liquidity_comes_and_goes() {
    let (mut state, mut log) = priced_state(0);
    let provider = user(3);
    let (guard, transfer) = provide_liquidity(&mut state, provider, 50 * E8S, protocol(), NOW).unwrap();
    assert_eq!(transfer, transfer_tal_from(&state, TAL::from(50 * E8S), provider, protocol()));
    let refused = TransferFromError::TemporarilyUnavailable;
    assert_eq!(
        complete_provide_liquidity(&mut state, &mut log, guard, 50 * E8S, Err(refused.clone())),
        Err(ProtocolError::TransferFromError(refused, 50 * E8S))
    );
    assert!(state.liquidity_pool.is_empty());
    let (guard, _) = provide_liquidity(&mut state, provider, 50 * E8S, protocol(), NOW).unwrap();
    assert_eq!(complete_provide_liquidity(&mut state, &mut log, guard, 50 * E8S, Ok(3)), Ok(3));
    assert_eq!(state.get_provided_liquidity(provider), TAL::from(50 * E8S));

    assert!(matches!(
        withdraw_liquidity(&mut state, provider, 51 * E8S, NOW),
        Err(ProtocolError::GenericError(_))
    ));
    let (guard, transfer) = withdraw_liquidity(&mut state, provider, 20 * E8S, NOW).unwrap();
    assert_eq!(transfer, mint_tal(&state, TAL::from(20 * E8S), provider));
    let refused = TransferError::TooOld;
    assert_eq!(
        complete_withdraw_liquidity(&mut state, &mut log, guard, 20 * E8S, Err(refused.clone())),
        Err(ProtocolError::TransferError(refused))
    );
    let (guard, _) = withdraw_liquidity(&mut state, provider, 20 * E8S, NOW).unwrap();
    assert_eq!(complete_withdraw_liquidity(&mut state, &mut log, guard, 20 * E8S, Ok(5)), Ok(5));
    assert_eq!(state.get_provided_liquidity(provider), TAL::from(30 * E8S));

    // A vault is liquidated, and the provider claims what it brought.
    let owner = user(1);
    let vault_id = open(&mut state, &mut log, owner, 100_000);
    borrow(&mut state, &mut log, owner, vault_id, 15 * E8S);
    assert!(state.liquidate_vault(vault_id, Mode::GeneralAvailability, UsdBtc::new(dec("15000"))));
    log.push(Event::LiquidateVault {
        vault_id,
        mode: Mode::GeneralAvailability,
        btc_rate: UsdBtc::new(dec("15000")),
    });
    assert_eq!(state.get_liquidity_returns_of(provider), CKBTC::from(100_000));
    let (guard, amount, transfer) = claim_liquidity_returns(&mut state, provider, NOW).unwrap();
    assert_eq!(amount, CKBTC::from(100_000));
    assert_eq!(transfer, transfer_ckbtc(&state, CKBTC::from(100_000), provider));
    let refused = TransferError::BadFee { expected_fee: BigNat::from_u64(12) };
    assert_eq!(
        complete_claim_liquidity_returns(&mut state, &mut log, guard, amount, Err(refused.clone())),
        Err(ProtocolError::TransferError(refused))
    );
    assert_eq!(state.ckbtc_ledger_fee, CKBTC::from(12));
    assert_eq!(state.get_liquidity_returns_of(provider), CKBTC::from(100_000));
    let (guard, amount, transfer) = claim_liquidity_returns(&mut state, provider, NOW).unwrap();
    assert_eq!(transfer.fee, Some(BigNat::from_u64(12)));
    assert_eq!(
        complete_claim_liquidity_returns(&mut state, &mut log, guard, amount, Ok(20)),
        Ok(20)
    );
    assert!(state.liquidity_returns.is_empty());
    assert_eq!(state.principal_guards.len(), 0);
    check_log(&state, &log);
}

#[test]
fn redemption_charges_its_fee_and_owes_the_collateral() {
    let (mut state, mut log) = priced_state(0);
    let owner = user(1);
    let vault_id = open(&mut state, &mut log, owner, E8S);
    borrow(&mut state, &mut log, owner, vault_id, 10_000 * E8S);
    let redeemer = user(2);
    let (guard, price, transfer) = redeem_ckbtc(&mut state, redeemer, 1_000 * E8S, protocol(), NOW).unwrap();
    assert_eq!(price, UsdBtc::new(dec("20000")));
    assert_eq!(transfer, transfer_tal_from(&state, TAL::from(1_000 * E8S), redeemer, protocol()));
    let refused = TransferFromError::InsufficientFunds { balance: BigNat::from_u64(1) };
    assert_eq!(
        complete_redeem_ckbtc(
            &mut state,
            &mut log,
            guard,
            1_000 * E8S,
            price,
            NOW,
            Err(refused.clone())
        ),
        Err(ProtocolError::TransferFromError(refused, 1_000 * E8S))
    );
    let (guard, price, _) = redeem_ckbtc(&mut state, redeemer, 1_000 * E8S, protocol(), NOW).unwrap();
    // A tenth of the debt is redeemed: the fee is at its highest, a twentieth.
    assert_eq!(
        complete_redeem_ckbtc(&mut state, &mut log, guard, 1_000 * E8S, price, NOW, Ok(30)),
        Ok(SuccessWithFee { block_index: 30, fee_amount_paid: 50 * E8S })
    );
    assert_eq!(state.current_base_rate, Ratio::new(dec("0.05")));
    assert_eq!(state.last_redemption_time, NOW);
    assert_eq!(state.total_borrowed_tal_amount(), TAL::from(9_050 * E8S));
    assert_eq!(state.total_ckbtc_margin_amount(), CKBTC::from(E8S - 4_750_000));
    assert_eq!(state.get_provided_liquidity(Principal::anonymous()), TAL::from(50 * E8S));
    let owed = state.pending_redemption_transfer.get(&30).unwrap();
    assert!(*owed == PendingMarginTransfer { owner: redeemer, margin: CKBTC::from(4_750_000) });

    // A redemption that the clock puts before the last one is not made.
    let (guard, price, _) = redeem_ckbtc(&mut state, redeemer, 1_000 * E8S, protocol(), NOW).unwrap();
    assert!(matches!(
        complete_redeem_ckbtc(&mut state, &mut log, guard, 1_000 * E8S, price, NOW - 1, Ok(31)),
        Err(ProtocolError::GenericError(_))
    ));
    assert_eq!(state.total_borrowed_tal_amount(), TAL::from(9_050 * E8S));
    assert_eq!(state.principal_guards.len(), 0);
    check_log(&state, &log);
}

#[test]
fn payouts_are_sent_until_they_are_confirmed() {
    let (mut state, mut log) = priced_state(0);
    let owner = user(1);
    let first = open(&mut state, &mut log, owner, E8S);
    let second = open(&mut state, &mut log, owner, 200_000);
    assert!(!has_pending_transfers(&state));
    assert!(matches!(
        close_vault(&mut state, &mut log, owner, first, protocol(), NOW),
        Ok(Closing::Closed)
    ));
    assert!(matches!(
        close_vault(&mut state, &mut log, owner, second, protocol(), NOW),
        Ok(Closing::Closed)
    ));
    assert_eq!(log.last(), Some(&Event::CloseVault { vault_id: second, block_index: None }));
    assert!(has_pending_transfers(&state));
    state.ckbtc_ledger_fee = CKBTC::from(200_001);
    assert!(!state.can_pay_out());
    state.ckbtc_ledger_fee = CKBTC::from(200_000);
    assert!(state.can_pay_out());
    state.ckbtc_ledger_fee = CKBTC::from(10);
    assert!(state.can_pay_out());
    let payouts = process_pending_transfer(&state);
    assert_eq!(payouts.len(), 2);
    assert_eq!(payouts[0].payout, Payout::Margin { vault_id: first });
    assert!(payouts[0].owner == owner);
    assert_eq!(payouts[0].amount, CKBTC::from(E8S - 10));
    assert_eq!(payouts[1].payout, Payout::Margin { vault_id: second });
    assert_eq!(payouts[1].amount, CKBTC::from(199_990));

    let failed = Err(TransferError::TemporarilyUnavailable);
    assert!(!complete_pending_transfer(&mut state, &mut log, payouts[0].payout, &failed));
    assert_eq!(process_pending_transfer(&state).len(), 2);
    assert!(complete_pending_transfer(&mut state, &mut log, payouts[0].payout, &Ok(40)));
    assert_eq!(log.last(), Some(&Event::MarginTransfer { vault_id: first, block_index: 40 }));
    assert_eq!(process_pending_transfer(&state).len(), 1);
    assert!(complete_pending_transfer(&mut state, &mut log, payouts[1].payout, &Ok(41)));
    assert!(!has_pending_transfers(&state));

    state.pending_redemption_transfer.insert(
        77,
        PendingMarginTransfer { owner: user(5), margin: CKBTC::from(500) },
    );
    let payouts = process_pending_transfer(&state);
    assert_eq!(payouts.len(), 1);
    assert_eq!(payouts[0].payout, Payout::Redemption { tal_block_index: 77 });
    assert_eq!(payouts[0].amount, CKBTC::from(490));
    assert!(complete_pending_transfer(&mut state, &mut log, payouts[0].payout, &Ok(42)));
    assert_eq!(
        log.last(),
        Some(&Event::RedemptionTransfered { tal_block_index: 77, ckbtc_block_index: 42 })
    );
    assert!(!has_pending_transfers(&state));
}

#[test]
fn quotes_of_the_oracle() {
    let quote = ExchangeRate { rate: 2_000_012_345, decimals: 5, timestamp: 1_700_000_000 };
    let (price, time) = read_quote(&quote).unwrap();
    assert_eq!(price, UsdBtc::new(dec("20000.12345")));
    assert_eq!(time, 1_700_000_000 * SEC_NANOS);
    assert!(read_quote(&ExchangeRate { decimals: 19, ..quote }).is_some());
    assert!(read_quote(&ExchangeRate { decimals: 20, ..quote }).is_none());
    assert!(read_quote(&ExchangeRate { timestamp: u64::MAX / SEC_NANOS + 1, ..quote }).is_none());
    assert_eq!(fetch_btc_price(NOW), Some(1_700_000_000 - 60));
    assert_eq!(fetch_btc_price(59 * SEC_NANOS + 999), None);
    assert_eq!(fetch_btc_price(60 * SEC_NANOS), Some(0));
}

#[test]
fn the_oracle_keeps_the_newest_price() {
    let (mut state, mut log) = priced_state(0);
    let first_time = state.last_btc_timestamp.unwrap();
    assert_eq!(state.last_btc_rate, Some(UsdBtc::new(dec("20000"))));
    let older = ExchangeRate { rate: 30_000 * E8S, decimals: 8, timestamp: first_time / SEC_NANOS - 1 };
    assert!(fetch_btc_rate(&mut state, &mut log, Some(older)).is_some());
    assert_eq!(state.last_btc_rate, Some(UsdBtc::new(dec("20000"))));
    assert_eq!(state.last_btc_timestamp, Some(first_time));
    let same = ExchangeRate { rate: 30_000 * E8S, decimals: 8, timestamp: first_time / SEC_NANOS };
    assert!(fetch_btc_rate(&mut state, &mut log, Some(same)).is_some());
    assert_eq!(state.last_btc_rate, Some(UsdBtc::new(dec("20000"))));
    let newer = ExchangeRate { rate: 30_000 * E8S, decimals: 8, timestamp: first_time / SEC_NANOS + 1 };
    assert!(fetch_btc_rate(&mut state, &mut log, Some(newer)).is_some());
    assert_eq!(state.last_btc_rate, Some(UsdBtc::new(dec("30000"))));
    assert_eq!(state.last_btc_timestamp, Some(first_time + SEC_NANOS));
    assert!(fetch_btc_rate(&mut state, &mut log, None).is_some());
    assert_eq!(state.last_btc_rate, Some(UsdBtc::new(dec("30000"))));
    let unreadable = ExchangeRate { rate: 1, decimals: 40, timestamp: first_time / SEC_NANOS + 9 };
    assert!(fetch_btc_rate(&mut state, &mut log, Some(unreadable)).is_none());
    assert_eq!(state.last_btc_rate, Some(UsdBtc::new(dec("30000"))));
    assert_eq!(state.mode, Mode::GeneralAvailability);
    assert_eq!(log.len(), 1);

    let mut fresh = State::new(init_arg(0)).unwrap();
    let mut fresh_log = vec![Event::Init(init_arg(0))];
    assert_eq!(fetch_btc_rate(&mut fresh, &mut fresh_log, None), Some(vec![]));
    assert_eq!(fresh.last_btc_rate, None);
    let cheap = ExchangeRate { rate: 999 * E8S, decimals: 8, timestamp: 100 };
    assert!(fetch_btc_rate(&mut fresh, &mut fresh_log, Some(cheap)).is_some());
    assert_eq!(fresh.mode, Mode::GeneralAvailability);
    assert_eq!(fresh.last_btc_rate, Some(UsdBtc::new(dec("999"))));
}

#[test]
fn the_mode_follows_the_collateral_ratio() {
    let (mut state, mut log) = priced_state(0);
    let owner = user(1);
    let vault_id = open(&mut state, &mut log, owner, E8S);
    borrow(&mut state, &mut log, owner, vault_id, 10_000 * E8S);
    assert_eq!(state.compute_total_collateral_ratio(UsdBtc::new(dec("20000"))), Some(Ratio::new(dec("2"))));
    assert!(state.update_total_collateral_ratio_and_mode(UsdBtc::new(dec("15000"))));
    assert_eq!(state.total_collateral_ratio, Ratio::new(dec("1.5")));
    assert_eq!(state.mode, Mode::GeneralAvailability);
    assert!(state.update_total_collateral_ratio_and_mode(UsdBtc::new(dec("14999.99"))));
    assert_eq!(state.mode, Mode::Recovery);
    assert!(state.update_total_collateral_ratio_and_mode(UsdBtc::new(dec("10000"))));
    assert_eq!(state.total_collateral_ratio, Ratio::new(dec("1")));
    assert_eq!(state.mode, Mode::Recovery);
    assert!(state.update_total_collateral_ratio_and_mode(UsdBtc::new(dec("9999.99"))));
    assert_eq!(state.mode, Mode::ReadOnly);
    assert!(state.update_total_collateral_ratio_and_mode(UsdBtc::new(dec("40000"))));
    assert_eq!(state.mode, Mode::GeneralAvailability);
    state.add_margin_to_vault(vault_id, CKBTC::from(u64::MAX - E8S));
    assert!(!state.update_total_collateral_ratio_and_mode(UsdBtc::new(dec("40000"))));
    assert_eq!(state.mode, Mode::GeneralAvailability);
    assert_eq!(state.total_collateral_ratio, Ratio::new(dec("4")));
}

#[test]
fn the_sweep_keeps_or_halts_where_nobody_takes_over() {
    let (mut state, mut log) = priced_state(0);
    let owner = user(1);
    let vault_id = open(&mut state, &mut log, owner, E8S);
    borrow(&mut state, &mut log, owner, vault_id, 18_181 * E8S);
    // At 19 000 dollars the only vault is unhealthy, and the protocol solvent.
    let quote = ExchangeRate { rate: 19_000 * E8S, decimals: 8, timestamp: NOW / SEC_NANOS };
    assert_eq!(
        fetch_btc_rate(&mut state, &mut log, Some(quote)),
        Some(vec![VaultCheck::Kept { vault_id }])
    );
    assert_eq!(state.mode, Mode::Recovery);
    assert_eq!(state.vault_id_to_vaults.len(), 1);
    // A sweep over a ratio of exactly one halts the protocol.
    state.total_collateral_ratio = Ratio::new(dec("1"));
    state.last_btc_rate = Some(UsdBtc::new(dec("18181")));
    assert_eq!(check_vaults(&mut state, &mut log), Some(vec![VaultCheck::Halted { vault_id }]));
    assert_eq!(state.mode, Mode::ReadOnly);
    // A healthy vault takes the unhealthy one over.
    state.mode = Mode::GeneralAvailability;
    let other = open(&mut state, &mut log, user(2), 5 * E8S);
    assert_eq!(
        check_vaults(&mut state, &mut log),
        Some(vec![VaultCheck::Redistributed { vault_id }])
    );
    assert_eq!(log.last(), Some(&Event::RedistributeVault { vault_id }));
    let heir = state.vault_id_to_vaults.get(&other).unwrap();
    assert_eq!(heir.borrowed_tal_amount, TAL::from(18_181 * E8S));
    assert_eq!(heir.ckbtc_margin_amount, CKBTC::from(6 * E8S));
    assert_eq!(check_vaults(&mut state, &mut log), Some(vec![]));
    // A pool that holds the debt takes the vault over.
    state.provide_liquidity(TAL::from(20_000 * E8S), user(3));
    log.push(Event::ProvideLiquidity { amount: TAL::from(20_000 * E8S), block_index: 0, caller: user(3) });
    state.last_btc_rate = Some(UsdBtc::new(dec("3000")));
    assert_eq!(
        check_vaults(&mut state, &mut log),
        Some(vec![VaultCheck::Liquidated { vault_id: other }])
    );
    assert!(state.vault_id_to_vaults.is_empty());
    assert_eq!(state.get_liquidity_returns_of(user(3)), CKBTC::from(6 * E8S));
    // A collateral ratio that cannot be computed stops the sweep before it begins.
    state.open_vault(Vault {
        owner,
        borrowed_tal_amount: TAL::from(1),
        ckbtc_margin_amount: CKBTC::from(u64::MAX - 6 * E8S),
        vault_id: 50,
    });
    state.last_btc_rate = Some(UsdBtc::new(dec("100000")));
    assert_eq!(check_vaults(&mut state, &mut log), None);
}

#[test]
fn queries_show_the_vaults_and_the_events() {
    let (mut state, mut log) = priced_state(0);
    let first = open(&mut state, &mut log, user(1), E8S);
    let second = open(&mut state, &mut log, user(2), 2 * E8S);
    let third = open(&mut state, &mut log, user(1), 3 * E8S);
    borrow(&mut state, &mut log, user(1), third, 50 * E8S);
    let all = get_vaults(&state, None);
    assert_eq!(all.len(), 3);
    assert_eq!(all[1].vault_id, second);
    assert_eq!(all[1].ckbtc_margin_amount, 2 * E8S);
    assert!(all[1].owner == user(2));
    let mine = get_vaults(&state, Some(user(1)));
    assert_eq!(mine.len(), 2);
    assert_eq!(mine[0].vault_id, first);
    assert_eq!(mine[1].vault_id, third);
    assert_eq!(mine[1].borrowed_tal_amount, 50 * E8S);
    assert_eq!(get_vaults(&state, Some(user(9))).len(), 0);
    let shown = state.vault_id_to_vaults.get(&third).unwrap().to_candid();
    assert_eq!(shown.vault_id, third);
    assert_eq!(shown.borrowed_tal_amount, 50 * E8S);
    assert_eq!(shown.ckbtc_margin_amount, 3 * E8S);

    assert_eq!(get_vault_history(&log, third).len(), 2);
    assert_eq!(get_vault_history(&log, second).len(), 1);
    assert_eq!(get_vault_history(&log, 9).len(), 0);

    assert_eq!(log.len(), 5);
    assert_eq!(get_events(&log, GetEventsArg { start: 0, length: 2000 }), log);
    assert_eq!(get_events(&log, GetEventsArg { start: 1, length: 2 }), log[1..3].to_vec());
    assert_eq!(get_events(&log, GetEventsArg { start: 4, length: 9 }), log[4..].to_vec());
    assert_eq!(get_events(&log, GetEventsArg { start: 5, length: 9 }), vec![]);
    assert_eq!(get_events(&log, GetEventsArg { start: u64::MAX, length: u64::MAX }), vec![]);
    assert_eq!(get_events(&log, GetEventsArg { start: 0, length: 0 }), vec![]);
    let long: Vec<Event> = (0..2500).map(|id| Event::RedistributeVault { vault_id: id }).collect();
    let page = get_events(&long, GetEventsArg { start: 100, length: 5000 });
    assert_eq!(page.len(), 2000);
    assert_eq!(page[0], Event::RedistributeVault { vault_id: 100 });
    assert_eq!(page[1999], Event::RedistributeVault { vault_id: 2099 });
}

#[test]
fn replay_says_which_event_does_not_fit() {
    let events = vec![Event::RedistributeVault { vault_id: 42 }];
    match replay(&events) {
        Err(ReplayLogError::InconsistentLog(message)) => {
            assert!(message.contains("The first event is not Init"));
            assert!(message.contains("RedistributeVault"));
            assert!(message.contains("42"));
        }
        _ => panic!("the log does not begin with Init"),
    }
}

#[test]
fn calls_that_do_not_arrive() {
    assert_eq!(
        transfer_not_delivered(5, "stopped".to_string()),
        TransferError::GenericError { error_code: BigNat::from_u64(5), message: "stopped".to_string() }
    );
    assert_eq!(
        transfer_from_not_delivered(2, "busy".to_string()),
        TransferFromError::GenericError {
            error_code: BigNat::from_u64(2),
            message: "busy".to_string()
        }
    );
    let error = CallError::new("sign".to_string(), Reason::Rejected("no cycles".to_string()));
    assert_eq!(error.method(), "sign");
    assert_eq!(error.reason(), &Reason::Rejected("no cycles".to_string()));
    assert_eq!(
        error.to_string(),
        "management call 'sign' failed: the management canister rejected the call: no cycles"
    );
    let error = CallError::new("sign".to_string(), Reason::QueueIsFull);
    assert_eq!(error.reason(), &Reason::QueueIsFull);
    assert_eq!(Reason::QueueIsFull.to_string(), "the canister queue is full");
    assert_eq!(Reason::OutOfCycles.to_string(), "the canister is out of cycles");
    assert_eq!(Reason::CanisterError("trap".to_string()).to_string(), "canister error: trap");
    assert!(error.to_string().starts_with("management call 'sign' failed: "));
    assert!(error.to_string().ends_with(&Reason::QueueIsFull.to_string()));
}

#[test]
fn refusals_name_the_amounts() {
    let (mut state, mut log) = priced_state(500_000);
    let owner = user(1);
    let vault_id = open(&mut state, &mut log, owner, E8S);
    borrow(&mut state, &mut log, owner, vault_id, 18_181 * E8S);
    assert_eq!(
        borrow_from_vault(&mut state, owner, VaultArg { vault_id, amount: 82 * E8S }, NOW).err(),
        Some(ProtocolError::GenericError(
            "failed to borrow from vault, max borrowable amount: 18181.81818181, \
             already borrowed: 18181.0, asked to borrow 82.0 \n last_btc_rate: 20000"
                .to_string()
        ))
    );
    assert_eq!(
        repay_to_vault(&mut state, owner, VaultArg { vault_id, amount: 18_181 * E8S + 50_000_000 }, protocol(), NOW)
            .err(),
        Some(ProtocolError::GenericError(
            "cannot repay more than borrowed, borrowed: 18181.0 TAL, asked to repay: 1818150000000 TAL"
                .to_string()
        ))
    );
    let provider = user(2);
    let (guard, _) = provide_liquidity(&mut state, provider, 50 * E8S, protocol(), NOW).unwrap();
    complete_provide_liquidity(&mut state, &mut log, guard, 50 * E8S, Ok(3)).unwrap();
    assert_eq!(
        withdraw_liquidity(&mut state, provider, 51 * E8S, NOW).err(),
        Some(ProtocolError::GenericError("cannot withdraw: 51.0, provided: 50.0".to_string()))
    );
}

fn unavailable(result: Option<ProtocolError>) -> bool {
    result
        == Some(ProtocolError::TemporarilyUnavailable(
            "protocol temporarly unavailable, please wait for an upgrade or for total collateral ratio to go above 100%"
                .to_string(),
        ))
}

#[test]
fn a_read_only_protocol_takes_few_calls() {
    let (mut state, mut log) = priced_state(500_000);
    let owner = user(1);
    let with_debt = open(&mut state, &mut log, owner, E8S);
    let without_debt = open(&mut state, &mut log, owner, E8S);
    borrow(&mut state, &mut log, owner, with_debt, 1_000 * E8S);
    let provider = user(2);
    let (guard, _) = provide_liquidity(&mut state, provider, 50 * E8S, protocol(), NOW).unwrap();
    complete_provide_liquidity(&mut state, &mut log, guard, 50 * E8S, Ok(3)).unwrap();
    state.mode = Mode::ReadOnly;
    let before_vaults = state.vault_id_to_vaults.len();
    let before_log = log.len();

    assert!(unavailable(open_vault(&mut state, owner, E8S, protocol(), NOW).err()));
    assert!(unavailable(
        borrow_from_vault(&mut state, owner, VaultArg { vault_id: with_debt, amount: 10 * E8S }, NOW).err()
    ));
    assert!(unavailable(redeem_ckbtc(&mut state, owner, 10 * E8S, protocol(), NOW).err()));
    assert!(unavailable(provide_liquidity(&mut state, provider, 10 * E8S, protocol(), NOW).err()));
    assert!(unavailable(withdraw_liquidity(&mut state, provider, 10 * E8S, NOW).err()));
    assert!(unavailable(close_vault(&mut state, &mut log, owner, with_debt, protocol(), NOW).err()));
    assert_eq!(state.principal_guards.len(), 0);
    assert_eq!(state.vault_id_to_vaults.len(), before_vaults);
    assert_eq!(state.next_available_vault_id, 2);
    assert_eq!(log.len(), before_log);

    let arg = VaultArg { vault_id: with_debt, amount: 10 * E8S };
    let (guard, _) = repay_to_vault(&mut state, owner, arg, protocol(), NOW).unwrap();
    assert_eq!(complete_repay_to_vault(&mut state, &mut log, guard, arg, Ok(5)), Ok(5));
    let arg = VaultArg { vault_id: with_debt, amount: 200_000 };
    let (guard, _) = add_margin_to_vault(&mut state, owner, arg, protocol(), NOW).unwrap();
    assert_eq!(complete_add_margin_to_vault(&mut state, &mut log, guard, arg, Ok(6)), Ok(6));
    assert!(matches!(
        close_vault(&mut state, &mut log, owner, without_debt, protocol(), NOW),
        Ok(Closing::Closed)
    ));
    assert_eq!(state.mode, Mode::ReadOnly);
    check_log(&state, &log);
}

#[test]
fn every_call_asks_for_a_caller_and_a_fresh_price() {
    let (mut state, mut log) = priced_state(500_000);
    let owner = user(1);
    let vault_id = open(&mut state, &mut log, owner, E8S);
    let late = NOW + 600 * SEC_NANOS + 1;
    let stale = Some(ProtocolError::TemporarilyUnavailable("Last known BTC price too old".to_string()));
    let arg = VaultArg { vault_id, amount: 10 * E8S };
    assert_eq!(open_vault(&mut state, owner, E8S, protocol(), late).err(), stale);
    assert_eq!(borrow_from_vault(&mut state, owner, arg, late).err(), stale);
    assert_eq!(repay_to_vault(&mut state, owner, arg, protocol(), late).err(), stale);
    assert_eq!(add_margin_to_vault(&mut state, owner, arg, protocol(), late).err(), stale);
    assert_eq!(close_vault(&mut state, &mut log, owner, vault_id, protocol(), late).err(), stale);
    assert_eq!(redeem_ckbtc(&mut state, owner, 10 * E8S, protocol(), late).err(), stale);
    assert_eq!(provide_liquidity(&mut state, owner, 10 * E8S, protocol(), late).err(), stale);
    assert_eq!(withdraw_liquidity(&mut state, owner, 10 * E8S, late).err(), stale);
    assert_eq!(claim_liquidity_returns(&mut state, owner, late).err(), stale);
    let nobody = Principal::anonymous();
    let anonymous = Some(ProtocolError::AnonymousCallerNotAllowed);
    assert_eq!(open_vault(&mut state, nobody, E8S, protocol(), NOW).err(), anonymous);
    assert_eq!(provide_liquidity(&mut state, nobody, 10 * E8S, protocol(), NOW).err(), anonymous);
    assert_eq!(claim_liquidity_returns(&mut state, nobody, NOW).err(), anonymous);
    assert_eq!(state.principal_guards.len(), 0);
    assert_eq!(log.len(), 2);
    assert_eq!(state.enter(owner, NOW, true), Ok(()));
    state.mode = Mode::ReadOnly;
    assert_eq!(state.enter(owner, NOW, false), Ok(()));
    assert!(unavailable(state.enter(owner, NOW, true).err()));
}

#[test]
fn a_price_of_zero_buys_nothing() {
    let (mut state, mut log) = priced_state(0);
    let owner = user(1);
    let vault_id = open(&mut state, &mut log, owner, E8S);
    borrow(&mut state, &mut log, owner, vault_id, 1_000 * E8S);
    let before = state.total_borrowed_tal_amount();
    assert!(!state.redeem_on_vaults(TAL::from(10 * E8S), UsdBtc::new(dec("0"))));
    assert_eq!(state.total_borrowed_tal_amount(), before);
    assert_eq!(TAL::from(100 * E8S).checked_div_rate(UsdBtc::new(dec("1000"))), Some(CKBTC::from(10_000_000)));
}

#[test]
fn a_state_is_checked_against_its_log() {
    let (mut state, mut log) = priced_state(500_000);
    let owner = user(1);
    let vault_id = open(&mut state, &mut log, owner, E8S);
    assert_eq!(check_invariants(&state, &log), Ok(()));
    let short = log[..1].to_vec();
    assert!(check_invariants(&state, &short).is_err());
    state.is_timer_running = true;
    assert_eq!(check_invariants(&state, &short), Ok(()));
    state.is_timer_running = false;
    let unknown = vec![log[0], Event::CloseVault { vault_id: vault_id + 1, block_index: None }];
    assert!(check_invariants(&state, &unknown).is_err());
    state.is_timer_running = true;
    assert!(check_invariants(&state, &unknown).is_err());
}
