use protocol_canister::decimal::Fixed;
use protocol_canister::ledger::BigNat;
use protocol_canister::numeric::{Ratio, UsdBtc, CKBTC, TAL};
use protocol_canister::E8S;
use rust_decimal::Decimal;
use std::str::FromStr;

fn dec(text: &str) -> Fixed {
    let d = Decimal::from_str(text).unwrap();
    Fixed::new(d.mantissa(), d.scale()).unwrap()
}

#[test]
fn ckbtc_mul_by_usdbtc_available() {
    let ckbtc_token: CKBTC = 100_000_000_u64.into();
    let rate_amount: UsdBtc = dec("20000.0").into();
    assert_eq!(ckbtc_token.checked_mul_rate(rate_amount), Some(TAL::from(20_000 * E8S)));
}

#[test]
fn ckbtc_mul_by_ratio() {
    let ckbtc_token: CKBTC = 100_000_000_u64.into();
    let ratio_amount: Ratio = dec("0.5").into();
    assert_eq!(ckbtc_token.checked_mul_ratio(ratio_amount), Some(CKBTC::from(50_000_000)));
}

#[test]
fn ckbtc_mul_by_0() {
    let ckbtc_token: CKBTC = 100_000_000_u64.into();
    let ratio_amount: Ratio = dec("0.0").into();
    assert_eq!(ckbtc_token.checked_mul_ratio(ratio_amount), Some(CKBTC::from(0)));
}

#[test]
fn ratio_mul_by_0() {
    let ckbtc_token: CKBTC = 0_u64.into();
    let ratio_amount: Ratio = dec("1.0").into();
    assert_eq!(ckbtc_token.checked_mul_ratio(ratio_amount), Some(CKBTC::from(0)));
}

#[test]
fn tal_mul_by_ratio() {
    let tal_token: TAL = 100_u64.into();
    let ratio: Ratio = dec("0.5").into();
    assert_eq!(tal_token.checked_mul_ratio(ratio), Some(TAL::from(50_u64)));
}

#[test]
fn tal_div_by_usdbtc() {
    let rate: UsdBtc = dec("1000").into();
    let tal: TAL = (100 * 100_000_000).into();
    let result = tal.checked_div_rate(rate);
    assert_eq!(Some(CKBTC::from(10_000_000)), result);
}

#[test]
fn fixed_keeps_mantissa_and_scale() {
    let number = Fixed::new(-12_345, 3).unwrap();
    assert_eq!(number.mantissa(), -12_345);
    assert_eq!(number.scale(), 3);
    assert!(Fixed::new(1, 29).is_none());
    assert!(Fixed::new(79_228_162_514_264_337_593_543_950_336, 0).is_none());
    assert!(Fixed::new(-79_228_162_514_264_337_593_543_950_336, 0).is_none());
    assert_eq!(Fixed::max_value().mantissa(), 79_228_162_514_264_337_593_543_950_335);
    assert_eq!(Fixed::from_u64(7).mantissa(), 7);
    assert_eq!(Fixed::from_u64(7).scale(), 0);
}

#[test]
fn fixed_orders_by_value() {
    assert!(dec("0.5").less_than(&dec("0.51")));
    assert!(!dec("0.51").less_than(&dec("0.5")));
    assert!(dec("-1").less_than(&dec("0.000001")));
    assert!(dec("1.0").same_value(&dec("1.000")));
    assert!(!dec("1.0").less_than(&dec("1.000")));
    assert!(dec("0").is_zero());
    assert!(dec("0.000").is_zero());
    assert!(!dec("0.001").is_zero());
    assert!(Ratio::new(dec("1.10")) == Ratio::new(dec("1.1")));
    assert!(Ratio::new(dec("1.10")) != Ratio::new(dec("1.11")));
}

#[test]
fn amounts_add_subtract_and_multiply() {
    let a = Ratio::new(dec("0.25"));
    let b = Ratio::new(dec("0.5"));
    assert_eq!(a.checked_add(b), Some(Ratio::new(dec("0.75"))));
    assert_eq!(b.checked_sub(a), Some(Ratio::new(dec("0.25"))));
    assert_eq!(a.checked_sub(b), None);
    assert_eq!(a.checked_mul(b), Some(Ratio::new(dec("0.125"))));
    let largest = Ratio::new(Fixed::max_value());
    assert_eq!(largest.checked_add(largest), None);
    assert_eq!(largest.checked_mul(largest), None);
    assert_eq!(a.max(b), b);
    assert_eq!(a.min(b), a);
    assert!(a.lt(&b));
    assert!(b.gt(&a));
}

#[test]
fn ratio_powers() {
    let base = Ratio::new(dec("0.94"));
    assert_eq!(base.pow(0), Some(Ratio::new(dec("1"))));
    assert_eq!(base.pow(1), Some(Ratio::new(dec("0.94"))));
    assert_eq!(base.pow(2), Some(Ratio::new(dec("0.8836"))));
    assert_eq!(Ratio::new(Fixed::max_value()).pow(2), None);
}

#[test]
fn tokens_divide_into_ratios() {
    assert_eq!(TAL::from(1).checked_div(TAL::from(4)), Some(Ratio::new(dec("0.25"))));
    assert_eq!(CKBTC::from(3).checked_div(CKBTC::from(2)), Some(Ratio::new(dec("1.5"))));
    assert_eq!(
        TAL::from(22_000 * E8S).checked_div_ratio(Ratio::new(dec("1.1"))),
        Some(TAL::from(20_000 * E8S))
    );
    assert_eq!(
        UsdBtc::new(dec("30000")).checked_div(Ratio::new(dec("1.5"))),
        Some(UsdBtc::new(dec("20000")))
    );
}

#[test]
fn token_products_that_do_not_fit_are_undefined() {
    let all: CKBTC = u64::MAX.into();
    assert_eq!(all.checked_mul_rate(UsdBtc::new(dec("100000"))), None);
    assert_eq!(all.checked_mul_ratio(Ratio::new(dec("-1"))), None);
}

#[test]
fn tokens_add_and_subtract() {
    assert_eq!(TAL::from(5) + TAL::from(7), TAL::from(12));
    assert_eq!(TAL::from(7) - TAL::from(5), TAL::from(2));
    assert_eq!(TAL::from(5).saturating_sub(TAL::from(7)), TAL::from(0));
    assert_eq!(TAL::from(7).saturating_sub(TAL::from(5)), TAL::from(2));
    assert_eq!(TAL::new(9).to_u64(), 9);
    assert_eq!(CKBTC::new(9).to_u64(), 9);
}

#[test]
fn price_in_e8s() {
    assert_eq!(UsdBtc::new(dec("20000.0")).to_e8s(), Some(20_000 * E8S));
    assert_eq!(UsdBtc::new(dec("-1")).to_e8s(), None);
}

#[test]
fn amounts_are_stored_as_the_decimal_is() {
    for text in ["0", "1", "20000.0", "1.5", "-0.0000000000000000000000000001", "79228162514264337593543950335"] {
        let amount = UsdBtc::new(dec(text));
        let expected = Decimal::from_str(text).unwrap().serialize();
        assert_eq!(amount.serialize(), expected);
        assert_eq!(amount.to_array(), expected);
        assert_eq!(UsdBtc::deserialize(expected), amount);
        let restored = UsdBtc::deserialize(expected);
        assert_eq!(restored.0.mantissa(), amount.0.mantissa());
        assert_eq!(restored.0.scale(), amount.0.scale());
    }
    assert_eq!(
        Ratio::new(dec("-1.5")).to_array(),
        [0, 0, 1, 128, 15, 0, 0, 0, 0, 0, 0, 0, 0, 0, 0, 0]
    );
}

#[test]
fn ledger_numbers_of_any_size() {
    assert_eq!(BigNat::from_u64(0).digits, Vec::<u32>::new());
    assert_eq!(BigNat::from_u64(5).digits, vec![5]);
    assert_eq!(BigNat::from_u64(u64::MAX).digits, vec![u32::MAX, u32::MAX]);
    assert_eq!(BigNat::from_u64(u64::MAX).to_u64(), Some(u64::MAX));
    assert_eq!(BigNat { digits: vec![7, 0, 0, 0] }.to_u64(), Some(7));
    assert_eq!(BigNat { digits: vec![0, 1] }.to_u64(), Some(1 << 32));
    assert_eq!(BigNat { digits: vec![0, 0, 1] }.to_u64(), None);
    assert_eq!(TAL::from(77).to_nat().to_u64(), Some(77));
}
