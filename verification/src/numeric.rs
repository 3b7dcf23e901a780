//! Typed quantities: token amounts in 10^-8 units and fixed-point amounts,
//! each tagged with its unit so that one kind is never taken for another.

use crate::decimal::{
    decimal_add, decimal_deserialize, decimal_div, decimal_less, decimal_mul, decimal_restored,
    decimal_serialize, decimal_sub, decimal_text, decimal_to_string, decimal_to_u64, difference, integral_part, product, quotient,
    scaled, stored, sum, view_of, whole, Fixed, Parts,
};
use crate::text::{join, number, number_text};
use crate::E8S;
use std::marker::PhantomData;
use std::ops::{Add, Sub};
use vstd::prelude::*;
use vstd::std_specs::cmp::PartialEqSpecImpl;
use vstd::std_specs::convert::FromSpecImpl;
use vstd::std_specs::ops::{AddSpecImpl, SubSpecImpl};

verus! {

/// The unit of the debt token.
#[derive(Clone, Copy, Debug, PartialEq, Eq, PartialOrd, Ord)]
pub enum TALEnum {
    E8s,
}

/// The unit of the collateral token.
#[derive(Clone, Copy, Debug, PartialEq, Eq, PartialOrd, Ord)]
pub enum CKBTCEnum {
    E8s,
}

/// The unit of a price of one collateral token in dollars.
#[derive(Clone, Copy, Debug, PartialEq, Eq, PartialOrd, Ord)]
pub enum UsdBtcEnum {
    DollarsPerToken,
}

/// The unit of a pure proportion.
#[derive(Clone, Copy, Debug, PartialEq, Eq, PartialOrd, Ord)]
pub enum RatioEnum {
    Proportion,
}

/// An amount of tokens, counted in 10^-8 units.
#[derive(Debug)]
pub struct Token<T>(pub u64, pub PhantomData<T>);

/// A fixed-point amount.
#[derive(Debug)]
pub struct Amount<T>(pub Fixed, pub PhantomData<T>);

pub type TAL = Token<TALEnum>;

pub type CKBTC = Token<CKBTCEnum>;

pub type Ratio = Amount<RatioEnum>;

pub type UsdBtc = Amount<UsdBtcEnum>;

/// `amount` tokens times `factor`: the amount is taken in whole tokens,
/// multiplied, and brought back to 10^-8 units, of which the integral part
/// is kept. `None` where a step overflows.
pub open spec fn token_times(amount: int, factor: Parts) -> Option<u64> {
    match quotient(whole(amount), whole(E8S as int)) {
        None => None,
        Some(tokens) => match product(tokens, factor) {
            None => None,
            Some(value) => match product(value, whole(E8S as int)) {
                None => None,
                Some(e8s) => integral_part(e8s),
            },
        },
    }
}

/// `amount` tokens divided by `divisor`, computed as [`token_times`] is.
/// `None` where the divisor is zero or a step overflows.
pub open spec fn token_over(amount: int, divisor: Parts) -> Option<u64> {
    if divisor.0 == 0 {
        None
    } else {
        match quotient(whole(amount), whole(E8S as int)) {
            None => None,
            Some(tokens) => match quotient(tokens, divisor) {
                None => None,
                Some(value) => match product(value, whole(E8S as int)) {
                    None => None,
                    Some(e8s) => integral_part(e8s),
                },
            },
        }
    }
}

/// The proportion of `part` to `total`. `None` where `total` is zero.
pub open spec fn proportion(part: int, total: int) -> Option<Parts> {
    if total == 0 {
        None
    } else {
        quotient(whole(part), whole(total))
    }
}

/// `base` multiplied `exponent` times into one. `None` where a product overflows.
pub open spec fn power(base: Parts, exponent: nat) -> Option<Parts>
    decreases exponent,
{
    if exponent == 0 {
        Some(whole(1))
    } else {
        match power(base, (exponent - 1) as nat) {
            None => None,
            Some(p) => product(p, base),
        }
    }
}

/// A price in 10^-8 dollars.
pub open spec fn price_e8s(price: Parts) -> Option<u64> {
    match product(price, whole(E8S as int)) {
        None => None,
        Some(e8s) => integral_part(e8s),
    }
}

/// The number of zeros at the end of the decimal notation of a number.
pub open spec fn trailing_zeros(n: nat) -> nat
    decreases n,
{
    if n == 0 || n % 10 != 0 {
        0
    } else {
        1 + trailing_zeros(n / 10)
    }
}

/// A number without the zeros at the end of its decimal notation.
pub open spec fn without_trailing_zeros(n: nat) -> nat
    decreases n,
{
    if n == 0 || n % 10 != 0 {
        n
    } else {
        without_trailing_zeros(n / 10)
    }
}

/// The number of digits behind the point in the text of a token amount:
/// eight less the zeros at the end, and one for a whole number of tokens.
pub open spec fn digits_behind_the_point(e8s: u64) -> int {
    if e8s % E8S == 0 {
        1
    } else {
        8 - trailing_zeros((e8s % E8S) as nat)
    }
}

/// The number of digits in the decimal notation of a number.
pub open spec fn digit_count(n: nat) -> nat
    decreases n,
{
    if n < 10 {
        1
    } else {
        1 + digit_count(n / 10)
    }
}

/// `n` zeros in a row.
pub open spec fn zeros(n: int) -> Seq<char>
    decreases n,
{
    if n <= 0 {
        Seq::empty()
    } else {
        zeros(n - 1) + "0"@
    }
}

/// The text of a token amount: the whole tokens, a point, and the digits
/// behind it, with zeros in front of them where they are fewer than their
/// places.
pub open spec fn token_text(e8s: u64) -> Seq<char> {
    let digits = without_trailing_zeros((e8s % E8S) as nat);
    number_text(e8s as int / E8S as int) + "."@ + zeros(digits_behind_the_point(e8s) - digit_count(digits))
        + number_text(digits as int)
}

/// The model of an optional token amount.
pub open spec fn token_value<T>(amount: Option<Token<T>>) -> Option<u64> {
    match amount {
        Some(a) => Some(a.0),
        None => None,
    }
}

/// The model of an optional fixed-point amount.
pub open spec fn amount_value<T>(amount: Option<Amount<T>>) -> Option<Parts> {
    match amount {
        Some(a) => Some(a@),
        None => None,
    }
}

impl<T> Clone for Token<T> {
    fn clone(&self) -> (copy: Self)
        ensures
            copy == *self,
    {
        Token(self.0, PhantomData)
    }
}

impl<T> Copy for Token<T> {}

impl<T> PartialEq for Token<T> {
    fn eq(&self, other: &Self) -> (equal: bool) {
        self.0 == other.0
    }
}

impl<T> Eq for Token<T> {}

impl<T> PartialEqSpecImpl for Token<T> {
    open spec fn obeys_eq_spec() -> bool {
        true
    }

    open spec fn eq_spec(&self, other: &Self) -> bool {
        self.0 == other.0
    }
}

impl<T> Add for Token<T> {
    type Output = Token<T>;

    fn add(self, rhs: Token<T>) -> (total: Token<T>) {
        Token(self.0 + rhs.0, PhantomData)
    }
}

impl<T> AddSpecImpl for Token<T> {
    open spec fn obeys_add_spec() -> bool {
        true
    }

    open spec fn add_req(self, rhs: Token<T>) -> bool {
        self.0 + rhs.0 <= u64::MAX
    }

    open spec fn add_spec(self, rhs: Token<T>) -> Token<T> {
        Token((self.0 + rhs.0) as u64, PhantomData)
    }
}

impl<T> Sub for Token<T> {
    type Output = Token<T>;

    fn sub(self, rhs: Token<T>) -> (rest: Token<T>) {
        Token(self.0 - rhs.0, PhantomData)
    }
}

impl<T> SubSpecImpl for Token<T> {
    open spec fn obeys_sub_spec() -> bool {
        true
    }

    open spec fn sub_req(self, rhs: Token<T>) -> bool {
        rhs.0 <= self.0
    }

    open spec fn sub_spec(self, rhs: Token<T>) -> Token<T> {
        Token((self.0 - rhs.0) as u64, PhantomData)
    }
}

impl<T> Token<T> {
    pub fn to_u64(self) -> (value: u64)
        ensures
            value == self.0,
    {
        self.0
    }

    /// The difference, or zero where `other` is the larger.
    pub fn saturating_sub(self, other: Token<T>) -> (rest: Token<T>)
        ensures
            rest.0 == if other.0 > self.0 {
                0
            } else {
                self.0 - other.0
            },
    {
        if other.0 > self.0 {
            return Token::<T>(0, PhantomData::<T>);
        }
        Token::<T>(self.0 - other.0, PhantomData::<T>)
    }

    /// How the amount is written: its whole tokens, the number of digits
    /// behind the point, and these digits as a number. A fraction of a
    /// token has eight digits, of which the zeros at the end are left out.
    pub fn written(self) -> (parts: (u64, usize, u64))
        ensures
            parts.0 == self.0 / E8S,
            parts.1 == digits_behind_the_point(self.0),
            parts.2 == without_trailing_zeros((self.0 % E8S) as nat),
    {
        let whole_tokens = self.0 / E8S;
        let frac = self.0 % E8S;
        if frac == 0 {
            return (whole_tokens, 1, 0);
        }
        let mut digits = frac;
        let mut dropped: usize = 0;
        assert(crate::decimal::pow10(8) == 100_000_000) by {
            reveal_with_fuel(crate::decimal::pow10, 9);
        }
        while digits % 10 == 0
            invariant
                digits > 0,
                0 <= dropped <= 8,
                digits < crate::decimal::pow10((8 - dropped) as nat),
                without_trailing_zeros(digits as nat) == without_trailing_zeros(frac as nat),
                dropped + trailing_zeros(digits as nat) == trailing_zeros(frac as nat),
            decreases digits,
        {
            assert(dropped < 8) by {
                if dropped == 8 {
                    assert(crate::decimal::pow10(0) == 1);
                }
            }
            assert(crate::decimal::pow10((8 - dropped) as nat) == 10 * crate::decimal::pow10(
                (8 - dropped - 1) as nat,
            ));
            digits = digits / 10;
            dropped = dropped + 1;
        }
        (whole_tokens, 8 - dropped, digits)
    }

    /// The amount in tokens, in decimal notation with at least one and at
    /// most eight digits behind the point.
    pub fn to_string(self) -> (text: String)
        ensures
            text@ == token_text(self.0),
    {
        let parts = self.written();
        let mut count: u64 = 1;
        let mut rest = parts.2;
        while rest >= 10
            invariant
                count >= 1,
                count + rest <= 1 + parts.2,
                count - 1 + digit_count(rest as nat) == digit_count(parts.2 as nat),
            decreases rest,
        {
            rest = rest / 10;
            count = count + 1;
        }
        let tokens = number(parts.0);
        let mut text = join(tokens.as_str(), ".");
        let mut place: u64 = count;
        while place < parts.1 as u64
            invariant
                text@ == number_text(parts.0 as int) + "."@ + zeros(place - count),
                count <= place,
                place > count ==> place <= parts.1,
            decreases parts.1 - place,
        {
            text = join(text.as_str(), "0");
            assert(text@ =~= number_text(parts.0 as int) + "."@ + zeros(place + 1 - count));
            place = place + 1;
        }
        assert(zeros(place - count) == zeros(parts.1 - count)) by {
            if place != parts.1 {
                assert(place == count);
                assert(zeros(parts.1 - count) =~= zeros(0));
            }
        }
        let digits = number(parts.2);
        join(text.as_str(), digits.as_str())
    }

    /// The amount times a proportion, in the same unit.
    pub fn checked_mul_ratio(self, ratio: Ratio) -> (scaled_amount: Option<Token<T>>)
        ensures
            token_value(scaled_amount) == token_times(self.0 as int, ratio@),
    {
        match times(self.0, &ratio.0) {
            Some(value) => Some(Token(value, PhantomData)),
            None => None,
        }
    }
}

/// `amount` tokens times `factor`.
fn times(amount: u64, factor: &Fixed) -> (result: Option<u64>)
    ensures
        result == token_times(amount as int, factor@),
{
    let e8s = Fixed::from_u64(E8S);
    let tokens = decimal_div(&Fixed::from_u64(amount), &e8s)?;
    let value = decimal_mul(&tokens, factor)?;
    let in_e8s = decimal_mul(&value, &e8s)?;
    decimal_to_u64(&in_e8s)
}

/// `amount` tokens divided by `divisor`, which is not zero.
fn over(amount: u64, divisor: &Fixed) -> (result: Option<u64>)
    requires
        divisor@.0 != 0,
    ensures
        result == token_over(amount as int, divisor@),
{
    let e8s = Fixed::from_u64(E8S);
    let tokens = decimal_div(&Fixed::from_u64(amount), &e8s)?;
    let value = decimal_div(&tokens, divisor)?;
    let in_e8s = decimal_mul(&value, &e8s)?;
    decimal_to_u64(&in_e8s)
}

/// The proportion of `part` to `total`, which is not zero.
fn proportion_of(part: u64, total: u64) -> (result: Option<Fixed>)
    requires
        total != 0,
    ensures
        view_of(result) == proportion(part as int, total as int),
{
    decimal_div(&Fixed::from_u64(part), &Fixed::from_u64(total))
}

impl From<u64> for TAL {
    fn from(value: u64) -> (amount: Self) {
        Token(value, PhantomData::<TALEnum>)
    }
}

impl FromSpecImpl<u64> for TAL {
    open spec fn obeys_from_spec() -> bool {
        true
    }

    open spec fn from_spec(value: u64) -> Self {
        Token(value, PhantomData)
    }
}

impl From<u64> for CKBTC {
    fn from(value: u64) -> (amount: Self) {
        Token(value, PhantomData::<CKBTCEnum>)
    }
}

impl FromSpecImpl<u64> for CKBTC {
    open spec fn obeys_from_spec() -> bool {
        true
    }

    open spec fn from_spec(value: u64) -> Self {
        Token(value, PhantomData)
    }
}

impl TAL {
    pub fn new(value: u64) -> (amount: TAL)
        ensures
            amount.0 == value,
    {
        Token(value, PhantomData::<TALEnum>)
    }

    /// The collateral that this debt buys at `price`, which is not zero.
    pub fn checked_div_rate(self, price: UsdBtc) -> (collateral: Option<CKBTC>)
        requires
            price@.0 != 0,
        ensures
            token_value(collateral) == token_over(self.0 as int, price@),
    {
        match over(self.0, &price.0) {
            Some(value) => Some(Token(value, PhantomData)),
            None => None,
        }
    }

    /// The debt divided by a proportion, which is not zero.
    pub fn checked_div_ratio(self, ratio: Ratio) -> (debt: Option<TAL>)
        requires
            ratio@.0 != 0,
        ensures
            token_value(debt) == token_over(self.0 as int, ratio@),
    {
        match over(self.0, &ratio.0) {
            Some(value) => Some(Token(value, PhantomData)),
            None => None,
        }
    }

    /// The proportion of this debt to `total`, which is not zero.
    pub fn checked_div(self, total: TAL) -> (share: Option<Ratio>)
        requires
            total.0 != 0,
        ensures
            amount_value(share) == proportion(self.0 as int, total.0 as int),
    {
        match proportion_of(self.0, total.0) {
            Some(value) => Some(Amount(value, PhantomData)),
            None => None,
        }
    }
}

impl CKBTC {
    pub fn new(value: u64) -> (amount: CKBTC)
        ensures
            amount.0 == value,
    {
        Token(value, PhantomData::<CKBTCEnum>)
    }

    /// The value of this collateral at `price`.
    pub fn checked_mul_rate(self, price: UsdBtc) -> (value: Option<TAL>)
        ensures
            token_value(value) == token_times(self.0 as int, price@),
    {
        match times(self.0, &price.0) {
            Some(value) => Some(Token(value, PhantomData)),
            None => None,
        }
    }

    /// The proportion of this collateral to `total`, which is not zero.
    pub fn checked_div(self, total: CKBTC) -> (share: Option<Ratio>)
        requires
            total.0 != 0,
        ensures
            amount_value(share) == proportion(self.0 as int, total.0 as int),
    {
        match proportion_of(self.0, total.0) {
            Some(value) => Some(Amount(value, PhantomData)),
            None => None,
        }
    }
}

impl<T> View for Amount<T> {
    type V = Parts;

    open spec fn view(&self) -> Parts {
        self.0@
    }
}

impl<T> Clone for Amount<T> {
    fn clone(&self) -> (copy: Self)
        ensures
            copy == *self,
    {
        Amount(self.0, PhantomData)
    }
}

impl<T> Copy for Amount<T> {}

impl<T> PartialEq for Amount<T> {
    fn eq(&self, other: &Self) -> (equal: bool) {
        self.0.same_value(&other.0)
    }
}

impl<T> Eq for Amount<T> {}

impl<T> PartialEqSpecImpl for Amount<T> {
    open spec fn obeys_eq_spec() -> bool {
        true
    }

    open spec fn eq_spec(&self, other: &Self) -> bool {
        scaled(self@) == scaled(other@)
    }
}

/// Amounts of one unit with the same mantissa and scale are the same.
pub proof fn lemma_amount_determined_by_view<T>(a: Amount<T>, b: Amount<T>)
    requires
        a@ == b@,
    ensures
        a == b,
{
    crate::decimal::lemma_fixed_determined_by_view(a.0, b.0);
}

impl<T> Amount<T> {
    /// The sum of two amounts of one unit.
    pub fn checked_add(self, rhs: Amount<T>) -> (total: Option<Amount<T>>)
        ensures
            amount_value(total) == sum(self@, rhs@),
    {
        match decimal_add(&self.0, &rhs.0) {
            Some(value) => Some(Amount(value, PhantomData)),
            None => None,
        }
    }

    /// The amount in decimal notation.
    pub fn to_string(&self) -> (text: String)
        ensures
            text@ == decimal_text(self@.0, self@.1),
    {
        decimal_to_string(&self.0)
    }

    /// The 16 bytes that the amount is stored as.
    pub fn to_array(&self) -> (bytes: [u8; 16])
        ensures
            bytes@ == stored(self@),
    {
        decimal_serialize(&self.0)
    }

    /// Whether this amount is smaller than `other`.
    pub fn lt(&self, other: &Amount<T>) -> (less: bool)
        ensures
            less == (scaled(self@) < scaled(other@)),
    {
        decimal_less(&self.0, &other.0)
    }

    /// Whether this amount is larger than `other`.
    pub fn gt(&self, other: &Amount<T>) -> (more: bool)
        ensures
            more == (scaled(self@) > scaled(other@)),
    {
        decimal_less(&other.0, &self.0)
    }

    /// The larger of two amounts; `other` where they are equal.
    pub fn max(self, other: Amount<T>) -> (larger: Amount<T>)
        ensures
            larger == if scaled(self@) > scaled(other@) {
                self
            } else {
                other
            },
    {
        if self.gt(&other) {
            self
        } else {
            other
        }
    }

    /// The smaller of two amounts; `self` where they are equal.
    pub fn min(self, other: Amount<T>) -> (smaller: Amount<T>)
        ensures
            smaller == if scaled(self@) > scaled(other@) {
                other
            } else {
                self
            },
    {
        if self.gt(&other) {
            other
        } else {
            self
        }
    }
}

impl From<Fixed> for Ratio {
    fn from(value: Fixed) -> (amount: Self) {
        Amount(value, PhantomData::<RatioEnum>)
    }
}

impl FromSpecImpl<Fixed> for Ratio {
    open spec fn obeys_from_spec() -> bool {
        true
    }

    open spec fn from_spec(value: Fixed) -> Self {
        Amount(value, PhantomData)
    }
}

impl From<Fixed> for UsdBtc {
    fn from(value: Fixed) -> (amount: Self) {
        Amount(value, PhantomData::<UsdBtcEnum>)
    }
}

impl FromSpecImpl<Fixed> for UsdBtc {
    open spec fn obeys_from_spec() -> bool {
        true
    }

    open spec fn from_spec(value: Fixed) -> Self {
        Amount(value, PhantomData)
    }
}

impl Ratio {
    pub fn new(value: Fixed) -> (amount: Ratio)
        ensures
            amount.0 == value,
    {
        Amount(value, PhantomData::<RatioEnum>)
    }

    /// The difference of two proportions. `None` where `rhs` is the larger
    /// or the subtraction overflows.
    pub fn checked_sub(self, rhs: Ratio) -> (rest: Option<Ratio>)
        ensures
            amount_value(rest) == if scaled(rhs@) > scaled(self@) {
                None
            } else {
                difference(self@, rhs@)
            },
    {
        if rhs.gt(&self) {
            return None;
        }
        match decimal_sub(&self.0, &rhs.0) {
            Some(value) => Some(Amount(value, PhantomData)),
            None => None,
        }
    }

    /// The product of two proportions.
    pub fn checked_mul(self, other: Ratio) -> (result: Option<Ratio>)
        ensures
            amount_value(result) == product(self@, other@),
    {
        match decimal_mul(&self.0, &other.0) {
            Some(value) => Some(Amount(value, PhantomData)),
            None => None,
        }
    }

    /// The proportion multiplied `rhs` times into one.
    pub fn pow(self, rhs: u64) -> (result: Option<Ratio>)
        ensures
            amount_value(result) == power(self@, rhs as nat),
    {
        let mut result = Fixed::one();
        let mut done: u64 = 0;
        while done < rhs
            invariant
                done <= rhs,
                power(self@, done as nat) == Some(result@),
            decreases rhs - done,
        {
            match decimal_mul(&result, &self.0) {
                Some(next) => {
                    result = next;
                },
                None => {
                    proof {
                        lemma_power_stays_undefined(self@, (done + 1) as nat, rhs as nat);
                    }
                    return None;
                },
            }
            done = done + 1;
        }
        Some(Amount(result, PhantomData::<RatioEnum>))
    }
}

/// Once a power is undefined, every higher power is.
pub proof fn lemma_power_stays_undefined(base: Parts, low: nat, high: nat)
    requires
        low <= high,
        power(base, low) is None,
    ensures
        power(base, high) is None,
    decreases high - low,
{
    if low < high {
        lemma_power_stays_undefined(base, low, (high - 1) as nat);
    }
}

impl UsdBtc {
    pub fn new(value: Fixed) -> (amount: UsdBtc)
        ensures
            amount.0 == value,
    {
        Amount(value, PhantomData::<UsdBtcEnum>)
    }

    /// The 16 bytes that the price is stored as.
    pub fn serialize(self) -> (bytes: [u8; 16])
        ensures
            bytes@ == stored(self@),
    {
        decimal_serialize(&self.0)
    }

    /// The price that 16 bytes store.
    pub fn deserialize(array: [u8; 16]) -> (price: UsdBtc)
        ensures
            price@ == decimal_restored(array@),
    {
        UsdBtc::new(decimal_deserialize(array))
    }

    /// The price in 10^-8 dollars.
    pub fn to_e8s(self) -> (e8s: Option<u64>)
        ensures
            e8s == price_e8s(self@),
    {
        let value = decimal_mul(&self.0, &Fixed::from_u64(E8S))?;
        decimal_to_u64(&value)
    }

    /// The price divided by a proportion, which is not zero. `None` where
    /// the division overflows.
    pub fn checked_div(self, ratio: Ratio) -> (result: Option<UsdBtc>)
        requires
            ratio@.0 != 0,
        ensures
            amount_value(result) == quotient(self@, ratio@),
    {
        match decimal_div(&self.0, &ratio.0) {
            Some(value) => Some(Amount(value, PhantomData)),
            None => None,
        }
    }
}

} // verus!
