//! Fixed-point decimal numbers of 96 bits and up to 28 fractional digits.
//!
//! A [`Fixed`] holds a number as a signed mantissa and a scale: its value is
//! `mantissa / 10^scale`. Arithmetic on these numbers is done by the
//! `rust_decimal` crate, in the functions at the end of this module: their
//! contracts are believed, and everything else is proved from them. Where a
//! result takes pages to state, as those of the four operations do, the
//! contract gives it a name and the library computes with the name.

use vstd::prelude::*;

verus! {

/// The largest scale a number can have.
pub const MAX_SCALE: u32 = 28;

/// The largest magnitude of a mantissa, 2^96 - 1.
pub const MAX_MANTISSA: i128 = 79_228_162_514_264_337_593_543_950_335;

/// The mathematical model of a fixed-point number: its mantissa and its scale.
pub type Parts = (int, int);

/// Ten to the power `e`.
pub open spec fn pow10(e: nat) -> int
    decreases e,
{
    if e == 0 {
        1
    } else {
        10 * pow10((e - 1) as nat)
    }
}

/// Whether `d` is a mantissa and a scale that a number can have.
pub open spec fn representable(d: Parts) -> bool {
    &&& -MAX_MANTISSA <= d.0 <= MAX_MANTISSA
    &&& 0 <= d.1 <= MAX_SCALE
}

/// The value of `d` in units of 10^-28, by which numbers are ordered.
pub open spec fn scaled(d: Parts) -> int {
    d.0 * pow10((MAX_SCALE - d.1) as nat)
}

/// The model of a whole number.
pub open spec fn whole(n: int) -> Parts {
    (n, 0)
}

/// The number that `to_u64` gives: the integral part of a number that is
/// not negative and fits.
pub open spec fn integral_part(d: Parts) -> Option<u64> {
    if d.0 < 0 {
        None
    } else if d.0 / pow10(d.1 as nat) > u64::MAX {
        None
    } else {
        Some((d.0 / pow10(d.1 as nat)) as u64)
    }
}

/// 256 to the power `e`.
pub open spec fn pow256(e: nat) -> int
    decreases e,
{
    if e == 0 {
        1
    } else {
        256 * pow256((e - 1) as nat)
    }
}

/// The magnitude of a number.
pub open spec fn magnitude(n: int) -> int {
    if n < 0 {
        -n
    } else {
        n
    }
}

/// The 16 bytes that a number is stored as: two empty bytes, the scale,
/// a byte whose highest bit is set for a negative number, and the twelve
/// bytes of the magnitude of the mantissa, the lowest first.
pub open spec fn stored(d: Parts) -> Seq<u8> {
    Seq::new(
        16,
        |i: int|
            if i < 2 {
                0u8
            } else if i == 2 {
                d.1 as u8
            } else if i == 3 {
                if d.0 < 0 {
                    128u8
                } else {
                    0u8
                }
            } else {
                ((magnitude(d.0) / pow256((i - 4) as nat)) % 256) as u8
            },
    )
}

/// What `Decimal::deserialize` makes of 16 bytes, as mantissa and scale.
pub uninterp spec fn decimal_restored(bytes: Seq<u8>) -> (int, int);

/// What `Decimal`'s `to_string` returns for a number given by mantissa and scale.
pub uninterp spec fn decimal_text(mantissa: int, scale: int) -> Seq<char>;

/// What `Decimal::checked_add` returns for two numbers given by mantissa and scale.
pub uninterp spec fn decimal_sum(a_mantissa: int, a_scale: int, b_mantissa: int, b_scale: int) -> Option<(int, int)>;

/// What `Decimal::checked_sub` returns for two numbers given by mantissa and scale.
pub uninterp spec fn decimal_difference(a_mantissa: int, a_scale: int, b_mantissa: int, b_scale: int) -> Option<(int, int)>;

/// What `Decimal::checked_mul` returns for two numbers given by mantissa and scale.
pub uninterp spec fn decimal_product(a_mantissa: int, a_scale: int, b_mantissa: int, b_scale: int) -> Option<(int, int)>;

/// What `Decimal::checked_div` returns for two numbers given by mantissa and scale.
pub uninterp spec fn decimal_quotient(a_mantissa: int, a_scale: int, b_mantissa: int, b_scale: int) -> Option<(int, int)>;

/// The sum of two numbers, where it is defined.
pub open spec fn sum(a: Parts, b: Parts) -> Option<Parts> {
    decimal_sum(a.0, a.1, b.0, b.1)
}

/// The difference of two numbers, where it is defined.
pub open spec fn difference(a: Parts, b: Parts) -> Option<Parts> {
    decimal_difference(a.0, a.1, b.0, b.1)
}

/// The product of two numbers, where it is defined.
pub open spec fn product(a: Parts, b: Parts) -> Option<Parts> {
    decimal_product(a.0, a.1, b.0, b.1)
}

/// The quotient of two numbers, where it is defined.
pub open spec fn quotient(a: Parts, b: Parts) -> Option<Parts> {
    decimal_quotient(a.0, a.1, b.0, b.1)
}

/// A fixed-point decimal number.
#[derive(Debug)]
pub struct Fixed {
    mantissa: i128,
    scale: u32,
}

impl Clone for Fixed {
    fn clone(&self) -> (copy: Self)
        ensures
            copy == *self,
    {
        *self
    }
}

impl Copy for Fixed {}

impl View for Fixed {
    type V = Parts;

    closed spec fn view(&self) -> Parts {
        (self.mantissa as int, self.scale as int)
    }
}

/// The model of an optional number.
pub open spec fn view_of(number: Option<Fixed>) -> Option<Parts> {
    match number {
        Some(n) => Some(n@),
        None => None,
    }
}

impl Fixed {
    #[verifier::type_invariant]
    closed spec fn in_range(self) -> bool {
        &&& -MAX_MANTISSA <= self.mantissa <= MAX_MANTISSA
        &&& self.scale <= MAX_SCALE
    }

    /// The number `mantissa / 10^scale`, if the mantissa has at most 96 bits
    /// and the scale is at most 28.
    pub fn new(mantissa: i128, scale: u32) -> (number: Option<Fixed>)
        ensures
            number is Some <==> representable((mantissa as int, scale as int)),
            number matches Some(n) ==> n@ == (mantissa as int, scale as int),
    {
        if -MAX_MANTISSA <= mantissa && mantissa <= MAX_MANTISSA && scale <= MAX_SCALE {
            Some(Fixed { mantissa, scale })
        } else {
            None
        }
    }

    /// The whole number `n`.
    pub fn from_u64(n: u64) -> (number: Fixed)
        ensures
            number@ == whole(n as int),
    {
        Fixed { mantissa: n as i128, scale: 0 }
    }

    /// Zero, with scale 0.
    pub fn zero() -> (number: Fixed)
        ensures
            number@ == whole(0),
    {
        Fixed { mantissa: 0, scale: 0 }
    }

    /// One, with scale 0.
    pub fn one() -> (number: Fixed)
        ensures
            number@ == whole(1),
    {
        Fixed { mantissa: 1, scale: 0 }
    }

    /// The largest number, 2^96 - 1.
    pub fn max_value() -> (number: Fixed)
        ensures
            number@ == whole(MAX_MANTISSA as int),
    {
        Fixed { mantissa: MAX_MANTISSA, scale: 0 }
    }

    /// The mantissa.
    pub fn mantissa(&self) -> (m: i128)
        ensures
            m == self@.0,
            -MAX_MANTISSA <= m <= MAX_MANTISSA,
    {
        proof {
            use_type_invariant(self);
        }
        self.mantissa
    }

    /// The scale.
    pub fn scale(&self) -> (s: u32)
        ensures
            s == self@.1,
            s <= MAX_SCALE,
    {
        proof {
            use_type_invariant(self);
        }
        self.scale
    }

    /// Whether `self` is smaller than `other` as a number.
    pub fn less_than(&self, other: &Fixed) -> (less: bool)
        ensures
            less == (scaled(self@) < scaled(other@)),
    {
        decimal_less(self, other)
    }

    /// Whether `self` and `other` are the same number, whatever their scales.
    pub fn same_value(&self, other: &Fixed) -> (same: bool)
        ensures
            same == (scaled(self@) == scaled(other@)),
    {
        !decimal_less(self, other) && !decimal_less(other, self)
    }

    /// Whether `self` is the number zero.
    pub fn is_zero(&self) -> (zero: bool)
        ensures
            zero == (self@.0 == 0),
    {
        self.mantissa == 0
    }
}

/// Two numbers with the same mantissa and scale are the same.
pub proof fn lemma_fixed_determined_by_view(a: Fixed, b: Fixed)
    requires
        a@ == b@,
    ensures
        a == b,
{
}

/// Calls `Decimal::checked_add` of `rust_decimal`, which returns the sum or
/// `None` where it overflows. Believed, not proved: the result is what
/// [`decimal_sum`] names, a function of the mantissas and scales alone.
#[verifier::external_body]
pub(crate) fn decimal_add(a: &Fixed, b: &Fixed) -> (result: Option<Fixed>)
    ensures
        view_of(result) == decimal_sum(a@.0, a@.1, b@.0, b@.1),
{
    let x = rust_decimal::Decimal::from_i128_with_scale(a.mantissa, a.scale);
    let y = rust_decimal::Decimal::from_i128_with_scale(b.mantissa, b.scale);
    x.checked_add(y).map(|r| Fixed { mantissa: r.mantissa(), scale: r.scale() })
}

/// Calls `Decimal::checked_sub` of `rust_decimal`, which returns the
/// difference or `None` where it overflows. Believed, not proved: the result
/// is what [`decimal_difference`] names, a function of the mantissas and
/// scales alone.
#[verifier::external_body]
pub(crate) fn decimal_sub(a: &Fixed, b: &Fixed) -> (result: Option<Fixed>)
    ensures
        view_of(result) == decimal_difference(a@.0, a@.1, b@.0, b@.1),
{
    let x = rust_decimal::Decimal::from_i128_with_scale(a.mantissa, a.scale);
    let y = rust_decimal::Decimal::from_i128_with_scale(b.mantissa, b.scale);
    x.checked_sub(y).map(|r| Fixed { mantissa: r.mantissa(), scale: r.scale() })
}

/// Calls `Decimal::checked_mul` of `rust_decimal`, which returns the product,
/// rounded to what a number can hold, or `None` where it overflows. Believed,
/// not proved: the result is what [`decimal_product`] names, a function of
/// the mantissas and scales alone.
#[verifier::external_body]
pub(crate) fn decimal_mul(a: &Fixed, b: &Fixed) -> (result: Option<Fixed>)
    ensures
        view_of(result) == decimal_product(a@.0, a@.1, b@.0, b@.1),
{
    let x = rust_decimal::Decimal::from_i128_with_scale(a.mantissa, a.scale);
    let y = rust_decimal::Decimal::from_i128_with_scale(b.mantissa, b.scale);
    x.checked_mul(y).map(|r| Fixed { mantissa: r.mantissa(), scale: r.scale() })
}

/// Calls `Decimal::checked_div` of `rust_decimal`, which returns the
/// quotient, rounded to what a number can hold, or `None` where the divisor
/// is zero or the quotient overflows. Believed, not proved: the result is
/// what [`decimal_quotient`] names, a function of the mantissas and scales
/// alone.
#[verifier::external_body]
pub(crate) fn decimal_div(a: &Fixed, b: &Fixed) -> (result: Option<Fixed>)
    ensures
        view_of(result) == decimal_quotient(a@.0, a@.1, b@.0, b@.1),
{
    let x = rust_decimal::Decimal::from_i128_with_scale(a.mantissa, a.scale);
    let y = rust_decimal::Decimal::from_i128_with_scale(b.mantissa, b.scale);
    x.checked_div(y).map(|r| Fixed { mantissa: r.mantissa(), scale: r.scale() })
}

/// Compares by the order of `Decimal` of `rust_decimal`. Believed, not
/// proved: the order is that of the values `mantissa / 10^scale`, whatever
/// the scales.
#[verifier::external_body]
pub(crate) fn decimal_less(a: &Fixed, b: &Fixed) -> (less: bool)
    ensures
        less == (scaled(a@) < scaled(b@)),
{
    let x = rust_decimal::Decimal::from_i128_with_scale(a.mantissa, a.scale);
    let y = rust_decimal::Decimal::from_i128_with_scale(b.mantissa, b.scale);
    x < y
}

/// Calls `to_u64` of `Decimal` of `rust_decimal`. Believed, not proved: the
/// result is the integral part of a number that is not negative and below
/// 2^64, and `None` for every other number.
#[verifier::external_body]
pub(crate) fn decimal_to_u64(a: &Fixed) -> (result: Option<u64>)
    ensures
        result == integral_part(a@),
{
    let x = rust_decimal::Decimal::from_i128_with_scale(a.mantissa, a.scale);
    rust_decimal::prelude::ToPrimitive::to_u64(&x)
}

/// Calls `Decimal::serialize` of `rust_decimal`. Believed, not proved: the
/// bytes are the flags, which hold the scale in their third byte and the sign
/// in the highest bit of their fourth, and the three words of the magnitude
/// of the mantissa, each with its lowest byte first.
#[verifier::external_body]
pub(crate) fn decimal_serialize(a: &Fixed) -> (bytes: [u8; 16])
    ensures
        bytes@ == stored(a@),
{
    rust_decimal::Decimal::from_i128_with_scale(a.mantissa, a.scale).serialize()
}

/// Calls `Decimal::deserialize` of `rust_decimal`, which makes a number of
/// any 16 bytes. Believed, not proved: the result is what
/// [`decimal_restored`] names, a function of the bytes alone.
#[verifier::external_body]
pub(crate) fn decimal_deserialize(bytes: [u8; 16]) -> (number: Fixed)
    ensures
        number@ == decimal_restored(bytes@),
{
    let restored = rust_decimal::Decimal::deserialize(bytes);
    Fixed { mantissa: restored.mantissa(), scale: restored.scale() }
}

/// Calls `to_string` of `Decimal` of `rust_decimal`, which writes the number
/// in decimal notation. Believed, not proved: the text is what
/// [`decimal_text`] names, a function of the mantissa and the scale alone.
#[verifier::external_body]
pub(crate) fn decimal_to_string(a: &Fixed) -> (text: String)
    ensures
        text@ == decimal_text(a@.0, a@.1),
{
    rust_decimal::Decimal::from_i128_with_scale(a.mantissa, a.scale).to_string()
}

} // verus!
