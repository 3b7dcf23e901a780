//! What the protocol exchanges with the two token ledgers: amounts of any
//! size, and the reasons for which a ledger refuses a transfer.

use crate::numeric::Token;
use vstd::prelude::*;

verus! {

/// Two to the power 32, the base of the digits of a [`BigNat`].
pub const DIGIT_BASE: u64 = 0x1_0000_0000;

/// The number that the digits `s` spell in base 2^32, the first digit
/// weighing least.
pub open spec fn digits_value(s: Seq<u32>) -> nat
    decreases s.len(),
{
    if s.len() == 0 {
        0
    } else {
        (s[0] + DIGIT_BASE * digits_value(s.drop_first())) as nat
    }
}

/// A number with a digit that is not zero at index `i` is at least 2^(32 i);
/// here for the indices from 2 on, where it exceeds every `u64`.
pub proof fn lemma_high_digit_exceeds(s: Seq<u32>, i: int)
    requires
        2 <= i < s.len(),
        s[i] != 0,
    ensures
        digits_value(s) > u64::MAX,
{
    let s1 = s.drop_first();
    let s2 = s1.drop_first();
    assert(digits_value(s) == s[0] + DIGIT_BASE * digits_value(s1));
    assert(digits_value(s1) == s1[0] + DIGIT_BASE * digits_value(s2));
    lemma_digit_makes_positive(s2, i - 2);
    assert(DIGIT_BASE * digits_value(s1) >= DIGIT_BASE * (DIGIT_BASE * digits_value(s2))) by (nonlinear_arith)
        requires
            digits_value(s1) >= DIGIT_BASE * digits_value(s2),
    ;
    assert(DIGIT_BASE * (DIGIT_BASE * digits_value(s2)) >= DIGIT_BASE * DIGIT_BASE) by (nonlinear_arith)
        requires
            digits_value(s2) >= 1,
    ;
}

/// A number with a digit that is not zero is not zero.
pub proof fn lemma_digit_makes_positive(s: Seq<u32>, i: int)
    requires
        0 <= i < s.len(),
        s[i] != 0,
    ensures
        digits_value(s) >= 1,
    decreases s.len(),
{
    if i > 0 {
        lemma_digit_makes_positive(s.drop_first(), i - 1);
        assert(DIGIT_BASE * digits_value(s.drop_first()) >= 1) by (nonlinear_arith)
            requires
                digits_value(s.drop_first()) >= 1,
        ;
    }
}

/// A number whose digits are all zero is zero.
pub proof fn lemma_zero_digits(s: Seq<u32>)
    requires
        forall|i: int| 0 <= i < s.len() ==> s[i] == 0,
    ensures
        digits_value(s) == 0,
    decreases s.len(),
{
    if s.len() > 0 {
        assert forall|i: int| 0 <= i < s.drop_first().len() implies s.drop_first()[i] == 0 by {
            assert(s.drop_first()[i] == s[i + 1]);
        }
        lemma_zero_digits(s.drop_first());
        assert(DIGIT_BASE * digits_value(s.drop_first()) == 0);
    }
}

/// A natural number of any size, as ledgers count tokens and blocks:
/// its digits in base 2^32, the least significant first.
#[derive(Clone, Debug, PartialEq, Eq)]
pub struct BigNat {
    pub digits: Vec<u32>,
}

impl View for BigNat {
    type V = nat;

    open spec fn view(&self) -> nat {
        digits_value(self.digits@)
    }
}

impl BigNat {
    /// The number `n`, without leading zero digits.
    pub fn from_u64(n: u64) -> (number: BigNat)
        ensures
            number@ == n,
    {
        let low = (n % DIGIT_BASE) as u32;
        let high = (n / DIGIT_BASE) as u32;
        let mut digits: Vec<u32> = Vec::new();
        if n != 0 {
            digits.push(low);
            if high != 0 {
                digits.push(high);
            }
        }
        proof {
            let s = digits@;
            if n != 0 {
                assert(digits_value(s) == s[0] + DIGIT_BASE * digits_value(s.drop_first()));
                if high != 0 {
                    let s1 = s.drop_first();
                    assert(s1[0] == high);
                    assert(digits_value(s1) == s1[0] + DIGIT_BASE * digits_value(s1.drop_first()));
                    assert(s1.drop_first().len() == 0);
                    assert(digits_value(s1.drop_first()) == 0);
                } else {
                    assert(s.drop_first().len() == 0);
                    assert(digits_value(s.drop_first()) == 0);
                }
            }
        }
        BigNat { digits }
    }

    /// The number as a `u64`, if it is small enough.
    pub fn to_u64(&self) -> (small: Option<u64>)
        ensures
            small is Some <==> self@ <= u64::MAX,
            small matches Some(n) ==> n == self@,
    {
        let mut i: usize = 2;
        while i < self.digits.len()
            invariant
                2 <= i,
                forall|j: int| 2 <= j < i && j < self.digits@.len() ==> self.digits@[j] == 0,
            decreases self.digits@.len() - i,
        {
            if self.digits[i] != 0 {
                proof {
                    lemma_high_digit_exceeds(self.digits@, i as int);
                }
                return None;
            }
            i = i + 1;
        }
        let low: u64 = if self.digits.len() > 0 {
            self.digits[0] as u64
        } else {
            0
        };
        let high: u64 = if self.digits.len() > 1 {
            self.digits[1] as u64
        } else {
            0
        };
        proof {
            let s = self.digits@;
            if s.len() > 0 {
                let s1 = s.drop_first();
                assert(digits_value(s) == s[0] + DIGIT_BASE * digits_value(s1));
                if s.len() > 1 {
                    let s2 = s1.drop_first();
                    assert(s1[0] == s[1]);
                    assert(digits_value(s1) == s1[0] + DIGIT_BASE * digits_value(s2));
                    assert forall|j: int| 0 <= j < s2.len() implies s2[j] == 0 by {
                        assert(s2[j] == s[j + 2]);
                    }
                    lemma_zero_digits(s2);
                    assert(DIGIT_BASE * digits_value(s2) == 0);
                } else {
                    assert(s1.len() == 0);
                }
            }
        }
        Some(high * DIGIT_BASE + low)
    }
}

impl<T> Token<T> {
    /// The amount as the ledgers count it.
    pub fn to_nat(self) -> (number: BigNat)
        ensures
            number@ == self.0,
    {
        BigNat::from_u64(self.0)
    }
}

/// Why a ledger refused a transfer.
#[derive(Clone, Debug, PartialEq, Eq)]
pub enum TransferError {
    BadFee { expected_fee: BigNat },
    BadBurn { min_burn_amount: BigNat },
    InsufficientFunds { balance: BigNat },
    TooOld,
    CreatedInFuture { ledger_time: u64 },
    TemporarilyUnavailable,
    Duplicate { duplicate_of: BigNat },
    GenericError { error_code: BigNat, message: String },
}

/// Why a ledger refused a transfer on behalf of an account's owner.
#[derive(Clone, Debug, PartialEq, Eq)]
pub enum TransferFromError {
    BadFee { expected_fee: BigNat },
    BadBurn { min_burn_amount: BigNat },
    InsufficientFunds { balance: BigNat },
    InsufficientAllowance { allowance: BigNat },
    TooOld,
    CreatedInFuture { ledger_time: u64 },
    Duplicate { duplicate_of: BigNat },
    TemporarilyUnavailable,
    GenericError { error_code: BigNat, message: String },
}

/// The fee that a ledger asks for, where it refused a transfer for its fee.
pub open spec fn expected_fee_of(error: TransferError) -> Option<nat> {
    match error {
        TransferError::BadFee { expected_fee } => Some(expected_fee@),
        _ => None,
    }
}

/// The fee that a ledger asks for, where it refused a transfer on behalf
/// of an owner for its fee.
pub open spec fn expected_fee_of_from(error: TransferFromError) -> Option<nat> {
    match error {
        TransferFromError::BadFee { expected_fee } => Some(expected_fee@),
        _ => None,
    }
}

} // verus!
