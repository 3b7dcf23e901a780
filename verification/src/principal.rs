//! Principals: the identities of callers, vault owners and services.
//!
//! A principal is a string of at most 29 bytes. Principals are ordered by
//! their length first and then byte by byte.

use crate::ordered_map::OrderedKey;
use vstd::prelude::*;
use vstd::std_specs::cmp::PartialEqSpecImpl;

verus! {

/// The largest number of bytes in a principal.
pub const MAX_LENGTH_IN_BYTES: usize = 29;

/// The one byte of the anonymous principal.
pub const ANONYMOUS_TAG: u8 = 4;

/// The number that the digits `s` spell in base 256, the first digit
/// weighing most.
pub open spec fn base_256(s: Seq<u8>) -> int
    decreases s.len(),
{
    if s.len() == 0 {
        0
    } else {
        base_256(s.drop_last()) * 256 + s.last()
    }
}

/// Digit strings of one length that spell the same number are the same.
pub proof fn lemma_base_256_tells_apart(x: Seq<u8>, y: Seq<u8>)
    requires
        x.len() == y.len(),
        base_256(x) == base_256(y),
    ensures
        x == y,
    decreases x.len(),
{
    if x.len() > 0 {
        lemma_base_256_tells_apart(x.drop_last(), y.drop_last());
        assert(x =~= x.drop_last().push(x.last()));
        assert(y =~= y.drop_last().push(y.last()));
    } else {
        assert(x =~= y);
    }
}

/// Of two digit strings of one length, the one with the smaller digit where
/// they first differ spells the smaller number.
pub proof fn lemma_base_256_first_difference(x: Seq<u8>, y: Seq<u8>, i: int)
    requires
        x.len() == y.len(),
        0 <= i < x.len(),
        forall|j: int| 0 <= j < i ==> x[j] == y[j],
        x[i] < y[i],
    ensures
        base_256(x) < base_256(y),
    decreases x.len(),
{
    let n = x.len() - 1;
    if i == n {
        assert(x.drop_last() =~= y.drop_last());
    } else {
        lemma_base_256_first_difference(x.drop_last(), y.drop_last(), i);
    }
}

/// An identity: a string of at most 29 bytes.
#[derive(Clone, Copy, Debug)]
pub struct Principal {
    len: u8,
    bytes: [u8; 29],
}

impl View for Principal {
    type V = Seq<u8>;

    /// The bytes of the principal.
    closed spec fn view(&self) -> Seq<u8> {
        self.bytes@.subrange(0, self.len as int)
    }
}

impl Principal {
    #[verifier::type_invariant]
    closed spec fn padded(self) -> bool {
        &&& self.len <= 29
        &&& forall|i: int| self.len <= i < 29 ==> self.bytes@[i] == 0
    }

    /// The length followed by the 29 bytes: the digits of the rank.
    closed spec fn digits(self) -> Seq<u8> {
        seq![self.len] + self.bytes@
    }

    /// The principal of these bytes, if they are at most 29.
    pub fn from_slice(bytes: &[u8]) -> (principal: Option<Principal>)
        ensures
            principal is Some <==> bytes@.len() <= MAX_LENGTH_IN_BYTES,
            principal matches Some(p) ==> p@ == bytes@,
    {
        if bytes.len() > MAX_LENGTH_IN_BYTES {
            return None;
        }
        let mut buffer = [0u8;29];
        let mut i: usize = 0;
        while i < bytes.len()
            invariant
                bytes@.len() <= 29,
                0 <= i <= bytes@.len(),
                forall|j: int| 0 <= j < i ==> buffer@[j] == bytes@[j],
                forall|j: int| i <= j < 29 ==> buffer@[j] == 0,
            decreases bytes@.len() - i,
        {
            buffer[i] = bytes[i];
            i = i + 1;
        }
        let principal = Principal { len: bytes.len() as u8, bytes: buffer };
        assert(principal@ =~= bytes@);
        Some(principal)
    }

    /// The anonymous principal, of the one byte 4.
    pub fn anonymous() -> (principal: Principal)
        ensures
            principal@ == seq![ANONYMOUS_TAG],
    {
        let mut buffer = [0u8;29];
        buffer[0] = ANONYMOUS_TAG;
        let principal = Principal { len: 1, bytes: buffer };
        assert(principal@ =~= seq![ANONYMOUS_TAG]);
        principal
    }

    /// The bytes of the principal.
    pub fn to_bytes(&self) -> (bytes: Vec<u8>)
        ensures
            bytes@ == self@,
    {
        proof {
            use_type_invariant(self);
        }
        let mut bytes: Vec<u8> = Vec::new();
        let mut i: usize = 0;
        while i < self.len as usize
            invariant
                self.len <= 29,
                0 <= i <= self.len,
                bytes@ == self.bytes@.subrange(0, i as int),
            decreases self.len - i,
        {
            bytes.push(self.bytes[i]);
            assert(bytes@ =~= self.bytes@.subrange(0, i + 1));
            i = i + 1;
        }
        bytes
    }

    /// Whether this is the anonymous principal.
    pub fn is_anonymous(&self) -> (anonymous: bool)
        ensures
            anonymous == (self@ == seq![ANONYMOUS_TAG]),
    {
        proof {
            use_type_invariant(self);
        }
        let anonymous = self.len == 1 && self.bytes[0] == ANONYMOUS_TAG;
        proof {
            if anonymous {
                assert(self@ =~= seq![ANONYMOUS_TAG]);
            } else if self.len == 1 {
                assert(self@[0] == self.bytes@[0]);
            } else {
                assert(self@.len() != 1);
            }
        }
        anonymous
    }

    /// The index of the first byte in which the two differ, or 29.
    fn first_difference(&self, other: &Principal) -> (index: usize)
        ensures
            index <= 29,
            forall|j: int| 0 <= j < index ==> self.bytes@[j] == other.bytes@[j],
            index < 29 ==> self.bytes@[index as int] != other.bytes@[index as int],
    {
        let mut i: usize = 0;
        while i < 29
            invariant
                0 <= i <= 29,
                forall|j: int| 0 <= j < i ==> self.bytes@[j] == other.bytes@[j],
            decreases 29 - i,
        {
            if self.bytes[i] != other.bytes[i] {
                return i;
            }
            i = i + 1;
        }
        i
    }
}

impl PartialEq for Principal {
    fn eq(&self, other: &Self) -> (equal: bool) {
        let equal = self.len == other.len && self.first_difference(other) == 29;
        proof {
            if equal {
                assert(self.bytes@ =~= other.bytes@);
                assert(self.bytes == other.bytes);
            }
        }
        equal
    }
}

impl Eq for Principal {}

impl PartialEqSpecImpl for Principal {
    open spec fn obeys_eq_spec() -> bool {
        true
    }

    open spec fn eq_spec(&self, other: &Self) -> bool {
        *self == *other
    }
}

impl OrderedKey for Principal {
    closed spec fn rank(&self) -> int {
        base_256(self.digits())
    }

    proof fn lemma_rank_tells_apart(a: Self, b: Self) {
        lemma_base_256_tells_apart(a.digits(), b.digits());
        assert(a.len == a.digits()[0]);
        assert(b.len == b.digits()[0]);
        assert(a.bytes@ =~= b.bytes@) by {
            assert forall|i: int| 0 <= i < 29 implies a.bytes@[i] == b.bytes@[i] by {
                assert(a.digits()[i + 1] == a.bytes@[i]);
                assert(b.digits()[i + 1] == b.bytes@[i]);
            }
        }
        assert(a.bytes == b.bytes);
    }

    fn precedes(&self, other: &Self) -> (before: bool) {
        let x = Ghost(self.digits());
        let y = Ghost(other.digits());
        if self.len != other.len {
            proof {
                if self.len < other.len {
                    lemma_base_256_first_difference(x@, y@, 0);
                } else {
                    lemma_base_256_first_difference(y@, x@, 0);
                }
            }
            return self.len < other.len;
        }
        let index = self.first_difference(other);
        if index == 29 {
            proof {
                assert(self.bytes@ =~= other.bytes@);
            }
            return false;
        }
        proof {
            assert forall|j: int| 0 <= j < index + 1 implies x@[j] == y@[j] by {
                if j > 0 {
                    assert(x@[j] == self.bytes@[j - 1]);
                    assert(y@[j] == other.bytes@[j - 1]);
                }
            }
            assert(x@[index + 1] == self.bytes@[index as int]);
            assert(y@[index + 1] == other.bytes@[index as int]);
            if self.bytes@[index as int] < other.bytes@[index as int] {
                lemma_base_256_first_difference(x@, y@, index + 1);
            } else {
                lemma_base_256_first_difference(y@, x@, index + 1);
            }
        }
        self.bytes[index] < other.bytes[index]
    }
}

} // verus!
