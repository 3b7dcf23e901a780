//! Sums over sequences, and what the edits of a sequence do to them.

use crate::ordered_map::{has_key, increasing, lemma_slot_splits, slot, value_of, with_entry, without_key, OrderedKey};
use vstd::prelude::*;

verus! {

/// The sum of `f` over the elements of `s`.
pub open spec fn sum_by<A>(s: Seq<A>, f: spec_fn(A) -> int) -> int
    decreases s.len(),
{
    if s.len() == 0 {
        0
    } else {
        sum_by(s.drop_last(), f) + f(s.last())
    }
}

/// Whether `f` is negative on no element of `s`.
pub open spec fn nowhere_negative<A>(s: Seq<A>, f: spec_fn(A) -> int) -> bool {
    forall|i: int| 0 <= i < s.len() ==> f(#[trigger] s[i]) >= 0
}

/// Adding an element at the end adds its term to the sum.
pub proof fn lemma_sum_by_push<A>(s: Seq<A>, a: A, f: spec_fn(A) -> int)
    ensures
        sum_by(s.push(a), f) == sum_by(s, f) + f(a),
{
    assert(s.push(a).drop_last() =~= s);
}

/// The sum of a prefix grows by the term of the element that it takes in.
pub proof fn lemma_sum_by_take<A>(s: Seq<A>, n: int, f: spec_fn(A) -> int)
    requires
        0 <= n < s.len(),
    ensures
        sum_by(s.take(n + 1), f) == sum_by(s.take(n), f) + f(s[n]),
{
    assert(s.take(n + 1).drop_last() =~= s.take(n));
}

/// The prefix of all elements has the sum of the sequence.
pub proof fn lemma_sum_by_all<A>(s: Seq<A>, f: spec_fn(A) -> int)
    ensures
        sum_by(s.take(s.len() as int), f) == sum_by(s, f),
{
    assert(s.take(s.len() as int) =~= s);
}

/// Inserting an element adds its term to the sum.
pub proof fn lemma_sum_by_insert<A>(s: Seq<A>, i: int, a: A, f: spec_fn(A) -> int)
    requires
        0 <= i <= s.len(),
    ensures
        sum_by(s.insert(i, a), f) == sum_by(s, f) + f(a),
    decreases s.len() - i,
{
    if i == s.len() {
        assert(s.insert(i, a) =~= s.push(a));
        lemma_sum_by_push(s, a, f);
    } else {
        assert(s.insert(i, a).drop_last() =~= s.drop_last().insert(i, a));
        lemma_sum_by_insert(s.drop_last(), i, a, f);
    }
}

/// Removing an element takes its term from the sum.
pub proof fn lemma_sum_by_remove<A>(s: Seq<A>, i: int, f: spec_fn(A) -> int)
    requires
        0 <= i < s.len(),
    ensures
        sum_by(s.remove(i), f) == sum_by(s, f) - f(s[i]),
    decreases s.len() - i,
{
    if i == s.len() - 1 {
        assert(s.remove(i) =~= s.drop_last());
    } else {
        assert(s.remove(i).drop_last() =~= s.drop_last().remove(i));
        assert(s.remove(i).last() == s.last());
        lemma_sum_by_remove(s.drop_last(), i, f);
    }
}

/// Replacing an element changes the sum by the difference of the terms.
pub proof fn lemma_sum_by_update<A>(s: Seq<A>, i: int, a: A, f: spec_fn(A) -> int)
    requires
        0 <= i < s.len(),
    ensures
        sum_by(s.update(i, a), f) == sum_by(s, f) - f(s[i]) + f(a),
    decreases s.len() - i,
{
    if i == s.len() - 1 {
        assert(s.update(i, a).drop_last() =~= s.drop_last());
    } else {
        assert(s.update(i, a).drop_last() =~= s.drop_last().update(i, a));
        lemma_sum_by_update(s.drop_last(), i, a, f);
    }
}

/// Where no term is negative, the sum is not, and no term exceeds it.
pub proof fn lemma_sum_by_bounds<A>(s: Seq<A>, f: spec_fn(A) -> int)
    requires
        nowhere_negative(s, f),
    ensures
        sum_by(s, f) >= 0,
        forall|i: int| 0 <= i < s.len() ==> f(#[trigger] s[i]) <= sum_by(s, f),
    decreases s.len(),
{
    if s.len() > 0 {
        let t = s.drop_last();
        assert(nowhere_negative(t, f)) by {
            assert forall|i: int| 0 <= i < t.len() implies f(#[trigger] t[i]) >= 0 by {
                assert(t[i] == s[i]);
            }
        }
        lemma_sum_by_bounds(t, f);
        assert(f(s[s.len() - 1]) >= 0);
        assert forall|i: int| 0 <= i < s.len() implies f(#[trigger] s[i]) <= sum_by(s, f) by {
            if i < t.len() {
                assert(t[i] == s[i]);
            }
        }
    }
}

/// Where no term is negative, the sum of a prefix does not exceed the sum.
pub proof fn lemma_sum_by_prefix<A>(s: Seq<A>, n: int, f: spec_fn(A) -> int)
    requires
        nowhere_negative(s, f),
        0 <= n <= s.len(),
    ensures
        0 <= sum_by(s.take(n), f) <= sum_by(s, f),
    decreases s.len() - n,
{
    if n == s.len() {
        lemma_sum_by_all(s, f);
        lemma_sum_by_bounds(s, f);
    } else {
        lemma_sum_by_prefix(s, n + 1, f);
        lemma_sum_by_take(s, n, f);
        assert(f(s[n]) >= 0);
        assert(nowhere_negative(s.take(n), f)) by {
            assert forall|i: int| 0 <= i < s.take(n).len() implies f(#[trigger] s.take(n)[i]) >= 0 by {
                assert(s.take(n)[i] == s[i]);
            }
        }
        lemma_sum_by_bounds(s.take(n), f);
    }
}

/// Sums of sequences that agree term by term agree.
pub proof fn lemma_sum_by_same_terms<A, B>(s: Seq<A>, f: spec_fn(A) -> int, t: Seq<B>, g: spec_fn(B) -> int)
    requires
        s.len() == t.len(),
        forall|i: int| 0 <= i < s.len() ==> f(#[trigger] s[i]) == g(t[i]),
    ensures
        sum_by(s, f) == sum_by(t, g),
    decreases s.len(),
{
    if s.len() > 0 {
        let s0 = s.drop_last();
        let t0 = t.drop_last();
        assert forall|i: int| 0 <= i < s0.len() implies f(#[trigger] s0[i]) == g(t0[i]) by {
            assert(s0[i] == s[i]);
            assert(t0[i] == t[i]);
        }
        lemma_sum_by_same_terms(s0, f, t0, g);
        assert(f(s[s.len() - 1]) == g(t[s.len() - 1]));
    }
}

/// Setting a value in a listing changes the sum by the change of that term.
pub proof fn lemma_sum_by_with_entry<K: OrderedKey, V>(s: Seq<(K, V)>, k: K, v: V, f: spec_fn((K, V)) -> int)
    requires
        increasing(s),
    ensures
        sum_by(with_entry(s, k, v), f) == sum_by(s, f) + f((k, v)) - if has_key(s, k) {
            f((k, value_of(s, k)))
        } else {
            0
        },
{
    lemma_slot_splits(s, k.rank());
    let i = slot(s, k.rank());
    if has_key(s, k) {
        lemma_sum_by_update(s, i, (k, v), f);
        assert(s[i] == (k, value_of(s, k)));
    } else {
        lemma_sum_by_insert(s, i, (k, v), f);
    }
}

/// Taking a key from a listing takes its term from the sum.
pub proof fn lemma_sum_by_without_key<K: OrderedKey, V>(s: Seq<(K, V)>, k: K, f: spec_fn((K, V)) -> int)
    requires
        increasing(s),
    ensures
        sum_by(without_key(s, k), f) == sum_by(s, f) - if has_key(s, k) {
            f((k, value_of(s, k)))
        } else {
            0
        },
{
    lemma_slot_splits(s, k.rank());
    let i = slot(s, k.rank());
    if has_key(s, k) {
        lemma_sum_by_remove(s, i, f);
        assert(s[i] == (k, value_of(s, k)));
    }
}

} // verus!
