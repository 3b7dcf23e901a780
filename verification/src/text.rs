//! Texts that are put together from parts.

use vstd::prelude::*;

verus! {

/// Joins two texts with `concat` of slices, which writes the second behind
/// the first. Believed, not proved: the result is the two texts in a row.
#[verifier::external_body]
pub(crate) fn join(first: &str, second: &str) -> (text: String)
    ensures
        text@ == first@ + second@,
{
    [first, second].concat()
}

/// What `to_string` makes of a number: its decimal digits.
pub uninterp spec fn number_text(n: int) -> Seq<char>;

/// Writes a number with `u64::to_string`. Believed, not proved: the text is
/// what [`number_text`] names, a function of the number alone.
#[verifier::external_body]
pub(crate) fn number(n: u64) -> (text: String)
    ensures
        text@ == number_text(n as int),
{
    n.to_string()
}

/// The texts of a list in a row.
pub open spec fn in_a_row(parts: Seq<&str>) -> Seq<char>
    decreases parts.len(),
{
    if parts.len() == 0 {
        Seq::empty()
    } else {
        in_a_row(parts.drop_last()) + parts.last()@
    }
}

/// Joins the texts of a list.
pub(crate) fn join_all(parts: &Vec<&str>) -> (text: String)
    ensures
        text@ == in_a_row(parts@),
{
    let mut text = String::new();
    let mut i: usize = 0;
    while i < parts.len()
        invariant
            0 <= i <= parts@.len(),
            text@ == in_a_row(parts@.take(i as int)),
        decreases parts@.len() - i,
    {
        assert(parts@.take(i + 1).drop_last() =~= parts@.take(i as int));
        text = join(text.as_str(), parts[i]);
        i = i + 1;
    }
    assert(parts@.take(i as int) =~= parts@);
    text
}

} // verus!
