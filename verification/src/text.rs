//! Texts: their words, and the numbers that they stand for.

use core::num::ParseIntError;
use vstd::prelude::*;

verus! {

/// The words of `text`: what `str::split_whitespace` yields for it, in
/// order.
pub uninterp spec fn words_of(text: Seq<char>) -> Seq<Seq<char>>;

/// The number that `text` stands for: what `str::parse::<i32>` answers for
/// it, and `None` where that fails.
pub uninterp spec fn number_of(text: Seq<char>) -> Option<i32>;

/// Number of characters of all of `words` together.
pub open spec fn total_len(words: Seq<Seq<char>>) -> nat
    decreases words.len(),
{
    if words.len() == 0 {
        0
    } else {
        total_len(words.drop_last()) + words.last().len()
    }
}

/// The characters of each of `words`.
pub open spec fn views(words: Seq<&str>) -> Seq<Seq<char>> {
    Seq::new(words.len(), |i: int| words[i]@)
}

/// `str::split_whitespace` of std, its items gathered in a vector. The
/// items are the words of `text`, and as they are slices of `text` that lie
/// apart, they have no more characters together than `text` has.
#[verifier::external_body]
pub(crate) fn split_whitespace(text: &str) -> (words: Vec<&str>)
    ensures
        views(words@) == words_of(text@),
        total_len(views(words@)) <= text@.len(),
{
    text.split_whitespace().collect()
}

#[verifier::external_type_specification]
#[verifier::external_body]
pub struct ExParseIntError(ParseIntError);

/// `str::parse::<i32>` of std. Whether it succeeds and what it yields
/// depends on the text alone; that is given the name `number_of`.
#[verifier::external_body]
pub(crate) fn parse_i32(text: &str) -> (r: Result<i32, ParseIntError>)
    ensures
        r.is_ok() == number_of(text@).is_some(),
        r matches Ok(n) ==> number_of(text@) == Some(n),
{
    text.parse::<i32>()
}

/// Returns the number that `text` stands for, if it stands for one
pub fn to_number(text: &str) -> (n: Option<i32>)
    ensures
        n == number_of(text@),
{
    match parse_i32(text) {
        Ok(n) => Some(n),
        Err(_) => None,
    }
}

/// Returns whether `a` and `b` are the same text
pub fn same(a: &str, b: &str) -> (r: bool)
    ensures
        r == (a@ == b@),
{
    a.to_owned() == b.to_owned()
}

} // verus!
