//! Counting the upper case letters of words.

use crate::text::{split_whitespace, total_len, views, words_of};
use vstd::prelude::*;
use vstd::string::StringSliceAdditionalSpecFns;

verus! {

/// Whether `c` is an upper case letter: what `char::is_uppercase` answers.
pub uninterp spec fn is_upper(c: char) -> bool;

/// `char::is_uppercase` of std. Its answer depends on the character alone;
/// it is given the name `is_upper`.
pub assume_specification[ char::is_uppercase ](c: char) -> (b: bool)
    ensures
        b == is_upper(c),
;

/// Number of upper case letters in `word`.
pub open spec fn uppers(word: Seq<char>) -> nat
    decreases word.len(),
{
    if word.len() == 0 {
        0
    } else {
        uppers(word.drop_last()) + if is_upper(word.last()) {
            1nat
        } else {
            0nat
        }
    }
}

/// Number of the `words` that contain upper case letters, and number of
/// upper case letters in them.
pub open spec fn tally(words: Seq<Seq<char>>) -> (nat, nat)
    decreases words.len(),
{
    if words.len() == 0 {
        (0, 0)
    } else {
        let (n, total) = tally(words.drop_last());
        let upper = uppers(words.last());
        if upper > 0 {
            (n + 1, total + upper)
        } else {
            (n, total)
        }
    }
}

/// A text has no more characters than its encoding has bytes.
proof fn lemma_chars_fit(chars: Seq<char>)
    ensures
        chars.len() <= vstd::utf8::encode_utf8(chars).len(),
    decreases chars.len(),
{
    if chars.len() > 0 {
        lemma_chars_fit(chars.drop_first());
    }
}

/// A word has no more upper case letters than characters.
pub proof fn lemma_uppers_bound(word: Seq<char>)
    ensures
        uppers(word) <= word.len(),
    decreases word.len(),
{
    if word.len() > 0 {
        lemma_uppers_bound(word.drop_last());
    }
}

/// No more words are counted than there are, and no more upper case letters
/// than the words have characters.
pub proof fn lemma_tally_bound(words: Seq<Seq<char>>)
    ensures
        tally(words).0 <= words.len(),
        tally(words).1 <= total_len(words),
    decreases words.len(),
{
    if words.len() > 0 {
        lemma_tally_bound(words.drop_last());
        lemma_uppers_bound(words.last());
    }
}

/// Returns the number of upper case letters in `word`
pub fn count_upper(word: &str) -> (num: usize)
    ensures
        num == uppers(word@),
{
    let len = word.as_bytes().len();
    proof {
        // a slice has no more bytes than a `usize` can count
        lemma_chars_fit(word@);
        assert(word@.len() <= len);
    }
    let mut num: usize = 0;
    for c in it: word.chars()
        invariant
            it.seq() == word@,
            word@.len() <= usize::MAX,
            num == uppers(word@.take(it.index() as int)),
            num <= it.index(),
    {
        proof {
            let now = word@.take(it.index() + 1);
            assert(now.drop_last() == word@.take(it.index() as int));
            assert(now.last() == c);
        }
        if c.is_uppercase() {
            num += 1;
        }
    }
    assert(word@.take(word@.len() as int) == word@);
    num
}

/// Returns a tuple with the number of `words` that contain upper case
/// letters and the total number of upper case letters
pub fn count_in_words(words: &Vec<&str>) -> (num: (usize, usize))
    requires
        total_len(views(words@)) <= usize::MAX,
    ensures
        (num.0 as nat, num.1 as nat) == tally(views(words@)),
{
    let ghost all = views(words@);
    let mut num: (usize, usize) = (0, 0);
    let mut i: usize = 0;
    while i < words.len()
        invariant
            i <= words.len(),
            all == views(words@),
            total_len(all) <= usize::MAX,
            (num.0 as nat, num.1 as nat) == tally(all.take(i as int)),
        decreases words.len() - i,
    {
        proof {
            assert(all.take(i + 1).drop_last() == all.take(i as int));
            assert(all.take(i + 1).last() == words@[i as int]@);
            lemma_tally_bound(all.take(i + 1));
            lemma_total_len_prefix(all, i + 1);
        }
        let upper = count_upper(words[i]);
        if upper > 0 {
            num.0 += 1;
            num.1 += upper;
        }
        i = i + 1;
    }
    assert(all.take(i as int) == all);
    num
}

/// The first `n` of `words` have no more characters than all of them.
proof fn lemma_total_len_prefix(words: Seq<Seq<char>>, n: int)
    requires
        0 <= n <= words.len(),
    ensures
        total_len(words.take(n)) <= total_len(words),
    decreases words.len() - n,
{
    if n < words.len() {
        lemma_total_len_prefix(words, n + 1);
        assert(words.take(n + 1).drop_last() == words.take(n));
    } else {
        assert(words.take(n) == words);
    }
}

/// Returns a tuple with the number of words in `text` that contain upper case letters and the total
/// number of upper case letters
pub fn count_words_upper(text: &str) -> (num: (usize, usize))
    ensures
        (num.0 as nat, num.1 as nat) == tally(words_of(text@)),
{
    let len = text.as_bytes().len();
    proof {
        // a slice has no more bytes than a `usize` can count
        lemma_chars_fit(text@);
        assert(text@.len() <= len);
    }
    let words = split_whitespace(text);
    count_in_words(&words)
}

} // verus!
