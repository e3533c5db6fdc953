//! Splitting text into tokens at white space.

use vstd::prelude::*;

use crate::text::{chars_of, white_space};

verus! {

/// How many characters at the start of `s` stand before its first white
/// space.
pub open spec fn word_len(s: Seq<char>) -> nat
    decreases s.len(),
{
    if s.len() == 0 || white_space(s[0]) {
        0
    } else {
        1 + word_len(s.skip(1))
    }
}

/// The tokens of `s`: its longest runs of characters that are not white
/// space, in the order in which they stand.
pub open spec fn tokens(s: Seq<char>) -> Seq<Seq<char>>
    decreases s.len(),
{
    if s.len() == 0 {
        Seq::empty()
    } else if white_space(s[0]) {
        tokens(s.skip(1))
    } else {
        proof {
            lemma_word_len_bounds(s);
        }
        seq![s.take(word_len(s) as int)] + tokens(s.skip(word_len(s) as int))
    }
}

/// A word is no longer than its text, and not empty where the text starts
/// with a character that is not white space.
pub proof fn lemma_word_len_bounds(s: Seq<char>)
    ensures
        word_len(s) <= s.len(),
        s.len() > 0 && !white_space(s[0]) ==> word_len(s) >= 1,
    decreases s.len(),
{
    if s.len() > 0 && !white_space(s[0]) {
        lemma_word_len_bounds(s.skip(1));
    }
}

/// The word at the start of `s` is `n` long where the first `n` characters
/// are not white space and the text ends, or white space follows, there.
proof fn lemma_word_len_is(s: Seq<char>, n: int)
    requires
        0 <= n <= s.len(),
        forall|j: int| 0 <= j < n ==> !white_space(#[trigger] s[j]),
        n == s.len() || white_space(s[n]),
    ensures
        word_len(s) == n,
    decreases n,
{
    if n > 0 {
        lemma_word_len_is(s.skip(1), n - 1);
    }
}

/// A word is not empty and holds no white space.
pub open spec fn is_word(t: Seq<char>) -> bool {
    t.len() > 0 && forall|j: int| 0 <= j < t.len() ==> !white_space(#[trigger] t[j])
}

/// The characters of the word at the start of `s` are not white space.
proof fn lemma_word_has_no_space(s: Seq<char>)
    ensures
        word_len(s) <= s.len(),
        forall|j: int| 0 <= j < word_len(s) ==> !white_space(#[trigger] s[j]),
    decreases s.len(),
{
    if s.len() > 0 && !white_space(s[0]) {
        lemma_word_has_no_space(s.skip(1));
        assert forall|j: int| 0 <= j < word_len(s) implies !white_space(#[trigger] s[j]) by {
            if j > 0 {
                assert(s[j] == s.skip(1)[j - 1]);
            }
        }
    }
}

/// Every token is a word: none is empty, and none holds white space.
pub proof fn lemma_tokens_are_words(s: Seq<char>)
    ensures
        forall|k: int| 0 <= k < tokens(s).len() ==> is_word(#[trigger] tokens(s)[k]),
    decreases s.len(),
{
    if s.len() == 0 {
        assert(tokens(s).len() == 0);
    } else if white_space(s[0]) {
        lemma_tokens_are_words(s.skip(1));
        assert(tokens(s) == tokens(s.skip(1)));
    } else {
        let n = word_len(s) as int;
        lemma_word_len_bounds(s);
        lemma_word_has_no_space(s);
        lemma_tokens_are_words(s.skip(n));
        let rest = tokens(s.skip(n));
        assert(tokens(s) == seq![s.take(n)] + rest);
        assert(is_word(s.take(n)));
        assert forall|k: int| 0 <= k < tokens(s).len() implies is_word(#[trigger] tokens(s)[k]) by {
            if k > 0 {
                assert(tokens(s)[k] == rest[k - 1]);
            } else {
                assert(tokens(s)[0] == s.take(n));
            }
        }
    }
}

/// Splits `input` at every run of white space. The tokens come in the order
/// in which they stand in `input`; empty input, or white space alone, gives
/// none.
pub fn tokenize(input: &str) -> (words: Vec<String>)
    ensures
        words.deep_view() == tokens(input@),
{
    let chars = chars_of(input);
    let mut words: Vec<String> = Vec::new();
    let mut i: usize = 0;
    assert(chars@.skip(0) == chars@);
    assert(words.deep_view() == Seq::<Seq<char>>::empty());
    while i < chars.len()
        invariant
            i <= chars.len(),
            chars@ == input@,
            tokens(chars@) == words.deep_view() + tokens(chars@.skip(i as int)),
        decreases chars.len() - i,
    {
        let ghost rest = chars@.skip(i as int);
        if chars[i].is_whitespace() {
            assert(rest.skip(1) == chars@.skip(i + 1));
            i += 1;
        } else {
            let start = i;
            let mut word = String::new();
            while i < chars.len() && !chars[i].is_whitespace()
                invariant
                    start <= i <= chars.len(),
                    word@ == chars@.subrange(start as int, i as int),
                    forall|j: int| start <= j < i ==> !white_space(#[trigger] chars@[j]),
                decreases chars.len() - i,
            {
                word.push(chars[i]);
                assert(chars@.subrange(start as int, i + 1) == chars@.subrange(
                    start as int,
                    i as int,
                ).push(chars@[i as int]));
                i += 1;
            }
            proof {
                let n = i - start;
                assert forall|j: int| 0 <= j < n implies !white_space(#[trigger] rest[j]) by {
                    assert(rest[j] == chars@[start + j]);
                }
                lemma_word_len_is(rest, n);
                assert(rest.take(n) == word@);
                assert(rest.skip(n) == chars@.skip(i as int));
            }
            let ghost before = words.deep_view();
            words.push(word);
            assert(words.deep_view() == before.push(word@));
            assert(before.push(word@) + tokens(chars@.skip(i as int)) == before + (seq![word@]
                + tokens(chars@.skip(i as int))));
        }
    }
    assert(words.deep_view() + Seq::<Seq<char>>::empty() == words.deep_view());
    words
}

} // verus!
