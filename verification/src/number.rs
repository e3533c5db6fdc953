//! Speaking numbers: digits in, English words out.

use vstd::prelude::*;

use num2words::{Currency, Num2Err, Num2Words};
use num_bigfloat::BigFloat;

use crate::pattern::{ends_with_ordinal_suffix, has_dollar_sign, has_ordinal_suffix, is_digit};
use crate::text::chars_of;
use crate::token::{Error, TaggedWord};

verus! {

/// Whether every character of `s` is a decimal digit.
pub open spec fn all_digits(s: Seq<char>) -> bool {
    forall|i: int| 0 <= i < s.len() ==> is_digit(#[trigger] s[i])
}

/// The decimal digits of `s`, in the order in which they stand in it.
pub open spec fn digits_of(s: Seq<char>) -> Seq<char>
    decreases s.len(),
{
    if s.len() == 0 {
        s
    } else if is_digit(s.last()) {
        digits_of(s.drop_last()).push(s.last())
    } else {
        digits_of(s.drop_last())
    }
}

/// The English words for the number that `digits` write, as `num2words`
/// gives them; `None` where it refuses the number.
pub uninterp spec fn spoken_cardinal(digits: Seq<char>) -> Option<Seq<char>>;

/// The English words for `digits` as an amount of dollars, as `num2words`
/// gives them; `None` where it refuses the number.
pub uninterp spec fn spoken_dollars(digits: Seq<char>) -> Option<Seq<char>>;

/// The English words for `digits` as an ordinal, as `num2words` gives them;
/// `None` where it refuses the number.
pub uninterp spec fn spoken_ordinal(digits: Seq<char>) -> Option<Seq<char>>;

/// Reads `digits` with `BigFloat::parse` and spells the number with
/// `Num2Words::to_words`, as a cardinal.
///
/// Claimed of them: a string of decimal digits is read as a number exactly
/// when it is not empty, and the words, or the refusal, depend on the digits
/// alone.
#[verifier::external_body]
fn cardinal_words(digits: &str) -> (words: Option<Result<String, Num2Err>>)
    requires
        all_digits(digits@),
    ensures
        words is None <==> digits@.len() == 0,
        words matches Some(Ok(w)) ==> spoken_cardinal(digits@) == Some(w@),
        words matches Some(Err(_)) ==> spoken_cardinal(digits@) is None,
{
    BigFloat::parse(digits).map(|number| Num2Words::new(number).to_words())
}

/// Reads `digits` with `BigFloat::parse` and spells the number with
/// `Num2Words::to_words`, as an amount of dollars (`Num2Words::currency`).
///
/// Claimed of them: a string of decimal digits is read as a number exactly
/// when it is not empty, and the words, or the refusal, depend on the digits
/// alone.
#[verifier::external_body]
fn dollar_words(digits: &str) -> (words: Option<Result<String, Num2Err>>)
    requires
        all_digits(digits@),
    ensures
        words is None <==> digits@.len() == 0,
        words matches Some(Ok(w)) ==> spoken_dollars(digits@) == Some(w@),
        words matches Some(Err(_)) ==> spoken_dollars(digits@) is None,
{
    BigFloat::parse(digits).map(|number| Num2Words::new(number).currency(Currency::DOLLAR).to_words())
}

/// Reads `digits` with `BigFloat::parse` and spells the number with
/// `Num2Words::to_words`, as an ordinal (`Num2Words::ordinal`).
///
/// Claimed of them: a string of decimal digits is read as a number exactly
/// when it is not empty, and the words, or the refusal, depend on the digits
/// alone.
#[verifier::external_body]
fn ordinal_words(digits: &str) -> (words: Option<Result<String, Num2Err>>)
    requires
        all_digits(digits@),
    ensures
        words is None <==> digits@.len() == 0,
        words matches Some(Ok(w)) ==> spoken_ordinal(digits@) == Some(w@),
        words matches Some(Err(_)) ==> spoken_ordinal(digits@) is None,
{
    BigFloat::parse(digits).map(|number| Num2Words::new(number).ordinal().to_words())
}

/// The words for the number token `s`, where the speller gives any. A token
/// that ends with an ordinal suffix is spoken as an ordinal, with or without
/// a dollar sign; otherwise one that starts with a dollar sign is spoken as
/// an amount of dollars.
pub open spec fn spoken_number(s: Seq<char>) -> Option<Seq<char>> {
    if has_ordinal_suffix(s) {
        spoken_ordinal(digits_of(s))
    } else if has_dollar_sign(s) {
        spoken_dollars(digits_of(s))
    } else {
        spoken_cardinal(digits_of(s))
    }
}

/// The decimal digits of `chars`.
fn keep_digits(chars: &Vec<char>) -> (digits: String)
    ensures
        digits@ == digits_of(chars@),
        all_digits(digits@),
{
    let mut digits = String::new();
    let mut i: usize = 0;
    assert(chars@.take(0) == Seq::<char>::empty());
    while i < chars.len()
        invariant
            i <= chars.len(),
            digits@ == digits_of(chars@.take(i as int)),
            all_digits(digits@),
        decreases chars.len() - i,
    {
        let c = chars[i];
        assert(chars@.take(i + 1).drop_last() == chars@.take(i as int));
        if '0' <= c && c <= '9' {
            digits.push(c);
        }
        i += 1;
    }
    assert(chars@.take(chars.len() as int) == chars@);
    digits
}

/// What becomes of a number token once the speller has answered: its words
/// make a number; without an answer the token held no number to read; a
/// refusal is handed on.
pub fn number_outcome(words: Option<Result<String, Num2Err>>) -> (outcome: Result<
    TaggedWord,
    Error,
>)
    ensures
        match words {
            None => outcome matches Err(Error::NumberParsing),
            Some(Ok(w)) => outcome matches Ok(TaggedWord::Number(spoken)) && spoken == w,
            Some(Err(refusal)) => outcome matches Err(Error::Num(e)) && e == refusal,
        },
{
    match words {
        None => Err(Error::NumberParsing),
        Some(Ok(w)) => Ok(TaggedWord::Number(w)),
        Some(Err(refusal)) => Err(Error::Num(refusal)),
    }
}

/// Rewrites a number token into English words.
///
/// Everything but the decimal digits of `input` is put aside. Without a
/// digit the token cannot be read: `Error::NumberParsing`. Otherwise the
/// digits are spoken as an ordinal where `input` ends with `st`, `nd` or
/// `th`, else as dollars where it starts with `$`, else as a cardinal; where
/// the speller refuses, its reason comes back in `Error::Num`.
pub fn normalize_number(input: &str) -> (outcome: Result<TaggedWord, Error>)
    ensures
        digits_of(input@).len() == 0 ==> outcome matches Err(Error::NumberParsing),
        digits_of(input@).len() > 0 ==> match spoken_number(input@) {
            Some(words) => outcome matches Ok(TaggedWord::Number(spoken)) && spoken@ == words,
            None => outcome matches Err(Error::Num(_)),
        },
{
    let chars = chars_of(input);
    let ordinal = ends_with_ordinal_suffix(&chars, chars.len());
    assert(chars@.take(chars.len() as int) == chars@);
    let currency = chars.len() >= 1 && chars[0] == '$';
    let digits = keep_digits(&chars);
    let words = if ordinal {
        ordinal_words(digits.as_str())
    } else if currency {
        dollar_words(digits.as_str())
    } else {
        cardinal_words(digits.as_str())
    };
    number_outcome(words)
}

} // verus!
