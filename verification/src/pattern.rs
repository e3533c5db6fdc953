//! The shapes of tokens that are read as symbols and as numbers.

use vstd::prelude::*;

use crate::text::chars_of;

verus! {

/// An upper-case letter or a period.
pub open spec fn is_symbol_char(c: char) -> bool {
    'A' <= c <= 'Z' || c == '.'
}

/// A decimal digit.
pub open spec fn is_digit(c: char) -> bool {
    '0' <= c <= '9'
}

/// A decimal digit or a comma.
pub open spec fn is_number_char(c: char) -> bool {
    is_digit(c) || c == ','
}

/// Whether every character of `s` is an upper-case letter or a period.
pub open spec fn all_symbol_chars(s: Seq<char>) -> bool {
    forall|i: int| 0 <= i < s.len() ==> is_symbol_char(#[trigger] s[i])
}

/// Whether every character of `s` is a digit or a comma.
pub open spec fn all_number_chars(s: Seq<char>) -> bool {
    forall|i: int| 0 <= i < s.len() ==> is_number_char(#[trigger] s[i])
}

/// A symbol is two characters or more, each an upper-case letter or a
/// period. The whole text must have this shape: `MIT` is a symbol, and `MIT,`
/// is not.
pub open spec fn symbol_pattern(s: Seq<char>) -> bool {
    s.len() >= 2 && all_symbol_chars(s)
}

/// Whether `s` ends with `st`, `nd` or `th`.
pub open spec fn has_ordinal_suffix(s: Seq<char>) -> bool {
    &&& s.len() >= 2
    &&& {
        let a = s[s.len() - 2];
        let b = s[s.len() - 1];
        (a == 's' && b == 't') || (a == 'n' && b == 'd') || (a == 't' && b == 'h')
    }
}

/// Whether `s` starts with a dollar sign.
pub open spec fn has_dollar_sign(s: Seq<char>) -> bool {
    s.len() >= 1 && s[0] == '$'
}

/// What is left of `s` without its dollar sign, if it starts with one, and
/// without its ordinal suffix, if it ends with one.
pub open spec fn number_stem(s: Seq<char>) -> Seq<char> {
    let body = if has_dollar_sign(s) {
        s.skip(1)
    } else {
        s
    };
    if has_ordinal_suffix(body) {
        body.take(body.len() - 2)
    } else {
        body
    }
}

/// A number is an optional dollar sign, then one or more digits and commas,
/// then an optional `st`, `nd` or `th`. The whole text must have this shape:
/// `1st` is a number, and `1st!` is not.
pub open spec fn number_pattern(s: Seq<char>) -> bool {
    number_stem(s).len() >= 1 && all_number_chars(number_stem(s))
}

/// Whether `s` is made of `dollar`, `run` and `suffix` in this order, where
/// `dollar` is empty or a dollar sign, `run` is one or more digits and
/// commas, and `suffix` is empty or one of `st`, `nd` and `th`.
pub open spec fn number_parts(
    s: Seq<char>,
    dollar: Seq<char>,
    run: Seq<char>,
    suffix: Seq<char>,
) -> bool {
    &&& s == dollar + run + suffix
    &&& dollar.len() == 0 || dollar == seq!['$']
    &&& run.len() >= 1 && all_number_chars(run)
    &&& suffix.len() == 0 || (suffix.len() == 2 && has_ordinal_suffix(suffix))
}

/// A text with the shape of a number falls into a dollar sign or nothing,
/// its stem, and an ordinal suffix or nothing.
pub proof fn lemma_number_has_parts(s: Seq<char>)
    requires
        number_pattern(s),
    ensures
        exists|dollar: Seq<char>, run: Seq<char>, suffix: Seq<char>|
            number_parts(s, dollar, run, suffix),
{
    let dollar = if has_dollar_sign(s) {
        s.take(1)
    } else {
        Seq::empty()
    };
    let body = s.skip(dollar.len() as int);
    let run = number_stem(s);
    let suffix = body.skip(run.len() as int);
    assert(s == dollar + run + suffix);
    if has_dollar_sign(s) {
        assert(dollar == seq!['$']);
    }
    assert(number_parts(s, dollar, run, suffix));
}

/// A text that falls into such parts has the shape of a number, and the
/// middle part is its stem.
pub proof fn lemma_parts_make_number(
    s: Seq<char>,
    dollar: Seq<char>,
    run: Seq<char>,
    suffix: Seq<char>,
)
    requires
        number_parts(s, dollar, run, suffix),
    ensures
        number_pattern(s),
        number_stem(s) == run,
        has_dollar_sign(s) == (dollar.len() > 0),
        has_ordinal_suffix(s) == (suffix.len() > 0),
{
    let body = run + suffix;
    assert(is_number_char(run[0]));
    assert(is_number_char(run[run.len() - 1]));
    if dollar.len() == 0 {
        assert(s == body);
        assert(s[0] == run[0]);
    } else {
        assert(s[0] == '$');
        assert(s.skip(1) == body);
    }
    if suffix.len() == 0 {
        assert(body == run);
        assert(body[body.len() - 1] == run[run.len() - 1]);
        assert(s[s.len() - 1] == run[run.len() - 1]);
    } else {
        assert(body[body.len() - 2] == suffix[0]);
        assert(body[body.len() - 1] == suffix[1]);
        assert(s[s.len() - 2] == suffix[0]);
        assert(s[s.len() - 1] == suffix[1]);
        assert(body.take(body.len() - 2) == run);
    }
}

/// Whether each of `chars` is an upper-case letter or a period.
fn only_symbol_chars(chars: &Vec<char>) -> (all: bool)
    ensures
        all == all_symbol_chars(chars@),
{
    let mut i: usize = 0;
    while i < chars.len()
        invariant
            i <= chars.len(),
            forall|j: int| 0 <= j < i ==> is_symbol_char(#[trigger] chars@[j]),
        decreases chars.len() - i,
    {
        let c = chars[i];
        if !(('A' <= c && c <= 'Z') || c == '.') {
            return false;
        }
        i += 1;
    }
    true
}

/// Whether the whole of `token` has the shape of a symbol.
pub fn is_symbol(token: &str) -> (matches: bool)
    ensures
        matches == symbol_pattern(token@),
{
    let chars = chars_of(token);
    chars.len() >= 2 && only_symbol_chars(&chars)
}

/// Whether `chars` ends with `st`, `nd` or `th`.
pub(crate) fn ends_with_ordinal_suffix(chars: &Vec<char>, end: usize) -> (found: bool)
    requires
        end <= chars.len(),
    ensures
        found == has_ordinal_suffix(chars@.take(end as int)),
{
    if end < 2 {
        return false;
    }
    let a = chars[end - 2];
    let b = chars[end - 1];
    (a == 's' && b == 't') || (a == 'n' && b == 'd') || (a == 't' && b == 'h')
}

/// Whether each of `chars[start..end]` is a digit or a comma.
fn only_number_chars(chars: &Vec<char>, start: usize, end: usize) -> (all: bool)
    requires
        start <= end <= chars.len(),
    ensures
        all == all_number_chars(chars@.subrange(start as int, end as int)),
{
    let ghost part = chars@.subrange(start as int, end as int);
    let mut i: usize = start;
    while i < end
        invariant
            start <= i <= end <= chars.len(),
            part == chars@.subrange(start as int, end as int),
            forall|j: int| 0 <= j < i - start ==> is_number_char(#[trigger] part[j]),
        decreases end - i,
    {
        let c = chars[i];
        if !(('0' <= c && c <= '9') || c == ',') {
            assert(part[i - start] == c);
            return false;
        }
        i += 1;
    }
    true
}

/// Where the stem of the number in `chars` starts and ends.
pub(crate) fn stem_bounds(chars: &Vec<char>) -> (bounds: (usize, usize))
    ensures
        bounds.0 <= bounds.1 <= chars.len(),
        bounds.0 == (if has_dollar_sign(chars@) { 1int } else { 0int }),
        number_stem(chars@) == chars@.subrange(bounds.0 as int, bounds.1 as int),
{
    let start: usize = if chars.len() >= 1 && chars[0] == '$' {
        1
    } else {
        0
    };
    let ghost body = if has_dollar_sign(chars@) {
        chars@.skip(1)
    } else {
        chars@
    };
    let suffixed = chars.len() - start >= 2 && ends_with_ordinal_suffix(chars, chars.len());
    assert(suffixed == has_ordinal_suffix(body));
    let end: usize = if suffixed {
        chars.len() - 2
    } else {
        chars.len()
    };
    (start, end)
}

/// Whether the whole of `token` has the shape of a number.
pub fn is_number(token: &str) -> (matches: bool)
    ensures
        matches == number_pattern(token@),
{
    let chars = chars_of(token);
    let (start, end) = stem_bounds(&chars);
    start < end && only_number_chars(&chars, start, end)
}

} // verus!
