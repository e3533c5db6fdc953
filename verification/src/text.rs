//! Conversions between Rust strings and the character vectors the rest of
//! the crate works on.

use vstd::prelude::*;

verus! {

/// `String::push` appends one character to the end of the string.
pub assume_specification[ String::push ](s: &mut String, c: char)
    ensures
        final(s)@ == old(s)@.push(c),
;

/// The characters of `s`, in order.
pub fn chars_of(s: &str) -> (v: Vec<char>)
    ensures
        v@ == s@,
{
    broadcast use vstd::string::group_string_axioms;

    let mut v: Vec<char> = Vec::new();
    for c in it: s.chars()
        invariant
            it.seq() == s@,
            v@ == it.seq().take(it.index()),
    {
        v.push(c);
    }
    v
}

/// The string made of the characters of `v`, in order.
pub fn string_of(v: &Vec<char>) -> (s: String)
    ensures
        s@ == v@,
{
    let mut s = String::new();
    let mut i: usize = 0;
    while i < v.len()
        invariant
            i <= v.len(),
            s@ == v@.take(i as int),
        decreases v.len() - i,
    {
        s.push(v[i]);
        i += 1;
    }
    s
}

/// Whether `c` is white space: whether it has the Unicode property
/// `White_Space`. These are the controls from the tab to the carriage
/// return, the space, the next-line control, the no-break space, the Ogham
/// space mark, the spaces from the en quad to the hair space, the line and
/// paragraph separators, the narrow no-break space, the medium mathematical
/// space and the ideographic space.
pub open spec fn white_space(c: char) -> bool {
    ||| '\u{9}' <= c <= '\u{d}'
    ||| c == ' '
    ||| c == '\u{85}'
    ||| c == '\u{a0}'
    ||| c == '\u{1680}'
    ||| '\u{2000}' <= c <= '\u{200a}'
    ||| c == '\u{2028}'
    ||| c == '\u{2029}'
    ||| c == '\u{202f}'
    ||| c == '\u{205f}'
    ||| c == '\u{3000}'
}

/// `char::is_whitespace` tells whether the character has the property
/// `White_Space`.
pub assume_specification[ char::is_whitespace ](c: char) -> (b: bool)
    ensures
        b == white_space(c),
;

/// The upper-case mapping of `c`, as `char::to_uppercase` yields it: one
/// character or more.
pub uninterp spec fn uppercase(c: char) -> Seq<char>;

/// Collects what `char::to_uppercase` yields for `c`, which depends on the
/// character alone.
#[verifier::external_body]
pub(crate) fn to_uppercase(c: char) -> (upper: Vec<char>)
    ensures
        upper@ == uppercase(c),
{
    c.to_uppercase().collect()
}

/// Whether `a` and `b` hold the same characters.
pub fn same_text(a: &str, b: &str) -> (same: bool)
    ensures
        same == (a@ == b@),
{
    let x = chars_of(a);
    let y = chars_of(b);
    if x.len() != y.len() {
        return false;
    }
    let mut i: usize = 0;
    while i < x.len()
        invariant
            i <= x.len(),
            x.len() == y.len(),
            x@ == a@,
            y@ == b@,
            x@.take(i as int) == y@.take(i as int),
        decreases x.len() - i,
    {
        if x[i] != y[i] {
            assert(a@[i as int] != b@[i as int]);
            return false;
        }
        assert(x@.take(i + 1) == x@.take(i as int).push(x@[i as int]));
        assert(y@.take(i + 1) == y@.take(i as int).push(y@[i as int]));
        i += 1;
    }
    assert(x@ == x@.take(x.len() as int));
    assert(y@ == y@.take(y.len() as int));
    true
}

/// The characters `chars[from..to]`.
pub fn slice_of(chars: &Vec<char>, from: usize, to: usize) -> (part: Vec<char>)
    requires
        from <= to <= chars.len(),
    ensures
        part@ == chars@.subrange(from as int, to as int),
{
    let mut part: Vec<char> = Vec::new();
    let mut i: usize = from;
    while i < to
        invariant
            from <= i <= to <= chars.len(),
            part@ == chars@.subrange(from as int, i as int),
        decreases to - i,
    {
        part.push(chars[i]);
        i += 1;
    }
    part
}

/// How many characters of `s` stand before its first line feed.
pub open spec fn line_len(s: Seq<char>) -> nat
    decreases s.len(),
{
    if s.len() == 0 || s[0] == '\n' {
        0
    } else {
        1 + line_len(s.skip(1))
    }
}

/// `line` without the carriage return at its end, if it has one.
pub open spec fn without_cr(line: Seq<char>) -> Seq<char> {
    if line.len() > 0 && line.last() == '\r' {
        line.drop_last()
    } else {
        line
    }
}

/// The lines of `s`. A line ends at a line feed, or at a carriage return
/// followed by a line feed, and holds neither; the last line needs no line
/// feed behind it.
pub open spec fn lines(s: Seq<char>) -> Seq<Seq<char>>
    decreases s.len(),
{
    if s.len() == 0 {
        Seq::empty()
    } else {
        proof {
            lemma_line_len_bounds(s);
        }
        let n = line_len(s) as int;
        if n == s.len() {
            seq![s]
        } else {
            seq![without_cr(s.take(n))] + lines(s.skip(n + 1))
        }
    }
}

/// A line is no longer than its text.
pub proof fn lemma_line_len_bounds(s: Seq<char>)
    ensures
        line_len(s) <= s.len(),
    decreases s.len(),
{
    if s.len() > 0 && s[0] != '\n' {
        lemma_line_len_bounds(s.skip(1));
    }
}

/// The line at the start of `s` is `n` long where the first `n` characters
/// are no line feeds and the text ends, or a line feed follows, there.
proof fn lemma_line_len_is(s: Seq<char>, n: int)
    requires
        0 <= n <= s.len(),
        forall|j: int| 0 <= j < n ==> #[trigger] s[j] != '\n',
        n == s.len() || s[n] == '\n',
    ensures
        line_len(s) == n,
    decreases n,
{
    if n > 0 {
        lemma_line_len_is(s.skip(1), n - 1);
    }
}

/// Splits `chars` into its lines.
pub fn split_lines(chars: &Vec<char>) -> (found: Vec<String>)
    ensures
        found.deep_view() == lines(chars@),
{
    let mut found: Vec<String> = Vec::new();
    let mut i: usize = 0;
    assert(chars@.skip(0) == chars@);
    assert(found.deep_view() == Seq::<Seq<char>>::empty());
    while i < chars.len()
        invariant
            i <= chars.len(),
            lines(chars@) == found.deep_view() + lines(chars@.skip(i as int)),
        decreases chars.len() - i,
    {
        let ghost rest = chars@.skip(i as int);
        let start = i;
        while i < chars.len() && chars[i] != '\n'
            invariant
                start <= i <= chars.len(),
                forall|j: int| start <= j < i ==> #[trigger] chars@[j] != '\n',
            decreases chars.len() - i,
        {
            i += 1;
        }
        let ghost n = i - start;
        proof {
            assert forall|j: int| 0 <= j < n implies #[trigger] rest[j] != '\n' by {
                assert(rest[j] == chars@[start + j]);
            }
            lemma_line_len_is(rest, n);
            assert(rest.take(n) == chars@.subrange(start as int, i as int));
        }
        let line = if i < chars.len() {
            let end = if i > start && chars[i - 1] == '\r' {
                i - 1
            } else {
                i
            };
            let line = string_of(&slice_of(chars, start, end));
            assert(line@ == without_cr(rest.take(n)));
            assert(rest.skip(n + 1) == chars@.skip(i + 1));
            i += 1;
            line
        } else {
            let line = string_of(&slice_of(chars, start, i));
            assert(line@ == rest);
            assert(lines(chars@.skip(i as int)) == Seq::<Seq<char>>::empty());
            assert(lines(rest) == seq![rest] + lines(chars@.skip(i as int)));
            line
        };
        let ghost before = found.deep_view();
        found.push(line);
        assert(found.deep_view() == before.push(line@));
        assert(before.push(line@) + lines(chars@.skip(i as int)) == before + (seq![line@] + lines(
            chars@.skip(i as int),
        )));
    }
    assert(found.deep_view() + Seq::<Seq<char>>::empty() == found.deep_view());
    found
}

/// Whether `pat` stands in `s` at place `at`.
pub open spec fn occurs_at(s: Seq<char>, pat: Seq<char>, at: int) -> bool {
    0 <= at && at + pat.len() <= s.len() && s.subrange(at, at + pat.len()) == pat
}

/// The first place at or behind `from` at which `pat` stands in `s`.
pub open spec fn find_from(s: Seq<char>, pat: Seq<char>, from: int) -> Option<int>
    decreases s.len() - from + 1,
{
    if from < 0 || from + pat.len() > s.len() {
        None
    } else if occurs_at(s, pat, from) {
        Some(from)
    } else {
        find_from(s, pat, from + 1)
    }
}

/// The first place at which `pat` stands in `s`.
pub open spec fn find(s: Seq<char>, pat: Seq<char>) -> Option<int> {
    find_from(s, pat, 0)
}

/// What [`find`] gives is the first place at which `pat` stands in `s`, and
/// it gives none only where there is none.
pub proof fn lemma_find_is_first(s: Seq<char>, pat: Seq<char>, from: int)
    requires
        0 <= from,
    ensures
        match find_from(s, pat, from) {
            Some(at) => from <= at && occurs_at(s, pat, at) && forall|j: int|
                from <= j < at ==> !occurs_at(s, pat, j),
            None => forall|j: int| from <= j ==> !occurs_at(s, pat, j),
        },
    decreases s.len() - from + 1,
{
    if from + pat.len() <= s.len() && !occurs_at(s, pat, from) {
        lemma_find_is_first(s, pat, from + 1);
    }
}

/// Whether `pat` stands in `chars` at place `at`.
fn stands_at(chars: &Vec<char>, pat: &Vec<char>, at: usize) -> (stands: bool)
    requires
        at + pat.len() <= chars.len(),
    ensures
        stands == occurs_at(chars@, pat@, at as int),
{
    let ghost part = chars@.subrange(at as int, at + pat.len());
    let mut k: usize = 0;
    while k < pat.len()
        invariant
            k <= pat.len(),
            at + pat.len() <= chars.len(),
            part == chars@.subrange(at as int, at + pat.len()),
            part.take(k as int) == pat@.take(k as int),
        decreases pat.len() - k,
    {
        if chars[at + k] != pat[k] {
            assert(part[k as int] != pat@[k as int]);
            return false;
        }
        assert(part.take(k + 1) == part.take(k as int).push(part[k as int]));
        assert(pat@.take(k + 1) == pat@.take(k as int).push(pat@[k as int]));
        k += 1;
    }
    assert(part.take(pat.len() as int) == part);
    assert(pat@.take(pat.len() as int) == pat@);
    true
}

/// The first place at which `pat` stands in `chars`.
pub fn find_first(chars: &Vec<char>, pat: &Vec<char>) -> (found: Option<usize>)
    ensures
        found is Some <==> find(chars@, pat@) is Some,
        found matches Some(at) ==> find(chars@, pat@) == Some(at as int) && at + pat.len()
            <= chars.len(),
{
    if pat.len() > chars.len() {
        return None;
    }
    let last = chars.len() - pat.len();
    let mut i: usize = 0;
    while i < last
        invariant
            i <= last,
            last == chars.len() - pat.len(),
            find(chars@, pat@) == find_from(chars@, pat@, i as int),
        decreases last - i,
    {
        if stands_at(chars, pat, i) {
            return Some(i);
        }
        i += 1;
    }
    if stands_at(chars, pat, last) {
        Some(last)
    } else {
        assert(find_from(chars@, pat@, last + 1) is None);
        None
    }
}

} // verus!
