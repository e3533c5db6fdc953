//! Classifying tokens and rewriting them into text that can be spoken.

use vstd::prelude::*;
use vstd::string::StringExecFns;

use crate::abbreviation::{builtin_abbreviations, AbbreviationTable};
use crate::number::{digits_of, normalize_number, spoken_number};
use crate::pattern::{
    has_dollar_sign,
    is_number,
    is_number_char,
    is_symbol,
    is_symbol_char,
    number_pattern,
    number_stem,
    symbol_pattern,
};
use crate::text::{chars_of, to_uppercase, uppercase};
use crate::token::{Category, Error, TaggedWord, Token};
use crate::tokenize::{tokenize, tokens};

verus! {

/// The token that the text `s` makes: a symbol where it has the shape of
/// one; else a number where it has the shape of one; else an abbreviation
/// where `table` holds it; else a word.
pub open spec fn tagged(s: Seq<char>, table: Map<Seq<char>, Seq<char>>) -> Token {
    let category = if symbol_pattern(s) {
        Category::Symbol
    } else if number_pattern(s) {
        Category::Number
    } else if table.contains_key(s) {
        Category::Abbreviation
    } else {
        Category::Word
    };
    Token { category, raw: s }
}

/// `parts` one behind the other, with a period behind each of them.
pub open spec fn dotted(parts: Seq<Seq<char>>) -> Seq<char>
    decreases parts.len(),
{
    if parts.len() == 0 {
        Seq::empty()
    } else {
        dotted(parts.drop_last()) + parts.last().push('.')
    }
}

/// The upper-case mapping of each character of `s`, in their order.
pub open spec fn uppercased(s: Seq<char>) -> Seq<Seq<char>> {
    Seq::new(s.len(), |i: int| uppercase(s[i]))
}

/// `s` spelled out: each character in upper case, with a period behind it.
pub open spec fn spelled(s: Seq<char>) -> Seq<char> {
    dotted(uppercased(s))
}

/// What a token is rewritten into. A word stays as it is. A number becomes
/// its words, and stays as it is, as a word, where it holds no digit or the
/// speller refuses it. A symbol becomes a word, spelled out. An abbreviation
/// becomes what `table` gives for it, and stays as it is, as a word, where
/// `table` does not hold it.
pub open spec fn rewritten(token: Token, table: Map<Seq<char>, Seq<char>>) -> Token {
    let unchanged = Token { category: Category::Word, raw: token.raw };
    match token.category {
        Category::Word => unchanged,
        Category::Number => if digits_of(token.raw).len() > 0 && spoken_number(token.raw) is Some {
            Token { category: Category::Number, raw: spoken_number(token.raw)->0 }
        } else {
            unchanged
        },
        Category::Symbol => Token { category: Category::Word, raw: spelled(token.raw) },
        Category::Abbreviation => if table.contains_key(token.raw) {
            Token { category: Category::Abbreviation, raw: table[token.raw] }
        } else {
            unchanged
        },
    }
}

/// `parts` with one space between each two neighbours.
pub open spec fn joined(parts: Seq<Seq<char>>) -> Seq<char>
    decreases parts.len(),
{
    if parts.len() == 0 {
        Seq::empty()
    } else if parts.len() == 1 {
        parts[0]
    } else {
        joined(parts.drop_last()) + seq![' '] + parts.last()
    }
}

/// The text that each of `words` is rewritten into, in the same order.
pub open spec fn rewritten_texts(words: Seq<Seq<char>>, table: Map<Seq<char>, Seq<char>>) -> Seq<
    Seq<char>,
> {
    Seq::new(words.len(), |i: int| rewritten(tagged(words[i], table), table).raw)
}

/// `input` normalised: its tokens, each classified and rewritten by itself,
/// with one space between them.
pub open spec fn normalized(input: Seq<char>, table: Map<Seq<char>, Seq<char>>) -> Seq<char> {
    joined(rewritten_texts(tokens(input), table))
}

/// Gives `token` its category, by the rules of [`tagged`].
pub fn classify(token: &str, table: &AbbreviationTable) -> (word: TaggedWord)
    ensures
        word@ == tagged(token@, table@),
{
    if is_symbol(token) {
        TaggedWord::Symbol(token.to_owned())
    } else if is_number(token) {
        TaggedWord::Number(token.to_owned())
    } else if table.contains(token) {
        TaggedWord::Abbr(token.to_owned())
    } else {
        TaggedWord::Word(token.to_owned())
    }
}

/// A word is spoken as it stands.
pub fn normalize_word(word: &str) -> (outcome: Result<TaggedWord, Error>)
    ensures
        outcome matches Ok(TaggedWord::Word(text)) && text@ == word@,
{
    Ok(TaggedWord::Word(word.to_owned()))
}

/// An abbreviation is replaced by what `table` gives for it; one that
/// `table` does not hold comes back as a word.
pub fn normalize_abbr(word: &str, table: &AbbreviationTable) -> (outcome: Result<
    TaggedWord,
    Error,
>)
    ensures
        table@.contains_key(word@) ==> (outcome matches Ok(TaggedWord::Abbr(text)) && text@
            == table@[word@]),
        !table@.contains_key(word@) ==> (outcome matches Ok(TaggedWord::Word(text)) && text@
            == word@),
{
    match table.get(word) {
        Some(abbr) => Ok(TaggedWord::Abbr(abbr.to_owned())),
        None => Ok(TaggedWord::Word(word.to_owned())),
    }
}

/// Writes `uppers` one behind the other, with a period behind each of them.
pub fn spell_out(uppers: &Vec<Vec<char>>) -> (text: String)
    ensures
        text@ == dotted(uppers.deep_view()),
{
    let ghost parts = uppers.deep_view();
    let mut text = String::new();
    let mut i: usize = 0;
    assert(parts.take(0) == Seq::<Seq<char>>::empty());
    while i < uppers.len()
        invariant
            i <= uppers.len(),
            parts == uppers.deep_view(),
            text@ == dotted(parts.take(i as int)),
        decreases uppers.len() - i,
    {
        let upper = &uppers[i];
        let ghost before = text@;
        let mut j: usize = 0;
        while j < upper.len()
            invariant
                j <= upper.len(),
                text@ == before + upper@.take(j as int),
            decreases upper.len() - j,
        {
            text.push(upper[j]);
            assert(upper@.take(j + 1) == upper@.take(j as int).push(upper@[j as int]));
            j += 1;
        }
        text.push('.');
        proof {
            assert(upper@.take(upper.len() as int) == upper@);
            assert(parts[i as int] == upper@);
            assert(parts.take(i + 1).drop_last() == parts.take(i as int));
            assert(parts.take(i + 1).last() == upper@);
            assert(text@ == before + upper@.push('.'));
        }
        i += 1;
    }
    assert(parts.take(uppers.len() as int) == parts);
    text
}

/// A symbol is spelled out, so that it is spoken letter by letter: each
/// character in upper case, with a period behind it.
pub fn normalize_symbol(sym: &str) -> (outcome: Result<TaggedWord, Error>)
    ensures
        outcome matches Ok(TaggedWord::Word(text)) && text@ == spelled(sym@),
{
    let chars = chars_of(sym);
    let mut uppers: Vec<Vec<char>> = Vec::new();
    let mut i: usize = 0;
    while i < chars.len()
        invariant
            i <= chars.len(),
            uppers@.len() == i,
            forall|k: int| 0 <= k < i ==> (#[trigger] uppers@[k])@ == uppercase(chars@[k]),
        decreases chars.len() - i,
    {
        uppers.push(to_uppercase(chars[i]));
        i += 1;
    }
    assert(uppers.deep_view() == uppercased(sym@)) by {
        assert(uppers.deep_view().len() == uppercased(sym@).len());
        assert forall|k: int| 0 <= k < uppers@.len() implies uppers.deep_view()[k] == uppercased(
            sym@,
        )[k] by {
            assert(uppers.deep_view()[k] == uppers@[k]@);
        }
    }
    Ok(TaggedWord::Word(spell_out(&uppers)))
}

/// Rewrites `word` by the rules of [`rewritten`]. No failure comes out: a
/// token that cannot be rewritten comes back as a word, with its text as it
/// was.
pub fn rewrite(word: TaggedWord, table: &AbbreviationTable) -> (spoken: TaggedWord)
    ensures
        spoken@ == rewritten(word@, table@),
{
    let outcome = match &word {
        TaggedWord::Word(raw) => normalize_word(raw.as_str()),
        TaggedWord::Number(raw) => normalize_number(raw.as_str()),
        TaggedWord::Symbol(raw) => normalize_symbol(raw.as_str()),
        TaggedWord::Abbr(raw) => normalize_abbr(raw.as_str(), table),
    };
    match outcome {
        Ok(spoken) => spoken,
        Err(_) => TaggedWord::Word(String::from(word)),
    }
}

impl TaggedWord {
    /// Gives `s` its category, with the abbreviations that the library knows
    /// without being told.
    pub fn from_str(s: &str) -> (word: TaggedWord)
        ensures
            word@ == tagged(s@, builtin_abbreviations()),
    {
        let table = AbbreviationTable::builtin();
        classify(s, &table)
    }

    /// Rewrites the token, with the abbreviations that the library knows
    /// without being told.
    pub fn normalize(self) -> (spoken: TaggedWord)
        ensures
            spoken@ == rewritten(self@, builtin_abbreviations()),
    {
        let table = AbbreviationTable::builtin();
        rewrite(self, &table)
    }
}

/// Normalises `input` with the abbreviations of `table`: splits it at white
/// space, classifies and rewrites each token by itself, and joins what comes
/// out with single spaces, in the order of the input.
pub fn normalize_with(input: &str, table: &AbbreviationTable) -> (output: String)
    ensures
        output@ == normalized(input@, table@),
{
    let words = tokenize(input);
    let ghost texts = rewritten_texts(tokens(input@), table@);
    let mut output = String::new();
    let mut i: usize = 0;
    assert(texts.take(0) == Seq::<Seq<char>>::empty());
    while i < words.len()
        invariant
            i <= words.len(),
            words.deep_view() == tokens(input@),
            texts == rewritten_texts(tokens(input@), table@),
            output@ == joined(texts.take(i as int)),
        decreases words.len() - i,
    {
        assert(words.deep_view()[i as int] == words@[i as int]@);
        let spoken = rewrite(classify(words[i].as_str(), table), table);
        assert(spoken@.raw == texts[i as int]);
        if i > 0 {
            output.push(' ');
        }
        output.append(spoken.as_str());
        proof {
            let done = texts.take(i + 1);
            assert(done.drop_last() == texts.take(i as int));
            assert(done.last() == texts[i as int]);
            if i == 0 {
                assert(Seq::<char>::empty() + spoken@.raw == spoken@.raw);
            } else {
                assert(joined(texts.take(i as int)).push(' ') == joined(texts.take(i as int))
                    + seq![' ']);
            }
        }
        i += 1;
    }
    assert(texts.take(words.len() as int) == texts);
    output
}

/// Normalises `input` with the abbreviations that the library knows without
/// being told.
pub fn normalize(input: &str) -> (output: String)
    ensures
        output@ == normalized(input@, builtin_abbreviations()),
{
    let table = AbbreviationTable::builtin();
    normalize_with(input, &table)
}

/// Classifying the text of a classified token again gives the same token:
/// the category depends on the text and the table alone.
pub proof fn lemma_classification_is_idempotent(s: Seq<char>, table: Map<Seq<char>, Seq<char>>)
    ensures
        tagged(tagged(s, table).raw, table) == tagged(s, table),
{
}

/// A text with the shape of a symbol is a symbol, whatever else it has the
/// shape of and whatever the table holds.
pub proof fn lemma_symbol_comes_first(s: Seq<char>, table: Map<Seq<char>, Seq<char>>)
    requires
        symbol_pattern(s),
    ensures
        tagged(s, table).category == Category::Symbol,
{
}

/// No text has the shape of a symbol and the shape of a number: a number
/// holds a digit or a comma, and a symbol holds neither.
pub proof fn lemma_symbol_and_number_exclude(s: Seq<char>)
    ensures
        !(symbol_pattern(s) && number_pattern(s)),
{
    if symbol_pattern(s) && number_pattern(s) {
        let stem = number_stem(s);
        let first: int = if has_dollar_sign(s) {
            1
        } else {
            0
        };
        assert(is_number_char(stem[0]));
        assert(stem[0] == s[first]);
        assert(is_symbol_char(s[first]));
    }
}

/// Rewriting a word gives the same word.
pub proof fn lemma_word_is_unchanged(raw: Seq<char>, table: Map<Seq<char>, Seq<char>>)
    ensures
        rewritten(Token { category: Category::Word, raw }, table) == (Token {
            category: Category::Word,
            raw,
        }),
{
}

/// A number token without a digit is rewritten into its own text.
pub proof fn lemma_number_without_digit_is_unchanged(
    raw: Seq<char>,
    table: Map<Seq<char>, Seq<char>>,
)
    requires
        digits_of(raw).len() == 0,
    ensures
        rewritten(Token { category: Category::Number, raw }, table).raw == raw,
{
}

} // verus!
