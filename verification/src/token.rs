//! Tokens and the categories they fall into.

use vstd::prelude::*;
use vstd::std_specs::convert::FromSpecImpl;

verus! {

/// `num2words::Num2Err`, the reason for which the number speller refuses a
/// number. The library carries it and never looks inside.
#[verifier::external_type_specification]
#[verifier::external_body]
pub struct ExNum2Err(num2words::Num2Err);

/// What a token is read as.
#[derive(Debug, Clone, Copy, PartialEq, Eq, Structural)]
pub enum Category {
    /// Ordinary text, spoken as it stands.
    Word,
    /// A number, with or without a dollar sign or an ordinal suffix.
    Number,
    /// A run of capitals and periods, spoken letter by letter.
    Symbol,
    /// A key of the abbreviation table.
    Abbreviation,
}

/// A token as contracts see it: its text and its category.
pub ghost struct Token {
    pub category: Category,
    pub raw: Seq<char>,
}

/// A token together with the category it was given.
#[derive(Debug, PartialEq)]
pub enum TaggedWord {
    Word(String),
    Number(String),
    Symbol(String),
    Abbr(String),
}

/// Why a token could not be rewritten.
#[derive(Debug)]
pub enum Error {
    /// The number speller refused the number.
    Num(num2words::Num2Err),
    /// The token holds no digit to read a number from.
    NumberParsing,
}

impl View for TaggedWord {
    type V = Token;

    open spec fn view(&self) -> Token {
        match self {
            TaggedWord::Word(raw) => Token { category: Category::Word, raw: raw@ },
            TaggedWord::Number(raw) => Token { category: Category::Number, raw: raw@ },
            TaggedWord::Symbol(raw) => Token { category: Category::Symbol, raw: raw@ },
            TaggedWord::Abbr(raw) => Token { category: Category::Abbreviation, raw: raw@ },
        }
    }
}

impl TaggedWord {
    /// The category of the token.
    pub fn category(&self) -> (category: Category)
        ensures
            category == self@.category,
    {
        match self {
            TaggedWord::Word(_) => Category::Word,
            TaggedWord::Number(_) => Category::Number,
            TaggedWord::Symbol(_) => Category::Symbol,
            TaggedWord::Abbr(_) => Category::Abbreviation,
        }
    }

    /// The text of the token.
    pub fn as_str(&self) -> (raw: &str)
        ensures
            raw@ == self@.raw,
    {
        match self {
            TaggedWord::Word(raw) => raw.as_str(),
            TaggedWord::Number(raw) => raw.as_str(),
            TaggedWord::Symbol(raw) => raw.as_str(),
            TaggedWord::Abbr(raw) => raw.as_str(),
        }
    }

    /// A copy of the text of the token.
    pub fn to_string(&self) -> (raw: String)
        ensures
            raw@ == self@.raw,
    {
        self.as_str().to_owned()
    }
}

impl From<TaggedWord> for String {
    /// The text of the token, without its category.
    fn from(tw: TaggedWord) -> (raw: String)
        ensures
            raw@ == tw@.raw,
    {
        match tw {
            TaggedWord::Word(word) => word,
            TaggedWord::Number(word) => word,
            TaggedWord::Symbol(word) => word,
            TaggedWord::Abbr(word) => word,
        }
    }
}

impl FromSpecImpl<TaggedWord> for String {
    open spec fn obeys_from_spec() -> bool {
        true
    }

    open spec fn from_spec(tw: TaggedWord) -> String {
        match tw {
            TaggedWord::Word(word) => word,
            TaggedWord::Number(word) => word,
            TaggedWord::Symbol(word) => word,
            TaggedWord::Abbr(word) => word,
        }
    }
}

} // verus!
