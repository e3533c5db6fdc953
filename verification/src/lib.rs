//! A small offline text-to-speech pipeline: text normalisation, a
//! pronunciation dictionary, and letter-by-letter synthesis.
//!
//! [`normalize`](crate::normalize::normalize) splits text at white space,
//! gives each token a category and rewrites it into text that can be spoken:
//! numbers become words, abbreviations are expanded, and runs of capitals are
//! spelled out.

pub mod abbreviation;
pub mod normalize;
pub mod number;
pub mod pattern;
pub mod pronounce;
pub mod synth;
pub mod table;
pub mod text;
pub mod token;
pub mod tokenize;
