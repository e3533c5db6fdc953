use fry::pattern::{is_number, is_symbol};
use regex::Regex;

fn number_words(string: &str) -> Vec<&str> {
    string
        .split_whitespace()
        .filter(|word| is_number(word))
        .collect::<Vec<&str>>()
}

fn spans(regex: &Regex, word: &str) -> bool {
    if let Some(mch) = regex.find(word) {
        mch.start() == 0 && mch.end() == word.len()
    } else {
        false
    }
}

#[test]
fn regex_loads_successfully() {
    assert!(Regex::new("\\$?[0-9,]+((st)|(nd)|(th))?").is_ok());
    assert!(Regex::new("[A-Z.]{2,}").is_ok());
}

#[test]
fn test_number_regex() {
    assert_eq!(number_words("I am 4096 years old"), vec!["4096"]);
    assert_eq!(number_words("I have $10"), vec!["$10"]);
    assert_eq!(number_words("The 10th player"), vec!["10th"]);
    assert_eq!(number_words("The 10stth player"), Vec::<&str>::new());
}

#[test]
fn number_shapes() {
    for token in ["4096", "$10", "$100,000", "582nd", "1st", "12th", ",", "$,", "0", "$1,st"] {
        assert!(is_number(token), "{token}");
    }
    for token in [
        "", "$", "st", "$st", "10stth", "3rd", "1.5", "-1", "1$", "$$1", "10 ", "1stst", "a1", "1a",
        "１２", "10ST",
    ] {
        assert!(!is_number(token), "{token}");
    }
}

#[test]
fn symbol_shapes() {
    for token in ["MIT", "U.S.", "..", "A.", "AB", "NASA"] {
        assert!(is_symbol(token), "{token}");
    }
    for token in ["", "A", ".", "Mit", "mit", "A1", "M-I", "MIT!", "ÀB", "AB "] {
        assert!(!is_symbol(token), "{token}");
    }
}

#[test]
fn no_token_is_both_symbol_and_number() {
    for token in ["MIT", "4096", "$10", "..", ",,", "A1", "1A", "", "th", "TH", "1th", ".,"] {
        assert!(!(is_symbol(token) && is_number(token)), "{token}");
    }
}

#[test]
fn shapes_agree_with_the_regular_expressions() {
    let number = Regex::new("\\$?[0-9,]+((st)|(nd)|(th))?").unwrap();
    let symbol = Regex::new("[A-Z.]{2,}").unwrap();
    let alphabet = ["$", "1", "0", ",", "s", "t", "n", "d", "h", "A", "Z", ".", "a", "é"];
    let mut tokens: Vec<String> = vec![String::new()];
    let mut last: Vec<String> = vec![String::new()];
    for _ in 0..4 {
        let mut next = Vec::new();
        for stem in &last {
            for letter in alphabet {
                next.push(format!("{stem}{letter}"));
            }
        }
        tokens.extend(next.iter().cloned());
        last = next;
    }
    for token in &tokens {
        assert_eq!(is_number(token), spans(&number, token), "{token}");
        assert_eq!(is_symbol(token), spans(&symbol, token), "{token}");
    }
}
