use fry::text::{chars_of, find_first, same_text, slice_of, split_lines, string_of};
use fry::tokenize::tokenize;

fn chars(s: &str) -> Vec<char> {
    s.chars().collect()
}

#[test]
fn tokens_are_the_runs_between_white_space() {
    assert_eq!(tokenize("I am 4096 years old"), vec!["I", "am", "4096", "years", "old"]);
    assert_eq!(tokenize("  a \t\tb\nc\u{a0}d\u{3000} "), vec!["a", "b", "c", "d"]);
    assert_eq!(tokenize(""), Vec::<String>::new());
    assert_eq!(tokenize(" \n\t"), Vec::<String>::new());
    assert_eq!(tokenize("one"), vec!["one"]);
}

#[test]
fn tokens_agree_with_split_whitespace() {
    for text in ["", " ", "a", " a", "a ", "a  b", "\u{2003}x\u{85}y", "Dr. Kaur\r\nis  here ", "é ü"] {
        let expected: Vec<String> = text.split_whitespace().map(str::to_string).collect();
        assert_eq!(tokenize(text), expected, "{text:?}");
    }
}

#[test]
fn lines_agree_with_lines() {
    for text in [
        "", "\n", "a", "a\n", "a\nb", "a\r\nb\r\n", "a\r", "a\r\r\n", "\n\n", "\r\n", "a\n\nb", "a\rb\n",
    ] {
        let expected: Vec<String> = text.lines().map(str::to_string).collect();
        assert_eq!(split_lines(&chars(text)), expected, "{text:?}");
    }
}

#[test]
fn strings_and_characters_convert() {
    assert_eq!(chars_of("héllo"), vec!['h', 'é', 'l', 'l', 'o']);
    assert_eq!(string_of(&vec!['h', 'é', 'y']), "héy");
    assert_eq!(chars_of(""), Vec::<char>::new());
    assert_eq!(slice_of(&chars("hello"), 1, 3), vec!['e', 'l']);
    assert_eq!(slice_of(&chars("hello"), 2, 2), Vec::<char>::new());
}

#[test]
fn same_text_compares_characters() {
    assert!(same_text("Dr.", "Dr."));
    assert!(same_text("", ""));
    assert!(!same_text("Dr.", "dr."));
    assert!(!same_text("Dr.", "Dr"));
    assert!(!same_text("", "a"));
}

#[test]
fn find_first_gives_the_first_place() {
    assert_eq!(find_first(&chars("a = b = c"), &chars(" = ")), Some(1));
    assert_eq!(find_first(&chars("a=b"), &chars(" = ")), None);
    assert_eq!(find_first(&chars(" = "), &chars(" = ")), Some(0));
    assert_eq!(find_first(&chars("ab = "), &chars(" = ")), Some(2));
    assert_eq!(find_first(&chars(" ="), &chars(" = ")), None);
    assert_eq!(find_first(&chars("abc"), &chars("")), Some(0));
    assert_eq!(find_first(&chars(""), &chars("")), Some(0));
    assert_eq!(find_first(&chars("aab"), &chars("ab")), Some(1));
}

fn has_white_space_property(c: char) -> bool {
    matches!(
        c,
        '\u{9}'..='\u{d}'
            | '\u{20}'
            | '\u{85}'
            | '\u{a0}'
            | '\u{1680}'
            | '\u{2000}'..='\u{200a}'
            | '\u{2028}'
            | '\u{2029}'
            | '\u{202f}'
            | '\u{205f}'
            | '\u{3000}'
    )
}

#[test]
fn white_space_is_the_unicode_property() {
    let mut count = 0;
    for code in 0..=0x10ffff_u32 {
        if let Some(c) = char::from_u32(code) {
            assert_eq!(c.is_whitespace(), has_white_space_property(c), "{code:x}");
            if has_white_space_property(c) {
                count += 1;
            }
        }
    }
    assert_eq!(count, 25);
}

#[test]
fn every_white_space_character_splits() {
    for code in 0..=0x3000_u32 {
        if let Some(c) = char::from_u32(code) {
            let text = format!("a{c}b");
            if has_white_space_property(c) {
                assert_eq!(tokenize(&text), vec!["a", "b"], "{code:x}");
            } else {
                assert_eq!(tokenize(&text), vec![text.clone()], "{code:x}");
            }
        }
    }
    assert_eq!(tokenize("a\u{200b}b\u{180e}c\u{feff}d"), vec!["a\u{200b}b\u{180e}c\u{feff}d"]);
}
