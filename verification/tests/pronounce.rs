use fry::pronounce::{Dictionary, Error, Sound};

const WORDS: &str = "goodbye G UH D B AY\nhello HH AH L OW\nhello(2) HH EH L OW\nworld W ER L D\n";

#[test]
fn test_hello_goodbye() {
    let dictionary = Dictionary::parse(WORDS).unwrap();
    let hello = dictionary
        .get("hello")
        .expect("hello should be in the dictionary");
    let goodbye = dictionary
        .get("goodbye")
        .expect("hello should be in the dictionary");
    assert_eq!(hello, &vec![Sound::HH, Sound::AH, Sound::L, Sound::OW]);
    assert_eq!(
        goodbye,
        &vec![Sound::G, Sound::UH, Sound::D, Sound::B, Sound::AY]
    );
}

#[test]
fn absent_word_is_not_found() {
    let dictionary = Dictionary::parse(WORDS).unwrap();
    assert_eq!(dictionary.get("Hello"), None);
    assert_eq!(dictionary.get("hell"), None);
    assert_eq!(dictionary.get(""), None);
    assert_eq!(Dictionary::new().get("hello"), None);
}

#[test]
fn every_symbol_names_its_sound() {
    let symbols = [
        ("AA", Sound::AA), ("AE", Sound::AE), ("AH", Sound::AH), ("AO", Sound::AO),
        ("AW", Sound::AW), ("AY", Sound::AY), ("B", Sound::B), ("CH", Sound::CH),
        ("D", Sound::D), ("DH", Sound::DH), ("EH", Sound::EH), ("ER", Sound::ER),
        ("EY", Sound::EY), ("F", Sound::F), ("G", Sound::G), ("HH", Sound::HH),
        ("IH", Sound::IH), ("IY", Sound::IY), ("JH", Sound::JH), ("K", Sound::K),
        ("L", Sound::L), ("M", Sound::M), ("N", Sound::N), ("NG", Sound::NG),
        ("OW", Sound::OW), ("OY", Sound::OY), ("P", Sound::P), ("R", Sound::R),
        ("S", Sound::S), ("SH", Sound::SH), ("T", Sound::T), ("TH", Sound::TH),
        ("UH", Sound::UH), ("UM", Sound::UM), ("UW", Sound::UW), ("V", Sound::V),
        ("W", Sound::W), ("Y", Sound::Y), ("Z", Sound::Z), ("ZH", Sound::ZH),
    ];
    assert_eq!(symbols.len(), 40);
    for (symbol, sound) in symbols {
        assert_eq!(Sound::try_from(symbol).unwrap(), sound);
        let chars: Vec<char> = symbol.chars().collect();
        assert_eq!(Sound::from_chars(&chars), Some(sound));
    }
}

#[test]
fn other_text_names_no_sound() {
    for text in ["", "A", "aa", "Aa", "AAA", "H", "ZZ", " B", "B ", "É", "AH0"] {
        match Sound::try_from(text) {
            Err(Error::InvalidSound(refused)) => assert_eq!(refused, text),
            other => panic!("{text}: {other:?}"),
        }
    }
}

#[test]
fn line_without_space_is_malformed() {
    match Dictionary::parse("hello HH AH L OW\nworld\ngoodbye G") {
        Err(Error::MalformedLine(line)) => assert_eq!(line, "world"),
        other => panic!("{:?}", other.is_ok()),
    }
    match Dictionary::parse("a AH\n\nb B") {
        Err(Error::MalformedLine(line)) => assert_eq!(line, ""),
        other => panic!("{:?}", other.is_ok()),
    }
}

#[test]
fn unknown_symbol_is_refused() {
    match Dictionary::parse("hello HH AH L OW\nworld W XX QQ\nb") {
        Err(Error::InvalidSound(symbol)) => assert_eq!(symbol, "XX"),
        other => panic!("{:?}", other.is_ok()),
    }
}

#[test]
fn first_fault_comes_out() {
    match Dictionary::parse("b\nworld W XX") {
        Err(Error::MalformedLine(line)) => assert_eq!(line, "b"),
        other => panic!("{:?}", other.is_ok()),
    }
}

#[test]
fn later_line_replaces_earlier() {
    let dictionary = Dictionary::parse("a AH\na EY\r\nthe  DH   AH \n").unwrap();
    assert_eq!(dictionary.get("a"), Some(&vec![Sound::EY]));
    assert_eq!(dictionary.get("the"), Some(&vec![Sound::DH, Sound::AH]));
}

#[test]
fn word_without_sounds_is_held() {
    let dictionary = Dictionary::parse("hm \n").unwrap();
    assert_eq!(dictionary.get("hm"), Some(&Vec::new()));
}

#[test]
fn empty_text_is_an_empty_dictionary() {
    let dictionary = Dictionary::parse("").unwrap();
    assert_eq!(dictionary.get("a"), None);
}

#[test]
fn inserted_word_is_found() {
    let mut dictionary = Dictionary::new();
    dictionary.insert("ok".to_string(), vec![Sound::OW, Sound::K, Sound::EY]);
    assert_eq!(dictionary.get("ok"), Some(&vec![Sound::OW, Sound::K, Sound::EY]));
    dictionary.insert("ok".to_string(), vec![Sound::K]);
    assert_eq!(dictionary.get("ok"), Some(&vec![Sound::K]));
}
