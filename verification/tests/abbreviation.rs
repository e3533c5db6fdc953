use fry::abbreviation::{AbbreviationTable, ABBREVIATIONS};
use fry::normalize::normalize_with;

#[test]
fn builtin_table_holds_titles() {
    let table = AbbreviationTable::builtin();
    assert_eq!(table.get("Dr."), Some("Doctor"));
    assert_eq!(table.get("Prof."), Some("Professor"));
    assert_eq!(table.get("Mr."), Some("Mister"));
    assert_eq!(table.get("Mrs."), Some("Missus"));
    assert_eq!(table.get("Ms."), Some("Miss"));
    assert_eq!(table.get("Jr."), Some("Junior"));
    assert_eq!(table.get("Sr."), Some("Senior"));
}

#[test]
fn lookup_is_exact() {
    let table = AbbreviationTable::builtin();
    assert_eq!(table.get("dr."), None);
    assert_eq!(table.get("Dr"), None);
    assert_eq!(table.get("Dr. "), None);
    assert_eq!(table.get(""), None);
    assert!(table.contains("Dr."));
    assert!(!table.contains("DR."));
}

#[test]
fn empty_table_holds_nothing() {
    let table = AbbreviationTable::new();
    assert_eq!(table.get("Dr."), None);
}

#[test]
fn later_entry_replaces_earlier() {
    let mut table = AbbreviationTable::new();
    table.insert("St.".to_string(), "Street".to_string());
    table.insert("Ave.".to_string(), "Avenue".to_string());
    table.insert("St.".to_string(), "Saint".to_string());
    assert_eq!(table.get("St."), Some("Saint"));
    assert_eq!(table.get("Ave."), Some("Avenue"));
}

#[test]
fn table_is_read_from_text() {
    let table = AbbreviationTable::parse("Dr. = Doctor\nProf. = Professor\r\nSt. = Saint").unwrap();
    assert_eq!(table.get("Dr."), Some("Doctor"));
    assert_eq!(table.get("Prof."), Some("Professor"));
    assert_eq!(table.get("St."), Some("Saint"));
    assert_eq!(table.get("Mr."), None);
    assert_eq!(
        normalize_with("Dr. Kaur of St. Ives", &table),
        "Doctor Kaur of Saint Ives"
    );
}

#[test]
fn line_is_split_at_the_first_delimiter() {
    let table = AbbreviationTable::parse("eq. = a = b\n = nothing\napprox. = \n").unwrap();
    assert_eq!(table.get("eq."), Some("a = b"));
    assert_eq!(table.get(""), Some("nothing"));
    assert_eq!(table.get("approx."), Some(""));
}

#[test]
fn line_without_delimiter_is_refused() {
    assert!(AbbreviationTable::parse("Dr. = Doctor\nProf. -> Professor").is_none());
    assert!(AbbreviationTable::parse("Dr.=Doctor").is_none());
    assert!(AbbreviationTable::parse("Dr. = Doctor\n\nMr. = Mister").is_none());
    assert!(AbbreviationTable::parse("\n").is_none());
}

#[test]
fn empty_text_is_an_empty_table() {
    let table = AbbreviationTable::parse("").unwrap();
    assert_eq!(table.get(""), None);
}

#[test]
fn bundled_text_writes_the_builtin_table() {
    let read = AbbreviationTable::parse(ABBREVIATIONS).unwrap();
    let builtin = AbbreviationTable::builtin();
    let mut keys = Vec::new();
    for line in ABBREVIATIONS.lines() {
        let (key, value) = line.split_once(" = ").unwrap();
        assert_eq!(read.get(key), Some(value));
        assert_eq!(builtin.get(key), Some(value));
        keys.push(key);
    }
    keys.sort();
    assert_eq!(keys, vec!["Dr.", "Jr.", "Mr.", "Mrs.", "Ms.", "Prof.", "Sr."]);
    for text in ["The Dr. and Mrs. Kaur", "Prof. X Jr. vs. Mr. T Sr. and Ms. Y"] {
        assert_eq!(normalize_with(text, &read), normalize_with(text, &builtin));
        assert_eq!(normalize_with(text, &read), fry::normalize::normalize(text));
    }
}
