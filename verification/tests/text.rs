use oxideux_rs::text::{join, join3, replace_start, same, starts_with, to_decimal};

#[test]
fn prefixes_are_found() {
    assert!(starts_with("{home}/x", "{home}"));
    assert!(starts_with("~", "~"));
    assert!(starts_with("anything", ""));
    assert!(starts_with("", ""));
    assert!(starts_with("été", "ét"));
}

#[test]
fn other_starts_are_not_prefixes() {
    assert!(!starts_with("/{home}", "{home}"));
    assert!(!starts_with("{hom", "{home}"));
    assert!(!starts_with("", "~"));
    assert!(!starts_with("Home", "home"));
    assert!(!starts_with("eté", "é"));
}

#[test]
fn starts_are_replaced_by_characters() {
    assert_eq!(replace_start("{home}/x", 6, "/h"), "/h/x");
    assert_eq!(replace_start("abc", 0, "x"), "xabc");
    assert_eq!(replace_start("abc", 3, "x"), "x");
    assert_eq!(replace_start("été", 1, "E"), "Eté");
    assert_eq!(replace_start("", 0, ""), "");
}

#[test]
fn texts_are_joined() {
    assert_eq!(join("a", "b"), "ab");
    assert_eq!(join("", "b"), "b");
    assert_eq!(join("a", ""), "a");
}

#[test]
fn three_texts_are_joined() {
    assert_eq!(join3("'", "key", "' found"), "'key' found");
    assert_eq!(join3("", "", ""), "");
}

#[test]
fn numbers_are_written_in_decimal() {
    assert_eq!(to_decimal(0), "0");
    assert_eq!(to_decimal(7), "7");
    assert_eq!(to_decimal(10), "10");
    assert_eq!(to_decimal(80), "80");
    assert_eq!(to_decimal(1023), "1023");
    assert_eq!(to_decimal(49160), "49160");
    assert_eq!(to_decimal(1_234_567_890), "1234567890");
    assert_eq!(to_decimal(u64::MAX), "18446744073709551615");
    for value in [0u64, 9, 10, 99, 100, 101, 65_535, 4_294_967_296] {
        assert_eq!(to_decimal(value), value.to_string());
    }
}

#[test]
fn texts_are_compared() {
    assert!(same("cn", "cn"));
    assert!(same("", ""));
    assert!(!same("cn", "cr"));
    assert!(!same("c", "cn"));
}
