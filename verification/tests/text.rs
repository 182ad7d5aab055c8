use tauriless::text::{decimal_text, join, to_ascii_uppercase, trim, without_nul};

#[test]
fn decimal_text_matches_display() {
    assert_eq!(decimal_text(0), "0");
    assert_eq!(decimal_text(7), "7");
    assert_eq!(decimal_text(1024), "1024");
    assert_eq!(decimal_text(u64::MAX), u64::MAX.to_string());
}

#[test]
fn nul_characters_are_removed() {
    assert_eq!(without_nul("a\0b\0\0c"), "abc");
    assert_eq!(without_nul(""), "");
}

#[test]
fn strings_trim_join_and_uppercase() {
    assert_eq!(trim("\u{3000} x y \n"), "x y");
    assert_eq!(join(&vec!["a".to_string(), "b".to_string(), "c".to_string()], ", "), "a, b, c");
    assert_eq!(join(&Vec::new(), ", "), "");
    assert_eq!(to_ascii_uppercase("Lpt1é"), "LPT1é");
}
