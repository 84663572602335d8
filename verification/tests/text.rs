use openusage::text::{char_is_whitespace, starts_with, str_eq, trim};

#[test]
fn trim_removes_unicode_whitespace_at_both_ends() {
    assert_eq!(trim(" Status "), "Status");
    assert_eq!(trim("\u{3000}\u{85}a b\u{2028}\u{A0}"), "a b");
    assert_eq!(trim("   "), "");
    assert_eq!(trim(""), "");
    assert_eq!(trim("x"), "x");
    // Zero-width space is not White_Space.
    assert_eq!(trim("\u{200B}x"), "\u{200B}x");
}

#[test]
fn trim_is_idempotent_on_examples() {
    for s in [" a ", "\t\n", "a\u{3000}b", "  ü  "] {
        let once = trim(s);
        assert_eq!(trim(&once), once);
    }
}

#[test]
fn str_eq_and_starts_with() {
    assert!(str_eq("progress", "progress"));
    assert!(!str_eq("progress", "progres"));
    assert!(!str_eq("weekly", "Weekly"));
    assert!(starts_with("https://x", "https://"));
    assert!(!starts_with("http://x", "https://"));
    assert!(starts_with("abc", ""));
    assert!(!starts_with("ab", "abc"));
}

#[test]
fn char_is_whitespace_agrees_with_std() {
    for v in 0u32..=0x3100 {
        if let Some(c) = char::from_u32(v) {
            assert_eq!(char_is_whitespace(c), c.is_whitespace(), "U+{:04X}", v);
        }
    }
    assert!(!char_is_whitespace('\u{FEFF}'));
    assert!(!char_is_whitespace('\u{10FFFF}'));
}
