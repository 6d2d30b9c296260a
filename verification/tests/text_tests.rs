use viper::text::{decimal_text, same_text, starts_with, trim};

#[test]
fn trim_removes_outer_whitespace() {
    assert_eq!(trim("  UAL123 \t\n"), "UAL123");
    assert_eq!(trim("MAERSK  LINE"), "MAERSK  LINE");
    assert_eq!(trim("   "), "");
    assert_eq!(trim(""), "");
    assert_eq!(trim("\u{3000}X\u{a0}"), "X");
}

#[test]
fn decimal_renders_like_display() {
    for n in [0u32, 7, 10, 99, 100, 211345678, u32::MAX] {
        assert_eq!(decimal_text(n), n.to_string());
    }
}

#[test]
fn prefixes_and_equality() {
    assert!(starts_with("wss://stream", "wss://"));
    assert!(!starts_with("ws:/", "ws://"));
    assert!(starts_with("abc", ""));
    assert!(same_text("PositionReport", "PositionReport"));
    assert!(!same_text("PositionReport", "PositionReports"));
}

#[test]
fn whitespace_matches_std_everywhere() {
    for n in 0u32..=0x10FFFF {
        if let Some(c) = char::from_u32(n) {
            assert_eq!(viper::text::is_whitespace(c), c.is_whitespace(), "U+{:04X}", n);
        }
    }
}

#[test]
fn trim_agrees_with_std() {
    for s in [" x", "x ", "\u{85}a b\u{2029}", "\u{200b}z", "\t\r\n", "é "] {
        assert_eq!(trim(s), s.trim());
    }
}
