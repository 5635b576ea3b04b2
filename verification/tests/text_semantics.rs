use lyrics_export::text::{concatenate, is_blank_str, is_white_space_char};

#[test]
fn white_space_matches_std() {
    for u in 0u32..=0x10ffff {
        if let Some(c) = char::from_u32(u) {
            assert_eq!(is_white_space_char(c), c.is_whitespace(), "U+{:04X}", u);
        }
    }
}

#[test]
fn blank_matches_trim() {
    for s in ["", " ", "\t\r\n", "\u{85}\u{a0}\u{1680}\u{2000}\u{200a}\u{2028}\u{2029}\u{202f}\u{205f}\u{3000}", "a", " a ", "\u{200b}", "\u{feff}", "\u{180e}"] {
        assert_eq!(is_blank_str(s), s.trim().is_empty(), "{:?}", s);
    }
}

#[test]
fn concatenation() {
    assert_eq!(concatenate("ab", "cd"), "abcd");
    assert_eq!(concatenate("", "é"), "é");
    assert_eq!(concatenate("x", ""), "x");
}
