use devenv_installer::text::{
    chars_of, is_ascii_text, is_whitespace, parse_u32, replace_char, trim_text, u32_to_text,
};

#[test]
fn whitespace_matches_std_for_every_char() {
    for v in 0u32..=0x10FFFF {
        if let Some(c) = char::from_u32(v) {
            assert_eq!(is_whitespace(c), c.is_whitespace(), "U+{v:04X}");
        }
    }
}

#[test]
fn trim_matches_std() {
    for s in ["", "  ", " a b ", "\u{3000}x\u{2028}", "\tline\r\n", "no"] {
        assert_eq!(trim_text(s), s.trim());
    }
}

#[test]
fn decimal_and_parsing_match_std() {
    for n in [0u32, 7, 10, 99, 100, 3306, 65535, 4294967295] {
        assert_eq!(u32_to_text(n), n.to_string());
    }
    for s in ["0", "42", "+7", "", "-1", "4294967295", "4294967296", "12a", "007"] {
        let cs = chars_of(s);
        assert_eq!(parse_u32(&cs), s.parse::<u32>().ok(), "{s}");
    }
}

#[test]
fn ascii_and_replacement() {
    assert!(is_ascii_text("D:\\develop"));
    assert!(!is_ascii_text("D:\\开发"));
    assert_eq!(replace_char("a\\b\\c", '\\', '/'), "a/b/c");
}
