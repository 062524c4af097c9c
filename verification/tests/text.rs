use pgun::text;

#[test]
fn white_space_is_what_std_says_for_every_character() {
    for n in 0..=0x10ffffu32 {
        if let Some(c) = char::from_u32(n) {
            assert_eq!(text::is_white_space(c), c.is_whitespace(), "{:x}", n);
        }
    }
}

#[test]
fn trim_agrees_with_std() {
    for s in [
        "", " ", "a", " a", "a ", " a b ", "\t\na\r\n", "\u{a0}x\u{3000}", "  héllo  ", "\u{200b}a",
    ] {
        assert_eq!(text::trim(s), s.trim());
    }
}

#[test]
fn trimming_twice_is_trimming_once_on_a_value() {
    let once = text::trim("  a  b ");
    assert_eq!(once, "a  b");
    assert_eq!(text::trim(&once), once);
}

#[test]
fn decimal_text_agrees_with_std() {
    for n in [0usize, 1, 9, 10, 11, 99, 100, 8080, 65535, 65536, usize::MAX] {
        assert_eq!(text::decimal_text(n), n.to_string());
    }
}

#[test]
fn every_port_reads_back() {
    for n in 0..=u16::MAX {
        assert_eq!(text::parse_u16(&text::decimal_text(n as usize)), Some(n));
    }
}

#[test]
fn parse_u16_agrees_with_std() {
    for s in [
        "", "+", "-", "0", "00", "+0", "-0", "-1", "+8126", "8126", "65535", "65536", "065535",
        "99999999999999999999", "1 ", " 1", "1a", "++1", "१", "1_0",
    ] {
        assert_eq!(text::parse_u16(s), s.parse::<u16>().ok(), "{}", s);
    }
}

#[test]
fn split_once_agrees_with_std() {
    for s in ["", "/", "a", "a/b", "a/b/c", "/b", "a/", "é/ü"] {
        let want = s.split_once('/').map(|(a, b)| (a.to_string(), b.to_string()));
        assert_eq!(text::split_once(s, '/'), want);
    }
}

#[test]
fn texts_are_joined_in_order() {
    assert_eq!(text::cat2("a", "b"), "ab");
    assert_eq!(text::cat3("a", "b", "c"), "abc");
    assert_eq!(text::cat4("a", "b", "c", "d"), "abcd");
    assert_eq!(text::cat5("a", "é", "c", "d", "e"), "aécde");
    assert!(text::same("ab", "ab"));
    assert!(!text::same("ab", "aB"));
}
