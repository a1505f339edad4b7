use nix_init::text::{find_part, literal, parse_number, splice, strip_prefix, strip_suffix, trim, trim_end, trim_start};

#[test]
fn trims_both_ends() {
    assert_eq!(trim(" \ta b\u{3000}\n"), "a b");
    assert_eq!(trim(" \u{2003} "), "");
    assert_eq!(trim_start(" a "), "a ");
    assert_eq!(trim_end(" a "), " a");
    assert_eq!(trim("\u{200b}a\u{200b}"), "\u{200b}a\u{200b}");
}

#[test]
fn trims_the_white_space_of_unicode() {
    let mut trimmed: Vec<u32> = Vec::new();
    for n in 0..0x11_0000u32 {
        if let Some(c) = char::from_u32(n) {
            let mut s = String::new();
            s.push(c);
            if trim(&s).is_empty() {
                trimmed.push(n);
            }
        }
    }
    assert_eq!(
        trimmed,
        vec![
            0x9, 0xa, 0xb, 0xc, 0xd, 0x20, 0x85, 0xa0, 0x1680, 0x2000, 0x2001, 0x2002, 0x2003,
            0x2004, 0x2005, 0x2006, 0x2007, 0x2008, 0x2009, 0x200a, 0x2028, 0x2029, 0x202f, 0x205f,
            0x3000
        ]
    );
}

#[test]
fn strips_affixes() {
    assert_eq!(strip_prefix("got: x", "got:"), Some(" x"));
    assert_eq!(strip_prefix("go", "got:"), None);
    assert_eq!(strip_prefix("Got: x", "got:"), None);
    assert_eq!(strip_suffix("repo.git", ".git"), Some("repo"));
    assert_eq!(strip_suffix("git", ".git"), None);
    assert_eq!(strip_suffix("é.", "."), Some("é"));
}

#[test]
fn finds_the_first_part() {
    assert_eq!(find_part("a1b1", "1"), Some(1));
    assert_eq!(find_part("é1", "1"), Some(1));
    assert_eq!(find_part("abc", ""), Some(0));
    assert_eq!(find_part("", ""), Some(0));
    assert_eq!(find_part("ab", "abc"), None);
    assert_eq!(find_part("aab", "ab"), Some(1));
    assert_eq!(find_part("abc", "bd"), None);
}

#[test]
fn splices() {
    assert_eq!(splice("v1.0-rc", 1, 3, "X"), "vX-rc");
    assert_eq!(splice("é", 0, 1, ""), "");
    assert_eq!(splice("ab", 2, 0, "c"), "abc");
}

#[test]
fn parses_numbers_as_the_standard_library_does() {
    for s in [
        "", "+", "-", "0", "00", "7", "+7", "-7", "12", " 1", "1 ", "1_0", "٣", "0x1", "++1", "+-1",
        "18446744073709551615", "18446744073709551616", "99999999999999999999999", "184467440737095516150",
    ] {
        assert_eq!(parse_number(s), s.parse::<usize>().ok(), "{:?}", s);
    }
    assert_eq!(parse_number("42"), Some(42));
}

#[test]
fn writes_string_literals() {
    assert_eq!(literal(""), "\"\"");
    assert_eq!(literal("some-tool's ${x}~"), "\"some-tool's ${x}~\"");
    assert_eq!(literal("a\"b\\c\n"), "\"a\\\"b\\\\c\\n\"");
}
