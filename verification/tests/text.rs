use protonvpn::text::{
    blank, chars_of, has_suffix, lower, parse_number, parse_unsigned, push_decimal,
    same_ignoring_case, split_fields, string_of, trimmed,
};

fn s(v: &Vec<char>) -> String {
    v.iter().collect()
}

#[test]
fn split_keeps_empty_fields() {
    let fields = |t: &str, sep: char| -> Vec<String> {
        split_fields(&chars_of(t), sep).iter().map(s).collect()
    };
    assert_eq!(fields("", '/'), vec![""]);
    assert_eq!(fields("a", '/'), vec!["a"]);
    assert_eq!(fields("a/b", '/'), vec!["a", "b"]);
    assert_eq!(fields("/a//b/", '/'), vec!["", "a", "", "b", ""]);
    assert_eq!(fields("1.2.3.4", '.'), vec!["1", "2", "3", "4"]);
    assert_eq!(fields("x\ny\n", '\n'), vec!["x", "y", ""]);
}

#[test]
fn trim_removes_blanks_at_both_ends_only() {
    assert_eq!(s(&trimmed(&chars_of("  a b\t\r\n"))), "a b");
    assert_eq!(s(&trimmed(&chars_of(" \t "))), "");
    assert_eq!(s(&trimmed(&chars_of(""))), "");
    assert_eq!(s(&trimmed(&chars_of("x"))), "x");
    assert!(blank(' ') && blank('\t') && blank('\r') && blank('\n'));
    for c in ['\u{9}', '\u{a}', '\u{b}', '\u{c}', '\u{d}', ' ', '\u{85}', '\u{a0}', '\u{1680}', '\u{2000}', '\u{2005}', '\u{200a}', '\u{2028}', '\u{2029}', '\u{202f}', '\u{205f}', '\u{3000}'] {
        assert!(blank(c), "{:?}", c);
    }
    for c in ['a', '0', '\u{8}', '\u{e}', '\u{1f}', '\u{200b}', '\u{180e}', '\u{feff}', '\u{2060}'] {
        assert!(!blank(c), "{:?}", c);
    }
    for n in 0..0x11_0000u32 {
        if let Some(c) = char::from_u32(n) {
            assert_eq!(blank(c), c.is_whitespace(), "{:?}", c);
        }
    }
}

#[test]
fn numbers_in_digits() {
    assert_eq!(parse_number(&chars_of("0"), 0), Some(0));
    assert_eq!(parse_number(&chars_of("007"), 7), Some(7));
    assert_eq!(parse_number(&chars_of("255"), 255), Some(255));
    assert_eq!(parse_number(&chars_of("256"), 255), None);
    assert_eq!(parse_number(&chars_of(""), 255), None);
    assert_eq!(parse_number(&chars_of("+1"), 255), None);
    assert_eq!(parse_number(&chars_of("-1"), 255), None);
    assert_eq!(parse_number(&chars_of("1a"), 255), None);
    assert_eq!(parse_number(&chars_of("١"), 255), None);
    assert_eq!(parse_number(&chars_of("18446744073709551615"), u64::MAX), Some(u64::MAX));
    assert_eq!(parse_number(&chars_of("18446744073709551616"), u64::MAX), None);
    assert_eq!(parse_number(&chars_of("99999999999999999999999999"), u64::MAX), None);
}

#[test]
fn unsigned_numbers_may_have_a_plus() {
    for text in ["", "+", "++1", "-1", "1+", " 1", "+ 1", "256", "+256", "0x1"] {
        assert_eq!(parse_unsigned(&chars_of(text), 255), None, "{:?}", text);
        assert_eq!(text.parse::<u8>().ok(), None, "{:?}", text);
    }
    for text in ["0", "+0", "7", "+7", "007", "+007", "255", "+255"] {
        assert_eq!(
            parse_unsigned(&chars_of(text), 255),
            text.parse::<u8>().ok().map(u64::from),
            "{:?}",
            text
        );
        assert!(parse_unsigned(&chars_of(text), 255).is_some());
    }
}

#[test]
fn trim_agrees_with_the_standard_library() {
    for text in ["", " ", "\u{a0}a\u{a0}", "\u{2003}x y\u{3000}\n", "\u{200b}z\u{200b}", "\ta\u{b}\u{c}"] {
        let t: String = trimmed(&chars_of(text)).iter().collect();
        assert_eq!(t, text.trim(), "{:?}", text);
    }
}

#[test]
fn decimal_spelling() {
    for (n, text) in [(0u64, "0"), (9, "9"), (10, "10"), (443, "443"), (1194, "1194"), (u64::MAX, "18446744073709551615")] {
        let mut out = String::from(">");
        push_decimal(&mut out, n);
        assert_eq!(out, format!(">{}", text));
        assert_eq!(parse_number(&chars_of(text), u64::MAX), Some(n));
    }
}

#[test]
fn case_is_ignored_for_ascii_letters_only() {
    let same = |a: &str, b: &str| same_ignoring_case(&chars_of(a), &chars_of(b));
    assert!(same("us", "US"));
    assert!(same("uS", "Us"));
    assert!(same("", ""));
    assert!(!same("us", "uk"));
    assert!(!same("us", "usa"));
    assert!(!same("@", "`"));
    assert!(!same("[", "{"));
    assert!(!same("ä", "Ä"));
    assert_eq!(lower('A'), 'a');
    assert_eq!(lower('Z'), 'z');
    assert_eq!(lower('a'), 'a');
    assert_eq!(lower('['), '[');
    assert_eq!(lower('@'), '@');
}

#[test]
fn suffixes_and_pieces() {
    assert!(has_suffix(&chars_of("CH#5-TOR"), &chars_of("TOR")));
    assert!(has_suffix(&chars_of("TOR"), &chars_of("TOR")));
    assert!(has_suffix(&chars_of("x"), &chars_of("")));
    assert!(!has_suffix(&chars_of("OR"), &chars_of("TOR")));
    assert!(!has_suffix(&chars_of("TORx"), &chars_of("TOR")));
    assert_eq!(string_of(&chars_of("héllo"), 1, 4), "éll");
    assert_eq!(string_of(&chars_of("abc"), 2, 2), "");
    assert_eq!(chars_of("aé"), vec!['a', 'é']);
}
