use systemd_exporterd::text::{
    chars_of, ends_with, parse_u64, parse_u64_or_zero, push_decimal, split_ascii_whitespace,
    split_char, split_once, str_eq, trim,
};

fn chars(s: &str) -> Vec<char> {
    s.chars().collect()
}

fn text(v: &[char]) -> String {
    v.iter().collect()
}

#[test]
fn parse_accepts_plain_and_plus_digits() {
    assert_eq!(parse_u64(&chars("123")), Some(123));
    assert_eq!(parse_u64(&chars("+7")), Some(7));
    assert_eq!(parse_u64(&chars("0")), Some(0));
    assert_eq!(parse_u64(&chars("18446744073709551615")), Some(u64::MAX));
}

#[test]
fn parse_rejects_what_from_str_rejects() {
    assert_eq!(parse_u64(&chars("")), None);
    assert_eq!(parse_u64(&chars("+")), None);
    assert_eq!(parse_u64(&chars("-1")), None);
    assert_eq!(parse_u64(&chars("12a")), None);
    assert_eq!(parse_u64(&chars(" 1")), None);
    assert_eq!(parse_u64(&chars("18446744073709551616")), None);
    assert_eq!(parse_u64(&chars("99999999999999999999x")), None);
}

#[test]
fn parse_matches_std_on_samples() {
    for s in ["42", "+0", "007", "", "+", "-3", "1_000", "184467440737095516150", "abc"] {
        assert_eq!(parse_u64(&chars(s)), s.parse::<u64>().ok(), "input {s:?}");
        assert_eq!(parse_u64_or_zero(&chars(s)), s.parse::<u64>().unwrap_or_default());
    }
}

#[test]
fn trim_removes_unicode_whitespace() {
    assert_eq!(text(&trim(&chars(" \t42\n"))), "42");
    assert_eq!(text(&trim(&chars("\u{A0}5 6\u{3000}"))), "5 6");
    assert_eq!(text(&trim(&chars(" \r\n "))), "");
    assert_eq!(text(&trim(&chars("x"))), "x");
    for s in ["\u{85}a\u{2028}", "\x0Bb\x0C", "  ", "", "a b"] {
        assert_eq!(text(&trim(&chars(s))), s.trim());
    }
}

#[test]
fn whitespace_split_matches_std() {
    for s in ["a b  c", "  lead", "trail \n", "", "\t\r\x0C", "one", "x\x0By"] {
        let got: Vec<String> = split_ascii_whitespace(&chars(s)).iter().map(|t| text(t)).collect();
        let want: Vec<String> = s.split_ascii_whitespace().map(|t| t.to_string()).collect();
        assert_eq!(got, want, "input {s:?}");
    }
}

#[test]
fn char_split_matches_std() {
    for s in ["a\nb", "\n", "", "a\n\nb\n", "abc"] {
        let got: Vec<String> = split_char(&chars(s), '\n').iter().map(|t| text(t)).collect();
        let want: Vec<String> = s.split('\n').map(|t| t.to_string()).collect();
        assert_eq!(got, want, "input {s:?}");
    }
}

#[test]
fn split_once_at_first_separator() {
    let (k, v) = split_once(&chars("rbytes=1=2"), '=').unwrap();
    assert_eq!(text(&k), "rbytes");
    assert_eq!(text(&v), "1=2");
    assert!(split_once(&chars("novalue"), '=').is_none());
    let (k, v) = split_once(&chars("="), '=').unwrap();
    assert_eq!((text(&k), text(&v)), (String::new(), String::new()));
}

#[test]
fn decimal_text_of_numbers() {
    for n in [0u32, 7, 10, 1000, 65534, u32::MAX] {
        let mut s = String::from("user@");
        push_decimal(&mut s, n);
        assert_eq!(s, format!("user@{n}"));
    }
}

#[test]
fn string_helpers() {
    assert!(str_eq("abc", "abc"));
    assert!(!str_eq("abc", "abd"));
    assert!(!str_eq("ab", "abc"));
    assert!(ends_with("sshd.service", ".service"));
    assert!(!ends_with("sshd.socket", ".service"));
    assert!(!ends_with("x", ".service"));
    assert_eq!(chars_of("héllo"), vec!['h', 'é', 'l', 'l', 'o']);
}
