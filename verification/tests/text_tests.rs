use uninstaller::text::{
    ascii_upper, chars_of, contains, is_whitespace, join, lines, push_decimal, split,
    split_whitespace, string_from_chars, trim, Separator,
};

fn v(s: &str) -> Vec<char> {
    s.chars().collect()
}

fn vs(list: &[&str]) -> Vec<Vec<char>> {
    list.iter().map(|s| v(s)).collect()
}

#[test]
fn split_keeps_empty_pieces() {
    assert_eq!(split(&v("a\t\tb\t"), Separator::Char('\t')), vs(&["a", "", "b", ""]));
    assert_eq!(split(&v(""), Separator::Char('\t')), vs(&[""]));
}

#[test]
fn lines_drop_final_line_ending_and_carriage_returns() {
    assert_eq!(lines(&v("a\r\nb\nc")), vs(&["a", "b", "c"]));
    assert_eq!(lines(&v("a\nb\n")), vs(&["a", "b"]));
    assert_eq!(lines(&v("")), Vec::<Vec<char>>::new());
    assert_eq!(lines(&v("\n")), vs(&[""]));
    assert_eq!(lines(&v("a\n\n")), vs(&["a", ""]));
    assert_eq!(lines(&v("a\r")), vs(&["a\r"]));
}

#[test]
fn lines_agree_with_std() {
    for s in ["x\r\ny", "\r\n\r\n", "one", "a\nb\r\nc\n", "\u{2028}z\n\r"] {
        let expect: Vec<Vec<char>> = s.lines().map(|l| l.chars().collect()).collect();
        assert_eq!(lines(&v(s)), expect);
    }
}

#[test]
fn trim_removes_unicode_whitespace() {
    assert_eq!(trim(&v("  a b \t\n")), v("a b"));
    assert_eq!(trim(&v("\u{3000}x\u{a0}")), v("x"));
    assert_eq!(trim(&v(" \t ")), v(""));
    for s in [" a ", "\u{85}b\u{2029}", "c", ""] {
        assert_eq!(trim(&v(s)), v(s.trim()));
    }
}

#[test]
fn whitespace_is_unicode_white_space() {
    for c in ['\t', '\n', '\u{b}', '\u{c}', '\r', ' ', '\u{85}', '\u{a0}', '\u{1680}', '\u{2000}', '\u{200a}', '\u{2028}', '\u{2029}', '\u{202f}', '\u{205f}', '\u{3000}'] {
        assert!(is_whitespace(c));
    }
    for c in ['a', '\u{200b}', '\u{180e}', '0', '\u{feff}'] {
        assert!(!is_whitespace(c));
    }
    for u in 0..0x3100u32 {
        if let Some(c) = char::from_u32(u) {
            assert_eq!(is_whitespace(c), c.is_whitespace());
        }
    }
}

#[test]
fn split_whitespace_skips_empty_pieces() {
    assert_eq!(split_whitespace(&v("  pkg   1.0-1 \n")), vs(&["pkg", "1.0-1"]));
    assert_eq!(split_whitespace(&v("   ")), Vec::<Vec<char>>::new());
}

#[test]
fn decimal_notation() {
    for n in [0usize, 7, 10, 42, 100, 9_876_543_210] {
        let mut s = String::from("n=");
        push_decimal(&mut s, n);
        assert_eq!(s, format!("n={}", n));
    }
}

#[test]
fn join_puts_separator_between() {
    let list = vec!["a".to_string(), "".to_string(), "c".to_string()];
    assert_eq!(join(&list, "\n"), "a\n\nc");
    assert_eq!(join(&Vec::new(), "\n"), "");
    assert_eq!(join(&vec!["only".to_string()], ", "), "only");
}

#[test]
fn contains_finds_substrings() {
    assert!(contains(&v("firefox"), &v("ref")));
    assert!(contains(&v("firefox"), &v("")));
    assert!(!contains(&v("fire"), &v("firefox")));
    assert!(contains(&v("abc"), &v("abc")));
    assert!(!contains(&v("abc"), &v("acb")));
}

#[test]
fn chars_and_strings_round_trip() {
    let s = "pâquerette ✓";
    assert_eq!(string_from_chars(&chars_of(s)), s);
    assert_eq!(ascii_upper('p'), 'P');
    assert_eq!(ascii_upper('P'), 'P');
    assert_eq!(ascii_upper('é'), 'é');
    assert_eq!(ascii_upper(' '), ' ');
}
