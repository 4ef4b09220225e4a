use localdev_proxy::text::{
    chars_of, comes_before, copy_range, ends_with, lines_of, same_text, scan, scan_back,
    second_word_of, split_once_of, starts_with, string_of, strip_end_of, strip_of, strip_start_of,
    whitespace, CharClass,
};

fn chars(s: &str) -> Vec<char> {
    s.chars().collect()
}

fn text(v: &[char]) -> String {
    v.iter().collect()
}

#[test]
fn whitespace_is_the_unicode_property() {
    let mut code: u32 = 0;
    while code <= 0x10ffff {
        if let Some(c) = char::from_u32(code) {
            assert_eq!(whitespace(c), c.is_whitespace(), "U+{:04X}", code);
        }
        code += 1;
    }
}

#[test]
fn class_membership() {
    assert!(CharClass::Whitespace.contains('\t'));
    assert!(CharClass::Whitespace.contains('\u{3000}'));
    assert!(!CharClass::Whitespace.contains('a'));
    assert!(CharClass::Only('/').contains('/'));
    assert!(!CharClass::Only('/').contains('\\'));
}

#[test]
fn strings_and_characters_convert_both_ways() {
    for s in ["", "abc", "a b\tc\n", "\u{2757} caf\u{e9} \u{1f680}"] {
        assert_eq!(chars_of(s), chars(s));
        assert_eq!(string_of(&chars(s)), s);
    }
}

#[test]
fn copy_range_takes_the_half_open_range() {
    let v = chars("abcdef");
    assert_eq!(text(&copy_range(&v, 1, 4)), "bcd");
    assert_eq!(text(&copy_range(&v, 0, 0)), "");
    assert_eq!(text(&copy_range(&v, 6, 6)), "");
    assert_eq!(text(&copy_range(&v, 0, 6)), "abcdef");
}

#[test]
fn scan_finds_the_end_of_a_run() {
    let v = chars("  ab  cd");
    assert_eq!(scan(&v, CharClass::Whitespace, true, 0), 2);
    assert_eq!(scan(&v, CharClass::Whitespace, false, 2), 4);
    assert_eq!(scan(&v, CharClass::Whitespace, true, 4), 6);
    assert_eq!(scan(&v, CharClass::Whitespace, false, 6), 8);
    assert_eq!(scan(&v, CharClass::Whitespace, true, 8), 8);
    assert_eq!(scan(&v, CharClass::Only('c'), false, 0), 6);
    assert_eq!(scan(&v, CharClass::Only('z'), false, 0), 8);
}

#[test]
fn scan_back_finds_the_start_of_a_run() {
    let v = chars("ab;;;");
    assert_eq!(scan_back(&v, CharClass::Only(';'), 5), 2);
    assert_eq!(scan_back(&v, CharClass::Only(';'), 2), 2);
    assert_eq!(scan_back(&v, CharClass::Only(';'), 0), 0);
    assert_eq!(scan_back(&chars(";;"), CharClass::Only(';'), 2), 0);
}

#[test]
fn stripping_whitespace_is_trimming() {
    for s in ["", " ", "a", "  a b  ", "\t\n x \r\n", "\u{a0}x\u{2003}", "   "] {
        let v = chars(s);
        assert_eq!(text(&strip_of(&v, CharClass::Whitespace)), s.trim());
        assert_eq!(text(&strip_start_of(&v, CharClass::Whitespace)), s.trim_start());
        assert_eq!(text(&strip_end_of(&v, CharClass::Whitespace)), s.trim_end());
    }
}

#[test]
fn stripping_one_character() {
    for s in ["", "/", "//", "/a/", "a", "//a/b//", "a//"] {
        let v = chars(s);
        assert_eq!(text(&strip_of(&v, CharClass::Only('/'))), s.trim_matches('/'));
        assert_eq!(text(&strip_end_of(&v, CharClass::Only('/'))), s.trim_end_matches('/'));
    }
}

#[test]
fn prefixes_and_suffixes() {
    for (s, p) in [("", ""), ("abc", ""), ("abc", "ab"), ("abc", "abc"), ("abc", "abcd"), ("abc", "bc"), ("abc", "c"), ("", "a")] {
        assert_eq!(starts_with(&chars(s), &chars(p)), s.starts_with(p), "{:?} {:?}", s, p);
        assert_eq!(ends_with(&chars(s), &chars(p)), s.ends_with(p), "{:?} {:?}", s, p);
    }
}

#[test]
fn split_once_splits_at_the_first_delimiter() {
    for s in ["", "=", "a=b", "a=b=c", "=b", "a=", "abc", "a:b=c"] {
        let got = split_once_of(&chars(s), '=').map(|(l, r)| (text(&l), text(&r)));
        let want = s.split_once('=').map(|(l, r)| (l.to_string(), r.to_string()));
        assert_eq!(got, want, "{:?}", s);
    }
}

#[test]
fn lines_are_the_lines_of_the_standard_library() {
    for s in [
        "", "a", "a\n", "a\nb", "a\r\nb\r\n", "\n", "\n\n", "a\r", "a\r\n\r\n", "\r\n", "a\rb\n",
        "\r", "x\n\ny", "foo\r\nbar\n\nbaz\r", "a\n\r\n", "\n\r",
    ] {
        let got: Vec<String> = lines_of(&chars(s)).iter().map(|l| text(l)).collect();
        let want: Vec<String> = s.lines().map(|l| l.to_string()).collect();
        assert_eq!(got, want, "{:?}", s);
    }
}

#[test]
fn second_word_is_the_second_whitespace_separated_word() {
    for s in ["", "a", " a ", "a b", "  a   b  c", "a\tb", "proxy_pass http://x:1/;", "a  ", "\u{a0}a\u{a0}b"] {
        let got = second_word_of(&chars(s)).map(|w| text(&w));
        let want = s.split_whitespace().nth(1).map(|w| w.to_string());
        assert_eq!(got, want, "{:?}", s);
    }
}

#[test]
fn same_text_compares_character_by_character() {
    assert!(same_text(&chars(""), &chars("")));
    assert!(same_text(&chars("abc"), &chars("abc")));
    assert!(!same_text(&chars("abc"), &chars("abd")));
    assert!(!same_text(&chars("abc"), &chars("ab")));
}

#[test]
fn comes_before_is_the_order_of_strings() {
    let all = ["", "a", "ab", "b", "a.localdev", "aa", "B", "\u{e9}", "z", "\u{1f680}", "a\u{0}"];
    for a in all {
        for b in all {
            assert_eq!(comes_before(&chars(a), &chars(b)), a < b, "{:?} {:?}", a, b);
        }
    }
}
