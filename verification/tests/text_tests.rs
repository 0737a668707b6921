use scrape_brilliant::text::{
    chars_of, concat_strings, has_prefix, has_substring, has_suffix, is_whitespace, replace_all,
    string_of, trim,
};

#[test]
fn chars_round_trip() {
    let s = "héllo, wörld ✓";
    let v = chars_of(s);
    assert_eq!(v, s.chars().collect::<Vec<char>>());
    assert_eq!(string_of(&v), s);
}

#[test]
fn whitespace_matches_std() {
    for c in ['\t', '\n', '\u{b}', '\u{c}', '\r', ' ', '\u{85}', '\u{a0}', '\u{1680}', '\u{2000}',
        '\u{200a}', '\u{2028}', '\u{2029}', '\u{202f}', '\u{205f}', '\u{3000}', 'a', '\u{200b}',
        '\u{180e}', '_', '0', '\u{feff}']
    {
        assert_eq!(is_whitespace(c), c.is_whitespace(), "{:?}", c);
    }
}

#[test]
fn trim_matches_std() {
    for s in ["", "   ", "  ab ", "\u{3000}a b\t\n", "x", "\n\n  Geometry  \n", "a  b"] {
        assert_eq!(trim(s), s.trim());
    }
    assert_eq!(trim("  Level 3 "), "Level 3");
}

#[test]
fn trim_twice_is_trim_once() {
    for s in [" a ", "\t\u{a0}b c\u{2028}", "", "  "] {
        let once = trim(s);
        assert_eq!(trim(&once), once);
    }
}

#[test]
fn replace_matches_std() {
    let cases = [
        ("aXbX", "X", "yy"),
        ("aaa", "aa", "b"),
        ("abc", "", "X"),
        ("", "", "X"),
        ("", "a", "X"),
        ("hide\" data-level hide\" data-level", "hide\" data-level", "\" data-level"),
        ("cdn.example.com", ".", "_"),
        ("no match here", "zzz", "q"),
        ("ééé", "é", "e"),
    ];
    for (s, p, r) in cases {
        assert_eq!(replace_all(s, p, r), s.replace(p, r), "{:?}", (s, p, r));
    }
    assert_eq!(replace_all("abc", "", "X"), "XaXbXcX");
}

#[test]
fn replace_by_itself_is_identity() {
    for (s, p) in [("abcabc", "bc"), ("xyz", ""), ("aaaa", "aa")] {
        assert_eq!(replace_all(s, p, p), s);
    }
}

#[test]
fn replace_absent_pattern_is_identity() {
    assert_eq!(replace_all("<html><body></body></html>", "<head>", "<x>"), "<html><body></body></html>");
}

#[test]
fn prefix_suffix_substring_match_std() {
    let cases = [("//cdn", "//"), ("/x", "/"), ("x/", "/"), ("", ""), ("ab", "abc"), ("abc", "bc")];
    for (s, p) in cases {
        assert_eq!(has_prefix(s, p), s.starts_with(p));
        assert_eq!(has_suffix(s, p), s.ends_with(p));
        assert_eq!(has_substring(s, p), s.contains(p));
    }
    assert!(has_substring("https://brilliant.org/discussions/thread/x/", "discussions/thread"));
}

#[test]
fn concat_joins_without_separator() {
    let pieces = vec![String::from("What is "), String::from("2+2"), String::from("?")];
    assert_eq!(concat_strings(&pieces), pieces.join(""));
    assert_eq!(concat_strings(&Vec::new()), "");
}
