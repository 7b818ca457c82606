use viontin_gems::text::{
    chars_of, eq_ignore_ascii_case, replace, split_commas, split_whitespace, substring, to_ascii_lower,
    trim,
};

#[test]
fn trim_removes_unicode_whitespace_at_both_ends() {
    assert_eq!(trim("  a b \t\n"), "a b");
    assert_eq!(trim("\u{a0}x\u{3000}"), "x");
    assert_eq!(trim("   "), "");
    assert_eq!(trim(""), "");
    assert_eq!(trim("abc"), "abc");
}

#[test]
fn split_commas_keeps_empty_pieces() {
    assert_eq!(split_commas("a,b"), vec!["a", "b"]);
    assert_eq!(split_commas(""), vec![""]);
    assert_eq!(split_commas(",a,,"), vec!["", "a", "", ""]);
    assert_eq!(split_commas(" x , y"), vec![" x ", " y"]);
}

#[test]
fn split_whitespace_drops_empty_pieces() {
    assert_eq!(split_whitespace("  bg-red-500   p-4\tm-2\n"), vec!["bg-red-500", "p-4", "m-2"]);
    assert_eq!(split_whitespace(""), Vec::<String>::new());
    assert_eq!(split_whitespace(" \t "), Vec::<String>::new());
    assert_eq!(split_whitespace("a\u{2003}b"), vec!["a", "b"]);
}

#[test]
fn split_whitespace_matches_std() {
    for s in ["a b  c", "  lead", "trail  ", "x\u{85}y", "é ü"] {
        let ours = split_whitespace(s);
        let std: Vec<String> = s.split_whitespace().map(|t| t.to_string()).collect();
        assert_eq!(ours, std);
    }
}

#[test]
fn replace_all_occurrences_left_to_right() {
    assert_eq!(replace("<div>{{data-page}}</div>", "{{data-page}}", "{}"), "<div>{}</div>");
    assert_eq!(replace("{{data-page}}{{data-page}}", "{{data-page}}", "X"), "XX");
    assert_eq!(replace("no placeholder", "{{data-page}}", "X"), "no placeholder");
    assert_eq!(replace("aaa", "aa", "b"), "ba");
    assert_eq!(replace("", "x", "y"), "");
}

#[test]
fn ascii_case_folding() {
    assert!(eq_ignore_ascii_case("X-Inertia", "x-inertia"));
    assert!(!eq_ignore_ascii_case("X-Inertia", "x-inertia-version"));
    assert!(!eq_ignore_ascii_case("É", "é"));
    assert_eq!(to_ascii_lower('Q'), 'q');
    assert_eq!(to_ascii_lower('q'), 'q');
    assert_eq!(to_ascii_lower('1'), '1');
}

#[test]
fn chars_and_substrings() {
    assert_eq!(chars_of("héllo"), vec!['h', 'é', 'l', 'l', 'o']);
    assert_eq!(substring("héllo", 1, 3), "él");
}

#[test]
fn white_space_agrees_with_std_on_every_char() {
    for code in 0u32..=0x10FFFF {
        if let Some(c) = char::from_u32(code) {
            assert_eq!(viontin_gems::text::is_white_space(c), c.is_whitespace(), "{:?}", c);
        }
    }
}
