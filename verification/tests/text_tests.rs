use kg_explorer::text::{
    chars_of, contains_chars, decimal_chars, ends_with_chars, find_from, is_match_at, last_segment,
    lines_of, replace_all, slice_chars, starts_with_chars, string_of, strip_leading, trim_chars,
};

#[test]
fn chars_round_trip() {
    let v = chars_of("héllo");
    assert_eq!(v.len(), 5);
    assert_eq!(string_of(&v), "héllo");
}

#[test]
fn replace_all_scans_from_the_left() {
    assert_eq!(replace_all("aaa", "aa", "b"), "ba");
    assert_eq!(replace_all("a&b&c", "&", "&amp;"), "a&amp;b&amp;c");
    assert_eq!(replace_all("abc", "x", "y"), "abc");
    assert_eq!(replace_all("", "x", "y"), "");
    assert_eq!(replace_all("xyz", "xyz", ""), "");
}

#[test]
fn replace_all_does_not_read_what_it_wrote() {
    assert_eq!(replace_all("ab", "a", "aa"), "aab");
    assert_eq!(replace_all("[[a]]", "[[a]]", "[[a]][[a]]"), "[[a]][[a]]");
}

#[test]
fn replace_all_with_empty_pattern_changes_nothing() {
    assert_eq!(replace_all("abc", "", "-"), "abc");
}

#[test]
fn matching_and_searching() {
    let s = chars_of("hello world");
    assert!(is_match_at(&s, &chars_of("world"), 6));
    assert!(!is_match_at(&s, &chars_of("world"), 7));
    assert!(!is_match_at(&s, &chars_of("hello world!"), 0));
    assert!(is_match_at(&s, &chars_of(""), 11));
    assert!(starts_with_chars(&s, &chars_of("hell")));
    assert!(ends_with_chars(&s, &chars_of("rld")));
    assert!(!ends_with_chars(&s, &chars_of("hello")));
    assert!(contains_chars(&s, &chars_of("o w")));
    assert!(!contains_chars(&s, &chars_of("ow")));
    assert_eq!(find_from(&s, &chars_of("o"), 0), Some(4));
    assert_eq!(find_from(&s, &chars_of("o"), 5), Some(7));
    assert_eq!(find_from(&s, &chars_of("o"), 8), None);
    assert_eq!(find_from(&s, &chars_of("o"), 99), None);
    assert_eq!(string_of(&slice_chars(&s, 6, 11)), "world");
}

#[test]
fn last_segment_follows_the_last_separator() {
    assert_eq!(string_of(&last_segment(&chars_of("a/b/c.nt"), '/')), "c.nt");
    assert_eq!(string_of(&last_segment(&chars_of("c.nt"), '/')), "c.nt");
    assert_eq!(string_of(&last_segment(&chars_of("a/"), '/')), "");
}

#[test]
fn decimal_digits() {
    assert_eq!(string_of(&decimal_chars(0)), "0");
    assert_eq!(string_of(&decimal_chars(7)), "7");
    assert_eq!(string_of(&decimal_chars(10)), "10");
    assert_eq!(string_of(&decimal_chars(4096)), "4096");
    assert_eq!(string_of(&decimal_chars(u64::MAX)), u64::MAX.to_string());
}

#[test]
fn lines_end_at_line_feeds() {
    let lines = |s: &str| -> Vec<String> { lines_of(&chars_of(s)).iter().map(string_of).collect() };
    assert_eq!(lines("a\nb\r\nc"), vec!["a", "b", "c"]);
    assert_eq!(lines("a\n\nb\n"), vec!["a", "", "b"]);
    assert_eq!(lines("a\r"), vec!["a\r"]);
    assert_eq!(lines("\r\n"), vec![""]);
    assert_eq!(lines(""), Vec::<String>::new());
    for text in ["a\nb\r\nc", "a\n\nb\n", "a\r", "\r\n", "", "\n\r", "x\r\r\ny"] {
        let expected: Vec<String> = text.lines().map(|l| l.to_string()).collect();
        assert_eq!(lines(text), expected);
    }
}

#[test]
fn trimming_and_stripping() {
    assert_eq!(string_of(&trim_chars(&chars_of("  a b\t\n"))), "a b");
    assert_eq!(string_of(&trim_chars(&chars_of(" \u{a0} "))), "");
    assert_eq!(string_of(&trim_chars(&chars_of(""))), "");
    assert_eq!(string_of(&strip_leading(&chars_of("### x"), &chars_of("##"))), "# x");
    assert_eq!(string_of(&strip_leading(&chars_of("#### x"), &chars_of("##"))), " x");
    assert_eq!(string_of(&strip_leading(&chars_of("x##"), &chars_of("##"))), "x##");
    assert_eq!(string_of(&strip_leading(&chars_of("##"), &chars_of(""))), "##");
}
