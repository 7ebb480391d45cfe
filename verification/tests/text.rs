use futility::strutil::{contains_str, ends_with_str, split_char, split_lines, split_str2, str_lex_le};

#[test]
fn split_on_delimiter_keeps_empty_fields() {
    assert_eq!(split_char("a|b|c", '|'), vec!["a", "b", "c"]);
    assert_eq!(split_char("|b|", '|'), vec!["", "b", ""]);
    assert_eq!(split_char("", '|'), vec![""]);
    assert_eq!(split_char("abc", '|'), vec!["abc"]);
}

#[test]
fn split_on_pair_cuts_without_overlap() {
    assert_eq!(split_str2("a##b##c", '#', '#'), vec!["a", "b", "c"]);
    assert_eq!(split_str2("a###b", '#', '#'), vec!["a", "#b"]);
    assert_eq!(split_str2("##", '#', '#'), vec!["", ""]);
    assert_eq!(split_str2("plain", '#', '#'), vec!["plain"]);
}

#[test]
fn lines_drop_trailing_newline_and_carriage_returns() {
    assert_eq!(split_lines("a\nb\n"), vec!["a", "b"]);
    assert_eq!(split_lines("a\nb"), vec!["a", "b"]);
    assert_eq!(split_lines("a\r\nb\r\n"), vec!["a", "b"]);
    assert_eq!(split_lines(""), Vec::<String>::new());
    assert_eq!(split_lines("\n"), vec![""]);
}

#[test]
fn containment_and_suffix_tests() {
    assert!(contains_str("123.batch", "batch"));
    assert!(contains_str("anything", ""));
    assert!(!contains_str("12", "batch"));
    assert!(ends_with_str("101.0", ".0"));
    assert!(!ends_with_str("101.01", ".0"));
    assert!(!ends_with_str("0", ".0"));
}

#[test]
fn lexicographic_order_is_by_code_point() {
    assert!(str_lex_le("100", "101"));
    assert!(str_lex_le("100", "100"));
    assert!(!str_lex_le("101", "100"));
    assert!(str_lex_le("100", "1000"));
    assert!(str_lex_le("", "a"));
}
