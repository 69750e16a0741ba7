use geoguessr_tracker::input::{
    cmd_formatter, is_whitespace_char, score_formatter, score_from_str, without_trailing_non_digits,
};

#[test]
fn score_with_separators_reads() {
    assert_eq!(score_from_str("4,321\n"), Ok(4321));
    assert_eq!(score_from_str(" 5 000 \r\nrest of paste"), Ok(5000));
    assert_eq!(score_from_str("0"), Ok(0));
}

#[test]
fn score_empty_input_is_error() {
    assert_eq!(score_from_str(""), Err("no lines in input".to_string()));
}

#[test]
fn score_with_letters_returns_input() {
    assert_eq!(score_from_str("12a\n"), Err("12a\n".to_string()));
    assert_eq!(score_from_str("-5"), Err("-5".to_string()));
}

#[test]
fn score_without_digits_or_too_large_is_error() {
    assert!(score_from_str(" ,\n123").is_err());
    assert!(score_from_str("\n5000").is_err());
    assert!(score_from_str("65536").is_err());
    assert_eq!(score_from_str("65535"), Ok(65535));
}

#[test]
fn whitespace_matches_std() {
    for c in '\0'..=char::MAX {
        assert_eq!(is_whitespace_char(c), c.is_whitespace(), "{:?}", c);
    }
}

#[test]
fn formatters_trim_and_drop_commas() {
    assert_eq!(cmd_formatter("q  \n"), "q");
    assert_eq!(cmd_formatter(" s"), " s");
    assert_eq!(score_formatter("4,321 \t"), "4321");
    assert_eq!(score_formatter(""), "");
}

#[test]
fn trailing_non_digits_are_dropped() {
    assert_eq!(without_trailing_non_digits("4,321\nabc\n"), "4,321");
    assert_eq!(without_trailing_non_digits("abc"), "");
    assert_eq!(without_trailing_non_digits("12"), "12");
}
