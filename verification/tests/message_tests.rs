use but_tools::message::compose_message;
use but_tools::message::split_message;
use but_tools::message::trim_string;
use but_tools::model::parse_id;

#[test]
fn compose_trims_and_joins_with_blank_line() {
    let m = compose_message("Fix login ", " Adjust token check\n");
    assert_eq!(m, "Fix login\n\nAdjust token check");
}

#[test]
fn compose_of_empty_parts() {
    let m = compose_message("  ", "");
    assert_eq!(m, "\n\n");
}

#[test]
fn split_takes_first_line_as_title() {
    let (title, body) = split_message("Fix login\n\nAdjust token check");
    assert_eq!(title, "Fix login");
    assert_eq!(body, "Adjust token check");
}

#[test]
fn split_strips_leading_blank_lines_of_body() {
    let (title, body) = split_message("Title\n\n\n\nBody line one\nBody line two");
    assert_eq!(title, "Title");
    assert_eq!(body, "Body line one\nBody line two");
}

#[test]
fn split_handles_carriage_returns() {
    let (title, body) = split_message("Title\r\n\r\nBody");
    assert_eq!(title, "Title");
    assert_eq!(body, "Body");
}

#[test]
fn split_of_single_line_message() {
    let (title, body) = split_message("Just a title");
    assert_eq!(title, "Just a title");
    assert_eq!(body, "");
}

#[test]
fn split_after_compose_restores_trimmed_parts() {
    let m = compose_message("  A title  ", "  The body\nsecond line  ");
    let (title, body) = split_message(&m);
    assert_eq!(title, "A title");
    assert_eq!(body, "The body\nsecond line");
}

#[test]
fn split_drops_a_trailing_line_terminator() {
    let (title, body) = split_message("t\nb\n");
    assert_eq!(title, "t");
    assert_eq!(body, "b");
    let (title2, body2) = split_message("t\nb\r\n");
    assert_eq!(title2, "t");
    assert_eq!(body2, "b");
}

#[test]
fn split_joins_body_lines_with_line_feeds() {
    let (title, body) = split_message("t\nb1\r\nb2");
    assert_eq!(title, "t");
    assert_eq!(body, "b1\nb2");
}

#[test]
fn trim_removes_unicode_whitespace() {
    assert_eq!(trim_string("\u{A0}\u{2003}a b\u{0C}"), "a b");
}

#[test]
fn trim_removes_both_ends_only() {
    assert_eq!(trim_string(" \t a b \n "), "a b");
    assert_eq!(trim_string(""), "");
    assert_eq!(trim_string(" \n\t "), "");
}

#[test]
fn parse_id_accepts_plain_decimals() {
    assert_eq!(parse_id("0"), Some(0));
    assert_eq!(parse_id("123"), Some(123));
    assert_eq!(parse_id("18446744073709551615"), Some(u64::MAX));
}

#[test]
fn parse_id_rejects_non_decimals() {
    assert_eq!(parse_id(""), None);
    assert_eq!(parse_id("12a"), None);
    assert_eq!(parse_id("-1"), None);
    assert_eq!(parse_id("18446744073709551616"), None);
}
