use todo_txt::parsers::{CompletionMarkParser, DateParser, Parser};

#[test]
fn should_parse_digit_sequence() {
    let date_result = DateParser::parse("2018-11-24and some junk.").expect("Must parse.");

    assert_eq!(date_result.value.year(), 2018);
    assert_eq!(date_result.value.month(), 11);
    assert_eq!(date_result.value.day(), 24);
    assert_eq!(date_result.remaining, "and some junk.");
}

#[test]
fn should_not_parse_with_prefix() {
    let date_result = DateParser::parse("bla2018-12-24");
    assert!(date_result.is_none());
}

#[test]
fn dateparser_should_handle_limits() {
    let date_result = DateParser::parse("9999-99-99");
    assert!(date_result.is_none());
}

#[test]
fn completion_mark_parser_should_parse_completion_marks() {
    let parse_result = CompletionMarkParser::parse("x ").expect("Must parse");

    assert_eq!(parse_result.value, true);
    assert_eq!(parse_result.remaining, "");
}

#[test]
fn completion_mark_parser_should_parse_completion_marks_before_text() {
    let parse_result = CompletionMarkParser::parse("x Some text").expect("Must parse");

    assert_eq!(parse_result.value, true);
    assert_eq!(parse_result.remaining, "Some text");
}

#[test]
fn completion_mark_parse_should_parse_uncompleted() {
    let parse_result = CompletionMarkParser::parse("Some Text").expect("Must parse");

    assert_eq!(parse_result.value, false);
    assert_eq!(parse_result.remaining, "Some Text");
}

#[test]
fn completion_mark_parse_should_parse_with_space() {
    let parse_result = CompletionMarkParser::parse(" Some Text").expect("Must parse");

    assert_eq!(parse_result.value, false);
    assert_eq!(parse_result.remaining, " Some Text");
}

#[test]
fn completion_mark_parse_should_parse_empty_string() {
    let parse_result = CompletionMarkParser::parse("").expect("Must parse");

    assert_eq!(parse_result.value, false);
    assert_eq!(parse_result.remaining, "");
}
