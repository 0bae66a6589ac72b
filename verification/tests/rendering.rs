use blockcheck::render::close_banner;
use blockcheck::render::gutter_string;
use blockcheck::render::open_banner;
use blockcheck::render::underline_marker;
use blockcheck::render::underline_padding;
use blockcheck::render_report;
use blockcheck::text::dec_string;
use blockcheck::text::split_lines;
use blockcheck::CompileError;
use blockcheck::Error;
use blockcheck::ParseError;
use blockcheck::ParseResult;
use blockcheck::Position;
use blockcheck::Span;

fn pos(line: u32, column: u32, offset: u32) -> Position {
    Position { line, column, offset }
}

fn line_span(line: u32, c1: u32, c2: u32) -> Span {
    Span::new(pos(line, c1, c1), pos(line, c2, c2))
}

#[test]
fn split_lines_matches_newline_separators() {
    assert_eq!(split_lines("a\nbc\n"), vec!["a", "bc", ""]);
    assert_eq!(split_lines(""), vec![""]);
    assert_eq!(split_lines("no newline"), vec!["no newline"]);
    assert_eq!(split_lines("\n\n"), vec!["", "", ""]);
    assert_eq!(split_lines("a\r\nb"), vec!["a\r", "b"]);
}

#[test]
fn decimal_rendering_is_exact() {
    assert_eq!(dec_string(0), "0");
    assert_eq!(dec_string(7), "7");
    assert_eq!(dec_string(10), "10");
    assert_eq!(dec_string(12345), "12345");
}

#[test]
fn gutter_shows_one_based_line_number() {
    assert_eq!(gutter_string(0), " 1| ");
    assert_eq!(gutter_string(9), " 10| ");
    assert_eq!(gutter_string(99), " 100| ");
}

#[test]
fn banners_match_the_path() {
    let open = open_banner("test.eve");
    assert_eq!(open, format!("\n{} test.eve\n", "-".repeat(41)));
    let close = close_banner("test.eve");
    assert_eq!(close, "-".repeat(open.len() - 2));
}

#[test]
fn underline_row_caret_and_dash_positions() {
    let sp = line_span(2, 4, 9);
    let pad = underline_padding(&sp);
    let marker = underline_marker(&sp);
    assert_eq!(pad, " ".repeat(8));
    assert_eq!(marker, "^----");
    let row = format!("{}{}", pad, marker);
    assert_eq!(row.chars().nth(8), Some('^'));
    assert_eq!(&row[9..13], "----");
    assert_eq!(row.len(), 13);
}

#[test]
fn single_line_report_is_byte_exact() {
    let source = "zero\none\nabcdefghij";
    let errors = vec![CompileError { span: line_span(2, 4, 9), error: Error::InvalidNeedle }];
    let report = render_report(&errors, "blocks.eve", source);
    let close = "-".repeat(42 + "blocks.eve".len());
    let msg = "The `from` in a sorted aggregate has to be the same size as the `for` in order to match the values.";
    let expected = format!(
        "\n{} blocks.eve\n\n 3| abcdefghij\n        ^----\n\n {}\n\n{}\n\n",
        "-".repeat(41),
        msg,
        close
    );
    assert_eq!(report, expected);
}

#[test]
fn multi_line_span_prints_rows_without_underline() {
    let source = "hello\nworld\n!";
    let span = Span::new(pos(0, 2, 2), pos(1, 3, 9));
    let errors = vec![CompileError { span, error: Error::InvalidLookupType }];
    let report = render_report(&errors, "m.eve", source);
    let close = "-".repeat(42 + "m.eve".len());
    let msg = "Lookup can only have \"add\" or \"remove\" for its type field.";
    let expected = format!(
        "\n{} m.eve\n\n 1| hello\n 2| world\n\n {}\n\n{}\n\n",
        "-".repeat(41),
        msg,
        close
    );
    assert_eq!(report, expected);
}

#[test]
fn rendering_is_idempotent() {
    let source = "search thing\nbind other\nend";
    let errors = vec![
        CompileError {
            span: line_span(1, 5, 10),
            error: Error::Unprovided("other".to_string()),
        },
        CompileError { span: line_span(0, 0, 6), error: Error::InvalidLookupType },
    ];
    let first = render_report(&errors, "same.eve", source);
    let second = render_report(&errors, "same.eve", source);
    assert_eq!(first, second);
}

#[test]
fn multiple_errors_keep_input_order() {
    let source = "alpha\nbeta";
    let errors = vec![
        CompileError {
            span: line_span(1, 0, 2),
            error: Error::UnknownFunction("f".to_string()),
        },
        CompileError { span: line_span(0, 1, 3), error: Error::InvalidNeedle },
    ];
    let report = render_report(&errors, "o.eve", source);
    let unknown_at = report
        .find("I don't know the `f` function")
        .expect("first message present");
    let needle_at = report
        .find("The `from` in a sorted aggregate")
        .expect("second message present");
    assert!(unknown_at < needle_at);
    assert_eq!(report.matches(" o.eve\n").count(), 1);
}

#[test]
fn lifted_parse_failure_renders_its_message() {
    let source = "search thing";
    let outcome = ParseResult::Error(pos(0, 3, 3), ParseError::MissingEnd);
    let ce = blockcheck::from_parse_error(&outcome);
    let report = render_report(&vec![ce], "p.eve", source);
    let close = "-".repeat(42 + "p.eve".len());
    let expected = format!(
        "\n{} p.eve\n\n 1| search thing\n       ^\n\n The `end` keyword is missing for this block.\n\n{}\n\n",
        "-".repeat(41),
        close
    );
    assert_eq!(report, expected);
}

#[test]
fn empty_error_list_renders_banner_only() {
    let report = render_report(&vec![], "empty.eve", "anything");
    assert_eq!(report, format!("\n{} empty.eve\n\n", "-".repeat(41)));
}

#[test]
fn double_digit_gutter_keeps_caret_aligned() {
    let source = "0\n1\n2\n3\n4\n5\n6\n7\n8\nninth";
    let errors = vec![CompileError {
        span: line_span(9, 0, 2),
        error: Error::Unprovided("n".to_string()),
    }];
    let report = render_report(&errors, "t.eve", source);
    let close = "-".repeat(42 + "t.eve".len());
    let msg = "Nothing in the block is providing `n`. You can search for\n something that provides `n`, or bind a constant.\n e.g. `n: \"Hello\"`";
    let expected = format!(
        "\n{} t.eve\n\n 10| ninth\n     ^-\n\n {}\n\n{}\n\n",
        "-".repeat(41),
        msg,
        close
    );
    assert_eq!(report, expected);
}
