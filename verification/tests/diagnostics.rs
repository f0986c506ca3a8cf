use keyscript::parsing::error::{convert_custom_error, make_generic_nom_err, CustomError};
use keyscript::parsing::parse_script;
use keyscript::registry::KeyRegistry;

fn failure(offset: usize, expected: &[&str]) -> CustomError {
    CustomError { offset, expected: expected.iter().map(|t| t.as_bytes().to_vec()).collect() }
}

fn render(input: &str, err: &CustomError) -> String {
    String::from_utf8(convert_custom_error(input.as_bytes(), err)).unwrap()
}

#[test]
fn the_second_line_is_reported() {
    assert_eq!(
        render("abc\ndef", &failure(4, &["x"])),
        "err: at line 2:\ndef\n^\nexpected 'x'\n\n"
    );
}

#[test]
fn the_caret_stands_under_the_column() {
    assert_eq!(
        render("abc\ndef", &failure(6, &["digit", "letter"])),
        "err: at line 2:\ndef\n  ^\nexpected 'digit'\n\n"
    );
    assert_eq!(
        render("abc\ndef", &failure(2, &["x"])),
        "err: at line 1:\nabc\n  ^\nexpected 'x'\n\n"
    );
    assert_eq!(
        render("abc\ndef", &failure(7, &["x"])),
        "err: at line 2:\ndef\n   ^\nexpected 'x'\n\n"
    );
}

#[test]
fn a_failure_at_a_line_feed_belongs_to_the_line_it_ends() {
    assert_eq!(
        render("abc\ndef", &failure(3, &["x"])),
        "err: at line 1:\nabc\n   ^\nexpected 'x'\n\n"
    );
    assert_eq!(
        render("\n\n", &failure(1, &["x"])),
        "err: at line 2:\n\n^\nexpected 'x'\n\n"
    );
}

#[test]
fn trailing_white_space_of_the_line_is_cut() {
    assert_eq!(
        render("ab  \t\r\ncd", &failure(1, &["x"])),
        "err: at line 1:\nab\n ^\nexpected 'x'\n\n"
    );
    assert_eq!(
        render("ab\u{a0}\u{2003}\u{3000}\u{85}\u{1680}\u{205f}\u{2028}\ncd", &failure(0, &["x"])),
        "err: at line 1:\nab\n^\nexpected 'x'\n\n"
    );
    assert_eq!(
        render("ab \u{e9}  ", &failure(5, &["x"])),
        "err: at line 1:\nab \u{e9}\n     ^\nexpected 'x'\n\n"
    );
    assert_eq!(
        render("   \nx", &failure(2, &["x"])),
        "err: at line 1:\n\n  ^\nexpected 'x'\n\n"
    );
}

#[test]
fn line_numbers_have_all_their_digits() {
    let mut input = String::new();
    for _ in 0..122 {
        input.push_str("a;\n");
    }
    input.push_str("  @");
    assert_eq!(
        render(&input, &failure(input.len() - 1, &["}"])),
        "err: at line 123:\n  @\n  ^\nexpected '}'\n\n"
    );
    let mut ten = String::new();
    for _ in 0..9 {
        ten.push('\n');
    }
    ten.push('x');
    assert_eq!(render(&ten, &failure(9, &["y"])), "err: at line 10:\nx\n^\nexpected 'y'\n\n");
}

#[test]
fn an_empty_input_has_no_message() {
    assert_eq!(render("", &failure(0, &["x"])), "");
}

#[test]
fn failures_are_built_and_merged() {
    assert_eq!(make_generic_nom_err(), CustomError { offset: 0, expected: vec![] });
    assert_eq!(CustomError::from_error_kind(7), CustomError { offset: 7, expected: vec![] });
    assert_eq!(CustomError::from_char(3, b'('), failure(3, &["("]));
    assert_eq!(CustomError::expecting(3, "number"), failure(3, &["number"]));
    assert_eq!(
        failure(9, &["a", "b"]).or(failure(4, &["c"])),
        failure(4, &["a", "b", "c"])
    );
    assert_eq!(
        failure(1, &[]).or(failure(2, &[])),
        failure(2, &[])
    );
    assert_eq!(CustomError::append(0, failure(4, &["c"])), failure(4, &["c"]));
}

#[test]
fn a_failed_script_is_reported_where_it_failed() {
    let source = "a::b;\nlet x = ;\n";
    let err = parse_script(source.as_bytes(), &KeyRegistry::new()).unwrap_err();
    assert_eq!(
        render(source, &err),
        "err: at line 2:\nlet x = ;\n^\nexpected 'if'\n\n"
    );
}
