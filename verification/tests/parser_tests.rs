use tiny_basic::commands::{Command, Primitive, PrintOutput};
use tiny_basic::generic::{consume_line, escape_string, read_string};
use tiny_basic::parse_commands::{match_command, parse_line, parse_print_command, Keyword};
use tiny_basic::variables::{parse_int, parse_var};

#[test]
fn it_parses_a_print_command() {
    let input = "10 PRINT \"Hello, world\"";
    let expected = (
        10,
        Command::Print(PrintOutput::Literal(String::from("Hello, world"))),
    );

    let (_, result) = parse_line(input).unwrap();
    assert_eq!(expected, result);
}

#[test]
fn it_reads_a_string() {
    let input = r#""Hello, \"World\"""#;
    let (_, output) = read_string(input).unwrap();
    assert_eq!(r#"Hello, "World""#, output);
}

#[test]
fn it_parses_a_print_command_with_escaped_quotes() {
    let input = r#"10 PRINT "Hello, \"world\"""#;
    let expected = (
        10,
        Command::Print(PrintOutput::Literal(String::from(r#"Hello, "world""#))),
    );

    let (_, result) = parse_line(input).unwrap();
    assert_eq!(expected, result);
}

#[test]
fn it_parses_a_goto_command() {
    let input = "20 GO TO 10";
    let expected = (20, Command::Jump(10));
    let (_, result) = parse_line(input).unwrap();
    assert_eq!(expected, result);
}

#[test]
fn it_parses_an_integer() {
    let line = "10 LET a=22";
    let expected = (
        10,
        Command::Assign(String::from("a"), Primitive::Integer(22)),
    );
    let (_, result) = parse_line(line).unwrap();
    assert_eq!(expected, result);
}

#[test]
fn it_parses_a_many_char_integer() {
    let line = "10 LET apple=1";
    let expected = (
        10,
        Command::Assign(String::from("apple"), Primitive::Integer(1)),
    );
    let (_, result) = parse_line(line).unwrap();
    assert_eq!(expected, result);
}

#[test]
fn it_fails_if_integer_var_name_starts_with_number() {
    let line = "10 LET 0apple=1";
    let result = parse_line(line);
    assert!(result.is_err());
}

#[test]
fn it_parses_a_string_variable() {
    let line = r#"10 LET a$="Hello world""#;
    let expected = (
        10,
        Command::Assign(
            String::from("a$"),
            Primitive::Text(String::from("Hello world")),
        ),
    );
    let (_, result) = parse_line(line).unwrap();
    assert_eq!(expected, result);
}

#[test]
fn it_fails_a_string_var_with_a_multichar_name() {
    let line = r#"10 LET asd$="Hello world""#;
    let result = parse_line(line);
    assert!(result.is_err());
}

#[test]
fn it_fails_a_string_var_with_a_numeric_name() {
    let line = r#"10 LET 0$="Hello world""#;
    let result = parse_line(line);
    assert!(result.is_err());
}

#[test]
fn it_assigns_one_variable_to_another() {
    let line = "10 LET a=b$";
    let (_, result) = parse_line(line).unwrap();
    let expected = (
        10,
        Command::Assign(String::from("a"), Primitive::Alias(String::from("b$"))),
    );
    assert_eq!(result, expected);
}

#[test]
fn it_parses_a_print_command_with_a_variable_name() {
    let line = "10 PRINT a$";
    let (_, result) = parse_line(line).unwrap();
    let expected = (
        10,
        Command::Print(PrintOutput::VariableRef(String::from("a$"))),
    );
    assert_eq!(result, expected);
}

#[test]
fn it_parses_a_comment() {
    let line = "10 REM This is an arbitrary comment";
    let (_, result) = parse_line(line).unwrap();
    let expected = (10, Command::Comment);
    assert_eq!(result, expected);
}

#[test]
fn it_round_trips_an_escaped_string() {
    let input = r#""a\\b\"c""#;
    let (consumed, body) = read_string(input).unwrap();
    assert_eq!(input.len(), consumed);
    assert_eq!(r#"a\b"c"#, body);
    assert_eq!(input, escape_string(&body));
}

#[test]
fn it_escapes_quotes_and_backslashes() {
    assert_eq!(r#""a\"b\\c""#, escape_string(r#"a"b\c"#));
    assert_eq!("\"\"", escape_string(""));
}

#[test]
fn it_fails_an_unterminated_string() {
    assert!(read_string("\"abc").is_err());
}

#[test]
fn it_fails_a_bad_escape() {
    assert!(read_string(r#""a\x""#).is_err());
}

#[test]
fn it_reads_an_empty_string_literal() {
    let (consumed, body) = read_string("\"\"").unwrap();
    assert_eq!(2, consumed);
    assert_eq!("", body);
}

#[test]
fn it_consumes_up_to_a_line_separator() {
    let (end, content) = consume_line("abc\ndef");
    assert_eq!(3, end);
    assert_eq!("abc", content);
    let (end2, content2) = consume_line("no separator");
    assert_eq!(12, end2);
    assert_eq!("no separator", content2);
}

#[test]
fn it_matches_command_keywords() {
    assert_eq!(Some((5, Keyword::Print)), match_command("PRINT x"));
    assert_eq!(Some((5, Keyword::Go)), match_command("GO TO 10"));
    assert_eq!(Some((3, Keyword::Let)), match_command("LET a=1"));
    assert_eq!(Some((3, Keyword::Rem)), match_command("REM hi"));
    assert_eq!(None, match_command("FOO"));
}

#[test]
fn it_parses_an_unknown_keyword_with_a_space_as_a_no_op() {
    let (_, result) = parse_line("10  anything").unwrap();
    assert_eq!((10, Command::Empty), result);
}

#[test]
fn it_fails_an_unknown_keyword_without_a_space() {
    assert!(parse_line("10 FOO 1").is_err());
}

#[test]
fn it_parses_a_print_literal_over_a_variable() {
    let (_, var_ref) = parse_print_command("a$").unwrap();
    assert_eq!(PrintOutput::VariableRef(String::from("a$")), var_ref);
    let (_, literal) = parse_print_command("\"a$\"").unwrap();
    assert_eq!(PrintOutput::Literal(String::from("a$")), literal);
}

#[test]
fn it_parses_a_negative_integer_assignment() {
    let (_, result) = parse_line("10 LET a=-5").unwrap();
    assert_eq!(
        (10, Command::Assign(String::from("a"), Primitive::Integer(-5))),
        result
    );
}

#[test]
fn it_parses_an_explicitly_positive_integer_assignment() {
    let (_, binding) = parse_int("a=+5").unwrap();
    assert_eq!((String::from("a"), Primitive::Integer(5)), binding);
}

#[test]
fn it_parses_the_extreme_integer_values() {
    let (_, result) = parse_line("10 LET a=9223372036854775807").unwrap();
    assert_eq!(
        (
            10,
            Command::Assign(String::from("a"), Primitive::Integer(i64::MAX))
        ),
        result
    );
    let (_, result2) = parse_line("10 LET a=-9223372036854775808").unwrap();
    assert_eq!(
        (
            10,
            Command::Assign(String::from("a"), Primitive::Integer(i64::MIN))
        ),
        result2
    );
}

#[test]
fn it_falls_back_to_an_alias_on_integer_overflow() {
    let (_, binding) = parse_var("a=9223372036854775808").unwrap();
    assert_eq!(
        (
            String::from("a"),
            Primitive::Alias(String::from("9223372036854775808"))
        ),
        binding
    );
}

#[test]
fn it_fails_a_goto_with_an_overflowing_line_number() {
    assert!(parse_line("10 GO TO 99999999999999999999999").is_err());
}

#[test]
fn it_resolves_the_assignment_ambiguity_in_order() {
    let (_, int_binding) = parse_var("a=5").unwrap();
    assert_eq!((String::from("a"), Primitive::Integer(5)), int_binding);
    let (_, text_binding) = parse_var("a$=\"x\"").unwrap();
    assert_eq!(
        (String::from("a$"), Primitive::Text(String::from("x"))),
        text_binding
    );
    let (_, alias_binding) = parse_var("a=b").unwrap();
    assert_eq!(
        (String::from("a"), Primitive::Alias(String::from("b"))),
        alias_binding
    );
}
