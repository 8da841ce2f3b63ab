use lightscript::lexer::{LexErrorKind, Lexer, LexerError, ParseTokenError, Token, TokenKind};
use lightscript::message::{decimal, digit_str};
use lightscript::parser::{ParseError, Parser};
use lightscript::repl::{Action, REPL};

#[test]
fn decimal_text_of_numbers() {
    assert_eq!(decimal(0), "0");
    assert_eq!(decimal(7), "7");
    assert_eq!(decimal(10), "10");
    assert_eq!(decimal(1203), "1203");
    assert_eq!(decimal(u32::MAX), "4294967295");
    for n in [0u32, 1, 9, 10, 11, 99, 100, 101, 65535, 1_000_000, 4_000_000_000] {
        assert_eq!(decimal(n), format!("{}", n));
    }
    for d in 0u32..10 {
        assert_eq!(digit_str(d), format!("{}", d));
    }
}

#[test]
fn message_of_each_lexical_error() {
    assert_eq!(
        ParseTokenError::new(LexErrorKind::UnterminatedString, 3, 14).to_string(),
        "Error parsing token \"Unterminated string!\" at line 3, column 14."
    );
    assert_eq!(
        ParseTokenError::new(LexErrorKind::InvalidLiteralEncoding, 1, 1).to_string(),
        "Error parsing token \"Error parsing string!\" at line 1, column 1."
    );
    assert_eq!(
        ParseTokenError::new(LexErrorKind::UnknownCharacter(b'@'), 120, 7).to_string(),
        "Error parsing token \"Error parsing unknown character @\" at line 120, column 7."
    );
    assert_eq!(
        ParseTokenError::new(LexErrorKind::UnknownCharacter(0xe9), 1, 2).to_string(),
        "Error parsing token \"Error parsing unknown character \u{e9}\" at line 1, column 2."
    );
}

#[test]
fn message_of_a_scan() {
    let err = Lexer::new(b"1 @\n\"abc").tokenize().expect_err("two errors");
    assert_eq!(
        err.to_string(),
        "Error parsing tokens: \n\
         Error parsing token \"Error parsing unknown character @\" at line 1, column 3.\n\
         Error parsing token \"Unterminated string!\" at line 2, column 1."
    );
    let one = Lexer::new(b"#").tokenize().expect_err("one error");
    assert_eq!(
        one.to_string(),
        "Error parsing tokens: \n\
         Error parsing token \"Error parsing unknown character #\" at line 1, column 1."
    );
    assert_eq!(LexerError::new().to_string(), "Error parsing tokens: \n");
}

#[test]
fn message_of_each_parse_error() {
    let found = Token { kind: TokenKind::Num, literal: Some("2".to_string()), line: 4, col: 9 };
    assert_eq!(
        ParseError::ExpectedToken { expected: TokenKind::RightParen, found: found.clone(), line: 4, col: 9 }
            .to_string(),
        "Expected \")\" but found \"2\" at line 4, column 9."
    );
    assert_eq!(
        ParseError::UnexpectedToken { found, line: 4, col: 9 }.to_string(),
        "Unexpected token \"2\" at line 4, column 9."
    );
    assert_eq!(
        ParseError::ExpressionTooDeep { line: 1, col: 129 }.to_string(),
        "Expression nested too deeply at line 1, column 129."
    );
    let tokens = Lexer::new(b"(true").tokenize().unwrap();
    let err = Parser::new(tokens).parse().expect_err("the parenthesis is open");
    assert_eq!(err.to_string(), "Expected \")\" but found \"\" at line 1, column 6.");
}

#[test]
fn repl_records_lines_and_picks_the_action() {
    let mut repl = REPL::new();
    assert_eq!(repl.len(), 0);
    assert_eq!(repl.step("1 + 2"), Action::Evaluate);
    assert_eq!(repl.step(".history"), Action::History);
    assert_eq!(repl.step(".quit "), Action::Evaluate);
    assert_eq!(repl.step(""), Action::Evaluate);
    assert_eq!(repl.step(".quit"), Action::Quit);
    assert_eq!(repl.len(), 5);
    assert_eq!(repl.line(0), "1 + 2");
    assert_eq!(repl.line(1), ".history");
    assert_eq!(repl.line(4), ".quit");
}
