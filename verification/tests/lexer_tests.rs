use lightscript::lexer::lexer::{
    is_digit, is_identifier_char, is_identifier_start, is_whitespace, lookup_keyword,
};
use lightscript::lexer::{LexErrorKind, Lexer, LexerError, ParseTokenError, Token, TokenKind};

fn scan(source: &str) -> (Vec<Token>, LexerError) {
    Lexer::new(source.as_bytes()).scan()
}

fn kinds(source: &str) -> Vec<TokenKind> {
    scan(source).0.iter().map(|t| t.kind).collect()
}

fn tok(kind: TokenKind, literal: Option<&str>, line: u32, col: u32) -> Token {
    Token { kind, literal: literal.map(|s| s.to_string()), line, col }
}

fn errors_of(e: &LexerError) -> Vec<ParseTokenError> {
    (0..e.len()).map(|i| e.get(i)).collect()
}

#[test]
fn tokenize_arithmetic() {
    let tokens = Lexer::new(b"1+2*3").tokenize().expect("no lexical error");
    assert_eq!(
        tokens,
        vec![
            tok(TokenKind::Num, Some("1"), 1, 1),
            tok(TokenKind::Plus, None, 1, 2),
            tok(TokenKind::Num, Some("2"), 1, 3),
            tok(TokenKind::Star, None, 1, 4),
            tok(TokenKind::Num, Some("3"), 1, 5),
            tok(TokenKind::Eof, None, 1, 6),
        ]
    );
}

#[test]
fn unterminated_string_is_one_error_at_the_quote() {
    let err = Lexer::new(b"\"abc").tokenize().expect_err("the string is open");
    assert_eq!(
        errors_of(&err),
        vec![ParseTokenError { kind: LexErrorKind::UnterminatedString, line: 1, col: 1 }]
    );
}

#[test]
fn unterminated_string_after_other_tokens() {
    let err = Lexer::new(b"x =\n  \"abc\ndef").tokenize().expect_err("the string is open");
    assert_eq!(
        errors_of(&err),
        vec![ParseTokenError { kind: LexErrorKind::UnterminatedString, line: 2, col: 3 }]
    );
}

#[test]
fn unknown_character_does_not_stop_the_scan() {
    let err = Lexer::new(b"1@2").tokenize().expect_err("@ starts no lexeme");
    assert_eq!(
        errors_of(&err),
        vec![ParseTokenError { kind: LexErrorKind::UnknownCharacter(b'@'), line: 1, col: 2 }]
    );
    let (tokens, errors) = scan("1@2");
    assert_eq!(errors, err);
    assert_eq!(
        tokens,
        vec![
            tok(TokenKind::Num, Some("1"), 1, 1),
            tok(TokenKind::Num, Some("2"), 1, 3),
            tok(TokenKind::Eof, None, 1, 4),
        ]
    );
}

#[test]
fn every_error_of_one_scan_is_reported_in_order() {
    let err = Lexer::new(b"#\n $ \"open").tokenize().expect_err("three errors");
    assert_eq!(
        errors_of(&err),
        vec![
            ParseTokenError { kind: LexErrorKind::UnknownCharacter(b'#'), line: 1, col: 1 },
            ParseTokenError { kind: LexErrorKind::UnknownCharacter(b'$'), line: 2, col: 2 },
            ParseTokenError { kind: LexErrorKind::UnterminatedString, line: 2, col: 4 },
        ]
    );
    assert_eq!(err.len(), 3);
    assert!(!err.is_empty());
}

#[test]
fn stream_ends_with_exactly_one_sentinel() {
    for source in ["", " ", "1+2", "let x = 1;\n// done", "a\nb\n", "\"s\" != 1.5", "@"] {
        let (tokens, _) = scan(source);
        let sentinels = tokens.iter().filter(|t| t.kind == TokenKind::Eof).count();
        assert_eq!(sentinels, 1, "source {:?}", source);
        assert_eq!(tokens.last().map(|t| t.kind), Some(TokenKind::Eof));
    }
}

#[test]
fn tokenize_is_deterministic() {
    let source = b"let answer = (6 * 7) >= 42; // yes\nprint \"ok\"";
    let first = Lexer::new(source).tokenize();
    let second = Lexer::new(source).tokenize();
    assert_eq!(first, second);
    let mut lexer = Lexer::new(source);
    let third = lexer.tokenize();
    let fourth = lexer.tokenize();
    assert_eq!(third, fourth);
    assert_eq!(first, third);
    let bad = b"1 @ \"x";
    assert_eq!(Lexer::new(bad).tokenize(), Lexer::new(bad).tokenize());
}

#[test]
fn empty_input_is_the_sentinel_alone() {
    assert_eq!(Lexer::new(b"").tokenize(), Ok(vec![tok(TokenKind::Eof, None, 1, 1)]));
}

#[test]
fn sentinel_stands_at_the_end_of_the_buffer() {
    let tokens = Lexer::new(b"ab\ncd").tokenize().unwrap();
    assert_eq!(tokens.last(), Some(&tok(TokenKind::Eof, None, 2, 3)));
    let tokens = Lexer::new(b"ab\n").tokenize().unwrap();
    assert_eq!(tokens.last(), Some(&tok(TokenKind::Eof, None, 2, 1)));
}

#[test]
fn punctuation_kinds() {
    assert_eq!(
        kinds("(){}[],.-+;*/"),
        vec![
            TokenKind::LeftParen,
            TokenKind::RightParen,
            TokenKind::LeftBrace,
            TokenKind::RightBrace,
            TokenKind::LeftBracket,
            TokenKind::RightBracket,
            TokenKind::Comma,
            TokenKind::Dot,
            TokenKind::Minus,
            TokenKind::Plus,
            TokenKind::Semicolon,
            TokenKind::Star,
            TokenKind::Slash,
            TokenKind::Eof,
        ]
    );
}

#[test]
fn one_and_two_character_operators() {
    assert_eq!(
        kinds("!!====>>=<<=&&&|||"),
        vec![
            TokenKind::Bang,
            TokenKind::BangEqual,
            TokenKind::EqualEqual,
            TokenKind::Equal,
            TokenKind::Greater,
            TokenKind::GreaterEqual,
            TokenKind::Less,
            TokenKind::LessEqual,
            TokenKind::AmpersandAmpersand,
            TokenKind::Ampersand,
            TokenKind::BarBar,
            TokenKind::Bar,
            TokenKind::Eof,
        ]
    );
}

#[test]
fn lookahead_does_not_consume_on_mismatch() {
    let tokens = Lexer::new(b"!1<a").tokenize().unwrap();
    assert_eq!(
        tokens,
        vec![
            tok(TokenKind::Bang, None, 1, 1),
            tok(TokenKind::Num, Some("1"), 1, 2),
            tok(TokenKind::Less, None, 1, 3),
            tok(TokenKind::Identifier, Some("a"), 1, 4),
            tok(TokenKind::Eof, None, 1, 5),
        ]
    );
    assert_eq!(kinds("="), vec![TokenKind::Equal, TokenKind::Eof]);
}

#[test]
fn comment_runs_to_the_end_of_the_line() {
    let tokens = Lexer::new(b"1 // one\n/2//").tokenize().unwrap();
    assert_eq!(
        tokens,
        vec![
            tok(TokenKind::Num, Some("1"), 1, 1),
            tok(TokenKind::Whitespace, None, 1, 2),
            tok(TokenKind::Comment, None, 1, 3),
            tok(TokenKind::Whitespace, None, 1, 9),
            tok(TokenKind::Slash, None, 2, 1),
            tok(TokenKind::Num, Some("2"), 2, 2),
            tok(TokenKind::Comment, None, 2, 3),
            tok(TokenKind::Eof, None, 2, 5),
        ]
    );
}

#[test]
fn whitespace_run_is_one_token_and_moves_the_position() {
    let tokens = Lexer::new(b"a \t\r\n\n  b").tokenize().unwrap();
    assert_eq!(
        tokens,
        vec![
            tok(TokenKind::Identifier, Some("a"), 1, 1),
            tok(TokenKind::Whitespace, None, 1, 2),
            tok(TokenKind::Identifier, Some("b"), 3, 3),
            tok(TokenKind::Eof, None, 3, 4),
        ]
    );
    assert_eq!(kinds("\x0c"), vec![TokenKind::Whitespace, TokenKind::Eof]);
}

#[test]
fn string_payload_is_the_text_between_the_quotes() {
    let tokens = Lexer::new(b"\"abc\" \"\"").tokenize().unwrap();
    assert_eq!(
        tokens,
        vec![
            tok(TokenKind::Str, Some("abc"), 1, 1),
            tok(TokenKind::Whitespace, None, 1, 6),
            tok(TokenKind::Str, Some(""), 1, 7),
            tok(TokenKind::Eof, None, 1, 9),
        ]
    );
}

#[test]
fn string_payload_is_decoded_text() {
    let source = "\"h\u{e9}llo \u{1F600}\"";
    let tokens = Lexer::new(source.as_bytes()).tokenize().unwrap();
    assert_eq!(tokens[0], tok(TokenKind::Str, Some("h\u{e9}llo \u{1F600}"), 1, 1));
    assert_eq!(tokens[0].literal.as_ref().map(|s| s.chars().count()), Some(7));
    assert_eq!(tokens[1].kind, TokenKind::Eof);
}

#[test]
fn escaped_quote_does_not_close_a_string() {
    let tokens = Lexer::new(b"\"a\\\"b\"+").tokenize().unwrap();
    assert_eq!(
        tokens,
        vec![
            tok(TokenKind::Str, Some("a\\\"b"), 1, 1),
            tok(TokenKind::Plus, None, 1, 7),
            tok(TokenKind::Eof, None, 1, 8),
        ]
    );
    let tokens = Lexer::new(b"\"a\\\\\"").tokenize().unwrap();
    assert_eq!(tokens[0], tok(TokenKind::Str, Some("a\\\\"), 1, 1));
    let err = Lexer::new(b"\"a\\\"").tokenize().expect_err("the quote is escaped");
    assert_eq!(err.get(0).kind, LexErrorKind::UnterminatedString);
    let err = Lexer::new(b"\"a\\").tokenize().expect_err("open");
    assert_eq!(err.get(0).kind, LexErrorKind::UnterminatedString);
}

#[test]
fn string_spans_lines() {
    let tokens = Lexer::new(b"\"a\nb\" c").tokenize().unwrap();
    assert_eq!(tokens[0], tok(TokenKind::Str, Some("a\nb"), 1, 1));
    assert_eq!(tokens[2], tok(TokenKind::Identifier, Some("c"), 2, 4));
}

#[test]
fn string_with_invalid_encoding_is_an_error_at_the_quote() {
    let source: [u8; 6] = [b'1', b' ', b'"', 0xff, b'"', b'2'];
    let (tokens, errors) = Lexer::new(&source).scan();
    assert_eq!(
        errors_of(&errors),
        vec![ParseTokenError { kind: LexErrorKind::InvalidLiteralEncoding, line: 1, col: 3 }]
    );
    assert_eq!(
        tokens,
        vec![
            tok(TokenKind::Num, Some("1"), 1, 1),
            tok(TokenKind::Whitespace, None, 1, 2),
            tok(TokenKind::Num, Some("2"), 1, 6),
            tok(TokenKind::Eof, None, 1, 7),
        ]
    );
    assert!(Lexer::new(&source).tokenize().is_err());
}

#[test]
fn byte_outside_ascii_is_an_unknown_character() {
    let source: [u8; 2] = [0xc3, 0xa9];
    let err = Lexer::new(&source).tokenize().expect_err("no lexeme starts so");
    assert_eq!(
        errors_of(&err),
        vec![
            ParseTokenError { kind: LexErrorKind::UnknownCharacter(0xc3), line: 1, col: 1 },
            ParseTokenError { kind: LexErrorKind::UnknownCharacter(0xa9), line: 1, col: 2 },
        ]
    );
}

#[test]
fn numbers() {
    let tokens = Lexer::new(b"12 3.25 4. .5 6.7.8").tokenize().unwrap();
    let significant: Vec<Token> =
        tokens.into_iter().filter(|t| t.kind != TokenKind::Whitespace).collect();
    assert_eq!(
        significant,
        vec![
            tok(TokenKind::Num, Some("12"), 1, 1),
            tok(TokenKind::Num, Some("3.25"), 1, 4),
            tok(TokenKind::Num, Some("4"), 1, 9),
            tok(TokenKind::Dot, None, 1, 10),
            tok(TokenKind::Dot, None, 1, 12),
            tok(TokenKind::Num, Some("5"), 1, 13),
            tok(TokenKind::Num, Some("6.7"), 1, 15),
            tok(TokenKind::Dot, None, 1, 18),
            tok(TokenKind::Num, Some("8"), 1, 19),
            tok(TokenKind::Eof, None, 1, 20),
        ]
    );
}

#[test]
fn identifiers_take_the_longest_run() {
    let tokens = Lexer::new(b"_a1b2+letter").tokenize().unwrap();
    assert_eq!(
        tokens,
        vec![
            tok(TokenKind::Identifier, Some("_a1b2"), 1, 1),
            tok(TokenKind::Plus, None, 1, 6),
            tok(TokenKind::Identifier, Some("letter"), 1, 7),
            tok(TokenKind::Eof, None, 1, 13),
        ]
    );
}

#[test]
fn keywords_are_matched_exactly() {
    let words = [
        ("const", TokenKind::Const),
        ("let", TokenKind::Let),
        ("true", TokenKind::True),
        ("false", TokenKind::False),
        ("fn", TokenKind::Function),
        ("return", TokenKind::Return),
        ("for", TokenKind::For),
        ("if", TokenKind::If),
        ("else", TokenKind::Else),
        ("type", TokenKind::Type),
        ("import", TokenKind::Import),
        ("from", TokenKind::From),
        ("export", TokenKind::Export),
        ("print", TokenKind::Print),
    ];
    for (word, kind) in words {
        let tokens = Lexer::new(word.as_bytes()).tokenize().unwrap();
        assert_eq!(tokens[0], tok(kind, Some(word), 1, 1));
        assert_eq!(lookup_keyword(&word.to_string()), Some(kind));
        let longer = format!("{}s", word);
        let tokens = Lexer::new(longer.as_bytes()).tokenize().unwrap();
        assert_eq!(tokens[0], tok(TokenKind::Identifier, Some(&longer), 1, 1));
        let upper = word.to_uppercase();
        let tokens = Lexer::new(upper.as_bytes()).tokenize().unwrap();
        assert_eq!(tokens[0], tok(TokenKind::Identifier, Some(&upper), 1, 1));
    }
    assert_eq!(lookup_keyword(&"lets".to_string()), None);
}

#[test]
fn byte_classes() {
    for b in 0u8..=255 {
        assert_eq!(is_digit(b), b.is_ascii_digit());
        assert_eq!(is_identifier_start(b), b.is_ascii_alphabetic() || b == b'_');
        assert_eq!(is_identifier_char(b), b.is_ascii_alphanumeric() || b == b'_');
        assert_eq!(is_whitespace(b), b.is_ascii_whitespace());
    }
}

#[test]
fn error_collection_keeps_the_order_of_additions() {
    let mut errors = LexerError::new();
    assert!(errors.is_empty());
    assert_eq!(errors.len(), 0);
    let first = ParseTokenError::new(LexErrorKind::UnterminatedString, 3, 4);
    let second = ParseTokenError::new(LexErrorKind::UnknownCharacter(b'?'), 5, 6);
    errors.add(first);
    errors.add(second);
    assert_eq!(errors.len(), 2);
    assert_eq!(errors.get(0), first);
    assert_eq!(errors.get(1), second);
    assert_eq!((first.line, first.col), (3, 4));
}

#[test]
fn token_text() {
    assert_eq!(tok(TokenKind::LeftBrace, None, 1, 1).to_string(), "{");
    assert_eq!(tok(TokenKind::RightBrace, None, 1, 1).to_string(), "}");
    assert_eq!(tok(TokenKind::LessEqual, None, 1, 1).to_string(), "<=");
    assert_eq!(tok(TokenKind::BarBar, None, 1, 1).to_string(), "||");
    assert_eq!(tok(TokenKind::Function, Some("fn"), 1, 1).to_string(), "fn");
    assert_eq!(tok(TokenKind::Identifier, Some("name"), 1, 1).to_string(), "name");
    assert_eq!(tok(TokenKind::Str, Some("a b"), 1, 1).to_string(), "a b");
    assert_eq!(tok(TokenKind::Num, Some("1.5"), 1, 1).to_string(), "1.5");
    assert_eq!(tok(TokenKind::Num, None, 1, 1).to_string(), "");
    assert_eq!(tok(TokenKind::Whitespace, None, 1, 1).to_string(), " ");
    assert_eq!(tok(TokenKind::Comment, Some(" note"), 1, 1).to_string(), "// note");
    assert_eq!(tok(TokenKind::Comment, None, 1, 1).to_string(), "//");
    assert_eq!(tok(TokenKind::Eof, None, 1, 1).to_string(), "");
    let t = tok(TokenKind::Str, Some("x"), 7, 9);
    assert_eq!(t.duplicate(), t);
    assert_eq!(Token::new(TokenKind::Str, Some("x".to_string()), 7, 9), t);
}
