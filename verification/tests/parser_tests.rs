use lightscript::lexer::{Lexer, Token, TokenKind};
use lightscript::parser::{Expression, ParseError, Parser, MAX_DEPTH};

fn tok(kind: TokenKind, literal: Option<&str>, col: u32) -> Token {
    Token { kind, literal: literal.map(|s| s.to_string()), line: 1, col }
}

fn num(text: &str, col: u32) -> Box<Expression> {
    Box::new(Expression::Literal { lit: tok(TokenKind::Num, Some(text), col) })
}

fn binary(left: Box<Expression>, kind: TokenKind, col: u32, right: Box<Expression>) -> Box<Expression> {
    Box::new(Expression::Binary { left, op: tok(kind, None, col), right })
}

fn parse(source: &str) -> Result<Expression, ParseError> {
    let tokens = Lexer::new(source.as_bytes()).tokenize().expect("no lexical error");
    Parser::new(tokens).parse()
}

fn text(source: &str) -> String {
    parse(source).expect("no parse error").to_string()
}

#[test]
fn expression_prints() {
    let expr = Expression::Unary {
        op: Token {
            kind: TokenKind::Minus,
            col: 1,
            line: 1,
            literal: Some("-".to_string()),
        },
        right: Box::new(Expression::Literal {
            lit: Token {
                kind: TokenKind::Num,
                col: 2,
                line: 1,
                literal: Some("1".to_string()),
            },
        }),
    };
    println!("{}", expr.to_string());
    assert_eq!(expr.to_string(), "-1".to_string());
}

#[test]
fn multiplication_binds_tighter_than_addition() {
    let tokens = vec![
        tok(TokenKind::Num, Some("1"), 1),
        tok(TokenKind::Plus, None, 2),
        tok(TokenKind::Num, Some("2"), 3),
        tok(TokenKind::Star, None, 4),
        tok(TokenKind::Num, Some("3"), 5),
        tok(TokenKind::Eof, None, 6),
    ];
    let expr = Parser::new(tokens).parse().unwrap();
    let expected =
        binary(num("1", 1), TokenKind::Plus, 2, binary(num("2", 3), TokenKind::Star, 4, num("3", 5)));
    assert_eq!(expr, *expected);
    assert_eq!(parse("1+2*3").unwrap(), *expected);
}

#[test]
fn unary_minus_binds_tighter_than_addition() {
    let expected = binary(
        Box::new(Expression::Unary { op: tok(TokenKind::Minus, None, 1), right: num("1", 2) }),
        TokenKind::Plus,
        3,
        num("2", 4),
    );
    assert_eq!(parse("-1+2").unwrap(), *expected);
}

#[test]
fn grouping_overrides_precedence() {
    let expected = binary(
        Box::new(Expression::Grouping {
            expr: binary(num("1", 2), TokenKind::Plus, 3, num("2", 4)),
        }),
        TokenKind::Star,
        6,
        num("3", 7),
    );
    assert_eq!(parse("(1+2)*3").unwrap(), *expected);
}

#[test]
fn rendering_of_a_parsed_tree() {
    assert_eq!(text("-1+2"), "-1 + 2");
    assert_eq!(text("(1+2)*3"), "(1 + 2) * 3");
    assert_eq!(text("1+2*3"), "1 + 2 * 3");
    assert_eq!(text("!true==false"), "!true == false");
    assert_eq!(text("\"a\"  !=  \"b c\""), "a != b c");
    assert_eq!(text("--1"), "--1");
    assert_eq!(text("((1))"), "((1))");
    assert_eq!(text("1<=2"), "1 <= 2");
}

#[test]
fn operators_of_one_level_join_from_the_left() {
    let expected =
        binary(binary(num("1", 1), TokenKind::Minus, 2, num("2", 3)), TokenKind::Plus, 4, num("3", 5));
    assert_eq!(parse("1-2+3").unwrap(), *expected);
    let expected =
        binary(binary(num("8", 1), TokenKind::Slash, 2, num("4", 3)), TokenKind::Star, 4, num("2", 5));
    assert_eq!(parse("8/4*2").unwrap(), *expected);
}

#[test]
fn levels_from_loosest_to_tightest() {
    // 1 == 2 < 3 + 4 * -5  is  1 == (2 < (3 + (4 * (-5))))
    let minus_five =
        Box::new(Expression::Unary { op: tok(TokenKind::Minus, None, 9), right: num("5", 10) });
    let product = binary(num("4", 7), TokenKind::Star, 8, minus_five);
    let sum = binary(num("3", 5), TokenKind::Plus, 6, product);
    let comparison = binary(num("2", 3), TokenKind::Less, 4, sum);
    let expected = binary(num("1", 1), TokenKind::EqualEqual, 2, comparison);
    // columns: 1 == 2 < 3 + 4 * - 5 written without spaces but for `==`
    let tokens = vec![
        tok(TokenKind::Num, Some("1"), 1),
        tok(TokenKind::EqualEqual, None, 2),
        tok(TokenKind::Num, Some("2"), 3),
        tok(TokenKind::Less, None, 4),
        tok(TokenKind::Num, Some("3"), 5),
        tok(TokenKind::Plus, None, 6),
        tok(TokenKind::Num, Some("4"), 7),
        tok(TokenKind::Star, None, 8),
        tok(TokenKind::Minus, None, 9),
        tok(TokenKind::Num, Some("5"), 10),
        tok(TokenKind::Eof, None, 11),
    ];
    assert_eq!(Parser::new(tokens).parse().unwrap(), *expected);
    assert_eq!(text("1*2+3>4!=5"), "1 * 2 + 3 > 4 != 5");
    let tree = parse("1!=2>3").unwrap();
    match tree {
        Expression::Binary { op, right, .. } => {
            assert_eq!(op.kind, TokenKind::BangEqual);
            assert!(matches!(*right, Expression::Binary { .. }));
        }
        _ => panic!("expected an infix expression"),
    }
}

#[test]
fn prefix_operators_nest_to_the_right() {
    let expected = Expression::Unary {
        op: tok(TokenKind::Bang, None, 1),
        right: Box::new(Expression::Unary {
            op: tok(TokenKind::Minus, None, 2),
            right: Box::new(Expression::Literal { lit: tok(TokenKind::True, Some("true"), 3) }),
        }),
    };
    assert_eq!(parse("!-true").unwrap(), expected);
}

#[test]
fn literals() {
    assert_eq!(
        parse("false").unwrap(),
        Expression::Literal { lit: tok(TokenKind::False, Some("false"), 1) }
    );
    assert_eq!(
        parse("\"s\"").unwrap(),
        Expression::Literal { lit: tok(TokenKind::Str, Some("s"), 1) }
    );
    assert_eq!(parse("2.5").unwrap(), *num("2.5", 1));
}

#[test]
fn whitespace_and_comments_never_reach_the_grammar() {
    let spaced = parse(" 1 // one\n +\t2 ").unwrap();
    match spaced {
        Expression::Binary { left, op, right } => {
            assert_eq!(left.to_string(), "1");
            assert_eq!(op.kind, TokenKind::Plus);
            assert_eq!((op.line, op.col), (2, 2));
            assert_eq!(right.to_string(), "2");
        }
        _ => panic!("expected an infix expression"),
    }
}

#[test]
fn missing_closing_parenthesis() {
    assert_eq!(
        parse("(1+2"),
        Err(ParseError::ExpectedToken {
            expected: TokenKind::RightParen,
            found: tok(TokenKind::Eof, None, 5),
            line: 1,
            col: 5,
        })
    );
    assert_eq!(
        parse("(1 2)"),
        Err(ParseError::ExpectedToken {
            expected: TokenKind::RightParen,
            found: tok(TokenKind::Num, Some("2"), 4),
            line: 1,
            col: 4,
        })
    );
}

#[test]
fn no_expression_starts_here() {
    assert_eq!(
        parse(""),
        Err(ParseError::UnexpectedToken { found: tok(TokenKind::Eof, None, 1), line: 1, col: 1 })
    );
    assert_eq!(
        parse("1+*"),
        Err(ParseError::UnexpectedToken { found: tok(TokenKind::Star, None, 3), line: 1, col: 3 })
    );
    assert_eq!(
        parse("()"),
        Err(ParseError::UnexpectedToken {
            found: tok(TokenKind::RightParen, None, 2),
            line: 1,
            col: 2,
        })
    );
    assert_eq!(
        parse("name"),
        Err(ParseError::UnexpectedToken {
            found: tok(TokenKind::Identifier, Some("name"), 1),
            line: 1,
            col: 1,
        })
    );
}

#[test]
fn nesting_is_followed_to_the_ceiling_and_no_further() {
    let at_ceiling = format!("{}1{}", "(".repeat(MAX_DEPTH), ")".repeat(MAX_DEPTH));
    assert!(parse(&at_ceiling).is_ok());
    let beyond = format!("{}1{}", "(".repeat(MAX_DEPTH + 1), ")".repeat(MAX_DEPTH + 1));
    let col = (MAX_DEPTH + 1) as u32;
    assert_eq!(parse(&beyond), Err(ParseError::ExpressionTooDeep { line: 1, col }));
    let minuses = format!("{}1", "-".repeat(MAX_DEPTH + 1));
    assert_eq!(parse(&minuses), Err(ParseError::ExpressionTooDeep { line: 1, col }));
    let mixed = format!("{}1", "-(".repeat(MAX_DEPTH / 2));
    assert!(matches!(parse(&mixed), Err(ParseError::ExpectedToken { .. })));
    let deep = "(".repeat(100_000);
    assert!(matches!(parse(&deep), Err(ParseError::ExpressionTooDeep { .. })));
}

#[test]
fn caller_parses_expression_by_expression() {
    let tokens = Lexer::new(b"1+2 (3) -4").tokenize().unwrap();
    let mut parser = Parser::new(tokens);
    let mut seen = Vec::new();
    while !parser.at_eof() {
        seen.push(parser.parse().unwrap().to_string());
    }
    assert_eq!(seen, vec!["1 + 2".to_string(), "(3) - 4".to_string()]);
}

#[test]
fn cursor_moves() {
    let tokens = Lexer::new(b"1 )").tokenize().unwrap();
    let mut parser = Parser::new(tokens);
    assert_eq!(parser.peek().kind, TokenKind::Num);
    assert!(parser.check(TokenKind::Num));
    assert!(!parser.check(TokenKind::Eof));
    assert!(!parser.match_token_kinds(vec![TokenKind::Plus, TokenKind::RightParen]));
    assert!(parser.match_token_kinds(vec![TokenKind::Plus, TokenKind::Num]));
    assert_eq!(parser.previous().kind, TokenKind::Num);
    assert_eq!(parser.peek().kind, TokenKind::RightParen);
    assert_eq!(parser.consume(TokenKind::RightParen), Ok(()));
    assert!(parser.at_eof());
    parser.advance();
    assert!(parser.at_eof());
    assert_eq!(parser.previous().kind, TokenKind::RightParen);
    assert!(!parser.match_token_kinds(vec![TokenKind::Eof]));
    assert!(matches!(
        parser.consume(TokenKind::RightParen),
        Err(ParseError::ExpectedToken { expected: TokenKind::RightParen, .. })
    ));
}

#[test]
fn constructors() {
    let one = Expression::new_literal(tok(TokenKind::Num, Some("1"), 1));
    assert_eq!(one, *num("1", 1));
    let two = Expression::new_literal(tok(TokenKind::Num, Some("2"), 3));
    let sum = Expression::new_binary(Box::new(one), tok(TokenKind::Plus, None, 2), Box::new(two));
    assert_eq!(sum, *binary(num("1", 1), TokenKind::Plus, 2, num("2", 3)));
    let group = Expression::new_grouping(Box::new(sum));
    assert_eq!(group.to_string(), "(1 + 2)");
    let negated = Expression::new_unary(tok(TokenKind::Bang, None, 1), Box::new(group));
    assert_eq!(negated.to_string(), "!(1 + 2)");
}

fn kinds_read(e: &Expression, out: &mut Vec<TokenKind>) {
    match e {
        Expression::Unary { op, right } => {
            out.push(op.kind);
            kinds_read(right, out);
        }
        Expression::Binary { left, op, right } => {
            kinds_read(left, out);
            out.push(op.kind);
            kinds_read(right, out);
        }
        Expression::Grouping { expr } => {
            out.push(TokenKind::LeftParen);
            kinds_read(expr, out);
            out.push(TokenKind::RightParen);
        }
        Expression::Literal { lit } => out.push(lit.kind),
    }
}

#[test]
fn tree_is_written_with_the_tokens_that_were_read() {
    for source in ["1", "-1+2", "(1+2)*3", "1 == 2 != !true", "((\"a\")) <= -(3 / 4) - 5", "1 2 3"] {
        let tokens = Lexer::new(source.as_bytes()).tokenize().unwrap();
        let seen: Vec<TokenKind> = tokens
            .iter()
            .map(|t| t.kind)
            .filter(|k| *k != TokenKind::Whitespace && *k != TokenKind::Comment)
            .collect();
        let mut parser = Parser::new(tokens);
        let mut read = Vec::new();
        while !parser.at_eof() {
            kinds_read(&parser.parse().unwrap(), &mut read);
        }
        read.push(TokenKind::Eof);
        assert_eq!(read, seen, "source {:?}", source);
    }
}
