use super::expression::{ExprModel, Expression};
use super::grammar::{
    fold_level, level_operators, level_rank, literal_kinds, matches_any,
    parse_error_text, parse_expression, parse_level, parse_operand, parse_primary, parse_unary, significant,
    unary_operators, Level, ParseErrorModel, Parsed, MAX_DEPTH,
};
use crate::lexer::token::{
    kind_str, token_models, well_formed, Token, TokenKind, TokenModel,
};
use crate::message::append_position;
use vstd::prelude::*;

verus! {

/// Why a parse failed, with the position of the token at which it failed.
#[derive(Debug, PartialEq)]
pub enum ParseError {
    /// A token of kind `expected` was required where `found` stands.
    ExpectedToken { expected: TokenKind, found: Token, line: u32, col: u32 },
    /// No expression can start with `found`.
    UnexpectedToken { found: Token, line: u32, col: u32 },
    /// Prefix operators and parentheses are nested deeper than the parser
    /// follows them.
    ExpressionTooDeep { line: u32, col: u32 },
}

impl View for ParseError {
    type V = ParseErrorModel;

    open spec fn view(&self) -> ParseErrorModel {
        match self {
            ParseError::ExpectedToken { expected, found, line, col } => {
                ParseErrorModel::ExpectedToken {
                    expected: *expected,
                    found: found@,
                    line: *line as int,
                    col: *col as int,
                }
            },
            ParseError::UnexpectedToken { found, line, col } => ParseErrorModel::UnexpectedToken {
                found: found@,
                line: *line as int,
                col: *col as int,
            },
            ParseError::ExpressionTooDeep { line, col } => ParseErrorModel::ExpressionTooDeep {
                line: *line as int,
                col: *col as int,
            },
        }
    }
}

impl ParseError {
    /// The message of the error: what was expected or found, and where.
    pub fn to_string(&self) -> (s: String)
        ensures
            s@ == parse_error_text(self@),
    {
        match self {
            ParseError::ExpectedToken { expected, found, line, col } => {
                let mut s = "Expected \"".to_owned();
                let found_text = found.to_string();
                s.append(kind_str(*expected));
                s.append("\" but found \"");
                s.append(found_text.as_str());
                s.append("\"");
                append_position(&mut s, *line, *col);
                assert(s@ =~= parse_error_text(self@));
                s
            },
            ParseError::UnexpectedToken { found, line, col } => {
                let mut s = "Unexpected token \"".to_owned();
                let found_text = found.to_string();
                s.append(found_text.as_str());
                s.append("\"");
                append_position(&mut s, *line, *col);
                assert(s@ =~= parse_error_text(self@));
                s
            },
            ParseError::ExpressionTooDeep { line, col } => {
                let mut s = "Expression nested too deeply".to_owned();
                append_position(&mut s, *line, *col);
                s
            },
        }
    }
}

/// The mathematical value of the result of a parse.
pub open spec fn result_model(r: Result<Expression, ParseError>) -> Result<
    ExprModel,
    ParseErrorModel,
> {
    match r {
        Ok(e) => Ok(e@),
        Err(e) => Err(e@),
    }
}

/// The operators of `level`.
pub fn operators_of(level: Level) -> (kinds: Vec<TokenKind>)
    ensures
        kinds@ == level_operators(level),
{
    let kinds = match level {
        Level::Equality => vec![TokenKind::BangEqual, TokenKind::EqualEqual],
        Level::Comparison => vec![
            TokenKind::Greater,
            TokenKind::GreaterEqual,
            TokenKind::Less,
            TokenKind::LessEqual,
        ],
        Level::Term => vec![TokenKind::Minus, TokenKind::Plus],
        Level::Factor => vec![TokenKind::Slash, TokenKind::Star],
    };
    assert(kinds@ =~= level_operators(level));
    kinds
}

/// A recursive-descent parser over the tokens that the grammar sees, with a
/// cursor that never moves past the sentinel.
pub struct Parser {
    tokens: Vec<Token>,
    current: usize,
}

impl Parser {
    /// The tokens that the parser reads: those it was made with, without
    /// whitespace and comments.
    pub closed spec fn tokens(&self) -> Seq<TokenModel> {
        token_models(self.tokens@)
    }

    /// The index of the token that is read next.
    pub closed spec fn position(&self) -> int {
        self.current as int
    }

    /// The stream ends with the sentinel and the cursor is on a token.
    pub closed spec fn wf(&self) -> bool {
        well_formed(self.tokens()) && self.current < self.tokens@.len()
    }

    /// The parser is well formed, reads the tokens that `before` reads, and
    /// stands where `outcome` stops with the result of `outcome`. A
    /// successful parse has read at least one token.
    pub open spec fn parsed(
        &self,
        before: &Parser,
        r: Result<Expression, ParseError>,
        outcome: Parsed,
    ) -> bool {
        &&& self.wf()
        &&& self.tokens() == before.tokens()
        &&& self.position() == outcome.next
        &&& result_model(r) == outcome.result
        &&& r is Ok ==> self.position() > before.position()
    }

    /// A parser at the start of `tokens`, which must end with the sentinel.
    /// Whitespace and comments are dropped here and never reach the grammar.
    pub fn new(tokens: Vec<Token>) -> (parser: Self)
        requires
            well_formed(token_models(tokens@)),
        ensures
            parser.wf(),
            parser.tokens() == significant(token_models(tokens@)),
            parser.position() == 0,
    {
        let mut kept: Vec<Token> = Vec::new();
        let mut i: usize = 0;
        let ghost all = token_models(tokens@);
        while i < tokens.len()
            invariant
                i <= tokens@.len(),
                all == token_models(tokens@),
                token_models(kept@) == significant(all.take(i as int)),
            decreases tokens@.len() - i,
        {
            let ghost before = token_models(kept@);
            assert(all.take(i + 1).drop_last() =~= all.take(i as int));
            assert(all.take(i + 1).last() == tokens@[i as int]@);
            let kind = tokens[i].kind;
            if kind != TokenKind::Whitespace && kind != TokenKind::Comment {
                kept.push(tokens[i].duplicate());
                assert(token_models(kept@) =~= before.push(tokens@[i as int]@));
            }
            i = i + 1;
        }
        assert(all.take(i as int) =~= all);
        Parser { tokens: kept, current: 0 }
    }

    /// The token under the cursor.
    pub fn peek(&self) -> (t: &Token)
        requires
            self.wf(),
        ensures
            t@ == self.tokens()[self.position()],
    {
        &self.tokens[self.current]
    }

    /// The token before the cursor.
    pub fn previous(&self) -> (t: &Token)
        requires
            self.wf(),
            self.position() > 0,
        ensures
            t@ == self.tokens()[self.position() - 1],
    {
        &self.tokens[self.current - 1]
    }

    /// Whether the cursor is on the sentinel.
    pub fn at_eof(&self) -> (r: bool)
        requires
            self.wf(),
        ensures
            r == (self.tokens()[self.position()].kind == TokenKind::Eof),
    {
        self.peek().kind == TokenKind::Eof
    }

    /// Whether the token under the cursor is of `token_kind` and not the
    /// sentinel.
    pub fn check(&self, token_kind: TokenKind) -> (r: bool)
        requires
            self.wf(),
        ensures
            r == (token_kind != TokenKind::Eof && self.tokens()[self.position()].kind
                == token_kind),
    {
        if self.at_eof() {
            return false;
        }
        self.peek().kind == token_kind
    }

    /// Moves the cursor over one token, unless it is on the sentinel.
    pub fn advance(&mut self)
        requires
            old(self).wf(),
        ensures
            final(self).wf(),
            final(self).tokens() == old(self).tokens(),
            final(self).position() == if old(self).tokens()[old(self).position()].kind
                == TokenKind::Eof {
                old(self).position()
            } else {
                old(self).position() + 1
            },
    {
        let len = self.tokens.len();
        if !self.at_eof() {
            assert(self.tokens().last() == self.tokens@[len - 1]@);
            self.current = self.current + 1;
        }
    }

    /// Moves the cursor over the token under it if that token is of one of
    /// `token_kinds`, and tells whether it did.
    pub fn match_token_kinds(&mut self, token_kinds: Vec<TokenKind>) -> (matched: bool)
        requires
            old(self).wf(),
        ensures
            final(self).wf(),
            final(self).tokens() == old(self).tokens(),
            matched == matches_any(old(self).tokens(), old(self).position(), token_kinds@),
            final(self).position() == old(self).position() + if matched {
                1int
            } else {
                0int
            },
    {
        let mut i: usize = 0;
        while i < token_kinds.len()
            invariant
                self.wf(),
                *self == *old(self),
                i <= token_kinds@.len(),
                forall|k: int|
                    0 <= k < i ==> !(token_kinds@[k] != TokenKind::Eof && self.tokens()[self.position()].kind
                        == #[trigger] token_kinds@[k]),
            decreases token_kinds@.len() - i,
        {
            if self.check(token_kinds[i]) {
                self.advance();
                return true;
            }
            i = i + 1;
        }
        false
    }

    /// Parses one expression from the cursor on.
    pub fn parse(&mut self) -> (r: Result<Expression, ParseError>)
        requires
            old(self).wf(),
        ensures
            final(self).parsed(
                old(self),
                r,
                parse_expression(old(self).tokens(), old(self).position(), 0),
            ),
    {
        self.expression(0)
    }

    fn expression(&mut self, depth: usize) -> (r: Result<Expression, ParseError>)
        requires
            old(self).wf(),
            depth <= MAX_DEPTH,
        ensures
            final(self).parsed(
                old(self),
                r,
                parse_expression(old(self).tokens(), old(self).position(), depth as nat),
            ),
        decreases MAX_DEPTH - depth, 20int, old(self).tokens().len() - old(self).position(),
    {
        self.equality_or_higher(depth)
    }

    fn equality_or_higher(&mut self, depth: usize) -> (r: Result<Expression, ParseError>)
        requires
            old(self).wf(),
            depth <= MAX_DEPTH,
        ensures
            final(self).parsed(
                old(self),
                r,
                parse_level(old(self).tokens(), old(self).position(), depth as nat, Level::Equality),
            ),
        decreases MAX_DEPTH - depth, 19int, old(self).tokens().len() - old(self).position(),
    {
        self.binary_level(Level::Equality, depth)
    }

    fn comparison_or_higher(&mut self, depth: usize) -> (r: Result<Expression, ParseError>)
        requires
            old(self).wf(),
            depth <= MAX_DEPTH,
        ensures
            final(self).parsed(
                old(self),
                r,
                parse_level(
                    old(self).tokens(),
                    old(self).position(),
                    depth as nat,
                    Level::Comparison,
                ),
            ),
        decreases MAX_DEPTH - depth, 15int, old(self).tokens().len() - old(self).position(),
    {
        self.binary_level(Level::Comparison, depth)
    }

    fn term_or_higher(&mut self, depth: usize) -> (r: Result<Expression, ParseError>)
        requires
            old(self).wf(),
            depth <= MAX_DEPTH,
        ensures
            final(self).parsed(
                old(self),
                r,
                parse_level(old(self).tokens(), old(self).position(), depth as nat, Level::Term),
            ),
        decreases MAX_DEPTH - depth, 11int, old(self).tokens().len() - old(self).position(),
    {
        self.binary_level(Level::Term, depth)
    }

    fn factor_or_higher(&mut self, depth: usize) -> (r: Result<Expression, ParseError>)
        requires
            old(self).wf(),
            depth <= MAX_DEPTH,
        ensures
            final(self).parsed(
                old(self),
                r,
                parse_level(old(self).tokens(), old(self).position(), depth as nat, Level::Factor),
            ),
        decreases MAX_DEPTH - depth, 7int, old(self).tokens().len() - old(self).position(),
    {
        self.binary_level(Level::Factor, depth)
    }

    /// An operand of `level`: an expression of the next tighter level.
    fn operand(&mut self, level: Level, depth: usize) -> (r: Result<Expression, ParseError>)
        requires
            old(self).wf(),
            depth <= MAX_DEPTH,
        ensures
            final(self).parsed(
                old(self),
                r,
                parse_operand(old(self).tokens(), old(self).position(), depth as nat, level),
            ),
        decreases MAX_DEPTH - depth, 4 * (4 - level_rank(level)),
            old(self).tokens().len() - old(self).position(),
    {
        match level {
            Level::Equality => self.comparison_or_higher(depth),
            Level::Comparison => self.term_or_higher(depth),
            Level::Term => self.factor_or_higher(depth),
            Level::Factor => self.unary_or_higher(depth),
        }
    }

    /// An expression of `level` or tighter: operands joined from the left
    /// by the operators of the level.
    fn binary_level(&mut self, level: Level, depth: usize) -> (r: Result<Expression, ParseError>)
        requires
            old(self).wf(),
            depth <= MAX_DEPTH,
        ensures
            final(self).parsed(
                old(self),
                r,
                parse_level(old(self).tokens(), old(self).position(), depth as nat, level),
            ),
        decreases MAX_DEPTH - depth, 4 * (4 - level_rank(level)) + 2,
            old(self).tokens().len() - old(self).position(),
    {
        let mut expr = match self.operand(level, depth) {
            Ok(first) => first,
            Err(e) => {
                return Err(e);
            },
        };

        loop
            invariant
                self.wf(),
                depth <= MAX_DEPTH,
                self.tokens() == old(self).tokens(),
                self.position() > old(self).position(),
                fold_level(self.tokens(), self.position(), depth as nat, level, expr@)
                    == parse_level(old(self).tokens(), old(self).position(), depth as nat, level),
            decreases self.tokens().len() - self.position(),
        {
            if !self.match_token_kinds(operators_of(level)) {
                return Ok(expr);
            }
            let op = self.previous().duplicate();
            let right = match self.operand(level, depth) {
                Ok(right) => right,
                Err(e) => {
                    return Err(e);
                },
            };
            expr = Expression::new_binary(Box::new(expr), op, Box::new(right));
        }
    }

    fn unary_or_higher(&mut self, depth: usize) -> (r: Result<Expression, ParseError>)
        requires
            old(self).wf(),
            depth <= MAX_DEPTH,
        ensures
            final(self).parsed(
                old(self),
                r,
                parse_unary(old(self).tokens(), old(self).position(), depth as nat),
            ),
        decreases MAX_DEPTH - depth, 2int, old(self).tokens().len() - old(self).position(),
    {
        let operators = vec![TokenKind::Bang, TokenKind::Minus];
        assert(operators@ =~= unary_operators());
        if self.match_token_kinds(operators) {
            let op = self.previous().duplicate();
            if depth >= MAX_DEPTH {
                return Err(ParseError::ExpressionTooDeep { line: op.line, col: op.col });
            }
            return match self.unary_or_higher(depth + 1) {
                Ok(right) => Ok(Expression::new_unary(op, Box::new(right))),
                Err(e) => Err(e),
            };
        }
        self.primary(depth)
    }

    fn primary(&mut self, depth: usize) -> (r: Result<Expression, ParseError>)
        requires
            old(self).wf(),
            depth <= MAX_DEPTH,
        ensures
            final(self).parsed(
                old(self),
                r,
                parse_primary(old(self).tokens(), old(self).position(), depth as nat),
            ),
        decreases MAX_DEPTH - depth, 1int, old(self).tokens().len() - old(self).position(),
    {
        let literals = vec![TokenKind::False, TokenKind::True, TokenKind::Num, TokenKind::Str];
        assert(literals@ =~= literal_kinds());
        let open_paren = vec![TokenKind::LeftParen];
        assert(open_paren@ =~= seq![TokenKind::LeftParen]);
        if self.match_token_kinds(literals) {
            Ok(Expression::new_literal(self.previous().duplicate()))
        } else if self.match_token_kinds(open_paren) {
            let open = self.previous();
            if depth >= MAX_DEPTH {
                return Err(ParseError::ExpressionTooDeep { line: open.line, col: open.col });
            }
            let inner = match self.expression(depth + 1) {
                Ok(inner) => inner,
                Err(e) => {
                    return Err(e);
                },
            };
            match self.consume(TokenKind::RightParen) {
                Ok(()) => Ok(Expression::new_grouping(Box::new(inner))),
                Err(e) => Err(e),
            }
        } else {
            let found = self.peek().duplicate();
            Err(ParseError::UnexpectedToken { line: found.line, col: found.col, found })
        }
    }

    /// Moves the cursor over a token of `token_kind`, or fails on the token
    /// that stands there instead.
    pub fn consume(&mut self, token_kind: TokenKind) -> (r: Result<(), ParseError>)
        requires
            old(self).wf(),
        ensures
            final(self).wf(),
            final(self).tokens() == old(self).tokens(),
            r is Ok <==> matches_any(old(self).tokens(), old(self).position(), seq![token_kind]),
            r is Ok ==> final(self).position() == old(self).position() + 1,
            r matches Err(e) ==> final(self).position() == old(self).position() && e@ == (
            ParseErrorModel::ExpectedToken {
                expected: token_kind,
                found: old(self).tokens()[old(self).position()],
                line: old(self).tokens()[old(self).position()].line,
                col: old(self).tokens()[old(self).position()].col,
            }),
    {
        let kinds = vec![token_kind];
        assert(kinds@ =~= seq![token_kind]);
        if self.match_token_kinds(kinds) {
            Ok(())
        } else {
            let found = self.peek().duplicate();
            Err(
                ParseError::ExpectedToken {
                    expected: token_kind,
                    line: found.line,
                    col: found.col,
                    found,
                },
            )
        }
    }
}

} // verus!
