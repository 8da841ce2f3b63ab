use super::expression::ExprModel;
use crate::lexer::token::{kind_text, token_text, well_formed, TokenKind, TokenModel};
use crate::message::position_text;
use vstd::prelude::*;

verus! {

/// The deepest nesting of prefix operators and parentheses that is parsed.
pub const MAX_DEPTH: usize = 128;

/// The levels of infix operators, from the loosest to the tightest.
#[derive(Debug, PartialEq, Eq, Clone, Copy, Structural)]
pub enum Level {
    Equality,
    Comparison,
    Term,
    Factor,
}

/// Why a parse failed, with the position of the token at which it failed.
pub ghost enum ParseErrorModel {
    ExpectedToken { expected: TokenKind, found: TokenModel, line: int, col: int },
    UnexpectedToken { found: TokenModel, line: int, col: int },
    ExpressionTooDeep { line: int, col: int },
}

/// The message of a parse error, on one line: what was expected or found,
/// and where.
pub open spec fn parse_error_text(e: ParseErrorModel) -> Seq<char> {
    match e {
        ParseErrorModel::ExpectedToken { expected, found, line, col } => "Expected \""@
            + kind_text(expected) + "\" but found \""@ + token_text(found) + "\""@
            + position_text(line, col),
        ParseErrorModel::UnexpectedToken { found, line, col } => "Unexpected token \""@
            + token_text(found) + "\""@ + position_text(line, col),
        ParseErrorModel::ExpressionTooDeep { line, col } => "Expression nested too deeply"@
            + position_text(line, col),
    }
}

/// The outcome of parsing from some index: the expression or the error, and
/// the index at which parsing stopped.
pub ghost struct Parsed {
    pub result: Result<ExprModel, ParseErrorModel>,
    pub next: int,
}

/// Whitespace and comments are transparent to the grammar.
pub open spec fn is_significant(kind: TokenKind) -> bool {
    kind != TokenKind::Whitespace && kind != TokenKind::Comment
}

/// The tokens of `ts` that the grammar sees, in order.
pub open spec fn significant(ts: Seq<TokenModel>) -> Seq<TokenModel>
    decreases ts.len(),
{
    if ts.len() == 0 {
        Seq::empty()
    } else if is_significant(ts.last().kind) {
        significant(ts.drop_last()).push(ts.last())
    } else {
        significant(ts.drop_last())
    }
}

/// The infix operators of a level.
pub open spec fn level_operators(level: Level) -> Seq<TokenKind> {
    match level {
        Level::Equality => seq![TokenKind::BangEqual, TokenKind::EqualEqual],
        Level::Comparison => seq![
            TokenKind::Greater,
            TokenKind::GreaterEqual,
            TokenKind::Less,
            TokenKind::LessEqual,
        ],
        Level::Term => seq![TokenKind::Minus, TokenKind::Plus],
        Level::Factor => seq![TokenKind::Slash, TokenKind::Star],
    }
}

/// The prefix operators.
pub open spec fn unary_operators() -> Seq<TokenKind> {
    seq![TokenKind::Bang, TokenKind::Minus]
}

/// The kinds of token that are a literal expression by themselves.
pub open spec fn literal_kinds() -> Seq<TokenKind> {
    seq![TokenKind::False, TokenKind::True, TokenKind::Num, TokenKind::Str]
}

/// The token at `pos` is not the sentinel and its kind is one of `kinds`.
pub open spec fn matches_any(ts: Seq<TokenModel>, pos: int, kinds: Seq<TokenKind>) -> bool {
    0 <= pos < ts.len() && ts[pos].kind != TokenKind::Eof && kinds.contains(ts[pos].kind)
}

/// How far a level is from the loosest one.
pub open spec fn level_rank(level: Level) -> int {
    match level {
        Level::Equality => 0,
        Level::Comparison => 1,
        Level::Term => 2,
        Level::Factor => 3,
    }
}

pub open spec fn too_deep(at: TokenModel, next: int) -> Parsed {
    Parsed {
        result: Err(ParseErrorModel::ExpressionTooDeep { line: at.line, col: at.col }),
        next,
    }
}

/// A whole expression from `pos` on, nested `depth` deep.
pub open spec fn parse_expression(ts: Seq<TokenModel>, pos: int, depth: nat) -> Parsed
    decreases MAX_DEPTH - depth, 15int, ts.len() - pos,
{
    parse_level(ts, pos, depth, Level::Equality)
}

/// An expression of `level` or tighter: one operand, then as many operators
/// of the level with their right operands as follow, joined from the left.
pub open spec fn parse_level(ts: Seq<TokenModel>, pos: int, depth: nat, level: Level) -> Parsed
    decreases MAX_DEPTH - depth, 3 * (4 - level_rank(level)) + 2, ts.len() - pos,
{
    let first = parse_operand(ts, pos, depth, level);
    match first.result {
        Ok(left) => fold_level(ts, first.next, depth, level, left),
        Err(_) => first,
    }
}

/// The rest of an expression of `level` whose operands up to `pos` have
/// been joined into `left`.
pub open spec fn fold_level(
    ts: Seq<TokenModel>,
    pos: int,
    depth: nat,
    level: Level,
    left: ExprModel,
) -> Parsed
    decreases MAX_DEPTH - depth, 3 * (4 - level_rank(level)) + 1, ts.len() - pos,
{
    if matches_any(ts, pos, level_operators(level)) {
        let rhs = parse_operand(ts, pos + 1, depth, level);
        match rhs.result {
            Ok(right) => if pos < rhs.next <= ts.len() {
                fold_level(
                    ts,
                    rhs.next,
                    depth,
                    level,
                    ExprModel::Binary { left: Box::new(left), op: ts[pos], right: Box::new(right) },
                )
            } else {
                rhs
            },
            Err(_) => rhs,
        }
    } else {
        Parsed { result: Ok(left), next: pos }
    }
}

/// An operand of `level`: an expression of the next tighter level, or a
/// prefix expression for the tightest.
pub open spec fn parse_operand(ts: Seq<TokenModel>, pos: int, depth: nat, level: Level) -> Parsed
    decreases MAX_DEPTH - depth, 3 * (4 - level_rank(level)), ts.len() - pos,
{
    match level {
        Level::Equality => parse_level(ts, pos, depth, Level::Comparison),
        Level::Comparison => parse_level(ts, pos, depth, Level::Term),
        Level::Term => parse_level(ts, pos, depth, Level::Factor),
        Level::Factor => parse_unary(ts, pos, depth),
    }
}

/// A prefix expression: a prefix operator before another prefix
/// expression, or a primary expression.
pub open spec fn parse_unary(ts: Seq<TokenModel>, pos: int, depth: nat) -> Parsed
    decreases MAX_DEPTH - depth, 2int, ts.len() - pos,
{
    if matches_any(ts, pos, unary_operators()) {
        if depth >= MAX_DEPTH {
            too_deep(ts[pos], pos + 1)
        } else {
            let inner = parse_unary(ts, pos + 1, depth + 1);
            match inner.result {
                Ok(right) => Parsed {
                    result: Ok(ExprModel::Unary { op: ts[pos], right: Box::new(right) }),
                    next: inner.next,
                },
                Err(_) => inner,
            }
        }
    } else {
        parse_primary(ts, pos, depth)
    }
}

/// A primary expression: a literal, or a whole expression in parentheses.
pub open spec fn parse_primary(ts: Seq<TokenModel>, pos: int, depth: nat) -> Parsed
    decreases MAX_DEPTH - depth, 1int, ts.len() - pos,
{
    if matches_any(ts, pos, literal_kinds()) {
        Parsed { result: Ok(ExprModel::Literal { lit: ts[pos] }), next: pos + 1 }
    } else if matches_any(ts, pos, seq![TokenKind::LeftParen]) {
        if depth >= MAX_DEPTH {
            too_deep(ts[pos], pos + 1)
        } else {
            let inner = parse_expression(ts, pos + 1, depth + 1);
            match inner.result {
                Ok(expr) => if matches_any(ts, inner.next, seq![TokenKind::RightParen]) {
                    Parsed {
                        result: Ok(ExprModel::Grouping { expr: Box::new(expr) }),
                        next: inner.next + 1,
                    }
                } else {
                    Parsed {
                        result: Err(
                            ParseErrorModel::ExpectedToken {
                                expected: TokenKind::RightParen,
                                found: ts[inner.next],
                                line: ts[inner.next].line,
                                col: ts[inner.next].col,
                            },
                        ),
                        next: inner.next,
                    }
                },
                Err(_) => inner,
            }
        }
    } else {
        Parsed {
            result: Err(
                ParseErrorModel::UnexpectedToken {
                    found: ts[pos],
                    line: ts[pos].line,
                    col: ts[pos].col,
                },
            ),
            next: pos,
        }
    }
}

/// A parse from `pos` that stops as `p` does has stayed before the end of
/// the stream, and has read at least one token if it succeeded.
pub open spec fn stops_within(ts: Seq<TokenModel>, pos: int, p: Parsed) -> bool {
    &&& pos <= p.next < ts.len()
    &&& p.result is Ok ==> pos < p.next
}

/// Parsing an expression never moves past the sentinel, and a successful
/// parse reads at least one token.
pub proof fn lemma_expression_stops_within(ts: Seq<TokenModel>, pos: int, depth: nat)
    requires
        well_formed(ts),
        0 <= pos < ts.len(),
        depth <= MAX_DEPTH,
    ensures
        stops_within(ts, pos, parse_expression(ts, pos, depth)),
    decreases MAX_DEPTH - depth, 15int, ts.len() - pos,
{
    lemma_level_stops_within(ts, pos, depth, Level::Equality);
}

/// The same for an expression of one level.
pub proof fn lemma_level_stops_within(ts: Seq<TokenModel>, pos: int, depth: nat, level: Level)
    requires
        well_formed(ts),
        0 <= pos < ts.len(),
        depth <= MAX_DEPTH,
    ensures
        stops_within(ts, pos, parse_level(ts, pos, depth, level)),
    decreases MAX_DEPTH - depth, 3 * (4 - level_rank(level)) + 2, ts.len() - pos,
{
    lemma_operand_stops_within(ts, pos, depth, level);
    let first = parse_operand(ts, pos, depth, level);
    match first.result {
        Ok(left) => {
            lemma_fold_stops_within(ts, first.next, depth, level, left);
        },
        Err(_) => {},
    }
}

/// Joining further operands never moves past the sentinel nor backwards,
/// and the test on the cursor in the definition never fails.
pub proof fn lemma_fold_stops_within(
    ts: Seq<TokenModel>,
    pos: int,
    depth: nat,
    level: Level,
    left: ExprModel,
)
    requires
        well_formed(ts),
        0 <= pos < ts.len(),
        depth <= MAX_DEPTH,
    ensures
        pos <= fold_level(ts, pos, depth, level, left).next < ts.len(),
    decreases MAX_DEPTH - depth, 3 * (4 - level_rank(level)) + 1, ts.len() - pos,
{
    if matches_any(ts, pos, level_operators(level)) {
        lemma_operand_stops_within(ts, pos + 1, depth, level);
        let rhs = parse_operand(ts, pos + 1, depth, level);
        match rhs.result {
            Ok(right) => {
                lemma_fold_stops_within(
                    ts,
                    rhs.next,
                    depth,
                    level,
                    ExprModel::Binary { left: Box::new(left), op: ts[pos], right: Box::new(right) },
                );
            },
            Err(_) => {},
        }
    }
}

/// The same for an operand of one level.
pub proof fn lemma_operand_stops_within(ts: Seq<TokenModel>, pos: int, depth: nat, level: Level)
    requires
        well_formed(ts),
        0 <= pos < ts.len(),
        depth <= MAX_DEPTH,
    ensures
        stops_within(ts, pos, parse_operand(ts, pos, depth, level)),
    decreases MAX_DEPTH - depth, 3 * (4 - level_rank(level)), ts.len() - pos,
{
    match level {
        Level::Equality => lemma_level_stops_within(ts, pos, depth, Level::Comparison),
        Level::Comparison => lemma_level_stops_within(ts, pos, depth, Level::Term),
        Level::Term => lemma_level_stops_within(ts, pos, depth, Level::Factor),
        Level::Factor => lemma_unary_stops_within(ts, pos, depth),
    }
}

/// The same for a prefix expression.
pub proof fn lemma_unary_stops_within(ts: Seq<TokenModel>, pos: int, depth: nat)
    requires
        well_formed(ts),
        0 <= pos < ts.len(),
        depth <= MAX_DEPTH,
    ensures
        stops_within(ts, pos, parse_unary(ts, pos, depth)),
    decreases MAX_DEPTH - depth, 2int, ts.len() - pos,
{
    if matches_any(ts, pos, unary_operators()) {
        if depth < MAX_DEPTH {
            lemma_unary_stops_within(ts, pos + 1, depth + 1);
        }
    } else {
        lemma_primary_stops_within(ts, pos, depth);
    }
}

/// The same for a primary expression.
pub proof fn lemma_primary_stops_within(ts: Seq<TokenModel>, pos: int, depth: nat)
    requires
        well_formed(ts),
        0 <= pos < ts.len(),
        depth <= MAX_DEPTH,
    ensures
        stops_within(ts, pos, parse_primary(ts, pos, depth)),
    decreases MAX_DEPTH - depth, 1int, ts.len() - pos,
{
    if !matches_any(ts, pos, literal_kinds()) && matches_any(ts, pos, seq![TokenKind::LeftParen])
        && depth < MAX_DEPTH {
        lemma_expression_stops_within(ts, pos + 1, depth + 1);
    }
}

/// Dropping whitespace and comments keeps the sentinel at the end.
pub proof fn lemma_significant_well_formed(ts: Seq<TokenModel>)
    requires
        well_formed(ts),
    ensures
        well_formed(significant(ts)),
{
}

/// The tokens that the grammar sees hold no whitespace and no comment, and
/// a stream without them is kept whole.
pub proof fn lemma_significant(ts: Seq<TokenModel>)
    ensures
        forall|i: int|
            0 <= i < significant(ts).len() ==> is_significant((#[trigger] significant(ts)[i]).kind),
        (forall|i: int| 0 <= i < ts.len() ==> is_significant((#[trigger] ts[i]).kind))
            ==> significant(ts) == ts,
    decreases ts.len(),
{
    if ts.len() > 0 {
        lemma_significant(ts.drop_last());
        if forall|i: int| 0 <= i < ts.len() ==> is_significant((#[trigger] ts[i]).kind) {
            assert forall|i: int| 0 <= i < ts.drop_last().len() implies is_significant(
                (#[trigger] ts.drop_last()[i]).kind,
            ) by {
                assert(ts.drop_last()[i] == ts[i]);
            }
            assert(ts.drop_last().push(ts.last()) =~= ts);
        }
    }
}

} // verus!
