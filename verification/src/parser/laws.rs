use super::expression::ExprModel;
use super::grammar::{
    fold_level, lemma_expression_stops_within, lemma_operand_stops_within,
    lemma_unary_stops_within, level_operators, level_rank, literal_kinds, matches_any,
    parse_expression, parse_level, parse_operand, parse_primary, parse_unary, unary_operators,
    Level, Parsed, MAX_DEPTH,
};
use crate::lexer::token::{well_formed, TokenKind, TokenModel};
use vstd::prelude::*;

verus! {

/// The kinds of the tokens that an expression is written with, from left to
/// right. A grouping is written with its two parentheses.
pub open spec fn kinds_read(e: ExprModel) -> Seq<TokenKind>
    decreases e,
{
    match e {
        ExprModel::Unary { op, right } => seq![op.kind] + kinds_read(*right),
        ExprModel::Binary { left, op, right } => kinds_read(*left) + seq![op.kind] + kinds_read(
            *right,
        ),
        ExprModel::Grouping { expr } => seq![TokenKind::LeftParen] + kinds_read(*expr)
            + seq![TokenKind::RightParen],
        ExprModel::Literal { lit } => seq![lit.kind],
    }
}

/// The kinds of the tokens of `ts` from index `from` up to `to`.
pub open spec fn kinds_between(ts: Seq<TokenModel>, from: int, to: int) -> Seq<TokenKind> {
    Seq::new((to - from) as nat, |i: int| ts[from + i].kind)
}

/// How tightly an infix operator binds: the rank of its level, or 4 for a
/// kind that is no infix operator.
pub open spec fn binding_rank(kind: TokenKind) -> int {
    match kind {
        TokenKind::BangEqual | TokenKind::EqualEqual => 0,
        TokenKind::Greater | TokenKind::GreaterEqual | TokenKind::Less | TokenKind::LessEqual => 1,
        TokenKind::Minus | TokenKind::Plus => 2,
        TokenKind::Slash | TokenKind::Star => 3,
        _ => 4,
    }
}

/// How tightly the outermost node of an expression binds: an infix
/// expression as its operator does, a prefix expression tighter than any
/// infix operator, and a literal or a grouping tightest.
pub open spec fn node_rank(e: ExprModel) -> int {
    match e {
        ExprModel::Binary { op, .. } => binding_rank(op.kind),
        ExprModel::Unary { .. } => 4,
        ExprModel::Grouping { .. } => 5,
        ExprModel::Literal { .. } => 5,
    }
}

/// Every node of the tree stands where precedence and associativity put
/// it: the left operand of an infix operator binds at least as tightly as
/// the operator and the right operand binds tighter, so that operators of
/// one level are joined from the left; the operand of a prefix operator is a
/// prefix expression or tighter; a literal is a literal token.
pub open spec fn respects_precedence(e: ExprModel) -> bool
    decreases e,
{
    match e {
        ExprModel::Binary { left, op, right } => {
            &&& binding_rank(op.kind) <= 3
            &&& node_rank(*left) >= binding_rank(op.kind)
            &&& node_rank(*right) > binding_rank(op.kind)
            &&& respects_precedence(*left)
            &&& respects_precedence(*right)
        },
        ExprModel::Unary { op, right } => {
            &&& op.kind == TokenKind::Bang || op.kind == TokenKind::Minus
            &&& node_rank(*right) >= 4
            &&& respects_precedence(*right)
        },
        ExprModel::Grouping { expr } => respects_precedence(*expr),
        ExprModel::Literal { lit } => {
            ||| lit.kind == TokenKind::False
            ||| lit.kind == TokenKind::True
            ||| lit.kind == TokenKind::Num
            ||| lit.kind == TokenKind::Str
        },
    }
}

/// A successful parse `p` from `pos` is faithful when its tree is written
/// with exactly the tokens from `pos` up to where the parse stopped,
/// respects precedence, and binds at least as tightly as `rank`.
pub open spec fn faithful(ts: Seq<TokenModel>, pos: int, p: Parsed, rank: int) -> bool {
    p.result matches Ok(e) ==> {
        &&& kinds_read(e) == kinds_between(ts, pos, p.next)
        &&& respects_precedence(e)
        &&& node_rank(e) >= rank
    }
}

/// The operators of a level are the kinds that bind with its rank, and the
/// prefix operators and the literal kinds are the kinds listed for them.
pub proof fn lemma_operator_kinds(level: Level, kind: TokenKind)
    ensures
        level_operators(level).contains(kind) <==> binding_rank(kind) == level_rank(level),
        unary_operators().contains(kind) <==> (kind == TokenKind::Bang || kind
            == TokenKind::Minus),
        literal_kinds().contains(kind) <==> (kind == TokenKind::False || kind == TokenKind::True
            || kind == TokenKind::Num || kind == TokenKind::Str),
{
    let equality = level_operators(Level::Equality);
    let comparison = level_operators(Level::Comparison);
    let term = level_operators(Level::Term);
    let factor = level_operators(Level::Factor);
    assert(equality[0] == TokenKind::BangEqual && equality[1] == TokenKind::EqualEqual);
    assert(comparison[0] == TokenKind::Greater && comparison[1] == TokenKind::GreaterEqual
        && comparison[2] == TokenKind::Less && comparison[3] == TokenKind::LessEqual);
    assert(term[0] == TokenKind::Minus && term[1] == TokenKind::Plus);
    assert(factor[0] == TokenKind::Slash && factor[1] == TokenKind::Star);
    assert(unary_operators()[0] == TokenKind::Bang && unary_operators()[1] == TokenKind::Minus);
    assert(literal_kinds()[0] == TokenKind::False && literal_kinds()[1] == TokenKind::True
        && literal_kinds()[2] == TokenKind::Num && literal_kinds()[3] == TokenKind::Str);
}

/// A parsed expression is faithful: it is written with exactly the tokens
/// that the parse read, and it respects precedence and associativity.
pub proof fn lemma_expression_is_faithful(ts: Seq<TokenModel>, pos: int, depth: nat)
    requires
        well_formed(ts),
        0 <= pos < ts.len(),
        depth <= MAX_DEPTH,
    ensures
        faithful(ts, pos, parse_expression(ts, pos, depth), 0),
    decreases MAX_DEPTH - depth, 15int, ts.len() - pos,
{
    lemma_level_is_faithful(ts, pos, depth, Level::Equality);
}

/// An expression of a level is faithful and binds at least as tightly as
/// the level.
pub proof fn lemma_level_is_faithful(ts: Seq<TokenModel>, pos: int, depth: nat, level: Level)
    requires
        well_formed(ts),
        0 <= pos < ts.len(),
        depth <= MAX_DEPTH,
    ensures
        faithful(ts, pos, parse_level(ts, pos, depth, level), level_rank(level)),
    decreases MAX_DEPTH - depth, 3 * (4 - level_rank(level)) + 2, ts.len() - pos,
{
    lemma_operand_stops_within(ts, pos, depth, level);
    lemma_operand_is_faithful(ts, pos, depth, level);
    let first = parse_operand(ts, pos, depth, level);
    match first.result {
        Ok(left) => {
            lemma_fold_is_faithful(ts, pos, first.next, depth, level, left);
        },
        Err(_) => {},
    }
}

/// Joining further operands to a faithful expression that started at
/// `start` gives a faithful expression.
pub proof fn lemma_fold_is_faithful(
    ts: Seq<TokenModel>,
    start: int,
    pos: int,
    depth: nat,
    level: Level,
    left: ExprModel,
)
    requires
        well_formed(ts),
        0 <= start <= pos < ts.len(),
        depth <= MAX_DEPTH,
        faithful(ts, start, Parsed { result: Ok(left), next: pos }, level_rank(level)),
    ensures
        faithful(ts, start, fold_level(ts, pos, depth, level, left), level_rank(level)),
    decreases MAX_DEPTH - depth, 3 * (4 - level_rank(level)) + 1, ts.len() - pos,
{
    if matches_any(ts, pos, level_operators(level)) {
        lemma_operator_kinds(level, ts[pos].kind);
        lemma_operand_stops_within(ts, pos + 1, depth, level);
        lemma_operand_is_faithful(ts, pos + 1, depth, level);
        let rhs = parse_operand(ts, pos + 1, depth, level);
        match rhs.result {
            Ok(right) => {
                let joined = ExprModel::Binary {
                    left: Box::new(left),
                    op: ts[pos],
                    right: Box::new(right),
                };
                assert(kinds_read(joined) =~= kinds_between(ts, start, rhs.next));
                lemma_fold_is_faithful(ts, start, rhs.next, depth, level, joined);
            },
            Err(_) => {},
        }
    }
}

/// An operand of a level is faithful and binds tighter than the level.
pub proof fn lemma_operand_is_faithful(ts: Seq<TokenModel>, pos: int, depth: nat, level: Level)
    requires
        well_formed(ts),
        0 <= pos < ts.len(),
        depth <= MAX_DEPTH,
    ensures
        faithful(ts, pos, parse_operand(ts, pos, depth, level), level_rank(level) + 1),
    decreases MAX_DEPTH - depth, 3 * (4 - level_rank(level)), ts.len() - pos,
{
    match level {
        Level::Equality => lemma_level_is_faithful(ts, pos, depth, Level::Comparison),
        Level::Comparison => lemma_level_is_faithful(ts, pos, depth, Level::Term),
        Level::Term => lemma_level_is_faithful(ts, pos, depth, Level::Factor),
        Level::Factor => lemma_unary_is_faithful(ts, pos, depth),
    }
}

/// A prefix expression is faithful and binds tighter than any infix
/// operator.
pub proof fn lemma_unary_is_faithful(ts: Seq<TokenModel>, pos: int, depth: nat)
    requires
        well_formed(ts),
        0 <= pos < ts.len(),
        depth <= MAX_DEPTH,
    ensures
        faithful(ts, pos, parse_unary(ts, pos, depth), 4),
    decreases MAX_DEPTH - depth, 2int, ts.len() - pos,
{
    lemma_operator_kinds(Level::Factor, ts[pos].kind);
    if matches_any(ts, pos, unary_operators()) {
        if depth < MAX_DEPTH {
            lemma_unary_stops_within(ts, pos + 1, depth + 1);
            lemma_unary_is_faithful(ts, pos + 1, depth + 1);
            let inner = parse_unary(ts, pos + 1, depth + 1);
            match inner.result {
                Ok(right) => {
                    let whole = ExprModel::Unary { op: ts[pos], right: Box::new(right) };
                    assert(kinds_read(whole) =~= kinds_between(ts, pos, inner.next));
                },
                Err(_) => {},
            }
        }
    } else {
        lemma_primary_is_faithful(ts, pos, depth);
    }
}

/// A primary expression is faithful and binds tightest.
pub proof fn lemma_primary_is_faithful(ts: Seq<TokenModel>, pos: int, depth: nat)
    requires
        well_formed(ts),
        0 <= pos < ts.len(),
        depth <= MAX_DEPTH,
    ensures
        faithful(ts, pos, parse_primary(ts, pos, depth), 5),
    decreases MAX_DEPTH - depth, 1int, ts.len() - pos,
{
    lemma_operator_kinds(Level::Factor, ts[pos].kind);
    if matches_any(ts, pos, literal_kinds()) {
        let whole = ExprModel::Literal { lit: ts[pos] };
        assert(kinds_read(whole) =~= kinds_between(ts, pos, pos + 1));
    } else if matches_any(ts, pos, seq![TokenKind::LeftParen]) && depth < MAX_DEPTH {
        assert(seq![TokenKind::LeftParen][0] == TokenKind::LeftParen);
        lemma_expression_stops_within(ts, pos + 1, depth + 1);
        lemma_expression_is_faithful(ts, pos + 1, depth + 1);
        let inner = parse_expression(ts, pos + 1, depth + 1);
        match inner.result {
            Ok(expr) => {
                if matches_any(ts, inner.next, seq![TokenKind::RightParen]) {
                    assert(seq![TokenKind::RightParen][0] == TokenKind::RightParen);
                    let whole = ExprModel::Grouping { expr: Box::new(expr) };
                    assert(kinds_read(whole) =~= kinds_between(ts, pos, inner.next + 1));
                }
            },
            Err(_) => {},
        }
    }
}

} // verus!
