use crate::lexer::token::{token_text, Token, TokenModel};
use vstd::prelude::*;

verus! {

/// A node of the expression tree. Every node owns its children.
#[derive(Debug, PartialEq)]
pub enum Expression {
    /// A prefix operator and its operand.
    Unary { op: Token, right: Box<Expression> },
    /// An infix operator between its two operands.
    Binary { left: Box<Expression>, op: Token, right: Box<Expression> },
    /// A parenthesized expression.
    Grouping { expr: Box<Expression> },
    /// A literal token.
    Literal { lit: Token },
}

/// The mathematical value of an [`Expression`].
pub ghost enum ExprModel {
    Unary { op: TokenModel, right: Box<ExprModel> },
    Binary { left: Box<ExprModel>, op: TokenModel, right: Box<ExprModel> },
    Grouping { expr: Box<ExprModel> },
    Literal { lit: TokenModel },
}

impl View for Expression {
    type V = ExprModel;

    open spec fn view(&self) -> ExprModel
        decreases self,
    {
        match self {
            Expression::Unary { op, right } => ExprModel::Unary {
                op: op@,
                right: Box::new((**right).view()),
            },
            Expression::Binary { left, op, right } => ExprModel::Binary {
                left: Box::new((**left).view()),
                op: op@,
                right: Box::new((**right).view()),
            },
            Expression::Grouping { expr } => ExprModel::Grouping {
                expr: Box::new((**expr).view()),
            },
            Expression::Literal { lit } => ExprModel::Literal { lit: lit@ },
        }
    }
}

/// The canonical text of an expression: a literal is the text of its token;
/// a prefix operator stands directly before its operand; an infix operator
/// stands between its operands with one space on each side; a grouping puts
/// its contents in parentheses. No other parentheses are written.
pub open spec fn render(e: ExprModel) -> Seq<char>
    decreases e,
{
    match e {
        ExprModel::Unary { op, right } => token_text(op) + render(*right),
        ExprModel::Binary { left, op, right } => render(*left) + " "@ + token_text(op) + " "@
            + render(*right),
        ExprModel::Grouping { expr } => "("@ + render(*expr) + ")"@,
        ExprModel::Literal { lit } => token_text(lit),
    }
}

impl Expression {
    pub fn new_unary(op: Token, right: Box<Expression>) -> (e: Expression)
        ensures
            e == (Expression::Unary { op, right }),
    {
        Expression::Unary { op, right }
    }

    pub fn new_binary(left: Box<Expression>, op: Token, right: Box<Expression>) -> (e: Expression)
        ensures
            e == (Expression::Binary { left, op, right }),
    {
        Expression::Binary { left, op, right }
    }

    pub fn new_grouping(expr: Box<Expression>) -> (e: Expression)
        ensures
            e == (Expression::Grouping { expr }),
    {
        Expression::Grouping { expr }
    }

    pub fn new_literal(lit: Token) -> (e: Expression)
        ensures
            e == (Expression::Literal { lit }),
    {
        Expression::Literal { lit }
    }

    /// The canonical text of the expression.
    pub fn to_string(&self) -> (s: String)
        ensures
            s@ == render(self@),
        decreases self,
    {
        match self {
            Expression::Unary { op, right } => {
                let mut out = op.to_string();
                let operand = right.to_string();
                out.append(operand.as_str());
                out
            },
            Expression::Binary { left, op, right } => {
                let mut out = left.to_string();
                let operator = op.to_string();
                let operand = right.to_string();
                out.append(" ");
                out.append(operator.as_str());
                out.append(" ");
                out.append(operand.as_str());
                out
            },
            Expression::Grouping { expr } => {
                let mut out = "(".to_owned();
                let inner = expr.to_string();
                out.append(inner.as_str());
                out.append(")");
                out
            },
            Expression::Literal { lit } => lit.to_string(),
        }
    }
}

} // verus!
