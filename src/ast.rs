//! The syntax tree the parser builds.
use crate::token;
use vstd::prelude::*;

verus! {

/// A source position range: the line (counted from 1) and the character
/// offsets where the text starts and stops. `valid` is false on the
/// placeholder of a node that could not be parsed.
#[derive(Debug, Clone, Copy, PartialEq, Eq, Structural)]
pub struct Span {
    pub line: usize,
    pub start: usize,
    pub stop: usize,
    pub valid: bool,
}

impl Span {
    pub fn new(line: usize, start: usize, stop: usize) -> (r: Self)
        ensures
            r == (Span { line, start, stop, valid: true }),
    {
        Self { line, start, stop, valid: true }
    }
}

/// Binary operators.
#[derive(Debug, Clone, Copy, PartialEq, Eq, Structural)]
pub enum AstOp {
    Plus,
    Minus,
    Multiply,
    Divide,
    Modulus,
    Reassign,
}

/// The operator a token stands for, if any.
pub open spec fn op_of(kind: token::Kind) -> Option<AstOp> {
    match kind {
        token::Kind::Plus => Some(AstOp::Plus),
        token::Kind::Minus => Some(AstOp::Minus),
        token::Kind::Star => Some(AstOp::Multiply),
        token::Kind::Slash => Some(AstOp::Divide),
        token::Kind::Modulo => Some(AstOp::Modulus),
        token::Kind::Arrow => Some(AstOp::Reassign),
        _ => None,
    }
}

/// How tightly an operator binds: reassignment lowest, then `+ -`, then `* / %`.
pub open spec fn precedence_of(op: AstOp) -> int {
    match op {
        AstOp::Reassign => -1,
        AstOp::Plus | AstOp::Minus => 0,
        AstOp::Multiply | AstOp::Divide | AstOp::Modulus => 1,
    }
}

impl AstOp {
    pub fn from_token(token: &token::Kind) -> (r: Option<Self>)
        ensures
            r == op_of(*token),
    {
        match token {
            token::Kind::Plus => Some(AstOp::Plus),
            token::Kind::Minus => Some(AstOp::Minus),
            token::Kind::Star => Some(AstOp::Multiply),
            token::Kind::Slash => Some(AstOp::Divide),
            token::Kind::Modulo => Some(AstOp::Modulus),
            token::Kind::Arrow => Some(AstOp::Reassign),
            _ => None,
        }
    }

    pub fn precedence(&self) -> (r: i8)
        ensures
            r == precedence_of(*self),
    {
        match self {
            AstOp::Reassign => -1,
            AstOp::Plus => 0,
            AstOp::Minus => 0,
            AstOp::Multiply => 1,
            AstOp::Divide => 1,
            AstOp::Modulus => 1,
        }
    }

    /// The operator's name and symbol, as a tree dump shows it.
    pub fn describe(&self) -> (r: &'static str)
        ensures
            r@ == op_description(*self),
    {
        match self {
            AstOp::Plus => "PLUS '+'",
            AstOp::Minus => "MINUS '-'",
            AstOp::Multiply => "MULTIPLY '*'",
            AstOp::Divide => "DIVIDE '/'",
            AstOp::Modulus => "MODULUS '%'",
            AstOp::Reassign => "REASSIGN '->'",
        }
    }
}

pub open spec fn op_description(op: AstOp) -> Seq<char> {
    match op {
        AstOp::Plus => "PLUS '+'"@,
        AstOp::Minus => "MINUS '-'"@,
        AstOp::Multiply => "MULTIPLY '*'"@,
        AstOp::Divide => "DIVIDE '/'"@,
        AstOp::Modulus => "MODULUS '%'"@,
        AstOp::Reassign => "REASSIGN '->'"@,
    }
}

/// An expression. A float literal keeps its source text; turning it into a
/// binary floating-point value is left to the consumer.
#[derive(Debug, PartialEq)]
pub enum Expr {
    Empty { span: Span },
    Float { span: Span, literal: String },
    Integer { span: Span, value: i64 },
    String { span: Span, text: String },
    Symbol { span: Span, name: String },
    Grouping { span: Span, inner: Box<Expr> },
    Binary { span: Span, lhs: Box<Expr>, rhs: Box<Expr>, op: AstOp },
    Unary { span: Span, op: AstOp, operand: Box<Expr> },
    Assignment { span: Span, lhs: Box<Expr>, rhs: Box<Expr> },
    FunctionCall { span: Span, callee: Box<Expr>, arguments: Vec<Box<Expr>> },
}

/// A statement.
#[derive(Debug, PartialEq)]
pub enum Stmt {
    Binding { span: Span, mutable: bool, name: String, initializer: Option<Box<Expr>> },
    Expression { span: Span, expr: Expr },
    Empty { span: Span },
}

/// The mathematical value of an expression: texts as character sequences,
/// arguments as a sequence.
pub enum ExprV {
    Empty { span: Span },
    Float { span: Span, literal: Seq<char> },
    Integer { span: Span, value: i64 },
    String { span: Span, text: Seq<char> },
    Symbol { span: Span, name: Seq<char> },
    Grouping { span: Span, inner: Box<ExprV> },
    Binary { span: Span, lhs: Box<ExprV>, rhs: Box<ExprV>, op: AstOp },
    Unary { span: Span, op: AstOp, operand: Box<ExprV> },
    Assignment { span: Span, lhs: Box<ExprV>, rhs: Box<ExprV> },
    FunctionCall { span: Span, callee: Box<ExprV>, arguments: Seq<ExprV> },
}

impl Expr {
    pub open spec fn view(&self) -> ExprV
        decreases self,
    {
        match self {
            Expr::Empty { span } => ExprV::Empty { span: *span },
            Expr::Float { span, literal } => ExprV::Float { span: *span, literal: literal@ },
            Expr::Integer { span, value } => ExprV::Integer { span: *span, value: *value },
            Expr::String { span, text } => ExprV::String { span: *span, text: text@ },
            Expr::Symbol { span, name } => ExprV::Symbol { span: *span, name: name@ },
            Expr::Grouping { span, inner } => ExprV::Grouping { span: *span, inner: Box::new(inner.view()) },
            Expr::Binary { span, lhs, rhs, op } => ExprV::Binary {
                span: *span,
                lhs: Box::new(lhs.view()),
                rhs: Box::new(rhs.view()),
                op: *op,
            },
            Expr::Unary { span, op, operand } => ExprV::Unary {
                span: *span,
                op: *op,
                operand: Box::new(operand.view()),
            },
            Expr::Assignment { span, lhs, rhs } => ExprV::Assignment {
                span: *span,
                lhs: Box::new(lhs.view()),
                rhs: Box::new(rhs.view()),
            },
            Expr::FunctionCall { span, callee, arguments } => ExprV::FunctionCall {
                span: *span,
                callee: Box::new(callee.view()),
                arguments: Seq::new(
                    arguments@.len(),
                    |i: int|
                        {
                            if 0 <= i < arguments@.len() {
                                arguments@[i].view()
                            } else {
                                ExprV::Empty { span: *span }
                            }
                        },
                ),
            },
        }
    }
}

/// The mathematical value of a statement.
pub enum StmtV {
    Binding { span: Span, mutable: bool, name: Seq<char>, initializer: Option<ExprV> },
    Expression { span: Span, expr: ExprV },
    Empty { span: Span },
}

impl Stmt {
    pub open spec fn view(&self) -> StmtV {
        match self {
            Stmt::Binding { span, mutable, name, initializer } => StmtV::Binding {
                span: *span,
                mutable: *mutable,
                name: name@,
                initializer: match initializer {
                    Some(e) => Some(e.view()),
                    None => None,
                },
            },
            Stmt::Expression { span, expr } => StmtV::Expression { span: *span, expr: expr.view() },
            Stmt::Empty { span } => StmtV::Empty { span: *span },
        }
    }
}

/// The single-level rebalance applied to a freshly built binary node: when
/// its right operand is a binary node whose operator binds less tightly,
/// the two operators trade places, and so do the outer left operand and the
/// inner right operand. Anything else is left as it is.
pub open spec fn rebalanced(e: Expr) -> Expr {
    match e {
        Expr::Binary { span, lhs, rhs, op } => match *rhs {
            Expr::Binary { span: inner_span, lhs: inner_lhs, rhs: inner_rhs, op: inner_op } => {
                if precedence_of(inner_op) < precedence_of(op) {
                    Expr::Binary {
                        span,
                        lhs: inner_rhs,
                        rhs: Box::new(
                            Expr::Binary { span: inner_span, lhs: inner_lhs, rhs: lhs, op },
                        ),
                        op: inner_op,
                    }
                } else {
                    e
                }
            },
            _ => e,
        },
        _ => e,
    }
}

/// Applies the single-level rebalance to a freshly built node.
pub fn rebalance(expression: Expr) -> (r: Expr)
    ensures
        r == rebalanced(expression),
{
    match expression {
        Expr::Binary { span, lhs, rhs, op } => {
            let rhs = *rhs;
            match rhs {
                Expr::Binary { span: inner_span, lhs: inner_lhs, rhs: inner_rhs, op: inner_op } => {
                    if inner_op.precedence() < op.precedence() {
                        Expr::Binary {
                            span,
                            lhs: inner_rhs,
                            rhs: Box::new(
                                Expr::Binary { span: inner_span, lhs: inner_lhs, rhs: lhs, op },
                            ),
                            op: inner_op,
                        }
                    } else {
                        Expr::Binary {
                            span,
                            lhs,
                            rhs: Box::new(
                                Expr::Binary {
                                    span: inner_span,
                                    lhs: inner_lhs,
                                    rhs: inner_rhs,
                                    op: inner_op,
                                },
                            ),
                            op,
                        }
                    }
                },
                other => Expr::Binary { span, lhs, rhs: Box::new(other), op },
            }
        },
        other => other,
    }
}

} // verus!
