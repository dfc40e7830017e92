//! What parsing yields, stated over token sequences: for each grammar tier,
//! the tree built from a position, the position the parser is left on (the
//! last token the tier consumed), and the diagnostics list afterwards.
use crate::ast::{self, op_of, precedence_of, AstOp, Expr, ExprV, Span, StmtV};
use crate::errors::{self, ErrorView};
use crate::lexer::error_view;
use crate::literal::{float_well_formed, integer_value};
use crate::token::{self, Token};
use vstd::prelude::*;

verus! {

/// A token stream the parser accepts: non-empty and ending with `End`.
pub open spec fn stream_ok(toks: Seq<Token>) -> bool {
    toks.len() >= 1 && toks.last().kind == token::Kind::End
}

/// Positions past the end read as the last token.
pub open spec fn clamp(toks: Seq<Token>, c: int) -> int {
    if c < toks.len() {
        c
    } else {
        toks.len() - 1
    }
}

/// The token at position `c`, or the last token past the end.
pub open spec fn tok(toks: Seq<Token>, c: int) -> Token {
    toks[clamp(toks, c)]
}

/// Where a token's text stops: its offset plus its length, held at the
/// largest `usize`.
pub open spec fn stop_of(t: Token) -> usize {
    if t.offset + t.lexeme@.len() <= usize::MAX {
        (t.offset + t.lexeme@.len()) as usize
    } else {
        usize::MAX
    }
}

/// The span of a token.
pub open spec fn span_of(t: Token) -> Span {
    Span { line: t.line, start: t.offset, stop: stop_of(t), valid: true }
}

/// The same span, marked as a placeholder's.
pub open spec fn invalid(s: Span) -> Span {
    Span { valid: false, ..s }
}

/// A syntax error raised at a token's span.
pub open spec fn error_at(t: Token, message: Seq<char>) -> ErrorView {
    error_view(
        errors::Kind::SyntaxError,
        t.line as int,
        t.offset as int,
        stop_of(t) - t.offset,
        message,
    )
}

/// The result of parsing an expression.
pub struct Parsed {
    pub expr: ExprV,
    pub cursor: int,
    pub errors: Seq<ErrorView>,
}

/// The result of parsing an argument list.
pub struct ParsedArgs {
    pub args: Seq<ExprV>,
    pub cursor: int,
    pub errors: Seq<ErrorView>,
}

/// Where the parser stands after moving past the `Newline` tokens that
/// follow position `c`.
pub open spec fn skip_peeked_newlines(toks: Seq<Token>, c: int) -> int
    decreases toks.len() - c,
{
    if 0 <= c && c + 1 < toks.len() && toks[c + 1].kind == token::Kind::Newline {
        skip_peeked_newlines(toks, c + 1)
    } else {
        c
    }
}

/// The first position from `c` on that does not hold a `Newline`.
pub open spec fn skip_newlines(toks: Seq<Token>, c: int) -> int
    decreases toks.len() - c,
{
    if 0 <= c < toks.len() && toks[c].kind == token::Kind::Newline {
        skip_newlines(toks, c + 1)
    } else {
        c
    }
}

/// A primary expression from position `c`: newlines are skipped, literals
/// and symbols become leaves, `(` opens a grouping that must be closed
/// (newlines may come before the `)`, which the grouping consumes), and
/// anything else is reported and replaced by a placeholder.
pub open spec fn primary(toks: Seq<Token>, c: int, errs: Seq<ErrorView>) -> Parsed
    decreases toks.len() - c, 0int,
{
    let n = toks.len();
    let t = tok(toks, c);
    let sp = span_of(t);
    if t.kind == token::Kind::Newline && 0 <= c < n - 1 {
        primary(toks, c + 1, errs)
    } else if t.kind == token::Kind::String {
        Parsed { expr: ExprV::String { span: sp, text: t.lexeme@ }, cursor: c, errors: errs }
    } else if t.kind == token::Kind::Symbol {
        Parsed { expr: ExprV::Symbol { span: sp, name: t.lexeme@ }, cursor: c, errors: errs }
    } else if t.kind == token::Kind::Integer {
        match integer_value(t.lexeme@) {
            Some(v) => Parsed { expr: ExprV::Integer { span: sp, value: v }, cursor: c, errors: errs },
            None => Parsed {
                expr: ExprV::Integer { span: sp, value: 0 },
                cursor: c,
                errors: errs.push(
                    error_view(
                        errors::Kind::ParseError,
                        t.line as int,
                        t.offset as int,
                        stop_of(t) - t.offset,
                        "there was a compiler error parsing this integer literal."@,
                    ),
                ),
            },
        }
    } else if t.kind == token::Kind::Float {
        Parsed {
            expr: ExprV::Float { span: sp, literal: t.lexeme@ },
            cursor: c,
            errors: if float_well_formed(t.lexeme@) {
                errs
            } else {
                errs.push(
                    error_view(
                        errors::Kind::ParseError,
                        t.line as int,
                        t.offset as int,
                        stop_of(t) - t.offset,
                        "there was a compiler error parsing this float literal."@,
                    ),
                )
            },
        }
    } else if t.kind == token::Kind::End {
        Parsed {
            expr: ExprV::Empty { span: invalid(sp) },
            cursor: c,
            errors: errs.push(
                error_view(
                    errors::Kind::SyntaxError,
                    t.line as int,
                    if t.offset > 0 {
                        t.offset - 1
                    } else {
                        0
                    },
                    1,
                    "expected an expression after this but found EOF (end of file) instead."@,
                ),
            ),
        }
    } else if t.kind == token::Kind::LParen && 0 <= c < n - 1 {
        let inner = assignment(toks, c + 1, errs);
        let j = skip_peeked_newlines(toks, inner.cursor);
        if tok(toks, j + 1).kind == token::Kind::RParen {
            Parsed {
                expr: ExprV::Grouping { span: sp, inner: Box::new(inner.expr) },
                cursor: j + 1,
                errors: inner.errors,
            }
        } else {
            Parsed {
                expr: ExprV::Empty { span: invalid(sp) },
                cursor: j,
                errors: inner.errors.push(
                    error_at(
                        t,
                        "mismatch parenthesis, expected ')' to close this grouping expression"@,
                    ),
                ),
            }
        }
    } else {
        Parsed {
            expr: ExprV::Empty { span: invalid(sp) },
            cursor: c,
            errors: errs.push(error_at(t, "expected an expression here."@)),
        }
    }
}

/// Argument lists following a callee that ends at position `c`, each
/// wrapping what came before in a call.
pub open spec fn calls(toks: Seq<Token>, c: int, callee: ExprV, errs: Seq<ErrorView>) -> Parsed
    decreases toks.len() - c, 1int,
{
    if 0 <= c && c + 2 < toks.len() && tok(toks, c + 1).kind == token::Kind::LParen {
        let a = arguments(toks, c + 2, Seq::empty(), errs);
        if a.cursor <= c + 1 || a.cursor >= toks.len() {
            Parsed { expr: callee, cursor: c, errors: errs }
        } else {
            calls(
                toks,
                a.cursor,
                ExprV::FunctionCall {
                    span: span_of(tok(toks, c)),
                    callee: Box::new(callee),
                    arguments: a.args,
                },
                a.errors,
            )
        }
    } else {
        Parsed { expr: callee, cursor: c, errors: errs }
    }
}

/// The arguments from position `c` on, after those in `acc`: each one a
/// call-tier expression, separated by `,` and closed by `)`; any other token
/// after an argument is reported and ends the list.
pub open spec fn arguments(toks: Seq<Token>, c: int, acc: Seq<ExprV>, errs: Seq<ErrorView>) -> ParsedArgs
    decreases toks.len() - c, 3int,
{
    if tok(toks, c).kind == token::Kind::RParen || !(0 <= c < toks.len()) {
        ParsedArgs { args: acc, cursor: c, errors: errs }
    } else {
        let a = function_call(toks, c, errs);
        let acc2 = acc.push(a.expr);
        let k = tok(toks, a.cursor + 1).kind;
        if a.cursor < c {
            ParsedArgs { args: acc, cursor: c, errors: errs }
        } else if k == token::Kind::Comma && a.cursor + 2 < toks.len() {
            arguments(toks, a.cursor + 2, acc2, a.errors)
        } else if k == token::Kind::RParen {
            ParsedArgs { args: acc2, cursor: a.cursor + 1, errors: a.errors }
        } else {
            ParsedArgs {
                args: acc2,
                cursor: a.cursor,
                errors: a.errors.push(
                    error_at(
                        tok(toks, c),
                        "expected ',' for more arguments or ')' to close function call"@,
                    ),
                ),
            }
        }
    }
}

/// A primary expression followed by any number of argument lists.
pub open spec fn function_call(toks: Seq<Token>, c: int, errs: Seq<ErrorView>) -> Parsed
    decreases toks.len() - c, 2int,
{
    let p = primary(toks, c, errs);
    if p.cursor < c || p.cursor >= toks.len() {
        p
    } else {
        calls(toks, p.cursor, p.expr, p.errors)
    }
}

/// `+` and `-` operators following a left operand that ends at position
/// `c`, each with a multiplicative right operand, grouped to the left.
pub open spec fn additions(toks: Seq<Token>, c: int, lhs: ExprV, errs: Seq<ErrorView>) -> Parsed
    decreases toks.len() - c, 3int,
{
    let next = op_of(tok(toks, c + 1).kind);
    if 0 <= c && c + 2 < toks.len() && next is Some && precedence_of(next->0) == 0 {
        let r = factor(toks, c + 2, errs);
        if r.cursor < c + 2 || r.cursor >= toks.len() {
            Parsed { expr: lhs, cursor: c, errors: errs }
        } else {
            additions(
                toks,
                r.cursor,
                ExprV::Binary {
                    span: span_of(tok(toks, c + 1)),
                    lhs: Box::new(lhs),
                    rhs: Box::new(r.expr),
                    op: next->0,
                },
                r.errors,
            )
        }
    } else {
        Parsed { expr: lhs, cursor: c, errors: errs }
    }
}

/// The additive tier.
pub open spec fn term(toks: Seq<Token>, c: int, errs: Seq<ErrorView>) -> Parsed
    decreases toks.len() - c, 4int,
{
    let l = function_call(toks, c, errs);
    if l.cursor < c || l.cursor >= toks.len() {
        l
    } else {
        additions(toks, l.cursor, l.expr, l.errors)
    }
}

/// The single-level rebalance on expression values.
pub open spec fn rebalanced(e: ExprV) -> ExprV {
    match e {
        ExprV::Binary { span, lhs, rhs, op } => match *rhs {
            ExprV::Binary { span: inner_span, lhs: inner_lhs, rhs: inner_rhs, op: inner_op } => {
                if precedence_of(inner_op) < precedence_of(op) {
                    ExprV::Binary {
                        span,
                        lhs: inner_rhs,
                        rhs: Box::new(
                            ExprV::Binary { span: inner_span, lhs: inner_lhs, rhs: lhs, op },
                        ),
                        op: inner_op,
                    }
                } else {
                    e
                }
            },
            _ => e,
        },
        _ => e,
    }
}

/// The rebalance of an expression has the rebalanced value.
pub proof fn lemma_rebalanced_view(e: Expr)
    ensures
        ast::rebalanced(e).view() == rebalanced(e.view()),
{
    reveal_with_fuel(Expr::view, 3);
}

/// `*`, `/` and `%` operators following a left operand that ends at
/// position `c`, each with a right operand of the multiplicative tier, each
/// node rebalanced as it is built.
pub open spec fn multiplications(toks: Seq<Token>, c: int, lhs: ExprV, errs: Seq<ErrorView>) -> Parsed
    decreases toks.len() - c, 5int,
{
    let next = op_of(tok(toks, c + 1).kind);
    if 0 <= c && c + 2 < toks.len() && next is Some && precedence_of(next->0) == 1 {
        let r = factor(toks, c + 2, errs);
        if r.cursor < c + 2 || r.cursor >= toks.len() {
            Parsed { expr: lhs, cursor: c, errors: errs }
        } else {
            multiplications(
                toks,
                r.cursor,
                rebalanced(
                    ExprV::Binary {
                        span: span_of(tok(toks, c + 1)),
                        lhs: Box::new(lhs),
                        rhs: Box::new(r.expr),
                        op: next->0,
                    },
                ),
                r.errors,
            )
        }
    } else {
        Parsed { expr: lhs, cursor: c, errors: errs }
    }
}

/// The multiplicative tier.
pub open spec fn factor(toks: Seq<Token>, c: int, errs: Seq<ErrorView>) -> Parsed
    decreases toks.len() - c, 6int,
{
    let l = term(toks, c, errs);
    if l.cursor < c || l.cursor >= toks.len() {
        l
    } else {
        multiplications(toks, l.cursor, l.expr, l.errors)
    }
}

/// A full expression: a multiplicative expression, and where `->` follows
/// it, an assignment to it of a full expression.
pub open spec fn assignment(toks: Seq<Token>, c: int, errs: Seq<ErrorView>) -> Parsed
    decreases toks.len() - c, 7int,
{
    let l = factor(toks, c, errs);
    if l.cursor >= c && l.cursor + 2 < toks.len() && tok(toks, l.cursor + 1).kind
        == token::Kind::Arrow {
        let r = assignment(toks, l.cursor + 2, l.errors);
        Parsed {
            expr: ExprV::Assignment {
                span: span_of(tok(toks, l.cursor)),
                lhs: Box::new(l.expr),
                rhs: Box::new(r.expr),
            },
            cursor: r.cursor,
            errors: r.errors,
        }
    } else {
        l
    }
}

/// The result of parsing a statement.
pub struct ParsedStmt {
    pub stmt: StmtV,
    pub cursor: int,
    pub errors: Seq<ErrorView>,
}

/// The result of parsing statements up to the end.
pub struct ParsedProgram {
    pub stmts: Seq<StmtV>,
    pub cursor: int,
    pub errors: Seq<ErrorView>,
}

/// A statement that ends at position `c` is accepted where a newline, `;`
/// or the end follows it; otherwise it is reported and replaced by a
/// placeholder.
pub open spec fn end_statement(toks: Seq<Token>, c: int, s: StmtV, errs: Seq<ErrorView>) -> ParsedStmt {
    let k = tok(toks, c + 1).kind;
    if k == token::Kind::Newline || k == token::Kind::Semicolon || k == token::Kind::End {
        ParsedStmt { stmt: s, cursor: c, errors: errs }
    } else {
        ParsedStmt {
            stmt: StmtV::Empty { span: span_of(tok(toks, c)) },
            cursor: c,
            errors: errs.push(error_at(tok(toks, c), "expected newline or ';' after statement"@)),
        }
    }
}

/// A binding whose name is at position `c`, with `=` after it and the
/// initializer, a full expression, after that.
pub open spec fn binding(
    toks: Seq<Token>,
    c: int,
    name: Seq<char>,
    mutable: bool,
    errs: Seq<ErrorView>,
) -> ParsedStmt {
    let v = assignment(toks, c + 2, errs);
    end_statement(
        toks,
        v.cursor,
        StmtV::Binding {
            span: span_of(tok(toks, c + 1)),
            mutable,
            name,
            initializer: Some(v.expr),
        },
        v.errors,
    )
}

/// One statement from position `c`: newlines are skipped; `name =` and
/// `mut name =` begin bindings; otherwise a full expression, which is kept
/// only when it is an assignment or a call.
pub open spec fn statement(toks: Seq<Token>, c: int, errs: Seq<ErrorView>) -> ParsedStmt
    decreases toks.len() - c,
{
    let n = toks.len();
    let t = tok(toks, c);
    let sp = span_of(t);
    if t.kind == token::Kind::Newline && 0 <= c < n - 1 {
        statement(toks, c + 1, errs)
    } else if t.kind == token::Kind::Symbol && tok(toks, c + 1).kind == token::Kind::Equal {
        binding(toks, c, t.lexeme@, false, errs)
    } else if t.kind == token::Kind::Mut && tok(toks, c + 1).kind != token::Kind::Symbol {
        ParsedStmt {
            stmt: StmtV::Empty { span: sp },
            cursor: c + 1,
            errors: errs.push(error_at(tok(toks, c + 1), "expected a symbol after 'mut'"@)),
        }
    } else if t.kind == token::Kind::Mut && tok(toks, c + 2).kind == token::Kind::Equal {
        binding(toks, c + 1, tok(toks, c + 1).lexeme@, true, errs)
    } else {
        let e = assignment(
            toks,
            if t.kind == token::Kind::Mut {
                c + 1
            } else {
                c
            },
            errs,
        );
        match e.expr {
            ExprV::Assignment { span, .. } => end_statement(
                toks,
                e.cursor,
                StmtV::Expression { span, expr: e.expr },
                e.errors,
            ),
            ExprV::FunctionCall { span, .. } => end_statement(
                toks,
                e.cursor,
                StmtV::Expression { span, expr: e.expr },
                e.errors,
            ),
            _ => ParsedStmt {
                stmt: StmtV::Empty { span: sp },
                cursor: e.cursor,
                errors: e.errors.push(
                    error_at(t, "expected a declaration, assignment, or function call"@),
                ),
            },
        }
    }
}

/// Statements from position `c` up to the first `End` found where a
/// statement could start, after those in `stmts`. A `;` that ends a
/// statement is consumed with it, and newlines between statements are
/// skipped.
pub open spec fn program(
    toks: Seq<Token>,
    c: int,
    stmts: Seq<StmtV>,
    errs: Seq<ErrorView>,
) -> ParsedProgram
    decreases toks.len() - c,
{
    let c1 = skip_newlines(toks, c);
    if c1 < c || !(0 <= c1 < toks.len()) || tok(toks, c1).kind == token::Kind::End {
        ParsedProgram { stmts, cursor: c1, errors: errs }
    } else {
        let s = statement(toks, c1, errs);
        if s.cursor < c1 || s.cursor >= toks.len() {
            ParsedProgram { stmts, cursor: c1, errors: errs }
        } else {
            let next = if s.cursor + 2 < toks.len() && toks[s.cursor + 1].kind
                == token::Kind::Semicolon {
                s.cursor + 2
            } else {
                s.cursor + 1
            };
            program(toks, next, stmts.push(s.stmt), s.errors)
        }
    }
}

} // verus!
