//! The recursive-descent parser: tokens to statements, collecting syntactic
//! diagnostics and substituting placeholders where the grammar is violated.
use crate::ast::{op_of, precedence_of, rebalance, AstOp, Expr, ExprV, Span, Stmt, StmtV};
use crate::errors::{self, CompilerError, ErrorView};
use crate::grammar::{self, span_of, stream_ok, tok, Parsed};
use crate::lexer::{error_view, error_views};
use crate::literal::{float_literal_ok, parse_integer};
use crate::token::{self, Token};
use vstd::prelude::*;

verus! {

/// Whether a token kind could extend an expression of the multiplicative
/// tier: an operator of that tier or a lower one, or an argument list.
pub open spec fn extends_operand(k: token::Kind) -> bool {
    k == token::Kind::LParen || (op_of(k) is Some && precedence_of(op_of(k)->0) >= 0)
}

/// Whether a token kind could extend a full expression.
pub open spec fn extends_expression(k: token::Kind) -> bool {
    k == token::Kind::LParen || op_of(k) is Some
}

/// Whether `after` holds every diagnostic of `before`, in its place, and
/// maybe more after them.
pub open spec fn only_added(before: Seq<CompilerError>, after: Seq<CompilerError>) -> bool {
    &&& before.len() <= after.len()
    &&& forall|i: int| 0 <= i < before.len() ==> #[trigger] after[i] == before[i]
}

/// The parser's state: the tokens, the statements parsed so far, the
/// position of the token under examination, and the diagnostics.
pub struct Parser {
    pub stream: Vec<Token>,
    pub tree: Vec<Stmt>,
    pub cursor: usize,
    pub errors: Vec<CompilerError>,
}

impl Parser {
    /// Well formed: an accepted stream, and a position on a token or just
    /// past the last one.
    pub open spec fn wf(&self) -> bool {
        stream_ok(self.stream@) && self.cursor <= self.stream@.len() && self.stream@.len()
            <= usize::MAX
    }

    /// Well formed, and positioned on a token of the stream.
    pub open spec fn on_token(&self) -> bool {
        stream_ok(self.stream@) && self.cursor < self.stream@.len() && self.stream@.len()
            <= usize::MAX
    }

    /// What every parsing step keeps: the tokens and statements stay, the
    /// position only moves forward and stays on a token, and diagnostics are
    /// only added.
    pub open spec fn advanced_from(&self, before: &Parser) -> bool {
        &&& self.stream@ == before.stream@
        &&& self.tree@ == before.tree@
        &&& before.cursor <= self.cursor < self.stream@.len()
        &&& only_added(before.errors@, self.errors@)
    }

    /// The kind of the token after the current one.
    pub open spec fn peek_kind(&self) -> token::Kind {
        tok(self.stream@, self.cursor + 1).kind
    }

    /// The diagnostics so far, as values.
    pub open spec fn errs(&self) -> Seq<ErrorView> {
        error_views(self.errors@)
    }

    /// Whether the parser stands where `p` says, with the diagnostics `p`
    /// lists, having returned `r`, which is `p`'s expression.
    pub open spec fn yields(&self, r: ExprV, p: Parsed) -> bool {
        r == p.expr && self.cursor == p.cursor && self.errs() == p.errors
    }

    pub fn new(stream: Vec<Token>) -> (r: Self)
        requires
            stream_ok(stream@),
        ensures
            r.on_token(),
            r.stream@ == stream@,
            r.tree@.len() == 0,
            r.cursor == 0,
            r.errors@.len() == 0,
    {
        // the stream's length, as a `usize`, bounds its view
        let _ = stream.len();
        Self { stream, tree: Vec::new(), cursor: 0usize, errors: Vec::new() }
    }

    fn current(&self) -> (r: &Token)
        requires
            stream_ok(self.stream@),
        ensures
            *r == tok(self.stream@, self.cursor as int),
    {
        if self.cursor < self.stream.len() {
            &self.stream[self.cursor]
        } else {
            &self.stream[self.stream.len() - 1]
        }
    }

    fn peek(&self) -> (r: &Token)
        requires
            stream_ok(self.stream@),
        ensures
            *r == tok(self.stream@, self.cursor + 1),
    {
        if self.cursor < self.stream.len() - 1 {
            &self.stream[self.cursor + 1]
        } else {
            &self.stream[self.stream.len() - 1]
        }
    }

    /// Moves past `Newline` tokens that follow the current one and returns
    /// the kind of the token after them.
    fn peek_newline_insensitive(&mut self) -> (r: token::Kind)
        requires
            old(self).on_token(),
        ensures
            final(self).advanced_from(old(self)),
            final(self).errors == old(self).errors,
            forall|k: int|
                old(self).cursor < k <= final(self).cursor ==> (#[trigger] final(self).stream@[k]).kind
                    == token::Kind::Newline,
            r == final(self).peek_kind(),
            r != token::Kind::Newline,
            final(self).cursor == grammar::skip_peeked_newlines(
                old(self).stream@,
                old(self).cursor as int,
            ),
    {
        let n = self.stream.len();
        let mut next = self.peek().kind;
        while next == token::Kind::Newline
            invariant
                n == self.stream@.len(),
                next == self.peek_kind(),
                self.advanced_from(old(self)),
                self.errors == old(self).errors,
                stream_ok(self.stream@),
                forall|k: int|
                    old(self).cursor < k <= self.cursor ==> (#[trigger] self.stream@[k]).kind
                        == token::Kind::Newline,
                grammar::skip_peeked_newlines(self.stream@, self.cursor as int)
                    == grammar::skip_peeked_newlines(old(self).stream@, old(self).cursor as int),
            decreases self.stream@.len() - self.cursor,
        {
            self.cursor = self.cursor + 1;
            next = self.peek().kind;
        }
        next
    }

    /// The span of the current token.
    fn span(&self) -> (r: Span)
        requires
            stream_ok(self.stream@),
        ensures
            r == span_of(tok(self.stream@, self.cursor as int)),
    {
        let t = self.current();
        let len = t.lexeme.as_str().unicode_len();
        let stop = if t.offset <= usize::MAX - len {
            t.offset + len
        } else {
            usize::MAX
        };
        Span::new(t.line, t.offset, stop)
    }

    /// Records a diagnostic.
    fn report(&mut self, kind: errors::Kind, line: usize, offset: usize, len: usize, message: &str)
        ensures
            final(self).stream == old(self).stream,
            final(self).tree == old(self).tree,
            final(self).cursor == old(self).cursor,
            final(self).errors@.len() == old(self).errors@.len() + 1,
            only_added(old(self).errors@, final(self).errors@),
            error_views(final(self).errors@) == error_views(old(self).errors@).push(
                error_view(kind, line as int, offset as int, len as int, message@),
            ),
    {
        let e = CompilerError::new(kind, errors::Flag::Abort, line, offset, len, message);
        self.errors.push(e);
        proof {
            assert(error_views(self.errors@) =~= error_views(old(self).errors@).push(
                error_view(kind, line as int, offset as int, len as int, message@),
            ));
        }
    }
}

/// The values of boxed expressions.
pub open spec fn views_of(v: Seq<Box<Expr>>) -> Seq<ExprV> {
    Seq::new(v.len(), |i: int| v[i].view())
}

/// The values of statements.
pub open spec fn stmt_views(v: Seq<Stmt>) -> Seq<StmtV> {
    v.map_values(|s: Stmt| s.view())
}

impl Parser {
    fn primary(&mut self) -> (r: Expr)
        requires
            old(self).on_token(),
        ensures
            final(self).advanced_from(old(self)),
            final(self).yields(
                r.view(),
                grammar::primary(old(self).stream@, old(self).cursor as int, old(self).errs()),
            ),
        decreases old(self).stream@.len() - old(self).cursor, 0int,
    {
        let span = self.span();
        let kind = self.current().kind;
        if kind == token::Kind::Newline {
            self.cursor = self.cursor + 1;
            let r = self.primary();
            return r;
        }
        match kind {
            token::Kind::String => {
                let text = self.current().lexeme.clone();
                Expr::String { span, text }
            },
            token::Kind::Symbol => {
                let name = self.current().lexeme.clone();
                Expr::Symbol { span, name }
            },
            token::Kind::Integer => {
                match parse_integer(self.current().lexeme.as_str()) {
                    Some(value) => Expr::Integer { span, value },
                    None => {
                        self.report(
                            errors::Kind::ParseError,
                            span.line,
                            span.start,
                            span.stop - span.start,
                            "there was a compiler error parsing this integer literal.",
                        );
                        Expr::Integer { span, value: 0 }
                    },
                }
            },
            token::Kind::Float => {
                let literal = self.current().lexeme.clone();
                if !float_literal_ok(literal.as_str()) {
                    self.report(
                        errors::Kind::ParseError,
                        span.line,
                        span.start,
                        span.stop - span.start,
                        "there was a compiler error parsing this float literal.",
                    );
                }
                Expr::Float { span, literal }
            },
            token::Kind::End => {
                let at = if span.start > 0 {
                    span.start - 1
                } else {
                    0
                };
                self.report(
                    errors::Kind::SyntaxError,
                    span.line,
                    at,
                    1,
                    "expected an expression after this but found EOF (end of file) instead.",
                );
                Expr::Empty { span: Span { valid: false, ..span } }
            },
            token::Kind::LParen => {
                self.cursor = self.cursor + 1;
                let inner = self.assignment();
                let closing = self.peek_newline_insensitive();
                if closing == token::Kind::RParen {
                    self.cursor = self.cursor + 1;
                    return Expr::Grouping { span, inner: Box::new(inner) };
                }
                self.report(
                    errors::Kind::SyntaxError,
                    span.line,
                    span.start,
                    span.stop - span.start,
                    "mismatch parenthesis, expected ')' to close this grouping expression",
                );
                Expr::Empty { span: Span { valid: false, ..span } }
            },
            _ => {
                self.report(
                    errors::Kind::SyntaxError,
                    span.line,
                    span.start,
                    span.stop - span.start,
                    "expected an expression here.",
                );
                Expr::Empty { span: Span { valid: false, ..span } }
            },
        }
    }

    /// Parses the arguments of a call: entered on the `(`, it leaves the
    /// position on the closing `)`, or on the last argument where neither
    /// `,` nor `)` follows it (which is reported).
    fn function_call_arguments(&mut self) -> (r: Vec<Box<Expr>>)
        requires
            old(self).on_token(),
            old(self).cursor < old(self).stream@.len() - 1,
        ensures
            final(self).advanced_from(old(self)),
            final(self).cursor > old(self).cursor,
            ({
                let a = grammar::arguments(
                    old(self).stream@,
                    old(self).cursor + 1,
                    Seq::empty(),
                    old(self).errs(),
                );
                views_of(r@) == a.args && final(self).cursor == a.cursor && final(self).errs()
                    == a.errors
            }),
        decreases old(self).stream@.len() - old(self).cursor, 1int,
    {
        let ghost target = grammar::arguments(
            self.stream@,
            self.cursor + 1,
            Seq::empty(),
            self.errs(),
        );
        let n = self.stream.len();
        self.cursor = self.cursor + 1;
        let mut args: Vec<Box<Expr>> = Vec::new();
        let mut stop = false;
        proof {
            assert(views_of(args@) =~= Seq::<ExprV>::empty());
        }
        while !stop && self.current().kind != token::Kind::RParen
            invariant
                n == self.stream@.len(),
                self.on_token(),
                self.advanced_from(old(self)),
                self.cursor > old(self).cursor,
                !stop ==> grammar::arguments(
                    self.stream@,
                    self.cursor as int,
                    views_of(args@),
                    self.errs(),
                ) == target,
                stop ==> views_of(args@) == target.args && self.cursor == target.cursor
                    && self.errs() == target.errors,
            decreases 2 * (n - self.cursor) + if stop {
                0int
            } else {
                1int
            },
        {
            let ghost acc = views_of(args@);
            let at = self.span();
            let expression = self.function_call();
            let ghost v = expression.view();
            args.push(Box::new(expression));
            proof {
                assert(views_of(args@) =~= acc.push(v));
            }
            let next = self.peek().kind;
            if next == token::Kind::Comma {
                self.cursor = self.cursor + 2;
            } else if next == token::Kind::RParen {
                self.cursor = self.cursor + 1;
            } else {
                self.report(
                    errors::Kind::SyntaxError,
                    at.line,
                    at.start,
                    at.stop - at.start,
                    "expected ',' for more arguments or ')' to close function call",
                );
                stop = true;
            }
        }
        args
    }

    /// Parses a primary expression followed by any number of argument lists.
    fn function_call(&mut self) -> (r: Expr)
        requires
            old(self).on_token(),
        ensures
            final(self).advanced_from(old(self)),
            final(self).peek_kind() != token::Kind::LParen,
            final(self).yields(
                r.view(),
                grammar::function_call(old(self).stream@, old(self).cursor as int, old(self).errs()),
            ),
        decreases old(self).stream@.len() - old(self).cursor, 2int,
    {
        let ghost target = grammar::function_call(
            self.stream@,
            self.cursor as int,
            self.errs(),
        );
        let n = self.stream.len();
        let mut expression = self.primary();
        while self.peek().kind == token::Kind::LParen
            invariant
                n == self.stream@.len(),
                self.on_token(),
                self.advanced_from(old(self)),
                grammar::calls(self.stream@, self.cursor as int, expression.view(), self.errs())
                    == target,
            decreases n - self.cursor,
        {
            let ghost callee = expression.view();
            let span = self.span();
            self.cursor = self.cursor + 1;
            let arguments = self.function_call_arguments();
            let ghost args_v = views_of(arguments@);
            expression = Expr::FunctionCall { span, callee: Box::new(expression), arguments };
            proof {
                let ev = expression.view();
                assert(ev->FunctionCall_arguments =~= args_v);
                assert(ev == ExprV::FunctionCall {
                    span,
                    callee: Box::new(callee),
                    arguments: args_v,
                });
            }
        }
        expression
    }

    /// Parses the additive tier: a call expression, then `+` or `-` with a
    /// multiplicative right operand, repeatedly.
    fn term(&mut self) -> (r: Expr)
        requires
            old(self).on_token(),
        ensures
            final(self).advanced_from(old(self)),
            !extends_operand(final(self).peek_kind()) || (op_of(final(self).peek_kind()) is Some
                && precedence_of(op_of(final(self).peek_kind())->0) == 1),
            final(self).yields(
                r.view(),
                grammar::term(old(self).stream@, old(self).cursor as int, old(self).errs()),
            ),
        decreases old(self).stream@.len() - old(self).cursor, 4int,
    {
        let ghost target = grammar::term(self.stream@, self.cursor as int, self.errs());
        let n = self.stream.len();
        let mut expression = self.function_call();
        let mut next = AstOp::from_token(&self.peek().kind);
        while next.is_some() && next.unwrap().precedence() == 0
            invariant
                n == self.stream@.len(),
                self.on_token(),
                self.advanced_from(old(self)),
                next == op_of(self.peek_kind()),
                self.peek_kind() != token::Kind::LParen,
                grammar::additions(self.stream@, self.cursor as int, expression.view(), self.errs())
                    == target,
            decreases n - self.cursor,
        {
            let op = next.unwrap();
            self.cursor = self.cursor + 1;
            let span = self.span();
            self.cursor = self.cursor + 1;
            let rhs = self.factor();
            expression = Expr::Binary { span, lhs: Box::new(expression), rhs: Box::new(rhs), op };
            next = AstOp::from_token(&self.peek().kind);
        }
        expression
    }

    /// Parses the multiplicative tier: an additive expression, then `*`,
    /// `/` or `%` with a right operand of this tier, rebalancing each node
    /// it builds.
    fn factor(&mut self) -> (r: Expr)
        requires
            old(self).on_token(),
        ensures
            final(self).advanced_from(old(self)),
            !extends_operand(final(self).peek_kind()),
            final(self).yields(
                r.view(),
                grammar::factor(old(self).stream@, old(self).cursor as int, old(self).errs()),
            ),
        decreases old(self).stream@.len() - old(self).cursor, 6int,
    {
        let ghost target = grammar::factor(self.stream@, self.cursor as int, self.errs());
        let n = self.stream.len();
        let mut expression = self.term();
        let mut next = AstOp::from_token(&self.peek().kind);
        while next.is_some() && next.unwrap().precedence() == 1
            invariant
                n == self.stream@.len(),
                self.on_token(),
                self.advanced_from(old(self)),
                next == op_of(self.peek_kind()),
                !extends_operand(self.peek_kind()) || (next is Some && precedence_of(next->0) == 1),
                grammar::multiplications(
                    self.stream@,
                    self.cursor as int,
                    expression.view(),
                    self.errs(),
                ) == target,
            decreases n - self.cursor,
        {
            let op = next.unwrap();
            self.cursor = self.cursor + 1;
            let span = self.span();
            self.cursor = self.cursor + 1;
            let rhs = self.factor();
            let built = Expr::Binary { span, lhs: Box::new(expression), rhs: Box::new(rhs), op };
            proof {
                grammar::lemma_rebalanced_view(built);
            }
            expression = rebalance(built);
            next = AstOp::from_token(&self.peek().kind);
        }
        expression
    }

    /// Parses a full expression: a multiplicative expression, and where `->`
    /// follows it, an assignment whose right side is again a full
    /// expression (so `a -> b -> c` is `a -> (b -> c)`). The position is
    /// left on the expression's last token.
    pub fn assignment(&mut self) -> (r: Expr)
        requires
            old(self).on_token(),
        ensures
            final(self).advanced_from(old(self)),
            !extends_expression(final(self).peek_kind()),
            final(self).yields(
                r.view(),
                grammar::assignment(old(self).stream@, old(self).cursor as int, old(self).errs()),
            ),
        decreases old(self).stream@.len() - old(self).cursor, 7int,
    {
        let expression = self.factor();
        if self.peek().kind == token::Kind::Arrow {
            let span = self.span();
            self.cursor = self.cursor + 2;
            let value = self.assignment();
            return Expr::Assignment { span, lhs: Box::new(expression), rhs: Box::new(value) };
        }
        expression
    }
}

impl Parser {
    /// Parses the rest of a binding: entered on the name, with `=` next.
    fn binding(&mut self, name: String, mutable: bool) -> (r: Stmt)
        requires
            old(self).on_token(),
            old(self).peek_kind() == token::Kind::Equal,
        ensures
            final(self).advanced_from(old(self)),
            ({
                let t = old(self).stream@;
                let c = old(self).cursor as int;
                let v = grammar::assignment(t, c + 2, old(self).errs());
                &&& r.view() == StmtV::Binding {
                    span: span_of(tok(t, c + 1)),
                    mutable,
                    name: name@,
                    initializer: Some(v.expr),
                }
                &&& final(self).cursor == v.cursor
                &&& final(self).errs() == v.errors
            }),
    {
        self.cursor = self.cursor + 1;
        let span = self.span();
        self.cursor = self.cursor + 1;
        let value = self.assignment();
        Stmt::Binding { span, mutable, name, initializer: Some(Box::new(value)) }
    }

    /// Accepts a statement followed by a newline, `;` or the end; anything
    /// else is reported and the statement replaced by a placeholder.
    fn end_statement(&mut self, statement: Stmt) -> (r: Stmt)
        requires
            old(self).on_token(),
        ensures
            final(self).advanced_from(old(self)),
            final(self).cursor == old(self).cursor,
            ({
                let s = grammar::end_statement(
                    old(self).stream@,
                    old(self).cursor as int,
                    statement.view(),
                    old(self).errs(),
                );
                r.view() == s.stmt && final(self).errs() == s.errors
            }),
    {
        let k = self.peek().kind;
        if k == token::Kind::Newline || k == token::Kind::Semicolon || k == token::Kind::End {
            return statement;
        }
        let span = self.span();
        self.report(
            errors::Kind::SyntaxError,
            span.line,
            span.start,
            span.stop - span.start,
            "expected newline or ';' after statement",
        );
        Stmt::Empty { span }
    }

    /// Parses one statement, skipping the newlines before it.
    fn statement(&mut self) -> (r: Stmt)
        requires
            old(self).on_token(),
        ensures
            final(self).advanced_from(old(self)),
            ({
                let s = grammar::statement(old(self).stream@, old(self).cursor as int, old(self).errs());
                r.view() == s.stmt && final(self).cursor == s.cursor && final(self).errs() == s.errors
            }),
        decreases old(self).stream@.len() - old(self).cursor,
    {
        let span = self.span();
        let kind = self.current().kind;
        if kind == token::Kind::Newline {
            self.cursor = self.cursor + 1;
            let r = self.statement();
            return r;
        }
        if kind == token::Kind::Symbol && self.peek().kind == token::Kind::Equal {
            let name = self.current().lexeme.clone();
            let stmt = self.binding(name, false);
            let r = self.end_statement(stmt);
            return r;
        }
        if kind == token::Kind::Mut {
            if self.peek().kind != token::Kind::Symbol {
                self.cursor = self.cursor + 1;
                let at = self.span();
                self.report(
                    errors::Kind::SyntaxError,
                    at.line,
                    at.start,
                    at.stop - at.start,
                    "expected a symbol after 'mut'",
                );
                return Stmt::Empty { span };
            }
            self.cursor = self.cursor + 1;
            if self.peek().kind == token::Kind::Equal {
                let name = self.current().lexeme.clone();
                let stmt = self.binding(name, true);
                let r = self.end_statement(stmt);
                return r;
            }
        }
        let expression = self.assignment();
        let kept = match &expression {
            Expr::Assignment { span, .. } => Some(*span),
            Expr::FunctionCall { span, .. } => Some(*span),
            _ => None,
        };
        if let Some(at) = kept {
            let r = self.end_statement(Stmt::Expression { span: at, expr: expression });
            return r;
        }
        self.report(
            errors::Kind::SyntaxError,
            span.line,
            span.start,
            span.stop - span.start,
            "expected a declaration, assignment, or function call",
        );
        Stmt::Empty { span }
    }

    /// Moves past `Newline` tokens at the current position.
    fn skip_newlines(&mut self)
        requires
            old(self).wf(),
        ensures
            final(self).wf(),
            final(self).stream == old(self).stream,
            final(self).tree == old(self).tree,
            final(self).errors == old(self).errors,
            old(self).cursor <= final(self).cursor,
            final(self).cursor == grammar::skip_newlines(old(self).stream@, old(self).cursor as int),
    {
        let n = self.stream.len();
        while self.current().kind == token::Kind::Newline
            invariant
                n == self.stream@.len(),
                self.wf(),
                self.stream == old(self).stream,
                self.tree == old(self).tree,
                self.errors == old(self).errors,
                old(self).cursor <= self.cursor,
                grammar::skip_newlines(self.stream@, self.cursor as int) == grammar::skip_newlines(
                    old(self).stream@,
                    old(self).cursor as int,
                ),
            decreases n - self.cursor,
        {
            self.cursor = self.cursor + 1;
        }
    }

    /// Parses statements until the current token is `End`, appending them
    /// to the tree. A `;` that ends a statement is consumed with it, and
    /// newlines between statements are skipped.
    pub fn parse(&mut self)
        requires
            old(self).wf(),
        ensures
            final(self).wf(),
            final(self).stream@ == old(self).stream@,
            tok(final(self).stream@, final(self).cursor as int).kind == token::Kind::End,
            ({
                let p = grammar::program(
                    old(self).stream@,
                    old(self).cursor as int,
                    stmt_views(old(self).tree@),
                    old(self).errs(),
                );
                &&& stmt_views(final(self).tree@) == p.stmts
                &&& final(self).cursor == p.cursor
                &&& final(self).errs() == p.errors
            }),
    {
        let ghost target = grammar::program(
            self.stream@,
            self.cursor as int,
            stmt_views(self.tree@),
            self.errs(),
        );
        let ghost mut from = self.cursor as int;
        let n = self.stream.len();
        self.skip_newlines();
        while self.current().kind != token::Kind::End
            invariant
                n == self.stream@.len(),
                self.wf(),
                self.stream@ == old(self).stream@,
                0 <= from <= self.cursor,
                self.cursor == grammar::skip_newlines(self.stream@, from),
                grammar::program(self.stream@, from, stmt_views(self.tree@), self.errs()) == target,
            decreases n - self.cursor,
        {
            let ghost stmts = stmt_views(self.tree@);
            let statement = self.statement();
            let ghost v = statement.view();
            self.tree.push(statement);
            proof {
                assert(stmt_views(self.tree@) =~= stmts.push(v));
            }
            self.cursor = self.cursor + 1;
            if self.current().kind == token::Kind::Semicolon {
                self.cursor = self.cursor + 1;
            }
            proof {
                from = self.cursor as int;
            }
            self.skip_newlines();
        }
    }
}

} // verus!
