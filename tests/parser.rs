use chao::ast::{AstOp, Expr, Span, Stmt};
use chao::errors::Kind as ErrorKind;
use chao::lexer::tokenize;
use chao::parser::Parser;
use chao::token::{Kind, Token};

fn parser_for(source: &str) -> Parser {
    let (tokens, errors) = tokenize(&source.to_string());
    assert!(errors.is_empty(), "scan errors in {:?}", source);
    Parser::new(tokens)
}

fn token(kind: Kind, offset: usize, lexeme: &str) -> Token {
    Token { kind, offset, line: 1, lexeme: lexeme.to_string() }
}

fn integer(e: &Expr) -> i64 {
    match e {
        Expr::Integer { value, .. } => *value,
        other => panic!("expected an integer, found {:?}", other),
    }
}

#[test]
fn precedence_multiplication_binds_tighter() {
    let mut p = parser_for("5 * 3 + 10");
    let e = p.assignment();
    assert!(p.errors.is_empty());
    match e {
        Expr::Binary { op: AstOp::Plus, lhs, rhs, .. } => {
            assert_eq!(integer(&lhs), 10);
            match *rhs {
                Expr::Binary { op: AstOp::Multiply, lhs: a, rhs: b, .. } => {
                    assert_eq!(integer(&a), 3);
                    assert_eq!(integer(&b), 5);
                }
                other => panic!("expected a product, found {:?}", other),
            }
        }
        other => panic!("expected a sum, found {:?}", other),
    }
}

#[test]
fn precedence_sum_then_product() {
    let mut p = parser_for("1 + 2 * 3");
    let e = p.assignment();
    match e {
        Expr::Binary { op: AstOp::Plus, lhs, rhs, .. } => {
            assert_eq!(integer(&lhs), 1);
            match *rhs {
                Expr::Binary { op: AstOp::Multiply, lhs: a, rhs: b, .. } => {
                    assert_eq!(integer(&a), 2);
                    assert_eq!(integer(&b), 3);
                }
                other => panic!("expected a product, found {:?}", other),
            }
        }
        other => panic!("expected a sum, found {:?}", other),
    }
}

#[test]
fn binary_span_is_the_operator() {
    let mut p = parser_for("a - b");
    match p.assignment() {
        Expr::Binary { op: AstOp::Minus, span, .. } => {
            assert_eq!(span, Span { line: 1, start: 2, stop: 3, valid: true });
        }
        other => panic!("expected a difference, found {:?}", other),
    }
}

#[test]
fn grouping_wraps_inner_expression() {
    let mut p = parser_for("(1 + 2)");
    let e = p.assignment();
    assert!(p.errors.is_empty());
    match e {
        Expr::Grouping { inner, span } => {
            assert_eq!(span.start, 0);
            assert!(matches!(*inner, Expr::Binary { op: AstOp::Plus, .. }));
        }
        other => panic!("expected a grouping, found {:?}", other),
    }
}

#[test]
fn grouping_consumes_closing_paren() {
    let mut p = parser_for("x -> (1)");
    p.parse();
    assert!(p.errors.is_empty());
    assert_eq!(p.tree.len(), 1);
    match &p.tree[0] {
        Stmt::Expression { expr: Expr::Assignment { rhs, .. }, .. } => {
            assert!(matches!(**rhs, Expr::Grouping { .. }));
        }
        other => panic!("expected an assignment, found {:?}", other),
    }

    let mut p = parser_for("f((1), 2)");
    p.parse();
    assert!(p.errors.is_empty());
    match &p.tree[0] {
        Stmt::Expression { expr: Expr::FunctionCall { arguments, .. }, .. } => {
            assert_eq!(arguments.len(), 2);
            assert!(matches!(*arguments[0], Expr::Grouping { .. }));
            assert_eq!(integer(&arguments[1]), 2);
        }
        other => panic!("expected a call, found {:?}", other),
    }

    let mut p = parser_for("(1) * 2");
    match p.assignment() {
        Expr::Binary { op: AstOp::Multiply, lhs, .. } => {
            assert!(matches!(*lhs, Expr::Grouping { .. }))
        }
        other => panic!("expected a product, found {:?}", other),
    }
}

#[test]
fn grouping_missing_paren() {
    let mut p = parser_for("(1 + 2");
    let e = p.assignment();
    match e {
        Expr::Empty { span } => assert!(!span.valid),
        other => panic!("expected a placeholder, found {:?}", other),
    }
    assert_eq!(p.errors.len(), 1);
    assert_eq!(p.errors[0].kind, ErrorKind::SyntaxError);
    assert!(p.errors[0].message.contains("mismatch parenthesis"));
    assert_eq!(p.errors[0].offset, 0);
}

#[test]
fn grouping_closing_paren_across_newlines() {
    let mut p = parser_for("(1\n\n)");
    let e = p.assignment();
    assert!(p.errors.is_empty());
    assert!(matches!(e, Expr::Grouping { .. }));
}

#[test]
fn mutable_binding() {
    let tokens = vec![
        token(Kind::Mut, 0, "mut"),
        token(Kind::Symbol, 4, "x"),
        token(Kind::Equal, 6, "="),
        token(Kind::Integer, 8, "5"),
        token(Kind::End, 9, "<EOF>"),
    ];
    let mut p = Parser::new(tokens);
    p.parse();
    assert!(p.errors.is_empty());
    assert_eq!(p.tree.len(), 1);
    match &p.tree[0] {
        Stmt::Binding { mutable, name, initializer, .. } => {
            assert!(*mutable);
            assert_eq!(name, "x");
            let init = initializer.as_ref().expect("initializer");
            assert_eq!(integer(init), 5);
        }
        other => panic!("expected a binding, found {:?}", other),
    }
}

#[test]
fn immutable_binding() {
    let tokens = vec![
        token(Kind::Symbol, 0, "y"),
        token(Kind::Equal, 2, "="),
        token(Kind::Symbol, 4, "z"),
        token(Kind::Semicolon, 5, ";"),
        token(Kind::End, 6, "<EOF>"),
    ];
    let mut p = Parser::new(tokens);
    p.parse();
    assert!(p.errors.is_empty());
    assert_eq!(p.tree.len(), 1);
    match &p.tree[0] {
        Stmt::Binding { mutable, name, initializer, span } => {
            assert!(!*mutable);
            assert_eq!(name, "y");
            assert_eq!(span.start, 2);
            assert!(matches!(initializer.as_deref(), Some(Expr::Symbol { .. })));
        }
        other => panic!("expected a binding, found {:?}", other),
    }
}

#[test]
fn semicolon_separates_statements() {
    let tokens = vec![
        token(Kind::Symbol, 0, "f"),
        token(Kind::LParen, 1, "("),
        token(Kind::RParen, 2, ")"),
        token(Kind::Semicolon, 3, ";"),
        token(Kind::Symbol, 5, "g"),
        token(Kind::LParen, 6, "("),
        token(Kind::RParen, 7, ")"),
        token(Kind::Semicolon, 8, ";"),
        token(Kind::End, 9, "<EOF>"),
    ];
    let mut p = Parser::new(tokens);
    p.parse();
    assert!(p.errors.is_empty());
    assert_eq!(p.tree.len(), 2);
    assert!(p.tree.iter().all(|s| matches!(s, Stmt::Expression { expr: Expr::FunctionCall { .. }, .. })));
}

#[test]
fn mut_without_symbol() {
    let tokens = vec![
        token(Kind::Mut, 0, "mut"),
        token(Kind::Integer, 4, "5"),
        token(Kind::End, 5, "<EOF>"),
    ];
    let mut p = Parser::new(tokens);
    p.parse();
    assert_eq!(p.tree.len(), 1);
    assert!(matches!(p.tree[0], Stmt::Empty { .. }));
    assert_eq!(p.errors.len(), 1);
    assert_eq!(p.errors[0].message, "expected a symbol after 'mut'");
    assert_eq!(p.errors[0].offset, 4);
}

#[test]
fn assignment_statement() {
    let mut p = parser_for("a -> b\n");
    p.parse();
    assert!(p.errors.is_empty());
    assert_eq!(p.tree.len(), 1);
    match &p.tree[0] {
        Stmt::Expression { expr: Expr::Assignment { lhs, rhs, .. }, .. } => {
            assert!(matches!(**lhs, Expr::Symbol { .. }));
            assert!(matches!(**rhs, Expr::Symbol { .. }));
        }
        other => panic!("expected an assignment, found {:?}", other),
    }
}

#[test]
fn assignment_is_right_associative() {
    let mut p = parser_for("a -> b -> c");
    match p.assignment() {
        Expr::Assignment { lhs, rhs, .. } => {
            assert!(matches!(*lhs, Expr::Symbol { .. }));
            assert!(matches!(*rhs, Expr::Assignment { .. }));
        }
        other => panic!("expected an assignment, found {:?}", other),
    }
}

#[test]
fn function_call_statement() {
    let mut p = parser_for("f(1, x)");
    p.parse();
    assert!(p.errors.is_empty());
    assert_eq!(p.tree.len(), 1);
    match &p.tree[0] {
        Stmt::Expression { expr: Expr::FunctionCall { callee, arguments, .. }, .. } => {
            assert!(matches!(**callee, Expr::Symbol { .. }));
            assert_eq!(arguments.len(), 2);
            assert_eq!(integer(&arguments[0]), 1);
        }
        other => panic!("expected a call, found {:?}", other),
    }
}

#[test]
fn chained_calls() {
    let mut p = parser_for("f(x)(y)");
    match p.assignment() {
        Expr::FunctionCall { callee, arguments, .. } => {
            assert_eq!(arguments.len(), 1);
            assert!(matches!(*callee, Expr::FunctionCall { .. }));
        }
        other => panic!("expected a call, found {:?}", other),
    }
    assert!(p.errors.is_empty());
}

#[test]
fn call_without_arguments() {
    let mut p = parser_for("f()");
    p.parse();
    assert!(p.errors.is_empty());
    match &p.tree[0] {
        Stmt::Expression { expr: Expr::FunctionCall { arguments, .. }, .. } => {
            assert!(arguments.is_empty())
        }
        other => panic!("expected a call, found {:?}", other),
    }
}

#[test]
fn call_argument_error() {
    let mut p = parser_for("f(1 2)");
    p.parse();
    assert!(p
        .errors
        .iter()
        .any(|e| e.message == "expected ',' for more arguments or ')' to close function call"));
}

#[test]
fn bare_literal_statement_is_rejected() {
    let mut p = parser_for("5");
    p.parse();
    assert_eq!(p.tree.len(), 1);
    assert!(matches!(p.tree[0], Stmt::Empty { .. }));
    assert_eq!(p.errors.len(), 1);
    assert_eq!(p.errors[0].message, "expected a declaration, assignment, or function call");
}

#[test]
fn missing_terminator() {
    let mut p = parser_for("f(1) g(2)");
    p.parse();
    assert!(matches!(p.tree[0], Stmt::Empty { .. }));
    assert_eq!(p.errors[0].message, "expected newline or ';' after statement");
}

#[test]
fn expression_at_end_of_input() {
    let mut p = parser_for("x ->");
    p.parse();
    assert_eq!(p.errors.len(), 1);
    let e = &p.errors[0];
    assert_eq!(e.kind, ErrorKind::SyntaxError);
    assert_eq!(e.offset, 3);
    assert_eq!(e.len, 1);
    assert_eq!(e.message, "expected an expression after this but found EOF (end of file) instead.");
    match &p.tree[0] {
        Stmt::Expression { expr: Expr::Assignment { rhs, .. }, .. } => {
            assert!(matches!(**rhs, Expr::Empty { span: Span { valid: false, .. } }));
        }
        other => panic!("expected an assignment, found {:?}", other),
    }
}

#[test]
fn unexpected_token() {
    let mut p = parser_for(")");
    let e = p.assignment();
    assert!(matches!(e, Expr::Empty { .. }));
    assert_eq!(p.errors[0].message, "expected an expression here.");
}

#[test]
fn integer_literal_values() {
    let mut p = parser_for("9223372036854775807");
    assert_eq!(integer(&p.assignment()), i64::MAX);
    assert!(p.errors.is_empty());

    let mut p = parser_for("9223372036854775808");
    assert_eq!(integer(&p.assignment()), 0);
    assert_eq!(p.errors.len(), 1);
    assert_eq!(p.errors[0].kind, ErrorKind::ParseError);

    let mut p = parser_for("1_000");
    assert_eq!(integer(&p.assignment()), 0);
    assert_eq!(p.errors[0].kind, ErrorKind::ParseError);
    assert_eq!(p.errors[0].len, 5);
}

fn single_token(kind: Kind, lexeme: &str) -> Parser {
    Parser::new(vec![token(kind, 0, lexeme), token(Kind::End, lexeme.len(), "<EOF>")])
}

#[test]
fn signed_integer_literals() {
    let mut p = single_token(Kind::Integer, "+5");
    assert_eq!(integer(&p.assignment()), 5);
    assert!(p.errors.is_empty());

    let mut p = single_token(Kind::Integer, "-5");
    assert_eq!(integer(&p.assignment()), -5);
    assert!(p.errors.is_empty());

    let mut p = single_token(Kind::Integer, "-9223372036854775808");
    assert_eq!(integer(&p.assignment()), i64::MIN);
    assert!(p.errors.is_empty());

    let mut p = single_token(Kind::Integer, "-9223372036854775809");
    assert_eq!(integer(&p.assignment()), 0);
    assert_eq!(p.errors[0].kind, ErrorKind::ParseError);

    for bad in ["-", "+", "--5", "+-5", "5-", ""] {
        let mut p = single_token(Kind::Integer, bad);
        assert_eq!(integer(&p.assignment()), 0, "lexeme {:?}", bad);
        assert_eq!(p.errors.len(), 1, "lexeme {:?}", bad);
        assert_eq!(p.errors[0].kind, ErrorKind::ParseError);
    }
}

#[test]
fn float_literals() {
    let mut p = parser_for("2.5");
    match p.assignment() {
        Expr::Float { literal, .. } => {
            assert_eq!(literal, "2.5");
            assert_eq!(literal.parse::<f64>().unwrap(), 2.5f64);
        }
        other => panic!("expected a float, found {:?}", other),
    }
    assert!(p.errors.is_empty());

    let mut p = parser_for("1.2.3");
    assert!(matches!(p.assignment(), Expr::Float { .. }));
    assert_eq!(p.errors.len(), 1);
    assert_eq!(p.errors[0].message, "there was a compiler error parsing this float literal.");
}

#[test]
fn strings_and_symbols() {
    let mut p = parser_for("\"hi\"");
    assert_eq!(
        p.assignment(),
        Expr::String { span: Span { line: 1, start: 1, stop: 3, valid: true }, text: "hi".to_string() }
    );
}

#[test]
fn newlines_between_statements_are_skipped() {
    let mut p = parser_for("\n\nf(1)\n\ng(2)\nh(3)\n");
    p.parse();
    assert!(p.errors.is_empty());
    assert_eq!(p.tree.len(), 3);
}

#[test]
fn empty_input_parses_to_nothing() {
    let mut p = parser_for("");
    p.parse();
    assert!(p.tree.is_empty());
    assert!(p.errors.is_empty());
}

#[test]
fn operator_lookup() {
    assert_eq!(AstOp::from_token(&Kind::Plus), Some(AstOp::Plus));
    assert_eq!(AstOp::from_token(&Kind::Minus), Some(AstOp::Minus));
    assert_eq!(AstOp::from_token(&Kind::Star), Some(AstOp::Multiply));
    assert_eq!(AstOp::from_token(&Kind::Slash), Some(AstOp::Divide));
    assert_eq!(AstOp::from_token(&Kind::Modulo), Some(AstOp::Modulus));
    assert_eq!(AstOp::from_token(&Kind::Arrow), Some(AstOp::Reassign));
    assert_eq!(AstOp::from_token(&Kind::Comma), None);
    assert_eq!(AstOp::Reassign.precedence(), -1);
    assert_eq!(AstOp::Plus.precedence(), 0);
    assert_eq!(AstOp::Minus.precedence(), 0);
    assert_eq!(AstOp::Multiply.precedence(), 1);
    assert_eq!(AstOp::Divide.precedence(), 1);
    assert_eq!(AstOp::Modulus.precedence(), 1);
    assert_eq!(AstOp::Modulus.describe(), "MODULUS '%'");
}

#[test]
fn rebalance_swaps_lower_precedence() {
    let sp = Span::new(1, 0, 1);
    let leaf = |v: i64| Box::new(Expr::Integer { span: sp, value: v });
    let built = Expr::Binary {
        span: sp,
        lhs: leaf(5),
        rhs: Box::new(Expr::Binary { span: sp, lhs: leaf(3), rhs: leaf(10), op: AstOp::Plus }),
        op: AstOp::Multiply,
    };
    let expected = Expr::Binary {
        span: sp,
        lhs: leaf(10),
        rhs: Box::new(Expr::Binary { span: sp, lhs: leaf(3), rhs: leaf(5), op: AstOp::Multiply }),
        op: AstOp::Plus,
    };
    assert_eq!(chao::ast::rebalance(built), expected);

    let kept = Expr::Binary {
        span: sp,
        lhs: leaf(5),
        rhs: Box::new(Expr::Binary { span: sp, lhs: leaf(3), rhs: leaf(10), op: AstOp::Divide }),
        op: AstOp::Multiply,
    };
    let same = Expr::Binary {
        span: sp,
        lhs: leaf(5),
        rhs: Box::new(Expr::Binary { span: sp, lhs: leaf(3), rhs: leaf(10), op: AstOp::Divide }),
        op: AstOp::Multiply,
    };
    assert_eq!(chao::ast::rebalance(kept), same);
}

#[test]
fn span_new_is_valid() {
    assert_eq!(Span::new(2, 3, 4), Span { line: 2, start: 3, stop: 4, valid: true });
}
