use chao::errors::{CompilerError, Flag, Kind};
use chao::lexer::Lexer;

#[test]
fn render_single_line() {
    let source = "a ~ b".to_string();
    let e = CompilerError::new(Kind::SyntaxError, Flag::Abort, 1, 2, 1, "illegal character");
    let text = e.render(&source, &"main.chao".to_string());
    assert_eq!(
        text,
        "[ERROR] main.chao:1 Syntax Error:\n~\n~ a ~ b\n~   ^\nhelp: illegal character\n"
    );
}

#[test]
fn render_is_idempotent() {
    let source = "x -> 1\ny ~ z\n".to_string();
    let path = "p.chao".to_string();
    let e = CompilerError::new(Kind::SyntaxError, Flag::Abort, 2, 9, 1, "illegal character");
    let first = e.render(&source, &path);
    let second = e.render(&source, &path);
    assert_eq!(first, second);
}

#[test]
fn render_middle_line() {
    let source = "first\nab \"cd\nlast".to_string();
    let e = CompilerError::new(Kind::UnterminatedLiteral, Flag::Abort, 12, 9, 3, "unclosed");
    let text = e.render(&source, &"f".to_string());
    assert_eq!(
        text,
        "[ERROR] f:12 Unterminated Literal:\n~\n~ ab \"cd\n~    ^^^\nhelp: unclosed\n"
    );
}

#[test]
fn render_offset_on_newline() {
    let source = "ab\ncd".to_string();
    let e = CompilerError::new(Kind::ParseError, Flag::Warning, 1, 2, 0, "m");
    assert_eq!(e.render(&source, &"s".to_string()), "[ERROR] s:1 Parse Error:\n~\n~ ab\n~   \nhelp: m\n");
}

#[test]
fn render_scanner_diagnostic() {
    let source = "x\n\"abc".to_string();
    let mut lexer = Lexer::new(&source);
    lexer.scan();
    assert_eq!(lexer.errors.len(), 1);
    let text = lexer.errors[0].render(&source, &"m".to_string());
    assert_eq!(
        text,
        "[ERROR] m:2 Unterminated Literal:\n~\n~ \"abc\n~ ^^^^\nhelp: this string literal has no ending '\"'\n"
    );
}

#[test]
fn compiler_error_new_keeps_fields() {
    let e = CompilerError::new(Kind::ParseError, Flag::Suggestion, 3, 4, 5, "msg");
    assert_eq!(e.kind, Kind::ParseError);
    assert_eq!(e.flag, Flag::Suggestion);
    assert_eq!((e.line, e.offset, e.len), (3, 4, 5));
    assert_eq!(e.message, "msg");
    assert_eq!(Kind::SyntaxError.name(), "Syntax Error");
}
