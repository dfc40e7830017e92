use chao::errors::{Flag, Kind as ErrorKind};
use chao::lexer::{tokenize, Lexer};
use chao::token::{Kind, Token};

fn kinds(tokens: &[Token]) -> Vec<Kind> {
    tokens.iter().map(|t| t.kind).collect()
}

fn scan(source: &str) -> Lexer {
    let mut lexer = Lexer::new(&source.to_string());
    lexer.scan();
    lexer
}

#[test]
fn scan_ends_with_exactly_one_end() {
    for source in ["", "a", "x -> f(1, 2)\n", "\"abc", "a ~ b", "1.2.3 mut\n\n", "\"\""] {
        let lexer = scan(source);
        let ks = kinds(&lexer.output);
        assert_eq!(ks.last(), Some(&Kind::End), "source {:?}", source);
        assert_eq!(ks.iter().filter(|k| **k == Kind::End).count(), 1, "source {:?}", source);
    }
}

#[test]
fn scan_empty_source_is_just_end() {
    let lexer = scan("");
    assert_eq!(kinds(&lexer.output), vec![Kind::End]);
    assert_eq!(lexer.output[0].lexeme, "<EOF>");
    assert_eq!(lexer.output[0].offset, 0);
    assert!(lexer.errors.is_empty());
}

#[test]
fn scan_accounts_for_every_character() {
    let source = "mut x -> f(1, \"s t\")\n  y * (2 + 3)\t% 4 / 5\r\n";
    let lexer = scan(source);
    assert!(lexer.errors.is_empty());
    let chars: Vec<char> = source.chars().collect();
    for (i, c) in chars.iter().enumerate() {
        let blank = *c == ' ' || *c == '\t' || *c == '\r';
        let covered = lexer.output.iter().any(|t| {
            let len = t.lexeme.chars().count();
            (t.offset <= i && i < t.offset + len)
                || (t.kind == Kind::String && (i + 1 == t.offset || i == t.offset + len))
        });
        assert!(blank || covered, "character {} ({:?}) unaccounted for", i, c);
    }
}

#[test]
fn scan_unterminated_string() {
    let lexer = scan("\"abc");
    assert_eq!(lexer.errors.len(), 1);
    let e = &lexer.errors[0];
    assert_eq!(e.kind, ErrorKind::UnterminatedLiteral);
    assert_eq!(e.flag, Flag::Abort);
    assert_eq!(e.offset, 0);
    assert_eq!(e.len, 4);
    assert_eq!(kinds(&lexer.output), vec![Kind::String, Kind::End]);
    assert_eq!(lexer.output[0].lexeme, "abc");
    assert_eq!(lexer.output[0].offset, 1);
}

#[test]
fn scan_closed_string() {
    let lexer = scan("\"hi\" x");
    assert!(lexer.errors.is_empty());
    assert_eq!(kinds(&lexer.output), vec![Kind::String, Kind::Symbol, Kind::End]);
    assert_eq!(lexer.output[0].lexeme, "hi");
    assert_eq!(lexer.output[1].lexeme, "x");
    assert_eq!(lexer.output[1].offset, 5);
}

#[test]
fn scan_empty_string() {
    let lexer = scan("\"\"");
    assert!(lexer.errors.is_empty());
    assert_eq!(kinds(&lexer.output), vec![Kind::String, Kind::End]);
    assert_eq!(lexer.output[0].lexeme, "");
}

#[test]
fn scan_illegal_character() {
    let lexer = scan("a ~ b");
    assert_eq!(lexer.errors.len(), 1);
    let e = &lexer.errors[0];
    assert_eq!(e.kind, ErrorKind::SyntaxError);
    assert_eq!(e.offset, 2);
    assert_eq!(e.len, 1);
    assert_eq!(e.message, "illegal character");
    assert_eq!(kinds(&lexer.output), vec![Kind::Symbol, Kind::Symbol, Kind::End]);
    assert_eq!(lexer.output[0].lexeme, "a");
    assert_eq!(lexer.output[1].lexeme, "b");
    assert_eq!(lexer.output[1].offset, 4);
}

#[test]
fn scan_equal_sign_is_not_a_token() {
    let lexer = scan("mut x = 5");
    assert_eq!(kinds(&lexer.output), vec![Kind::Mut, Kind::Symbol, Kind::Integer, Kind::End]);
    assert_eq!(lexer.errors.len(), 1);
    assert_eq!(lexer.errors[0].offset, 6);
}

#[test]
fn scan_arrow_and_minus() {
    let lexer = scan("a -> b - c->d");
    assert_eq!(
        kinds(&lexer.output),
        vec![
            Kind::Symbol,
            Kind::Arrow,
            Kind::Symbol,
            Kind::Minus,
            Kind::Symbol,
            Kind::Arrow,
            Kind::Symbol,
            Kind::End
        ]
    );
    assert_eq!(lexer.output[1].lexeme, "->");
    assert_eq!(lexer.output[5].offset, 10);
}

#[test]
fn scan_single_character_tokens() {
    let lexer = scan("(){}[]+*/%,");
    assert_eq!(
        kinds(&lexer.output),
        vec![
            Kind::LParen,
            Kind::RParen,
            Kind::LCurl,
            Kind::RCurl,
            Kind::LBrac,
            Kind::RBrac,
            Kind::Plus,
            Kind::Star,
            Kind::Slash,
            Kind::Modulo,
            Kind::Comma,
            Kind::End
        ]
    );
    assert!(lexer.errors.is_empty());
}

#[test]
fn scan_keywords_and_symbols() {
    let lexer = scan("mut function muty _x9 héllo");
    assert_eq!(
        kinds(&lexer.output),
        vec![Kind::Mut, Kind::Function, Kind::Symbol, Kind::Symbol, Kind::Symbol, Kind::End]
    );
    assert_eq!(lexer.output[2].lexeme, "muty");
    assert_eq!(lexer.output[3].lexeme, "_x9");
    assert_eq!(lexer.output[4].lexeme, "héllo");
}

#[test]
fn keyword_table() {
    assert_eq!(Kind::get_keyword(&"mut".to_string()), Some(Kind::Mut));
    assert_eq!(Kind::get_keyword(&"function".to_string()), Some(Kind::Function));
    assert_eq!(Kind::get_keyword(&"mutable".to_string()), None);
    assert_eq!(Kind::get_keyword(&"".to_string()), None);
}

#[test]
fn scan_numbers() {
    let lexer = scan("42 1_000 3.14 1.2.3 7.");
    assert_eq!(
        kinds(&lexer.output),
        vec![Kind::Integer, Kind::Integer, Kind::Float, Kind::Float, Kind::Float, Kind::End]
    );
    assert_eq!(lexer.output[1].lexeme, "1_000");
    assert_eq!(lexer.output[3].lexeme, "1.2.3");
    assert_eq!(lexer.output[4].lexeme, "7.");
}

#[test]
fn scan_newlines_count_lines() {
    let lexer = scan("a\n\nb");
    assert_eq!(kinds(&lexer.output), vec![Kind::Symbol, Kind::Newline, Kind::Newline, Kind::Symbol, Kind::End]);
    assert_eq!(lexer.output[0].line, 1);
    assert_eq!(lexer.output[1].line, 1);
    assert_eq!(lexer.output[2].line, 2);
    assert_eq!(lexer.output[3].line, 3);
    assert_eq!(lexer.output[3].offset, 3);
    assert_eq!(lexer.output[1].lexeme, "\n");
}

#[test]
fn scan_stops_at_nul() {
    let lexer = scan("a\0b");
    assert_eq!(kinds(&lexer.output), vec![Kind::Symbol, Kind::End]);
    assert_eq!(lexer.output[1].offset, 1);
}

#[test]
fn tokenize_matches_lexer() {
    let (tokens, errors) = tokenize(&"x ~ 1".to_string());
    assert_eq!(kinds(&tokens), vec![Kind::Symbol, Kind::Integer, Kind::End]);
    assert_eq!(errors.len(), 1);
    assert_eq!(tokens[2].offset, 5);
    assert_eq!(tokens[2].lexeme, "<EOF>");
}
