use vstd::prelude::*;

verus! {

/// The closed set of token kinds the scanner can produce.
#[derive(Debug, Clone, Copy, PartialEq, Eq, Structural)]
pub enum Kind {
    LParen,
    RParen,
    LCurl,
    RCurl,
    LBrac,
    RBrac,
    Plus,
    Minus,
    Star,
    Slash,
    Modulo,
    Arrow,
    Comma,
    Equal,
    EqualEqual,
    Bang,
    BangEqual,
    Less,
    LessEqual,
    More,
    MoreEqual,
    Integer,
    Float,
    String,
    Symbol,
    Mut,
    Function,
    Semicolon,
    Newline,
    End,
}

/// The keyword a word stands for, if it is one.
pub open spec fn keyword_of(word: Seq<char>) -> Option<Kind> {
    if word == "mut"@ {
        Some(Kind::Mut)
    } else if word == "function"@ {
        Some(Kind::Function)
    } else {
        None
    }
}

impl Kind {
    /// Looks a scanned word up in the keyword table.
    pub fn get_keyword(string: &String) -> (r: Option<Kind>)
        ensures
            r == keyword_of(string@),
    {
        let word = string.as_str();
        if crate::text::str_equal(word, "mut") {
            Some(Kind::Mut)
        } else if crate::text::str_equal(word, "function") {
            Some(Kind::Function)
        } else {
            None
        }
    }
}

/// A lexical unit: its kind, where it starts (a character offset into the
/// source), the line it is on (counted from 1), and its text.
#[derive(Debug)]
pub struct Token {
    pub kind: Kind,
    pub offset: usize,
    pub line: usize,
    pub lexeme: String,
}

/// The mathematical value of a token.
pub struct TokenView {
    pub kind: Kind,
    pub offset: nat,
    pub line: nat,
    pub lexeme: Seq<char>,
}

impl View for Token {
    type V = TokenView;

    open spec fn view(&self) -> TokenView {
        TokenView {
            kind: self.kind,
            offset: self.offset as nat,
            line: self.line as nat,
            lexeme: self.lexeme@,
        }
    }
}

} // verus!
