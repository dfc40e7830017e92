//! Positioned diagnostics and their rendering against the source text.
use crate::text::{decimal, push_char, push_decimal, push_repeated};
use vstd::prelude::*;

verus! {

/// What went wrong.
#[derive(Debug, Clone, Copy, PartialEq, Eq, Structural)]
pub enum Kind {
    SyntaxError,
    UnterminatedLiteral,
    ParseError,
}

/// How severe a diagnostic is. Only `Abort` is raised; the others are
/// reserved and change no control flow.
#[derive(Debug, Clone, Copy, PartialEq, Eq, Structural)]
pub enum Flag {
    Abort,
    Warning,
    Suggestion,
}

/// A diagnostic: `offset` and `len` give the start (a character offset into
/// the source) and the length of the offending text; `line` counts from 1.
#[derive(Debug)]
pub struct CompilerError {
    pub kind: Kind,
    pub flag: Flag,
    pub line: usize,
    pub offset: usize,
    pub len: usize,
    pub message: String,
}

/// The mathematical value of a diagnostic.
pub struct ErrorView {
    pub kind: Kind,
    pub flag: Flag,
    pub line: nat,
    pub offset: nat,
    pub len: nat,
    pub message: Seq<char>,
}

impl View for CompilerError {
    type V = ErrorView;

    open spec fn view(&self) -> ErrorView {
        ErrorView {
            kind: self.kind,
            flag: self.flag,
            line: self.line as nat,
            offset: self.offset as nat,
            len: self.len as nat,
            message: self.message@,
        }
    }
}

/// The name a diagnostic header gives to each kind.
pub open spec fn kind_name(k: Kind) -> Seq<char> {
    match k {
        Kind::SyntaxError => "Syntax Error"@,
        Kind::UnterminatedLiteral => "Unterminated Literal"@,
        Kind::ParseError => "Parse Error"@,
    }
}

/// Where the line holding position `i` starts: just after the closest
/// preceding newline, or at the start of the text.
pub open spec fn line_start(s: Seq<char>, i: int) -> int
    decreases i,
{
    if i <= 0 {
        0
    } else if s[i - 1] == '\n' {
        i
    } else {
        line_start(s, i - 1)
    }
}

/// Where the line holding position `i` ends: at the next newline, or at the
/// end of the text.
pub open spec fn line_end(s: Seq<char>, i: int) -> int
    decreases s.len() - i,
{
    if i >= s.len() || s[i] == '\n' {
        i
    } else {
        line_end(s, i + 1)
    }
}

/// `n` copies of `c`.
pub open spec fn repeated(c: char, n: nat) -> Seq<char> {
    Seq::new(n, |i: int| c)
}

/// The text of a rendered diagnostic:
///
/// ```text
/// [ERROR] <path>:<line> <kind>:
/// ~
/// ~ <the source line holding the offset>
/// ~ <spaces up to the offset's column><one caret per character>
/// help: <message>
/// ```
pub open spec fn rendered(e: ErrorView, source: Seq<char>, path: Seq<char>) -> Seq<char> {
    let start = line_start(source, e.offset as int);
    let end = line_end(source, e.offset as int);
    "[ERROR] "@ + path + ":"@ + decimal(e.line) + " "@ + kind_name(e.kind) + ":\n~\n~ "@
        + source.subrange(start, end) + "\n~ "@ + repeated(' ', (e.offset - start) as nat)
        + repeated('^', e.len) + "\nhelp: "@ + e.message + "\n"@
}

proof fn lemma_line_start_bounds(s: Seq<char>, i: int)
    requires
        0 <= i <= s.len(),
    ensures
        0 <= line_start(s, i) <= i,
    decreases i,
{
    if i > 0 && s[i - 1] != '\n' {
        lemma_line_start_bounds(s, i - 1);
    }
}

proof fn lemma_line_end_bounds(s: Seq<char>, i: int)
    requires
        0 <= i <= s.len(),
    ensures
        i <= line_end(s, i) <= s.len(),
    decreases s.len() - i,
{
    if i < s.len() && s[i] != '\n' {
        lemma_line_end_bounds(s, i + 1);
    }
}

impl CompilerError {
    pub fn new(kind: Kind, flag: Flag, line: usize, offset: usize, len: usize, message: &str) -> (r:
        Self)
        ensures
            r@ == (ErrorView {
                kind,
                flag,
                line: line as nat,
                offset: offset as nat,
                len: len as nat,
                message: message@,
            }),
    {
        CompilerError { kind, flag, line, offset, len, message: message.to_owned() }
    }

    /// Renders this diagnostic against the source text it was raised on,
    /// with `path` naming that source in the header. The offset must lie
    /// inside the source.
    pub fn render(&self, source: &String, path: &String) -> (r: String)
        requires
            self.offset < source@.len(),
        ensures
            r@ == rendered(self@, source@, path@),
    {
        let src = crate::text::chars_of(source.as_str());
        let n = src.len();
        let off = self.offset;
        let mut start = off;
        while start > 0 && src[start - 1] != '\n'
            invariant
                src@ == source@,
                n == src@.len(),
                start <= off < n,
                line_start(src@, start as int) == line_start(src@, off as int),
            decreases start,
        {
            start = start - 1;
        }
        let mut end = off;
        while end < n && src[end] != '\n'
            invariant
                src@ == source@,
                n == src@.len(),
                off <= end <= n,
                line_end(src@, end as int) == line_end(src@, off as int),
            decreases n - end,
        {
            end = end + 1;
        }
        let mut out = String::new();
        out.append("[ERROR] ");
        out.append(path.as_str());
        out.append(":");
        push_decimal(&mut out, self.line);
        out.append(" ");
        out.append(self.kind.name());
        out.append(":\n~\n~ ");
        let mut i = start;
        while i < end
            invariant
                src@ == source@,
                n == src@.len(),
                start <= i <= end <= n,
                out@ == "[ERROR] "@ + path@ + ":"@ + decimal(self.line as nat) + " "@ + kind_name(
                    self.kind,
                ) + ":\n~\n~ "@ + src@.subrange(start as int, i as int),
            decreases end - i,
        {
            push_char(&mut out, src[i]);
            proof {
                assert(src@.subrange(start as int, i + 1) =~= src@.subrange(start as int, i as int).push(
                    src@[i as int],
                ));
            }
            i = i + 1;
        }
        out.append("\n~ ");
        push_repeated(&mut out, ' ', off - start);
        push_repeated(&mut out, '^', self.len);
        out.append("\nhelp: ");
        out.append(self.message.as_str());
        out.append("\n");
        proof {
            assert(out@ =~= rendered(self@, source@, path@));
        }
        out
    }
}

/// Rendering only reads the diagnostic and the source: the same diagnostic
/// rendered twice against the same source and path gives the same text.
pub proof fn lemma_render_idempotent(
    e: &CompilerError,
    source: &String,
    path: &String,
    first: &String,
    second: &String,
)
    requires
        first@ == rendered(e@, source@, path@),
        second@ == rendered(e@, source@, path@),
    ensures
        first@ == second@,
{
}

impl Kind {
    /// The name a diagnostic header gives to this kind.
    pub fn name(&self) -> (r: &'static str)
        ensures
            r@ == kind_name(*self),
    {
        match self {
            Kind::SyntaxError => "Syntax Error",
            Kind::UnterminatedLiteral => "Unterminated Literal",
            Kind::ParseError => "Parse Error",
        }
    }
}

} // verus!
