//! The scanner: source text to tokens, collecting lexical diagnostics.
use crate::errors::{self, CompilerError, ErrorView};
use crate::literal::is_decimal_digit;
use crate::text::{alphanumeric_of, chars_of, is_alphanumeric, string_of};
use crate::token::{self, keyword_of, Token, TokenView};
use vstd::prelude::*;
use vstd::slice::slice_subrange;

verus! {

/// The character at position `i`, or `'\0'` past either end.
pub open spec fn char_at(s: Seq<char>, i: int) -> char {
    if 0 <= i < s.len() {
        s[i]
    } else {
        '\0'
    }
}

/// Characters that start an identifier or keyword.
pub open spec fn is_word_start(c: char) -> bool {
    ('a' <= c && c <= 'z') || ('A' <= c && c <= 'Z') || c == '_'
}

/// Characters that continue an identifier or keyword: `_` and the
/// alphanumeric characters, which among ASCII are the letters and digits.
pub open spec fn is_word_char(c: char) -> bool {
    if (c as u32) < 128 {
        ('a' <= c && c <= 'z') || ('A' <= c && c <= 'Z') || ('0' <= c && c <= '9') || c == '_'
    } else {
        alphanumeric_of(c)
    }
}

/// Characters that continue a number.
pub open spec fn is_number_char(c: char) -> bool {
    is_decimal_digit(c) || c == '_' || c == '.'
}

/// Characters that continue a string literal.
pub open spec fn is_literal_char(c: char) -> bool {
    c != '"' && c != '\0'
}

/// The number of consecutive characters from position `i` on that satisfy `p`.
pub open spec fn run_len(s: Seq<char>, i: int, p: spec_fn(char) -> bool) -> nat
    decreases s.len() - i,
{
    if 0 <= i < s.len() && p(s[i]) {
        1 + run_len(s, i + 1, p)
    } else {
        0
    }
}

/// Length of the run of string-literal characters from position `i` on.
pub open spec fn literal_run(s: Seq<char>, i: int) -> nat {
    run_len(s, i, |x: char| is_literal_char(x))
}

/// Length of the run of identifier characters from position `i` on.
pub open spec fn word_run(s: Seq<char>, i: int) -> nat {
    run_len(s, i, |x: char| is_word_char(x))
}

/// Length of the run of number characters from position `i` on.
pub open spec fn number_run(s: Seq<char>, i: int) -> nat {
    run_len(s, i, |x: char| is_number_char(x))
}

/// The text of a token spanning positions `start` through `last`, or
/// `<EOF>` where either lies past the end of the source.
pub open spec fn lexeme_of(s: Seq<char>, start: int, last: int) -> Seq<char> {
    if start >= s.len() || last >= s.len() {
        "<EOF>"@
    } else {
        s.subrange(start, last + 1)
    }
}

/// The kind of a token made of one character, for the characters that make one.
pub open spec fn single_kind(c: char) -> Option<token::Kind> {
    if c == '(' {
        Some(token::Kind::LParen)
    } else if c == ')' {
        Some(token::Kind::RParen)
    } else if c == '{' {
        Some(token::Kind::LCurl)
    } else if c == '}' {
        Some(token::Kind::RCurl)
    } else if c == '[' {
        Some(token::Kind::LBrac)
    } else if c == ']' {
        Some(token::Kind::RBrac)
    } else if c == '+' {
        Some(token::Kind::Plus)
    } else if c == '*' {
        Some(token::Kind::Star)
    } else if c == '/' {
        Some(token::Kind::Slash)
    } else if c == '%' {
        Some(token::Kind::Modulo)
    } else if c == ',' {
        Some(token::Kind::Comma)
    } else {
        None
    }
}

/// What one scanning step does: the token and the diagnostic it produces,
/// if any, where the next step starts and on which line, and whether this
/// step ended the scan.
pub struct Step {
    pub token: Option<TokenView>,
    pub error: Option<ErrorView>,
    pub next: int,
    pub line: int,
    pub done: bool,
}

pub open spec fn token_view(kind: token::Kind, offset: int, line: int, lexeme: Seq<char>) -> TokenView {
    TokenView { kind, offset: offset as nat, line: line as nat, lexeme }
}

pub open spec fn error_view(kind: errors::Kind, line: int, offset: int, len: int, message: Seq<char>) -> ErrorView {
    ErrorView {
        kind,
        flag: errors::Flag::Abort,
        line: line as nat,
        offset: offset as nat,
        len: len as nat,
        message,
    }
}

/// The line after `line`; the count is a `usize` and holds at its largest
/// value.
pub open spec fn next_line(line: int) -> int {
    if line < usize::MAX {
        line + 1
    } else {
        line
    }
}

/// A step that emits one token spanning `c` through `last`.
pub open spec fn emit(s: Seq<char>, kind: token::Kind, c: int, last: int, line: int) -> Step {
    Step {
        token: Some(token_view(kind, c, line, lexeme_of(s, c, last))),
        error: None,
        next: last + 1,
        line,
        done: false,
    }
}

/// One scanning step from position `c` on line `line`. Blanks are skipped;
/// a newline is a token and starts the next line; `-` followed by `>` is an
/// arrow; a string literal runs to the next `"`, which it consumes, or to
/// the end of the source, which is reported; identifiers are looked up in
/// the keyword table; a number with a `.` in it is a float; `'\0'`, which
/// every position past the end reads as, ends the scan; any other character
/// is reported and skipped.
pub open spec fn step(s: Seq<char>, c: int, line: int) -> Step {
    let ch = char_at(s, c);
    if ch == ' ' || ch == '\t' || ch == '\r' {
        Step { token: None, error: None, next: c + 1, line, done: false }
    } else if ch == '\n' {
        Step {
            token: Some(token_view(token::Kind::Newline, c, line, lexeme_of(s, c, c))),
            error: None,
            next: c + 1,
            line: next_line(line),
            done: false,
        }
    } else if single_kind(ch) is Some {
        emit(s, single_kind(ch)->0, c, c, line)
    } else if ch == '-' {
        if char_at(s, c + 1) == '>' {
            emit(s, token::Kind::Arrow, c, c + 1, line)
        } else {
            emit(s, token::Kind::Minus, c, c, line)
        }
    } else if ch == '"' {
        let last = c + literal_run(s, c + 1);
        let closed = char_at(s, last + 1) == '"';
        Step {
            token: Some(token_view(token::Kind::String, c + 1, line, lexeme_of(s, c + 1, last))),
            error: if closed {
                None
            } else {
                Some(
                    error_view(
                        errors::Kind::UnterminatedLiteral,
                        line,
                        c,
                        s.len() - c,
                        "this string literal has no ending '\"'"@,
                    ),
                )
            },
            next: if closed {
                last + 2
            } else {
                last + 1
            },
            line,
            done: false,
        }
    } else if is_word_start(ch) {
        let last = c + word_run(s, c + 1);
        let kind = match keyword_of(lexeme_of(s, c, last)) {
            Some(k) => k,
            None => token::Kind::Symbol,
        };
        emit(s, kind, c, last, line)
    } else if is_decimal_digit(ch) {
        let last = c + number_run(s, c + 1);
        let kind = if exists|k: int| c < k <= last && s[k] == '.' {
            token::Kind::Float
        } else {
            token::Kind::Integer
        };
        emit(s, kind, c, last, line)
    } else if ch == '\0' {
        Step {
            token: Some(token_view(token::Kind::End, c, line, lexeme_of(s, c, c))),
            error: None,
            next: c,
            line,
            done: true,
        }
    } else {
        Step {
            token: None,
            error: Some(
                error_view(errors::Kind::SyntaxError, line, c, 1, "illegal character"@),
            ),
            next: c + 1,
            line,
            done: false,
        }
    }
}

pub open spec fn opt_seq<A>(o: Option<A>) -> Seq<A> {
    match o {
        Some(a) => seq![a],
        None => Seq::empty(),
    }
}

/// The tokens and diagnostics of repeated steps from position `c` on line
/// `line` up to the step that ends the scan.
pub open spec fn scan_from(s: Seq<char>, c: int, line: int) -> (Seq<TokenView>, Seq<ErrorView>)
    decreases s.len() - c,
    via scan_from_decreases
{
    let st = step(s, c, line);
    if st.done || c >= s.len() {
        (opt_seq(st.token), opt_seq(st.error))
    } else {
        let rest = scan_from(s, st.next, st.line);
        (opt_seq(st.token) + rest.0, opt_seq(st.error) + rest.1)
    }
}

#[via_fn]
proof fn scan_from_decreases(s: Seq<char>, c: int, line: int) {
    if !step(s, c, line).done && c < s.len() {
        lemma_step_advances(s, c, line);
    }
}

pub proof fn lemma_run_len_bound(s: Seq<char>, i: int, p: spec_fn(char) -> bool)
    requires
        0 <= i,
    ensures
        i + run_len(s, i, p) <= if i <= s.len() { s.len() as int } else { i },
        run_len(s, i, p) > 0 ==> i < s.len() && p(s[i]),
    decreases s.len() - i,
{
    if 0 <= i < s.len() && p(s[i]) {
        lemma_run_len_bound(s, i + 1, p);
    }
}

/// A step that does not end the scan moves forward and stays within the text.
pub proof fn lemma_step_advances(s: Seq<char>, c: int, line: int)
    requires
        0 <= c < s.len(),
        !step(s, c, line).done,
    ensures
        c < step(s, c, line).next <= s.len(),
{
    lemma_run_len_bound(s, c + 1, |x: char| is_literal_char(x));
    lemma_run_len_bound(s, c + 1, |x: char| is_word_char(x));
    lemma_run_len_bound(s, c + 1, |x: char| is_number_char(x));
}

/// The tokens and diagnostics of a whole source text.
pub open spec fn scan_source(s: Seq<char>) -> (Seq<TokenView>, Seq<ErrorView>) {
    scan_from(s, 0, 1)
}

pub open spec fn token_views(ts: Seq<Token>) -> Seq<TokenView> {
    ts.map_values(|t: Token| t@)
}

pub open spec fn error_views(es: Seq<CompilerError>) -> Seq<ErrorView> {
    es.map_values(|e: CompilerError| e@)
}

/// The scanner's state: the source as characters, the position of the
/// character under examination, the current line, and what has been
/// produced so far.
pub struct Lexer {
    pub output: Vec<Token>,
    pub errors: Vec<CompilerError>,
    pub stream: Vec<char>,
    pub cursor: usize,
    pub line: usize,
}

impl Lexer {
    /// The source being scanned.
    pub open spec fn source(&self) -> Seq<char> {
        self.stream@
    }

    /// The position of the character under examination.
    pub open spec fn position(&self) -> int {
        self.cursor as int
    }

    /// The line the scanner is on.
    pub open spec fn line_number(&self) -> int {
        self.line as int
    }

    pub open spec fn wf(&self) -> bool {
        &&& self.cursor <= self.stream.len()
    }

    /// The current character, or `'\0'` past the end.
    fn current(&self) -> (r: char)
        ensures
            r == char_at(self.stream@, self.cursor as int),
    {
        if self.cursor < self.stream.len() {
            self.stream[self.cursor]
        } else {
            '\0'
        }
    }

    /// The character after the current one, or `'\0'` past the end.
    fn peek(&self) -> (r: char)
        requires
            self.wf(),
        ensures
            r == char_at(self.stream@, self.cursor + 1),
    {
        if self.cursor < self.stream.len() && self.cursor + 1 < self.stream.len() {
            self.stream[self.cursor + 1]
        } else {
            '\0'
        }
    }

    /// The text from `start` through the current position.
    fn lexeme(&self, start: usize) -> (r: String)
        requires
            start <= self.cursor + 1,
        ensures
            r@ == lexeme_of(self.stream@, start as int, self.cursor as int),
    {
        if start >= self.stream.len() || self.cursor >= self.stream.len() {
            proof {
                reveal_strlit("<EOF>");
            }
            return String::from_str("<EOF>");
        }
        string_of(slice_subrange(self.stream.as_slice(), start, self.cursor + 1))
    }

    /// Emits a token of `kind` from `start` through the current position.
    fn token(&mut self, kind: token::Kind, start: usize)
        requires
            start <= old(self).cursor + 1,
        ensures
            final(self).stream == old(self).stream,
            final(self).cursor == old(self).cursor,
            final(self).line == old(self).line,
            final(self).errors == old(self).errors,
            token_views(final(self).output@) == token_views(old(self).output@).push(
                token_view(
                    kind,
                    start as int,
                    old(self).line as int,
                    lexeme_of(old(self).stream@, start as int, old(self).cursor as int),
                ),
            ),
    {
        let lexeme = self.lexeme(start);
        self.output.push(Token { kind, offset: start, line: self.line, lexeme });
        proof {
            assert(token_views(self.output@) =~= token_views(old(self).output@).push(
                token_view(
                    kind,
                    start as int,
                    old(self).line as int,
                    lexeme_of(old(self).stream@, start as int, old(self).cursor as int),
                ),
            ));
        }
    }

    /// Records a diagnostic of `kind` on the current line.
    fn error(&mut self, kind: errors::Kind, offset: usize, len: usize, message: &str)
        ensures
            final(self).stream == old(self).stream,
            final(self).cursor == old(self).cursor,
            final(self).line == old(self).line,
            final(self).output == old(self).output,
            error_views(final(self).errors@) == error_views(old(self).errors@).push(
                error_view(kind, old(self).line as int, offset as int, len as int, message@),
            ),
    {
        let e = CompilerError::new(kind, errors::Flag::Abort, self.line, offset, len, message);
        self.errors.push(e);
        proof {
            assert(error_views(self.errors@) =~= error_views(old(self).errors@).push(
                error_view(kind, old(self).line as int, offset as int, len as int, message@),
            ));
        }
    }
}

impl Lexer {
    /// Performs one scanning step; returns whether it ended the scan.
    fn scan_step(&mut self) -> (done: bool)
        requires
            old(self).wf(),
        ensures
            final(self).wf(),
            final(self).stream@ == old(self).stream@,
            ({
                let st = step(old(self).stream@, old(self).cursor as int, old(self).line as int);
                &&& token_views(final(self).output@) == token_views(old(self).output@) + opt_seq(
                    st.token,
                )
                &&& error_views(final(self).errors@) == error_views(old(self).errors@) + opt_seq(
                    st.error,
                )
                &&& done == st.done
                &&& !done ==> final(self).cursor == st.next && final(self).line == st.line
                &&& done ==> final(self).cursor == old(self).cursor
            }),
    {
        let ghost s = self.stream@;
        let ghost out0 = token_views(self.output@);
        let ghost err0 = error_views(self.errors@);
        let start = self.cursor;
        let c = self.current();
        proof {
            assert(out0 + Seq::<TokenView>::empty() =~= out0);
            assert(err0 + Seq::<ErrorView>::empty() =~= err0);
            assert forall|x: TokenView| out0.push(x) == out0 + seq![x] by {
                assert(out0.push(x) =~= out0 + seq![x]);
            }
            assert forall|x: ErrorView| err0.push(x) == err0 + seq![x] by {
                assert(err0.push(x) =~= err0 + seq![x]);
            }
        }
        if c == ' ' || c == '\t' || c == '\r' {
            self.cursor = self.cursor + 1;
            return false;
        }
        if c == '\n' {
            self.token(token::Kind::Newline, start);
            if self.line < usize::MAX {
                self.line = self.line + 1;
            }
            self.cursor = self.cursor + 1;
            return false;
        }
        if let Some(kind) = single_kind_of(c) {
            self.token(kind, start);
            self.cursor = self.cursor + 1;
            return false;
        }
        if c == '-' {
            if self.peek() == '>' {
                self.cursor = self.cursor + 1;
                self.token(token::Kind::Arrow, start);
            } else {
                self.token(token::Kind::Minus, start);
            }
            self.cursor = self.cursor + 1;
            return false;
        }
        if c == '"' {
            while self.peek() != '"' && self.peek() != '\0'
                invariant
                    self.wf(),
                    self.stream@ == s,
                    self.line == old(self).line,
                    self.output == old(self).output,
                    self.errors == old(self).errors,
                    start < s.len(),
                    start <= self.cursor < s.len(),
                    literal_run(s, start + 1) == (self.cursor - start) + literal_run(
                        s,
                        self.cursor + 1,
                    ),
                decreases s.len() - self.cursor,
            {
                self.cursor = self.cursor + 1;
            }
            if self.peek() != '"' {
                let len = self.stream.len() - start;
                self.error(
                    errors::Kind::UnterminatedLiteral,
                    start,
                    len,
                    "this string literal has no ending '\"'",
                );
            }
            let closed = self.peek() == '"';
            self.token(token::Kind::String, start + 1);
            if closed {
                self.cursor = self.cursor + 1;
            }
            self.cursor = self.cursor + 1;
            return false;
        }
        if ('a' <= c && c <= 'z') || ('A' <= c && c <= 'Z') || c == '_' {
            while self.cursor + 1 < self.stream.len() && (is_alphanumeric(self.stream[self.cursor + 1])
                || self.stream[self.cursor + 1] == '_')
                invariant
                    self.wf(),
                    self.stream@ == s,
                    self.line == old(self).line,
                    self.output == old(self).output,
                    self.errors == old(self).errors,
                    start < s.len(),
                    start <= self.cursor < s.len(),
                    word_run(s, start + 1) == (self.cursor - start) + word_run(s, self.cursor + 1),
                decreases s.len() - self.cursor,
            {
                self.cursor = self.cursor + 1;
            }
            let lexeme = self.lexeme(start);
            let kind = match token::Kind::get_keyword(&lexeme) {
                Some(k) => k,
                None => token::Kind::Symbol,
            };
            self.token(kind, start);
            self.cursor = self.cursor + 1;
            return false;
        }
        if '0' <= c && c <= '9' {
            let mut floating_point = false;
            while ('0' <= self.peek() && self.peek() <= '9') || self.peek() == '_' || self.peek()
                == '.'
                invariant
                    self.wf(),
                    self.stream@ == s,
                    self.line == old(self).line,
                    self.output == old(self).output,
                    self.errors == old(self).errors,
                    start < s.len(),
                    start <= self.cursor < s.len(),
                    number_run(s, start + 1) == (self.cursor - start) + number_run(
                        s,
                        self.cursor + 1,
                    ),
                    floating_point == exists|k: int| start < k <= self.cursor && s[k] == '.',
                decreases s.len() - self.cursor,
            {
                let ghost prev = self.cursor as int;
                floating_point = (self.peek() == '.' && !floating_point) || floating_point;
                self.cursor = self.cursor + 1;
                proof {
                    if s[prev + 1] == '.' {
                        assert(start < prev + 1 <= self.cursor && s[prev + 1] == '.');
                    }
                }
            }
            if floating_point {
                self.token(token::Kind::Float, start);
            } else {
                self.token(token::Kind::Integer, start);
            }
            self.cursor = self.cursor + 1;
            return false;
        }
        if c == '\0' {
            self.token(token::Kind::End, start);
            return true;
        }
        self.error(errors::Kind::SyntaxError, start, 1, "illegal character");
        self.cursor = self.cursor + 1;
        false
    }
}

impl Lexer {
    /// A scanner at the start of `string`, on line 1, with nothing produced.
    pub fn new(string: &String) -> (r: Self)
        ensures
            r.wf(),
            r.source() == string@,
            r.position() == 0,
            r.line_number() == 1,
            r.output@.len() == 0,
            r.errors@.len() == 0,
    {
        let mut l = Lexer {
            stream: Vec::new(),
            output: Vec::new(),
            cursor: 0usize,
            line: 1usize,
            errors: Vec::new(),
        };
        l.load_string(string);
        l
    }

    /// Replaces the source with the characters of `string`.
    fn load_string(&mut self, string: &String)
        ensures
            final(self).stream@ == string@,
            final(self).cursor == old(self).cursor,
            final(self).line == old(self).line,
            final(self).output == old(self).output,
            final(self).errors == old(self).errors,
    {
        self.stream.clear();
        self.stream = chars_of(string.as_str());
    }

    /// Scans from the current position to the end of the source, appending
    /// the tokens (the last of them `End`) and the diagnostics.
    pub fn scan(&mut self)
        requires
            old(self).wf(),
        ensures
            final(self).wf(),
            final(self).source() == old(self).source(),
            token_views(final(self).output@) == token_views(old(self).output@) + scan_from(
                old(self).source(),
                old(self).position(),
                old(self).line_number(),
            ).0,
            error_views(final(self).errors@) == error_views(old(self).errors@) + scan_from(
                old(self).source(),
                old(self).position(),
                old(self).line_number(),
            ).1,
    {
        let ghost s = self.stream@;
        let ghost all = scan_from(s, self.cursor as int, self.line as int);
        let ghost out0 = token_views(self.output@);
        let ghost err0 = error_views(self.errors@);
        let mut done = false;
        while !done
            invariant
                self.wf(),
                self.stream@ == s,
                !done ==> out0 + all.0 == token_views(self.output@) + scan_from(
                    s,
                    self.cursor as int,
                    self.line as int,
                ).0,
                !done ==> err0 + all.1 == error_views(self.errors@) + scan_from(
                    s,
                    self.cursor as int,
                    self.line as int,
                ).1,
                done ==> out0 + all.0 == token_views(self.output@),
                done ==> err0 + all.1 == error_views(self.errors@),
            decreases 2 * (s.len() + 1 - self.cursor) + if done { 0int } else { 1int },
        {
            let ghost c = self.cursor as int;
            let ghost ln = self.line as int;
            let ghost outp = token_views(self.output@);
            let ghost errp = error_views(self.errors@);
            proof {
                if !step(s, c, ln).done && c < s.len() {
                    lemma_step_advances(s, c, ln);
                }
            }
            done = self.scan_step();
            proof {
                let st = step(s, c, ln);
                let rest = scan_from(s, st.next, st.line);
                if c >= s.len() {
                    assert(char_at(s, c) == '\0');
                }
                assert(!done ==> c < self.cursor);
                if st.done || c >= s.len() {
                    assert(c >= s.len() ==> st.done);
                    assert(outp + opt_seq(st.token) == token_views(self.output@));
                } else {
                    assert(outp + (opt_seq(st.token) + rest.0) =~= (outp + opt_seq(st.token))
                        + rest.0);
                    assert(errp + (opt_seq(st.error) + rest.1) =~= (errp + opt_seq(st.error))
                        + rest.1);
                }
            }
        }
        proof {
            assert(out0 + all.0 == token_views(self.output@));
        }
    }
}

/// Scans a whole source text: the tokens, the last of them `End`, and the
/// lexical diagnostics.
pub fn tokenize(source: &String) -> (r: (Vec<Token>, Vec<CompilerError>))
    ensures
        token_views(r.0@) == scan_source(source@).0,
        error_views(r.1@) == scan_source(source@).1,
{
    let mut lexer = Lexer::new(source);
    proof {
        assert(token_views(lexer.output@) =~= Seq::<TokenView>::empty());
        assert(error_views(lexer.errors@) =~= Seq::<ErrorView>::empty());
        assert(Seq::<TokenView>::empty() + scan_source(source@).0 =~= scan_source(source@).0);
        assert(Seq::<ErrorView>::empty() + scan_source(source@).1 =~= scan_source(source@).1);
    }
    lexer.scan();
    (lexer.output, lexer.errors)
}

/// Whether token `t` accounts for position `i` of the source: its text
/// spans it, or, for a string literal, it is one of the enclosing quotes.
pub open spec fn covers(t: TokenView, i: int) -> bool {
    ||| t.offset <= i < t.offset + t.lexeme.len()
    ||| t.kind == token::Kind::String && (i == t.offset - 1 || i == t.offset + t.lexeme.len())
}

/// Characters the scanner skips without a token.
pub open spec fn is_blank(c: char) -> bool {
    c == ' ' || c == '\t' || c == '\r'
}

/// Whatever the input, the scan ends: its tokens end with exactly one `End`,
/// and no `End` comes before it.
pub proof fn lemma_scan_ends_with_one_end(s: Seq<char>)
    ensures
        scan_source(s).0.len() >= 1,
        scan_source(s).0.last().kind == token::Kind::End,
        forall|k: int| 0 <= k < scan_source(s).0.len() - 1 ==> scan_source(s).0[k].kind != token::Kind::End,
{
    lemma_scan_from_ends_with_one_end(s, 0, 1);
}

proof fn lemma_scan_from_ends_with_one_end(s: Seq<char>, c: int, line: int)
    requires
        0 <= c,
    ensures
        scan_from(s, c, line).0.len() >= 1,
        scan_from(s, c, line).0.last().kind == token::Kind::End,
        forall|k: int| 0 <= k < scan_from(s, c, line).0.len() - 1 ==> scan_from(s, c, line).0[k].kind != token::Kind::End,
    decreases s.len() - c,
{
    let st = step(s, c, line);
    if st.done || c >= s.len() {
        assert(c >= s.len() ==> char_at(s, c) == '\0');
    } else {
        lemma_step_advances(s, c, line);
        lemma_scan_from_ends_with_one_end(s, st.next, st.line);
        let rest = scan_from(s, st.next, st.line);
        let ts = opt_seq(st.token) + rest.0;
        assert(st.token is Some ==> st.token->0.kind != token::Kind::End);
        assert forall|k: int| 0 <= k < scan_from(s, c, line).0.len() - 1 implies scan_from(s, c, line).0[k].kind != token::Kind::End by {
            if st.token is Some && k > 0 {
                assert(scan_from(s, c, line).0[k] == rest.0[k - 1]);
            }
        }
    }
}

/// A scan without diagnostics, of a source without a `'\0'` character,
/// accounts for every character: each one is blank or accounted for by
/// some token, and the text of every token but `End` is the source text it
/// covers.
pub proof fn lemma_scan_accounts_for_every_char(s: Seq<char>)
    requires
        forall|i: int| 0 <= i < s.len() ==> s[i] != '\0',
        scan_source(s).1.len() == 0,
    ensures
        scan_source(s).0.len() >= 1,
        forall|i: int|
            0 <= i < s.len() ==> is_blank(#[trigger] s[i]) || exists|k: int|
                0 <= k < scan_source(s).0.len() && covers(scan_source(s).0[k], i),
        forall|k: int|
            0 <= k < scan_source(s).0.len() && scan_source(s).0[k].kind != token::Kind::End
                ==> is_source_text(s, #[trigger] scan_source(s).0[k]),
{
    lemma_scan_ends_with_one_end(s);
    lemma_scan_from_accounts(s, 0, 1);
    lemma_scan_texts_are_source_text(s);
}

proof fn lemma_scan_from_accounts(s: Seq<char>, c: int, line: int)
    requires
        0 <= c,
        forall|i: int| 0 <= i < s.len() ==> s[i] != '\0',
        scan_from(s, c, line).1.len() == 0,
    ensures
        forall|i: int|
            c <= i < s.len() ==> is_blank(#[trigger] s[i]) || exists|k: int|
                0 <= k < scan_from(s, c, line).0.len() && covers(scan_from(s, c, line).0[k], i),
    decreases s.len() - c,
{
    let st = step(s, c, line);
    if c < s.len() {
        lemma_step_advances(s, c, line);
        lemma_run_len_bound(s, c + 1, |x: char| is_literal_char(x));
        lemma_run_len_bound(s, c + 1, |x: char| is_word_char(x));
        lemma_run_len_bound(s, c + 1, |x: char| is_number_char(x));
        let rest = scan_from(s, st.next, st.line);
        let ts = scan_from(s, c, line).0;
        assert(ts == opt_seq(st.token) + rest.0);
        assert(st.error is None);
        assert(rest.1 == scan_from(s, c, line).1);
        lemma_scan_from_accounts(s, st.next, st.line);
        assert forall|i: int| c <= i < s.len() && !is_blank(#[trigger] s[i]) implies exists|k: int|
            0 <= k < ts.len() && covers(ts[k], i) by {
            if i < st.next {
                assert(st.token is Some);
                assert(ts[0] == st.token->0);
                assert(covers(ts[0], i));
            } else {
                let k0 = choose|k: int| 0 <= k < rest.0.len() && covers(rest.0[k], i);
                let d = opt_seq(st.token).len() as int;
                assert(ts[k0 + d] == rest.0[k0]);
                assert(covers(ts[k0 + d], i));
            }
        }
    }
}

/// Whether a token's text is the source text at its offset.
pub open spec fn is_source_text(s: Seq<char>, t: TokenView) -> bool {
    &&& t.offset + t.lexeme.len() <= s.len()
    &&& t.lexeme == s.subrange(t.offset as int, (t.offset + t.lexeme.len()) as int)
}

/// In a scan without diagnostics, the text of every token but `End` is the
/// source text it covers.
pub proof fn lemma_scan_texts_are_source_text(s: Seq<char>)
    requires
        scan_source(s).1.len() == 0,
    ensures
        forall|k: int|
            0 <= k < scan_source(s).0.len() && scan_source(s).0[k].kind != token::Kind::End
                ==> is_source_text(s, #[trigger] scan_source(s).0[k]),
{
    lemma_scan_from_texts(s, 0, 1);
}

proof fn lemma_scan_from_texts(s: Seq<char>, c: int, line: int)
    requires
        0 <= c,
        scan_from(s, c, line).1.len() == 0,
    ensures
        forall|k: int|
            0 <= k < scan_from(s, c, line).0.len() && scan_from(s, c, line).0[k].kind
                != token::Kind::End ==> is_source_text(s, #[trigger] scan_from(s, c, line).0[k]),
    decreases s.len() - c,
{
    let st = step(s, c, line);
    let ts = scan_from(s, c, line).0;
    if st.done || c >= s.len() {
        assert(c >= s.len() ==> char_at(s, c) == '\0');
    } else {
        lemma_step_advances(s, c, line);
        lemma_run_len_bound(s, c + 1, |x: char| is_literal_char(x));
        lemma_run_len_bound(s, c + 1, |x: char| is_word_char(x));
        lemma_run_len_bound(s, c + 1, |x: char| is_number_char(x));
        let rest = scan_from(s, st.next, st.line);
        assert(ts == opt_seq(st.token) + rest.0);
        assert(st.error is None);
        assert(rest.1 == scan_from(s, c, line).1);
        lemma_scan_from_texts(s, st.next, st.line);
        assert forall|k: int| 0 <= k < ts.len() && ts[k].kind != token::Kind::End implies is_source_text(
            s,
            #[trigger] ts[k],
        ) by {
            let d = opt_seq(st.token).len() as int;
            if k < d {
                assert(ts[k] == st.token->0);
            } else {
                assert(ts[k] == rest.0[k - d]);
            }
        }
    }
}

/// How many scanning steps a scan from position `c` on line `line` takes,
/// the step that ends it included: one pass of `Lexer::scan`'s loop each.
pub open spec fn scan_steps(s: Seq<char>, c: int, line: int) -> nat
    decreases s.len() - c,
    via scan_steps_decreases
{
    let st = step(s, c, line);
    if st.done || c >= s.len() {
        1
    } else {
        1 + scan_steps(s, st.next, st.line)
    }
}

#[via_fn]
proof fn scan_steps_decreases(s: Seq<char>, c: int, line: int) {
    if !step(s, c, line).done && c < s.len() {
        lemma_step_advances(s, c, line);
    }
}

/// A scan of a source of `n` characters takes at most `n + 1` steps, and
/// so produces at most `n + 1` tokens.
pub proof fn lemma_scan_steps_bounded(s: Seq<char>)
    ensures
        scan_steps(s, 0, 1) <= s.len() + 1,
        scan_source(s).0.len() <= scan_steps(s, 0, 1),
{
    lemma_scan_from_steps_bounded(s, 0, 1);
}

proof fn lemma_scan_from_steps_bounded(s: Seq<char>, c: int, line: int)
    requires
        0 <= c <= s.len(),
    ensures
        scan_steps(s, c, line) <= s.len() - c + 1,
        scan_from(s, c, line).0.len() <= scan_steps(s, c, line),
    decreases s.len() - c,
{
    let st = step(s, c, line);
    if !(st.done || c >= s.len()) {
        lemma_step_advances(s, c, line);
        lemma_scan_from_steps_bounded(s, st.next, st.line);
    }
}

/// The token kind of a character that is a token by itself.
fn single_kind_of(c: char) -> (r: Option<token::Kind>)
    ensures
        r == single_kind(c),
{
    match c {
        '(' => Some(token::Kind::LParen),
        ')' => Some(token::Kind::RParen),
        '{' => Some(token::Kind::LCurl),
        '}' => Some(token::Kind::RCurl),
        '[' => Some(token::Kind::LBrac),
        ']' => Some(token::Kind::RBrac),
        '+' => Some(token::Kind::Plus),
        '*' => Some(token::Kind::Star),
        '/' => Some(token::Kind::Slash),
        '%' => Some(token::Kind::Modulo),
        ',' => Some(token::Kind::Comma),
        _ => None,
    }
}

} // verus!
