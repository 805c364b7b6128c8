//! The scanner: turns ASCII source text into the token sequence the parser
//! reads, ending with the end-of-input marker.

use vstd::prelude::*;
use crate::lox_error::{ErrorView, LoxError, LoxErrorList};
use crate::parser::{numeral_tokens, well_terminated};
use crate::printer::{is_digit, is_numeral, lemma_dot_from};
use crate::token::{has_symbol, symbol_of, Token, TokenType};

verus! {

/// Relies on `ascii::AsciiStr::from_ascii`: it accepts a text exactly when
/// every byte of it is below 128, that is when every character is ASCII.
#[verifier::external_body]
fn all_ascii(program: &String) -> (r: bool)
    ensures
        r == program.is_ascii(),
{
    ascii::AsciiStr::from_ascii(program).is_ok()
}


/// The next line number; the count stops at the largest `usize`.
pub open spec fn next_line_number(line: int) -> int {
    if line < usize::MAX {
        line + 1
    } else {
        line
    }
}

/// The token a character starts when it (with the character after it, for
/// `!=`, `==`, `<=` and `>=`) makes a fixed symbol, with the symbol's width.
/// A `/` followed by `/` starts a comment instead.
pub open spec fn fixed_token(c: char, next: char) -> Option<(TokenType, int)> {
    if c == '(' {
        Some((TokenType::LeftParen, 1))
    } else if c == ')' {
        Some((TokenType::RightParen, 1))
    } else if c == '{' {
        Some((TokenType::LeftBrace, 1))
    } else if c == '}' {
        Some((TokenType::RightBrace, 1))
    } else if c == ',' {
        Some((TokenType::Comma, 1))
    } else if c == '.' {
        Some((TokenType::Dot, 1))
    } else if c == '-' {
        Some((TokenType::Minus, 1))
    } else if c == '+' {
        Some((TokenType::Plus, 1))
    } else if c == ';' {
        Some((TokenType::Semicolon, 1))
    } else if c == '*' {
        Some((TokenType::Star, 1))
    } else if c == '!' {
        if next == '=' {
            Some((TokenType::BangEqual, 2))
        } else {
            Some((TokenType::Bang, 1))
        }
    } else if c == '=' {
        if next == '=' {
            Some((TokenType::EqualEqual, 2))
        } else {
            Some((TokenType::Equal, 1))
        }
    } else if c == '<' {
        if next == '=' {
            Some((TokenType::LessEqual, 2))
        } else {
            Some((TokenType::Less, 1))
        }
    } else if c == '>' {
        if next == '=' {
            Some((TokenType::GreaterEqual, 2))
        } else {
            Some((TokenType::Greater, 1))
        }
    } else if c == '/' && next != '/' {
        Some((TokenType::Slash, 1))
    } else {
        None
    }
}

/// The index of the first line break at or after `i`, or the end.
pub open spec fn line_end(src: Seq<char>, i: int) -> int
    decreases src.len() - i,
{
    if i < 0 || i >= src.len() || src[i] == '\n' {
        i
    } else {
        line_end(src, i + 1)
    }
}

/// Where the text of a string starting at `i` ends (its closing quote, or
/// the end of the source) and the line reached there from `line`.
pub open spec fn string_end(src: Seq<char>, i: int, line: int) -> (int, int)
    decreases src.len() - i,
{
    if i < 0 || i >= src.len() || src[i] == '"' {
        (i, line)
    } else if src[i] == '\n' {
        string_end(src, i + 1, next_line_number(line))
    } else {
        string_end(src, i + 1, line)
    }
}

/// The first index at or after `i` that holds no digit, or the end.
pub open spec fn digits_end(src: Seq<char>, i: int) -> int
    decreases src.len() - i,
{
    if i < 0 || i >= src.len() || !is_digit(src[i]) {
        i
    } else {
        digits_end(src, i + 1)
    }
}

/// Where a number whose first digit is before `i` ends: its digits, then a
/// `.` and digits when a digit follows the `.`.
pub open spec fn number_end(src: Seq<char>, i: int) -> int {
    let d = digits_end(src, i);
    if d + 1 < src.len() && src[d] == '.' && is_digit(src[d + 1]) {
        digits_end(src, d + 1)
    } else {
        d
    }
}

/// What one lexeme gives.
pub enum Lexeme {
    /// A token with a fixed symbol.
    Symbol(TokenType),
    /// A string literal with this text between its quotes.
    Text(Seq<char>),
    /// A number literal with this numeral.
    Numeral(Seq<char>),
    /// White space or a comment.
    Nothing,
    /// A character that starts no token.
    Unexpected,
    /// A string with no closing quote.
    Unterminated,
}

/// One lexeme and the line it is reported on.
pub struct Out {
    pub lexeme: Lexeme,
    pub line: int,
}

/// Reading one lexeme at `i` on `line`: where reading goes on, on which
/// line, and what it gave.
pub struct LexStep {
    pub next: int,
    pub line: int,
    pub out: Out,
}

pub open spec fn lex_step(src: Seq<char>, i: int, line: int) -> LexStep {
    let c = src[i];
    let next = if i + 1 < src.len() {
        src[i + 1]
    } else {
        '\0'
    };
    if let Some((k, width)) = fixed_token(c, next) {
        LexStep { next: i + width, line, out: Out { lexeme: Lexeme::Symbol(k), line } }
    } else if c == '/' {
        LexStep { next: line_end(src, i + 2), line, out: Out { lexeme: Lexeme::Nothing, line } }
    } else if c == ' ' || c == '\r' || c == '\t' {
        LexStep { next: i + 1, line, out: Out { lexeme: Lexeme::Nothing, line } }
    } else if c == '\n' {
        LexStep {
            next: i + 1,
            line: next_line_number(line),
            out: Out { lexeme: Lexeme::Nothing, line },
        }
    } else if c == '"' {
        let (e, l) = string_end(src, i + 1, line);
        if e >= src.len() {
            LexStep { next: e, line: l, out: Out { lexeme: Lexeme::Unterminated, line: l } }
        } else {
            LexStep {
                next: e + 1,
                line: l,
                out: Out { lexeme: Lexeme::Text(src.subrange(i + 1, e)), line: l },
            }
        }
    } else if is_digit(c) {
        let e = number_end(src, i + 1);
        LexStep { next: e, line, out: Out { lexeme: Lexeme::Numeral(src.subrange(i, e)), line } }
    } else {
        LexStep { next: i + 1, line, out: Out { lexeme: Lexeme::Unexpected, line } }
    }
}

/// How many characters are left from `i` on.
pub open spec fn chars_left(src: Seq<char>, i: int) -> nat {
    if i < src.len() {
        (src.len() - i) as nat
    } else {
        0
    }
}

/// The lexemes read from `i` on `line` to the end of the source.
pub open spec fn lex_from(src: Seq<char>, i: int, line: int) -> Seq<Out>
    decreases chars_left(src, i),
{
    if i < 0 || i >= src.len() {
        Seq::empty()
    } else {
        let st = lex_step(src, i, line);
        if st.next <= i {
            seq![st.out]
        } else {
            seq![st.out] + lex_from(src, st.next, st.line)
        }
    }
}

/// The line the scan of `src` from `i` on `line` ends on.
pub open spec fn last_line(src: Seq<char>, i: int, line: int) -> int
    decreases chars_left(src, i),
{
    if i < 0 || i >= src.len() {
        line
    } else {
        let st = lex_step(src, i, line);
        if st.next <= i {
            st.line
        } else {
            last_line(src, st.next, st.line)
        }
    }
}

pub open spec fn is_token(o: Out) -> bool {
    o.lexeme is Symbol || o.lexeme is Text || o.lexeme is Numeral
}

/// The lexemes that are tokens, in order.
pub open spec fn token_outs(outs: Seq<Out>) -> Seq<Out>
    decreases outs.len(),
{
    if outs.len() == 0 {
        Seq::empty()
    } else if is_token(outs.last()) {
        token_outs(outs.drop_last()).push(outs.last())
    } else {
        token_outs(outs.drop_last())
    }
}

/// The diagnostic a lexeme raises, if any.
pub open spec fn lex_error(o: Out) -> ErrorView {
    if o.lexeme is Unexpected {
        ErrorView { token: None, line: Some(o.line as usize), text: "Unexpected character."@ }
    } else {
        ErrorView { token: None, line: None, text: "Unterminated string."@ }
    }
}

/// The diagnostics the lexemes raise, in order.
pub open spec fn error_outs(outs: Seq<Out>) -> Seq<ErrorView>
    decreases outs.len(),
{
    if outs.len() == 0 {
        Seq::empty()
    } else if outs.last().lexeme is Unexpected || outs.last().lexeme is Unterminated {
        error_outs(outs.drop_last()).push(lex_error(outs.last()))
    } else {
        error_outs(outs.drop_last())
    }
}

/// `t` is the token for lexeme `o`.
pub open spec fn describes(t: Token, o: Out) -> bool {
    &&& t.line == o.line
    &&& match o.lexeme {
        Lexeme::Symbol(k) => t.ttype == k && t.lexeme@ == symbol_of(k),
        Lexeme::Text(text) => (t.ttype matches TokenType::String(s) && s@ == text) && t.lexeme@
            == seq!['"'] + text + seq!['"'],
        Lexeme::Numeral(text) => (t.ttype matches TokenType::Number(s) && s@ == text)
            && t.lexeme@ == text,
        _ => false,
    }
}

/// The scanner's state: the source, the start and end of the lexeme being
/// read, the current line, and what has been produced so far.
pub struct Scanner {
    start: usize,
    current: usize,
    line: usize,
    tokens: Vec<Token>,
    errors: LoxErrorList,
    source: String,
    length: usize,
}

impl Scanner {
    /// The source text.
    pub closed spec fn text(&self) -> Seq<char> {
        self.source@
    }

    /// The index of the next character to read.
    pub closed spec fn cursor(&self) -> int {
        self.current as int
    }

    /// The index where the lexeme being read starts.
    pub closed spec fn lexeme_start(&self) -> int {
        self.start as int
    }

    /// The line being read.
    pub closed spec fn line_number(&self) -> int {
        self.line as int
    }

    /// The tokens produced so far.
    pub closed spec fn token_list(&self) -> Seq<Token> {
        self.tokens@
    }

    /// The diagnostics recorded so far.
    pub closed spec fn error_list(&self) -> Seq<ErrorView> {
        self.errors@
    }

    pub closed spec fn wf(&self) -> bool {
        &&& self.source.is_ascii()
        &&& self.length == self.source@.len()
        &&& self.start <= self.current <= self.length
        &&& numeral_tokens(self.tokens@)
    }

    /// A scanner at the start of `program`, which must be ASCII.
    pub fn new(program: &String) -> (r: Result<Scanner, LoxError>)
        ensures
            program.is_ascii() == (r is Ok),
            (r matches Ok(s) ==> {
                &&& s.wf()
                &&& s.text() == program@
                &&& s.cursor() == 0
                &&& s.lexeme_start() == 0
                &&& s.line_number() == 1
                &&& s.token_list() == Seq::<Token>::empty()
                &&& s.error_list() == Seq::<ErrorView>::empty()
            }),
            (r matches Err(e) ==> e@ == (ErrorView {
                token: None,
                line: None,
                text: "Program should be in ascii"@,
            })),
    {
        if !all_ascii(program) {
            return Err(LoxError::new_text_only(None, "Program should be in ascii"));
        }
        let source = program.clone();
        let length = source.as_str().unicode_len();
        let scanner = Scanner {
            start: 0,
            current: 0,
            line: 1,
            source,
            length,
            tokens: Vec::new(),
            errors: LoxErrorList::new(),
        };
        Ok(scanner)
    }

    /// Adds `token` at the end of the tokens.
    pub fn add_token(&mut self, token: Token)
        requires
            old(self).wf(),
            token.ttype matches TokenType::Number(n) ==> is_numeral(n@),
        ensures
            final(self).wf(),
            final(self).token_list() == old(self).token_list().push(token),
            final(self).text() == old(self).text(),
            final(self).cursor() == old(self).cursor(),
            final(self).lexeme_start() == old(self).lexeme_start(),
            final(self).line_number() == old(self).line_number(),
            final(self).error_list() == old(self).error_list(),
    {
        self.tokens.push(token);
    }

    /// Adds a token of kind `tt`, written as its symbol, on the current line.
    pub fn add_token_type(&mut self, tt: &TokenType)
        requires
            old(self).wf(),
            has_symbol(*tt),
        ensures
            final(self).wf(),
            final(self).token_list().len() == old(self).token_list().len() + 1,
            final(self).token_list().drop_last() == old(self).token_list(),
            final(self).token_list().last().ttype == *tt,
            final(self).token_list().last().lexeme@ == symbol_of(*tt),
            final(self).token_list().last().line == old(self).line_number(),
            final(self).text() == old(self).text(),
            final(self).cursor() == old(self).cursor(),
            final(self).lexeme_start() == old(self).lexeme_start(),
            final(self).line_number() == old(self).line_number(),
            final(self).error_list() == old(self).error_list(),
    {
        let lexeme = String::from_str(tt.to_stringslice());
        let token = Token::new(tt, &lexeme, self.line);
        self.add_token(token);
        proof {
            assert(self.tokens@.drop_last() =~= old(self).tokens@);
        }
    }

    /// The tokens produced so far.
    pub fn get_tokens(&self) -> (r: &Vec<Token>)
        ensures
            r@ == self.token_list(),
    {
        &self.tokens
    }

    /// A copy of the diagnostics recorded so far.
    pub fn get_errors(&self) -> (r: LoxErrorList)
        ensures
            r@ == self.error_list(),
    {
        self.errors.clone()
    }

    /// Whether the whole source has been read.
    pub fn is_at_end(&self) -> (r: bool)
        requires
            self.wf(),
        ensures
            r == (self.cursor() >= self.text().len()),
    {
        self.current >= self.length
    }

    /// `new` is `old` after one lexeme was read at `old`'s cursor, as
    /// `lex_step` says.
    pub open spec fn step_done(old: Scanner, new: Scanner) -> bool {
        let st = lex_step(old.text(), old.cursor(), old.line_number());
        &&& new.wf()
        &&& new.text() == old.text()
        &&& new.cursor() == st.next
        &&& new.line_number() == st.line
        &&& if is_token(st.out) {
            &&& new.token_list().len() == old.token_list().len() + 1
            &&& new.token_list().drop_last() == old.token_list()
            &&& describes(new.token_list().last(), st.out)
            &&& new.error_list() == old.error_list()
        } else if st.out.lexeme is Nothing {
            &&& new.token_list() == old.token_list()
            &&& new.error_list() == old.error_list()
        } else {
            &&& new.token_list() == old.token_list()
            &&& new.error_list() == old.error_list().push(lex_error(st.out))
        }
    }

    /// Reads the rest of the source, then adds the end-of-input marker on the
    /// last line: one token for each token lexeme, in order, after those
    /// produced before, and one diagnostic for each faulty lexeme.
    pub fn scan_tokens(&mut self)
        requires
            old(self).wf(),
        ensures
            ({
                let outs = lex_from(old(self).text(), old(self).cursor(), old(self).line_number());
                let toks = token_outs(outs);
                let n = old(self).token_list().len();
                &&& final(self).wf()
                &&& final(self).text() == old(self).text()
                &&& final(self).cursor() == final(self).text().len()
                &&& final(self).token_list().len() == n + toks.len() + 1
                &&& final(self).token_list().subrange(0, n as int) == old(self).token_list()
                &&& forall|k: int|
                    0 <= k < toks.len() ==> describes(
                        #[trigger] final(self).token_list()[n + k],
                        toks[k],
                    )
                &&& final(self).token_list().last().ttype is Eof
                &&& final(self).token_list().last().lexeme@ == Seq::<char>::empty()
                &&& final(self).token_list().last().line == last_line(
                    old(self).text(),
                    old(self).cursor(),
                    old(self).line_number(),
                )
                &&& final(self).error_list() == old(self).error_list() + error_outs(outs)
            }),
            well_terminated(final(self).token_list()),
            numeral_tokens(final(self).token_list()),
    {
        let ghost src = self.source@;
        let ghost n = self.tokens@.len();
        let ghost mut done: Seq<Out> = Seq::empty();
        proof {
            assert(lex_from(src, self.current as int, self.line as int) =~= done + lex_from(
                src,
                self.current as int,
                self.line as int,
            ));
            assert(self.errors@ =~= old(self).errors@ + error_outs(done));
        }
        while !self.is_at_end()
            invariant
                self.wf(),
                self.source@ == src,
                src == old(self).source@,
                n == old(self).tokens@.len(),
                lex_from(src, old(self).current as int, old(self).line as int) == done + lex_from(
                    src,
                    self.current as int,
                    self.line as int,
                ),
                last_line(src, old(self).current as int, old(self).line as int) == last_line(
                    src,
                    self.current as int,
                    self.line as int,
                ),
                self.tokens@.len() == n + token_outs(done).len(),
                self.tokens@.subrange(0, n as int) == old(self).tokens@,
                forall|k: int|
                    0 <= k < token_outs(done).len() ==> describes(
                        #[trigger] self.tokens@[n + k],
                        token_outs(done)[k],
                    ),
                self.errors@ == old(self).errors@ + error_outs(done),
            decreases self.length - self.current,
        {
            let ghost before = *self;
            let ghost st = lex_step(src, self.current as int, self.line as int);
            self.scan_token();
            proof {
                let done2 = done.push(st.out);
                assert(done2.drop_last() =~= done);
                assert(done + lex_from(src, before.current as int, before.line as int) =~= done2
                    + lex_from(src, self.current as int, self.line as int));
                assert(self.tokens@.subrange(0, n as int) =~= old(self).tokens@) by {
                    if is_token(st.out) {
                        assert(self.tokens@.subrange(0, n as int) =~= before.tokens@.subrange(
                            0,
                            n as int,
                        ));
                    }
                }
                if is_token(st.out) {
                    assert(token_outs(done2) == token_outs(done).push(st.out));
                    assert forall|k: int| 0 <= k < token_outs(done2).len() implies describes(
                        #[trigger] self.tokens@[n + k],
                        token_outs(done2)[k],
                    ) by {
                        if k < token_outs(done).len() {
                            assert(self.tokens@[n + k] == before.tokens@[n + k]);
                        }
                    }
                }
                if !is_token(st.out) && !(st.out.lexeme is Nothing) {
                    assert(error_outs(done2) == error_outs(done).push(lex_error(st.out)));
                }
                assert(self.errors@ =~= old(self).errors@ + error_outs(done2));
                done = done2;
            }
        }
        proof {
            assert(done =~= lex_from(src, old(self).current as int, old(self).line as int));
        }
        let ghost before = *self;
        let eof = Token::new(&TokenType::Eof, &String::new(), self.line);
        self.add_token(eof);
        proof {
            assert(self.tokens@.subrange(0, n as int) =~= old(self).tokens@);
            assert forall|k: int| 0 <= k < token_outs(done).len() implies describes(
                #[trigger] self.tokens@[n + k],
                token_outs(done)[k],
            ) by {
                assert(self.tokens@[n + k] == before.tokens@[n + k]);
            }
        }
    }

    /// Reads one lexeme starting at the cursor: a token, a comment or white
    /// space (nothing), or a character that starts no token (a diagnostic).
    pub fn scan_token(&mut self)
        requires
            old(self).wf(),
            old(self).cursor() < old(self).text().len(),
        ensures
            Self::step_done(*old(self), *final(self)),
            final(self).cursor() > old(self).cursor(),
    {
        self.start = self.current;
        let ghost before = *self;
        let c = self.advance();
        if c == '(' {
            self.add_token_type(&TokenType::LeftParen);
        } else if c == ')' {
            self.add_token_type(&TokenType::RightParen);
        } else if c == '{' {
            self.add_token_type(&TokenType::LeftBrace);
        } else if c == '}' {
            self.add_token_type(&TokenType::RightBrace);
        } else if c == ',' {
            self.add_token_type(&TokenType::Comma);
        } else if c == '.' {
            self.add_token_type(&TokenType::Dot);
        } else if c == '-' {
            self.add_token_type(&TokenType::Minus);
        } else if c == '+' {
            self.add_token_type(&TokenType::Plus);
        } else if c == ';' {
            self.add_token_type(&TokenType::Semicolon);
        } else if c == '*' {
            self.add_token_type(&TokenType::Star);
        } else if c == '!' {
            let tt = if self.match_ch('=') {
                TokenType::BangEqual
            } else {
                TokenType::Bang
            };
            self.add_token_type(&tt);
        } else if c == '=' {
            let tt = if self.match_ch('=') {
                TokenType::EqualEqual
            } else {
                TokenType::Equal
            };
            self.add_token_type(&tt);
        } else if c == '<' {
            let tt = if self.match_ch('=') {
                TokenType::LessEqual
            } else {
                TokenType::Less
            };
            self.add_token_type(&tt);
        } else if c == '>' {
            let tt = if self.match_ch('=') {
                TokenType::GreaterEqual
            } else {
                TokenType::Greater
            };
            self.add_token_type(&tt);
        } else if c == '/' {
            if self.match_ch('/') {
                while self.peek() != '\n' && !self.is_at_end()
                    invariant
                        self.wf(),
                        self.source@ == before.source@,
                        self.tokens@ == before.tokens@,
                        self.errors@ == before.errors@,
                        self.line == before.line,
                        self.start == before.start,
                        self.current > before.current,
                        line_end(self.source@, before.current + 2) == line_end(
                            self.source@,
                            self.current as int,
                        ),
                    decreases self.length - self.current,
                {
                    self.advance();
                }
            } else {
                self.add_token_type(&TokenType::Slash);
            }
        } else if c == ' ' || c == '\r' || c == '\t' {
        } else if c == '\n' {
            self.next_line();
        } else if c == '"' {
            self.scan_string();
        } else if '0' <= c && c <= '9' {
            self.scan_number(c);
        } else {
            let line = self.line;
            self.errors.push(LoxError::new_text_only(Some(line), "Unexpected character."));
        }
    }

    /// Moves to the next line; the count stops at the largest `usize`.
    fn next_line(&mut self)
        requires
            old(self).wf(),
        ensures
            final(self).wf(),
            final(self).text() == old(self).text(),
            final(self).cursor() == old(self).cursor(),
            final(self).lexeme_start() == old(self).lexeme_start(),
            final(self).token_list() == old(self).token_list(),
            final(self).error_list() == old(self).error_list(),
            final(self).line_number() == next_line_number(old(self).line_number()),
    {
        if self.line < usize::MAX {
            self.line = self.line + 1;
        }
    }

    /// Reads a string literal whose opening quote has been read. Its token
    /// holds the text between the quotes and stands on the line where the
    /// string ends; an unterminated string is a diagnostic and ends the
    /// source.
    fn scan_string(&mut self)
        requires
            old(self).wf(),
            old(self).cursor() == old(self).lexeme_start() + 1,
            old(self).text()[old(self).lexeme_start()] == '"',
        ensures
            ({
                let (e, l) = string_end(old(self).text(), old(self).cursor(), old(self).line_number());
                let n = old(self).text().len();
                &&& final(self).wf()
                &&& final(self).text() == old(self).text()
                &&& final(self).line_number() == l
                &&& final(self).cursor() > old(self).lexeme_start()
                &&& if e >= n {
                    &&& final(self).cursor() == e
                    &&& final(self).token_list() == old(self).token_list()
                    &&& final(self).error_list() == old(self).error_list().push(
                        ErrorView { token: None, line: None, text: "Unterminated string."@ },
                    )
                } else {
                    let text = old(self).text().subrange(old(self).cursor(), e);
                    let t = final(self).token_list().last();
                    &&& final(self).cursor() == e + 1
                    &&& final(self).error_list() == old(self).error_list()
                    &&& final(self).token_list().len() == old(self).token_list().len() + 1
                    &&& final(self).token_list().drop_last() == old(self).token_list()
                    &&& t.ttype matches TokenType::String(s) && s@ == text
                    &&& t.lexeme@ == seq!['"'] + text + seq!['"']
                    &&& t.line == l
                }
            }),
    {
        while self.peek() != '"' && !self.is_at_end()
            invariant
                self.wf(),
                self.source@ == old(self).source@,
                self.tokens@ == old(self).tokens@,
                self.errors@ == old(self).errors@,
                self.start == old(self).start,
                self.current > self.start,
                string_end(self.source@, old(self).current as int, old(self).line as int)
                    == string_end(self.source@, self.current as int, self.line as int),
            decreases self.length - self.current,
        {
            if self.peek() == '\n' {
                self.next_line();
            }
            self.advance();
        }
        if self.is_at_end() {
            self.errors.push(LoxError::new_text_only(None, "Unterminated string."));
            return;
        }
        self.advance();
        let text = String::from_str(
            self.source.as_str().substring_ascii(self.start + 1, self.current - 1),
        );
        let lexeme = String::from_str("\"").concat(text.as_str()).concat("\"");
        proof {
            reveal_strlit("\"");
        }
        let token = Token::new(&TokenType::String(text), &lexeme, self.line);
        self.add_token(token);
        proof {
            assert(self.tokens@.drop_last() =~= old(self).tokens@);
        }
    }

    /// Reads a number whose first digit `init` has been read: digits, then a
    /// `.` and digits when a digit follows the `.`. Its token holds the
    /// numeral read.
    fn scan_number(&mut self, init: char)
        requires
            old(self).wf(),
            old(self).cursor() == old(self).lexeme_start() + 1,
            old(self).text()[old(self).lexeme_start()] == init,
            is_digit(init),
        ensures
            final(self).wf(),
            final(self).text() == old(self).text(),
            final(self).cursor() == number_end(old(self).text(), old(self).cursor()),
            final(self).lexeme_start() == old(self).lexeme_start(),
            final(self).line_number() == old(self).line_number(),
            final(self).error_list() == old(self).error_list(),
            final(self).token_list().len() == old(self).token_list().len() + 1,
            final(self).token_list().drop_last() == old(self).token_list(),
            ({
                let t = final(self).token_list().last();
                let text = old(self).text().subrange(
                    old(self).lexeme_start(),
                    final(self).cursor(),
                );
                &&& is_numeral(text)
                &&& t.ttype matches TokenType::Number(s) && s@ == text
                &&& t.lexeme@ == text
                &&& t.line == old(self).line_number()
            }),
    {
        while digit(self.peek())
            invariant
                self.wf(),
                self.source@ == old(self).source@,
                self.tokens@ == old(self).tokens@,
                self.errors@ == old(self).errors@,
                self.start == old(self).start,
                self.line == old(self).line,
                self.current > self.start,
                forall|i: int| self.start <= i < self.current ==> is_digit(#[trigger] self.source@[i]),
                digits_end(self.source@, old(self).current as int) == digits_end(
                    self.source@,
                    self.current as int,
                ),
            decreases self.length - self.current,
        {
            self.advance();
        }
        let ghost int_end = self.current as int;
        if self.peek() == '.' && digit(self.peek_next()) {
            self.advance();
            while digit(self.peek())
                invariant
                    self.wf(),
                    self.source@ == old(self).source@,
                    self.tokens@ == old(self).tokens@,
                    self.errors@ == old(self).errors@,
                    self.start == old(self).start,
                    self.line == old(self).line,
                    self.start < int_end < self.current,
                    int_end == digits_end(self.source@, old(self).current as int),
                    digits_end(self.source@, int_end + 1) == digits_end(
                        self.source@,
                        self.current as int,
                    ),
                    self.source@[int_end] == '.',
                    self.current > int_end + 1 || (int_end + 1 < self.source@.len()
                        && is_digit(self.source@[int_end + 1])),
                    forall|i: int|
                        self.start <= i < self.current && i != int_end ==> is_digit(
                            #[trigger] self.source@[i],
                        ),
                decreases self.length - self.current,
            {
                self.advance();
            }
            proof {
                let s = self.source@.subrange(self.start as int, self.current as int);
                let d = int_end - self.start;
                lemma_dot_from(s, 0, d);
                assert forall|i: int| 0 <= i < s.len() && i != d implies is_digit(#[trigger] s[i]) by {
                    assert(is_digit(self.source@[self.start + i]));
                }
            }
        } else {
            proof {
                let s = self.source@.subrange(self.start as int, self.current as int);
                lemma_dot_from(s, 0, s.len() as int);
                assert forall|i: int| 0 <= i < s.len() implies is_digit(#[trigger] s[i]) by {
                    assert(is_digit(self.source@[self.start + i]));
                }
            }
        }
        let text = String::from_str(self.source.as_str().substring_ascii(self.start, self.current));
        let token = Token::new(&TokenType::Number(text.clone()), &text, self.line);
        self.add_token(token);
        proof {
            assert(self.tokens@.drop_last() =~= old(self).tokens@);
        }
    }

    /// Reads the character at the cursor.
    fn advance(&mut self) -> (r: char)
        requires
            old(self).wf(),
            old(self).cursor() < old(self).text().len(),
        ensures
            final(self).wf(),
            final(self).cursor() == old(self).cursor() + 1,
            r == old(self).text()[old(self).cursor()],
            final(self).text() == old(self).text(),
            final(self).lexeme_start() == old(self).lexeme_start(),
            final(self).line_number() == old(self).line_number(),
            final(self).token_list() == old(self).token_list(),
            final(self).error_list() == old(self).error_list(),
    {
        let old_index = self.current;
        self.current = self.current + 1;
        self.source.as_str().get_char(old_index)
    }

    /// Reads the character at the cursor if it is `expected`.
    fn match_ch(&mut self, expected: char) -> (r: bool)
        requires
            old(self).wf(),
        ensures
            final(self).wf(),
            r == (old(self).cursor() < old(self).text().len() && old(self).text()[old(
                self,
            ).cursor()] == expected),
            final(self).cursor() == old(self).cursor() + if r {
                1int
            } else {
                0int
            },
            final(self).text() == old(self).text(),
            final(self).lexeme_start() == old(self).lexeme_start(),
            final(self).line_number() == old(self).line_number(),
            final(self).token_list() == old(self).token_list(),
            final(self).error_list() == old(self).error_list(),
    {
        if self.is_at_end() {
            return false;
        }
        let ch = self.source.as_str().get_char(self.current);
        if ch != expected {
            false
        } else {
            self.current = self.current + 1;
            true
        }
    }

    /// The character at the cursor, or `'\0'` at the end.
    fn peek(&self) -> (r: char)
        requires
            self.wf(),
        ensures
            r == if self.cursor() < self.text().len() {
                self.text()[self.cursor()]
            } else {
                '\0'
            },
    {
        if self.is_at_end() {
            '\0'
        } else {
            self.source.as_str().get_char(self.current)
        }
    }

    /// The character after the one at the cursor, or `'\0'` past the end.
    fn peek_next(&self) -> (r: char)
        requires
            self.wf(),
        ensures
            r == if self.cursor() + 1 < self.text().len() {
                self.text()[self.cursor() + 1]
            } else {
                '\0'
            },
    {
        if self.length - self.current <= 1 {
            '\0'
        } else {
            self.source.as_str().get_char(self.current + 1)
        }
    }
}

fn digit(c: char) -> (r: bool)
    ensures
        r == is_digit(c),
{
    '0' <= c && c <= '9'
}

} // verus!
