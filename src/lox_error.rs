//! Diagnostics: one error record, its rendering, and the ordered list that
//! the parser and the evaluator fill.

use vstd::prelude::*;
use crate::token::Token;

verus! {

/// The decimal digits of `n`, most significant first, without leading zeros.
pub open spec fn decimal(n: nat) -> Seq<char>
    decreases n,
{
    if n < 10 {
        seq![digit_char(n)]
    } else {
        decimal(n / 10) + seq![digit_char(n % 10)]
    }
}

pub open spec fn digit_char(d: nat) -> char {
    if d < 10 {
        ((d + '0' as nat) as u8) as char
    } else {
        '?'
    }
}

/// One error record: the token it is about, the line it is on, and what went wrong.
#[derive(Debug)]
pub struct LoxError {
    pub token_option: Option<Token>,
    pub line_option: Option<usize>,
    pub text: String,
}

/// What a diagnostic holds, with its message as characters.
pub struct ErrorView {
    pub token: Option<Token>,
    pub line: Option<usize>,
    pub text: Seq<char>,
}

impl View for LoxError {
    type V = ErrorView;

    open spec fn view(&self) -> ErrorView {
        ErrorView { token: self.token_option, line: self.line_option, text: self.text@ }
    }
}

/// The rendered form of a diagnostic: `at end - ` before the message for the
/// end-of-input token, `at '<lexeme>' - ` for any other token, and the line
/// and `: ` in front when the line is known.
pub open spec fn message_of(e: ErrorView) -> Seq<char> {
    let body = match e.token {
        Some(t) => if t.ttype is Eof {
            "at end - "@ + e.text
        } else {
            "at '"@ + t.lexeme@ + "' - "@ + e.text
        },
        None => e.text,
    };
    match e.line {
        Some(l) => decimal(l as nat) + ": "@ + body,
        None => body,
    }
}

/// The decimal text of `n`.
pub fn decimal_text(n: usize) -> (r: String)
    ensures
        r@ == decimal(n as nat),
{
    let digits = ["0", "1", "2", "3", "4", "5", "6", "7", "8", "9"];
    let mut rest: usize = n;
    let mut text = String::new();
    proof {
        reveal_strlit("0");
        reveal_strlit("1");
        reveal_strlit("2");
        reveal_strlit("3");
        reveal_strlit("4");
        reveal_strlit("5");
        reveal_strlit("6");
        reveal_strlit("7");
        reveal_strlit("8");
        reveal_strlit("9");
    }
    assert forall|d: int| 0 <= d < 10 implies #[trigger] digits@[d]@ == seq![digit_char(d as nat)] by {
    }
    assert(decimal(rest as nat) + text@ =~= decimal(n as nat));
    loop
        invariant
            forall|d: int| 0 <= d < 10 ==> #[trigger] digits@[d]@ == seq![digit_char(d as nat)],
            digits@.len() == 10,
            decimal(n as nat) == decimal(rest as nat) + text@,
        decreases rest,
    {
        let d = rest % 10;
        let piece = String::from_str(digits[d]);
        if rest < 10 {
            let r = piece.concat(text.as_str());
            return r;
        }
        assert(decimal(rest as nat) + text@ =~= decimal((rest / 10) as nat) + (seq![
            digit_char((rest % 10) as nat),
        ] + text@));
        text = piece.concat(text.as_str());
        rest = rest / 10;
    }
}

impl Clone for LoxError {
    fn clone(&self) -> (r: Self)
        ensures
            r == *self,
    {
        let token_option = match &self.token_option {
            Some(t) => Some(t.clone()),
            None => None,
        };
        LoxError { token_option, line_option: self.line_option, text: self.text.clone() }
    }
}

impl LoxError {
    /// An error about `token`, on the token's line.
    pub fn new(token: Token, text: String) -> (r: LoxError)
        ensures
            r.line_option == Some(token.line),
            r.token_option == Some(token),
            r.text == text,
    {
        LoxError { line_option: Some(token.line), token_option: Some(token), text }
    }

    /// An error with no token, on the given line if one is known.
    pub fn new_text_only(line_number: Option<usize>, text: &str) -> (r: LoxError)
        ensures
            r.line_option == line_number,
            r.token_option is None,
            r.text@ == text@,
    {
        LoxError { line_option: line_number, token_option: None, text: String::from_str(text) }
    }

    /// The rendered message.
    pub fn report_msg(&self) -> (r: String)
        ensures
            r@ == message_of(self@),
    {
        let body = match &self.token_option {
            Some(t) => {
                if t.is_eof() {
                    String::from_str("at end - ").concat(self.text.as_str())
                } else {
                    String::from_str("at '").concat(t.lexeme.as_str()).concat("' - ").concat(
                        self.text.as_str(),
                    )
                }
            },
            None => self.text.clone(),
        };
        match self.line_option {
            Some(ln) => decimal_text(ln).concat(": ").concat(body.as_str()),
            None => body,
        }
    }
}

/// The ordered, append-only list of diagnostics.
#[derive(Debug)]
pub struct LoxErrorList {
    pub errors: Vec<LoxError>,
}

impl View for LoxErrorList {
    type V = Seq<ErrorView>;

    open spec fn view(&self) -> Seq<ErrorView> {
        self.errors@.map_values(|e: LoxError| e@)
    }
}

impl Clone for LoxErrorList {
    fn clone(&self) -> (r: Self)
        ensures
            r@ == self@,
    {
        let mut errors: Vec<LoxError> = Vec::new();
        let mut i: usize = 0;
        while i < self.errors.len()
            invariant
                i <= self.errors@.len(),
                errors@ == self.errors@.subrange(0, i as int),
            decreases self.errors@.len() - i,
        {
            errors.push(self.errors[i].clone());
            proof {
                assert(self.errors@.subrange(0, i + 1) == self.errors@.subrange(0, i as int).push(self.errors@[i as int]));
            }
            i = i + 1;
        }
        assert(errors@ == self.errors@);
        let r = LoxErrorList { errors };
        assert(r@ =~= self@);
        r
    }
}

impl LoxErrorList {
    /// The empty list.
    pub fn new() -> (r: Self)
        ensures
            r@ == Seq::<ErrorView>::empty(),
    {
        let r = LoxErrorList { errors: Vec::new() };
        assert(r@ =~= Seq::<ErrorView>::empty());
        r
    }

    /// The list holding `err` alone.
    pub fn single(err: LoxError) -> (r: Self)
        ensures
            r@ == seq![err@],
    {
        let mut errors: Vec<LoxError> = Vec::new();
        errors.push(err);
        let r = LoxErrorList { errors };
        assert(r@ =~= seq![err@]);
        r
    }

    /// Adds `error` at the end.
    pub fn push(&mut self, error: LoxError)
        ensures
            final(self)@ == old(self)@.push(error@),
    {
        self.errors.push(error);
        assert(self@ =~= old(self)@.push(error@));
    }

    /// Adds every error of `elst` at the end, in order.
    pub fn append(&mut self, elst: LoxErrorList)
        ensures
            final(self)@ == old(self)@ + elst@,
    {
        let mut other = elst.errors;
        self.errors.append(&mut other);
        assert(self@ =~= old(self)@ + elst@);
    }

    /// The number of errors.
    pub fn len(&self) -> (r: usize)
        ensures
            r == self@.len(),
    {
        self.errors.len()
    }

    /// The rendered message of each error, in order, one per line of output.
    pub fn report(&self) -> (r: Vec<String>)
        ensures
            r@.len() == self@.len(),
            forall|i: int| 0 <= i < r@.len() ==> #[trigger] r@[i]@ == message_of(self@[i]),
    {
        let mut lines: Vec<String> = Vec::new();
        let mut i: usize = 0;
        while i < self.errors.len()
            invariant
                i <= self.errors@.len(),
                lines@.len() == i,
                forall|j: int| 0 <= j < i ==> #[trigger] lines@[j]@ == message_of(self@[j]),
            decreases self.errors@.len() - i,
        {
            lines.push(self.errors[i].report_msg());
            i = i + 1;
        }
        lines
    }
}

} // verus!
