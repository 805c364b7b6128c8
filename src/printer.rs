//! The structural printer: a fully parenthesised prefix rendering of an
//! expression tree, used for diagnostics and tests.

use vstd::prelude::*;
use crate::ast::Expr;
use crate::token::TokenType;

verus! {

pub open spec fn is_digit(c: char) -> bool {
    '0' <= c <= '9'
}

/// The index of the first `.` at or after `i`, or the length when there is none.
pub open spec fn dot_from(s: Seq<char>, i: int) -> int
    decreases s.len() - i,
{
    if i >= s.len() || i < 0 {
        s.len() as int
    } else if s[i] == '.' {
        i
    } else {
        dot_from(s, i + 1)
    }
}

/// `dot_from` finds the first `.` from `i` on.
pub proof fn lemma_dot_from(s: Seq<char>, i: int, k: int)
    requires
        0 <= i <= k <= s.len(),
        forall|j: int| i <= j < k ==> s[j] != '.',
        k == s.len() || s[k] == '.',
    ensures
        dot_from(s, i) == k,
    decreases k - i,
{
    if i < k {
        lemma_dot_from(s, i + 1, k);
    }
}

/// A numeral as a scanner writes it: one or more digits, then optionally a
/// `.` and one or more digits.
pub open spec fn is_numeral(s: Seq<char>) -> bool {
    let d = dot_from(s, 0);
    &&& 0 < d
    &&& (d == s.len() || d < s.len() - 1)
    &&& forall|i: int| 0 <= i < s.len() && i != d ==> is_digit(#[trigger] s[i])
}

/// The first index in `[i, stop)` that holds no `0`, or `stop`.
pub open spec fn skip_zeros(s: Seq<char>, i: int, stop: int) -> int
    decreases stop - i,
{
    if i >= stop || s[i] != '0' {
        i
    } else {
        skip_zeros(s, i + 1, stop)
    }
}

/// The end of `[lo, hi)` once the `0`s at its end are dropped.
pub open spec fn trim_zeros(s: Seq<char>, lo: int, hi: int) -> int
    decreases hi - lo,
{
    if hi <= lo || s[hi - 1] != '0' {
        hi
    } else {
        trim_zeros(s, lo, hi - 1)
    }
}

/// The natural decimal form of a numeral: no leading zeros before the
/// units digit, no trailing zeros after the point, and no point when
/// nothing follows it. `007` is `7`, `1.50` is `1.5`, `2.00` is `2`.
/// The form is taken from the text, never rounded to a double: a numeral
/// with more digits than a double holds keeps all of them, so
/// `9007199254740993` prints as written rather than as `9007199254740992`.
pub open spec fn canonical_numeral(s: Seq<char>) -> Seq<char> {
    let d = dot_from(s, 0);
    let start = skip_zeros(s, 0, d - 1);
    let t = trim_zeros(s, d + 1, s.len() as int);
    let end = if t - d == 1 {
        d
    } else {
        t
    };
    s.subrange(start, end)
}

/// How a literal is shown: a number in its natural decimal form, a string
/// between double quotes, `true`, `false` and `nil` as themselves.
pub open spec fn literal_text(t: TokenType) -> Seq<char> {
    match t {
        TokenType::Number(n) => canonical_numeral(n@),
        TokenType::String(s) => "\""@ + s@ + "\""@,
        TokenType::True => "true"@,
        TokenType::False => "false"@,
        TokenType::Nil => "nil"@,
        _ => "Non-Literal TokenType in Pretty Print"@,
    }
}

/// Every number literal in the tree holds a numeral.
pub open spec fn numerals_ok(e: Expr) -> bool
    decreases e,
{
    match e {
        Expr::Literal(t) => t matches TokenType::Number(n) ==> is_numeral(n@),
        Expr::Grouping(inner) => numerals_ok(*inner),
        Expr::Unary(_, right) => numerals_ok(*right),
        Expr::Binary(left, _, right) => numerals_ok(*left) && numerals_ok(*right),
    }
}

/// The rendering of a tree: `(<operator> <operand> ...)` for an operator
/// node, `(group <inner>)` for a group, and the literal's text for a leaf.
pub open spec fn render(e: Expr) -> Seq<char>
    decreases e,
{
    match e {
        Expr::Literal(t) => literal_text(t),
        Expr::Grouping(inner) => "(group "@ + render(*inner) + ")"@,
        Expr::Unary(op, right) => "("@ + op.lexeme@ + " "@ + render(*right) + ")"@,
        Expr::Binary(left, op, right) => "("@ + op.lexeme@ + " "@ + render(*left) + " "@
            + render(*right) + ")"@,
    }
}

/// Printing has no hidden state: two printings of one tree give the same text.
pub proof fn lemma_print_deterministic(e: Expr, first: Seq<char>, second: Seq<char>)
    requires
        first == render(e),
        second == render(e),
    ensures
        first == second,
{
}

/// Whether `s` is a numeral.
pub fn check_numeral(s: &String) -> (r: bool)
    ensures
        r == is_numeral(s@),
{
    let text = s.as_str();
    let n = text.unicode_len();
    let mut d: usize = 0;
    while d < n && text.get_char(d) != '.'
        invariant
            n == s@.len(),
            text@ == s@,
            0 <= d <= n,
            dot_from(s@, 0) == dot_from(s@, d as int),
            forall|i: int| 0 <= i < d ==> s@[i] != '.',
        decreases n - d,
    {
        d = d + 1;
    }
    if d == 0 || n - d == 1 {
        return false;
    }
    let mut i: usize = 0;
    while i < n
        invariant
            n == s@.len(),
            text@ == s@,
            d == dot_from(s@, 0),
            0 <= i <= n,
            forall|j: int| 0 <= j < i && j != d ==> is_digit(#[trigger] s@[j]),
        decreases n - i,
    {
        if i != d {
            let c = text.get_char(i);
            if !('0' <= c && c <= '9') {
                return false;
            }
        }
        i = i + 1;
    }
    true
}

/// The natural decimal form of a numeral.
pub fn numeral_text(s: &String) -> (r: String)
    requires
        is_numeral(s@),
    ensures
        r@ == canonical_numeral(s@),
{
    let text = s.as_str();
    let n = text.unicode_len();
    let mut d: usize = 0;
    while d < n && text.get_char(d) != '.'
        invariant
            n == s@.len(),
            text@ == s@,
            0 <= d <= n,
            dot_from(s@, 0) == dot_from(s@, d as int),
        decreases n - d,
    {
        d = d + 1;
    }
    let mut start: usize = 0;
    while start < d - 1 && text.get_char(start) == '0'
        invariant
            n == s@.len(),
            text@ == s@,
            d == dot_from(s@, 0),
            0 < d <= n,
            d < n ==> s@[d as int] == '.',
            0 <= start <= d - 1,
            skip_zeros(s@, 0, d - 1) == skip_zeros(s@, start as int, d - 1),
        decreases d - start,
    {
        start = start + 1;
    }
    let mut t: usize = n;
    while t - d > 1 && text.get_char(t - 1) == '0'
        invariant
            n == s@.len(),
            text@ == s@,
            d == dot_from(s@, 0),
            0 < d <= n,
            d < n ==> s@[d as int] == '.',
            0 <= start <= d - 1,
            d <= t <= n,
            d < n ==> d + 1 <= t,
            trim_zeros(s@, d + 1, n as int) == trim_zeros(s@, d + 1, t as int),
        decreases t,
    {
        t = t - 1;
    }
    let end = if t - d == 1 {
        d
    } else {
        t
    };
    proof {
        assert(text.is_ascii()) by {
            assert forall|i: int| 0 <= i < s@.len() implies '\0' <= #[trigger] s@[i] <= '\u{7f}' by {
                if i != d {
                    assert(is_digit(s@[i]));
                }
            }
        }
    }
    String::from_str(text.substring_ascii(start, end))
}

/// Renders expression trees as text.
pub struct AstPrinter {}

impl AstPrinter {
    /// The rendering of `expr`.
    pub fn pretty_print_value(&self, expr: &Expr) -> (r: String)
        requires
            numerals_ok(*expr),
        ensures
            r@ == render(*expr),
        decreases expr,
    {
        match expr {
            Expr::Literal(value) => self.literal(value),
            Expr::Grouping(inner) => {
                let body = self.pretty_print_value(inner);
                String::from_str("(group ").concat(body.as_str()).concat(")")
            },
            Expr::Unary(op, right) => {
                let operand = self.pretty_print_value(right);
                String::from_str("(").concat(op.lexeme.as_str()).concat(" ").concat(
                    operand.as_str(),
                ).concat(")")
            },
            Expr::Binary(left, op, right) => {
                let l = self.pretty_print_value(left);
                let r = self.pretty_print_value(right);
                String::from_str("(").concat(op.lexeme.as_str()).concat(" ").concat(
                    l.as_str(),
                ).concat(" ").concat(r.as_str()).concat(")")
            },
        }
    }

    /// The text of a literal leaf.
    pub fn literal(&self, value: &TokenType) -> (r: String)
        requires
            value matches TokenType::Number(n) ==> is_numeral(n@),
        ensures
            r@ == literal_text(*value),
    {
        match value {
            TokenType::Number(n) => numeral_text(n),
            TokenType::String(s) => String::from_str("\"").concat(s.as_str()).concat("\""),
            TokenType::True => String::from_str("true"),
            TokenType::False => String::from_str("false"),
            TokenType::Nil => String::from_str("nil"),
            _ => String::from_str("Non-Literal TokenType in Pretty Print"),
        }
    }
}

} // verus!
