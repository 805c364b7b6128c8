//! Recursive-descent parser for the expression grammar
//!
//! ```text
//! expression := equality
//! equality   := comparison (("!=" | "==") comparison)*
//! comparison := term (("<" | "<=" | ">" | ">=") term)*
//! term       := factor (("-" | "+") factor)*
//! factor     := unary (("/" | "*") unary)*
//! unary      := ("!" | "-") unary | primary
//! primary    := NUMBER | STRING | "true" | "false" | "nil" | "(" expression ")"
//! ```
//!
//! Binary operators associate to the left, unary ones nest to the right.
//! Every syntax error of one pass is collected; a pass with errors yields
//! no tree.

use vstd::prelude::*;
use crate::ast::Expr;
use crate::lox_error::{ErrorView, LoxError, LoxErrorList};
use crate::evaluate::{evaluable, is_binary_op};
use crate::printer::{is_numeral, numerals_ok};
use crate::token::{same_kind, Token, TokenType};

verus! {

/// A token sequence the parser accepts: non-empty and closed by the
/// end-of-input marker.
pub open spec fn well_terminated(toks: Seq<Token>) -> bool {
    toks.len() > 0 && toks.last().ttype is Eof
}

/// What parsing one rule from a position gives: the tree, the number of
/// tokens used, and the diagnostics recorded on the way, in order.
pub struct Parsed {
    pub expr: Expr,
    pub used: nat,
    pub errors: Seq<ErrorView>,
}

/// The infix operators of the binary rules: 0 equality, 1 comparison,
/// 2 term, 3 factor.
pub open spec fn is_level_op(level: nat, t: TokenType) -> bool {
    if level == 0 {
        t is BangEqual || t is EqualEqual
    } else if level == 1 {
        t is Greater || t is GreaterEqual || t is Less || t is LessEqual
    } else if level == 2 {
        t is Minus || t is Plus
    } else {
        t is Slash || t is Star
    }
}

/// The kinds that stand for themselves as a literal.
pub open spec fn is_literal_kind(t: TokenType) -> bool {
    t is False || t is True || t is Nil || t is Number || t is String
}

/// The diagnostic for a token that cannot start an operand.
pub open spec fn invalid_token_error(t: Token) -> ErrorView {
    ErrorView { token: Some(t), line: Some(t.line), text: "Invalid Token"@ }
}

/// The diagnostic for a group that is not closed, against the token found
/// instead of `)`.
pub open spec fn missing_paren_error(t: Token) -> ErrorView {
    ErrorView { token: Some(t), line: Some(t.line), text: "Expect ')' after expression."@ }
}

pub open spec fn no_parse() -> Parsed {
    Parsed { expr: Expr::Literal(TokenType::Eof), used: 0, errors: Seq::empty() }
}

/// How many tokens are left from `pos` on.
pub open spec fn remaining(toks: Seq<Token>, pos: int) -> nat {
    if pos < toks.len() {
        (toks.len() - pos) as nat
    } else {
        0
    }
}

/// Parsing rule `level` from token `pos`: levels 0 to 3 are the binary
/// rules (equality, comparison, term, factor), 4 is `unary`, 5 `primary`.
pub open spec fn parse_rule(toks: Seq<Token>, level: nat, pos: int) -> Parsed
    decreases remaining(toks, pos), 6 - level, 1int,
{
    if pos < 0 || pos >= toks.len() {
        no_parse()
    } else if level < 4 {
        let first = parse_rule(toks, level + 1, pos);
        let rest = binary_rest(toks, level, first.expr, pos + first.used);
        Parsed {
            expr: rest.expr,
            used: first.used + rest.used,
            errors: first.errors + rest.errors,
        }
    } else if level == 4 {
        let t = toks[pos];
        if t.ttype is Bang || t.ttype is Minus {
            let operand = parse_rule(toks, 4, pos + 1);
            Parsed {
                expr: Expr::Unary(t, Box::new(operand.expr)),
                used: operand.used + 1,
                errors: operand.errors,
            }
        } else {
            parse_rule(toks, 5, pos)
        }
    } else {
        let t = toks[pos];
        if is_literal_kind(t.ttype) {
            Parsed { expr: Expr::Literal(t.ttype), used: 1, errors: Seq::empty() }
        } else if t.ttype is LeftParen {
            let inner = parse_rule(toks, 0, pos + 1);
            let close = pos + 1 + inner.used;
            if close < toks.len() && toks[close].ttype is RightParen {
                Parsed {
                    expr: Expr::Grouping(Box::new(inner.expr)),
                    used: inner.used + 2,
                    errors: inner.errors,
                }
            } else {
                Parsed {
                    expr: Expr::Grouping(Box::new(inner.expr)),
                    used: inner.used + 1,
                    errors: inner.errors.push(missing_paren_error(toks[close])),
                }
            }
        } else {
            Parsed {
                expr: Expr::Literal(TokenType::Eof),
                used: 0,
                errors: seq![invalid_token_error(t)],
            }
        }
    }
}

/// The operator-operand pairs that follow `left` at binary rule `level`,
/// each folded into the tree from the left.
pub open spec fn binary_rest(toks: Seq<Token>, level: nat, left: Expr, pos: int) -> Parsed
    decreases remaining(toks, pos), 6 - level, 0int,
{
    if 0 <= pos < toks.len() && is_level_op(level, toks[pos].ttype) {
        let right = parse_rule(toks, level + 1, pos + 1);
        let rest = binary_rest(
            toks,
            level,
            Expr::Binary(Box::new(left), toks[pos], Box::new(right.expr)),
            pos + 1 + right.used,
        );
        Parsed {
            expr: rest.expr,
            used: 1 + right.used + rest.used,
            errors: right.errors + rest.errors,
        }
    } else {
        Parsed { expr: left, used: 0, errors: Seq::empty() }
    }
}

/// The kinds at which a statement can begin.
pub open spec fn starts_statement(t: TokenType) -> bool {
    t is Class || t is Fun || t is Var || t is For || t is If || t is While || t is Print
        || t is Return
}

/// Where recovery stops when scanning from `pos`: at the end, after a `;`,
/// or before a token that starts a statement.
pub open spec fn sync_scan(toks: Seq<Token>, pos: int) -> int
    decreases toks.len() - pos,
{
    if pos < 1 || pos >= toks.len() || toks[pos].ttype is Eof {
        pos
    } else if toks[pos - 1].ttype is Semicolon || starts_statement(toks[pos].ttype) {
        pos
    } else {
        sync_scan(toks, pos + 1)
    }
}

/// Where recovery from an error at `pos` stops: past the offending token,
/// then at the next statement boundary.
pub open spec fn sync_target(toks: Seq<Token>, pos: int) -> int {
    if toks[pos].ttype is Eof {
        pos
    } else {
        sync_scan(toks, pos + 1)
    }
}

/// Every number token holds a numeral.
pub open spec fn numeral_tokens(toks: Seq<Token>) -> bool {
    forall|i: int| 0 <= i < toks.len() ==> (#[trigger] toks[i].ttype matches TokenType::Number(n)
        ==> is_numeral(n@))
}

proof fn lemma_rule_sound(toks: Seq<Token>, level: nat, pos: int)
    requires
        well_terminated(toks),
        numeral_tokens(toks),
        0 <= pos < toks.len(),
        level <= 5,
    ensures
        ({
            let p = parse_rule(toks, level, pos);
            &&& pos + p.used < toks.len()
            &&& p.errors.len() == 0 ==> evaluable(p.expr) && numerals_ok(p.expr)
        }),
    decreases remaining(toks, pos), 6 - level, 1int,
{
    let t = toks[pos].ttype;
    if level < 4 {
        lemma_rule_sound(toks, level + 1, pos);
        let first = parse_rule(toks, level + 1, pos);
        lemma_rest_sound(toks, level, first.expr, pos + first.used);
    } else if level == 4 {
        if t is Bang || t is Minus {
            lemma_rule_sound(toks, 4, pos + 1);
        } else {
            lemma_rule_sound(toks, 5, pos);
        }
    } else if is_literal_kind(t) {
    } else if t is LeftParen {
        lemma_rule_sound(toks, 0, pos + 1);
    }
}

proof fn lemma_rest_sound(toks: Seq<Token>, level: nat, left: Expr, pos: int)
    requires
        well_terminated(toks),
        numeral_tokens(toks),
        0 <= pos < toks.len(),
        level < 4,
    ensures
        ({
            let p = binary_rest(toks, level, left, pos);
            &&& pos + p.used < toks.len()
            &&& (p.errors.len() == 0 && evaluable(left) && numerals_ok(left)) ==> evaluable(p.expr)
                && numerals_ok(p.expr)
        }),
    decreases remaining(toks, pos), 6 - level, 0int,
{
    if is_level_op(level, toks[pos].ttype) {
        lemma_rule_sound(toks, level + 1, pos + 1);
        let right = parse_rule(toks, level + 1, pos + 1);
        let next = Expr::Binary(Box::new(left), toks[pos], Box::new(right.expr));
        lemma_rest_sound(toks, level, next, pos + 1 + right.used);
        let rest = binary_rest(toks, level, next, pos + 1 + right.used);
        if right.errors.len() + rest.errors.len() == 0 {
            assert(right.errors.len() == 0);
            assert(is_binary_op(toks[pos].ttype));
        }
    }
}

/// A tree that the parser hands back without diagnostics can always be
/// printed and evaluated, and the parse never reads past the end marker.
pub proof fn lemma_parse_result_evaluable(toks: Seq<Token>)
    requires
        well_terminated(toks),
        numeral_tokens(toks),
    ensures
        parse_rule(toks, 0, 0).used < toks.len(),
        parse_rule(toks, 0, 0).errors.len() == 0 ==> evaluable(parse_rule(toks, 0, 0).expr)
            && numerals_ok(parse_rule(toks, 0, 0).expr),
{
    lemma_rule_sound(toks, 0, 0);
}

/// A literal followed by a token that continues no rule from `level` on
/// parses, from `level`, as that literal alone.
proof fn lemma_literal_operand(toks: Seq<Token>, level: nat, pos: int)
    requires
        0 <= pos < toks.len() - 1,
        level <= 5,
        is_literal_kind(toks[pos].ttype),
        forall|l: nat| level <= l < 4 ==> !#[trigger] is_level_op(l, toks[pos + 1].ttype),
    ensures
        parse_rule(toks, level, pos) == (Parsed {
            expr: Expr::Literal(toks[pos].ttype),
            used: 1,
            errors: Seq::empty(),
        }),
    decreases 5 - level,
{
    if level < 5 {
        lemma_literal_operand(toks, level + 1, pos);
    }
    if level < 4 {
        assert(!is_level_op(level, toks[pos + 1].ttype));
        let first = parse_rule(toks, level + 1, pos);
        assert(first.used == 1);
        let rest = binary_rest(toks, level, first.expr, pos + 1);
        assert(rest.used == 0);
        assert(rest.expr == first.expr);
        assert(rest.errors =~= Seq::<ErrorView>::empty());
        assert(first.errors + rest.errors =~= Seq::<ErrorView>::empty());
        assert(parse_rule(toks, level, pos).errors =~= Seq::<ErrorView>::empty());
    } else if level == 4 {
        assert(parse_rule(toks, level, pos) == parse_rule(toks, 5, pos));
    } else {
        assert(parse_rule(toks, level, pos).errors =~= Seq::<ErrorView>::empty());
    }
}

/// The operators of one binary level are not operators of another.
proof fn lemma_levels_disjoint(t: TokenType, a: nat, b: nat)
    requires
        a < 4,
        b < 4,
        a != b,
        is_level_op(a, t),
    ensures
        !is_level_op(b, t),
{
}

/// Parsing from `level` when no operator of a rule below `top` follows the
/// tree that rule `top` gives: the outer rules add nothing.
proof fn lemma_outer_rules(toks: Seq<Token>, level: nat, top: nat, pos: int)
    requires
        level <= top < 4,
        0 <= pos < toks.len(),
        ({
            let p = parse_rule(toks, top, pos);
            let end = pos + p.used;
            0 <= end < toks.len() && forall|l: nat| l < top ==> !#[trigger] is_level_op(l, toks[end].ttype)
        }),
    ensures
        parse_rule(toks, level, pos).expr == parse_rule(toks, top, pos).expr,
        parse_rule(toks, level, pos).used == parse_rule(toks, top, pos).used,
        parse_rule(toks, level, pos).errors == parse_rule(toks, top, pos).errors,
    decreases top - level,
{
    if level < top {
        lemma_outer_rules(toks, level + 1, top, pos);
        let first = parse_rule(toks, level + 1, pos);
        assert(!is_level_op(level, toks[pos + first.used].ttype));
        let rest = binary_rest(toks, level, first.expr, pos + first.used);
        assert(rest.used == 0 && rest.expr == first.expr);
        assert(rest.errors =~= Seq::<ErrorView>::empty());
        assert(first.errors + rest.errors =~= first.errors);
    }
}

/// A group parses, from any rule, as the primary rule gives it when the
/// token after the group continues no binary rule.
proof fn lemma_group_operand(toks: Seq<Token>, level: nat, pos: int)
    requires
        0 <= pos < toks.len(),
        level <= 5,
        toks[pos].ttype is LeftParen,
        ({
            let end = pos + parse_rule(toks, 5, pos).used;
            0 <= end < toks.len() && forall|l: nat| l < 4 ==> !#[trigger] is_level_op(l, toks[end].ttype)
        }),
    ensures
        parse_rule(toks, level, pos) == parse_rule(toks, 5, pos),
    decreases 5 - level,
{
    if level < 5 {
        lemma_group_operand(toks, level + 1, pos);
    }
    if level < 4 {
        let first = parse_rule(toks, level + 1, pos);
        assert(!is_level_op(level, toks[pos + first.used].ttype));
        let rest = binary_rest(toks, level, first.expr, pos + first.used);
        assert(rest.errors =~= Seq::<ErrorView>::empty());
        assert(first.errors + rest.errors =~= first.errors);
    }
}

/// Tokens that open `k` groups, hold one literal and end: `( ( ... ( x`.
pub open spec fn open_groups(toks: Seq<Token>, k: nat) -> bool {
    &&& toks.len() == k + 2
    &&& forall|i: int| 0 <= i < k ==> (#[trigger] toks[i]).ttype is LeftParen
    &&& is_literal_kind(toks[k as int].ttype)
    &&& toks[k + 1int].ttype is Eof
}

proof fn lemma_open_groups_from(toks: Seq<Token>, k: nat, i: int)
    requires
        open_groups(toks, k),
        0 <= i <= k,
    ensures
        parse_rule(toks, 0, i).used == k - i + 1,
        parse_rule(toks, 0, i).errors.len() == k - i,
    decreases k - i,
{
    if i == k {
        lemma_literal_operand(toks, 0, i);
    } else {
        lemma_open_groups_from(toks, k, i + 1);
        let inner = parse_rule(toks, 0, i + 1);
        assert(!(toks[k + 1int].ttype is RightParen));
        assert(parse_rule(toks, 5, i).used == k - i + 1);
        lemma_group_operand(toks, 0, i);
    }
}

/// Every group left open records its own diagnostic: `k` open groups
/// around a literal give exactly `k` diagnostics, so no tree.
pub proof fn lemma_each_open_group_reported(toks: Seq<Token>, k: nat)
    requires
        open_groups(toks, k),
    ensures
        parse_rule(toks, 0, 0).errors.len() == k,
{
    lemma_open_groups_from(toks, k, 0);
}

/// Binary operators associate to the left: three literals joined by two
/// operators of one binary level parse as `((a op b) op c)`.
pub proof fn lemma_left_associative(toks: Seq<Token>, level: nat)
    requires
        toks.len() == 6,
        level < 4,
        is_literal_kind(toks[0].ttype),
        is_literal_kind(toks[2].ttype),
        is_literal_kind(toks[4].ttype),
        is_level_op(level, toks[1].ttype),
        is_level_op(level, toks[3].ttype),
        toks[5].ttype is Eof,
    ensures
        parse_rule(toks, 0, 0).errors.len() == 0,
        parse_rule(toks, 0, 0).expr == Expr::Binary(
            Box::new(
                Expr::Binary(
                    Box::new(Expr::Literal(toks[0].ttype)),
                    toks[1],
                    Box::new(Expr::Literal(toks[2].ttype)),
                ),
            ),
            toks[3],
            Box::new(Expr::Literal(toks[4].ttype)),
        ),
{
    assert forall|l: nat| level + 1 <= l < 4 implies !#[trigger] is_level_op(l, toks[1].ttype) by {
        lemma_levels_disjoint(toks[1].ttype, level, l);
    }
    assert forall|l: nat| level + 1 <= l < 4 implies !#[trigger] is_level_op(l, toks[3].ttype) by {
        lemma_levels_disjoint(toks[3].ttype, level, l);
    }
    assert forall|l: nat| level + 1 <= l < 4 implies !#[trigger] is_level_op(l, toks[5].ttype) by {
    }
    lemma_literal_operand(toks, level + 1, 0);
    lemma_literal_operand(toks, level + 1, 2);
    lemma_literal_operand(toks, level + 1, 4);
    let first = parse_rule(toks, level + 1, 0);
    let b1 = Expr::Binary(
        Box::new(Expr::Literal(toks[0].ttype)),
        toks[1],
        Box::new(Expr::Literal(toks[2].ttype)),
    );
    let b2 = Expr::Binary(Box::new(b1), toks[3], Box::new(Expr::Literal(toks[4].ttype)));
    assert(!is_level_op(level, toks[5].ttype));
    assert(binary_rest(toks, level, b2, 5) == (Parsed { expr: b2, used: 0, errors: Seq::empty() }));
    assert(binary_rest(toks, level, b1, 3).expr == b2);
    assert(binary_rest(toks, level, b1, 3).used == 2);
    assert(binary_rest(toks, level, b1, 3).errors =~= Seq::<ErrorView>::empty());
    assert(binary_rest(toks, level, Expr::Literal(toks[0].ttype), 1).expr == b2);
    assert(binary_rest(toks, level, Expr::Literal(toks[0].ttype), 1).used == 4);
    assert(binary_rest(toks, level, Expr::Literal(toks[0].ttype), 1).errors =~= Seq::<ErrorView>::empty());
    assert(parse_rule(toks, level, 0).expr == b2);
    assert(parse_rule(toks, level, 0).used == 5);
    assert(parse_rule(toks, level, 0).errors =~= Seq::<ErrorView>::empty());
    assert forall|l: nat| l < level implies !#[trigger] is_level_op(l, toks[5].ttype) by {
    }
    lemma_outer_rules(toks, 0, level, 0);
}

/// The parser's state for one pass: the tokens, a cursor and the
/// diagnostics recorded so far.
pub struct Parser {
    tokens: Vec<Token>,
    current: usize,
    pub errors: LoxErrorList,
}

impl Parser {
    /// The tokens being parsed.
    pub closed spec fn token_seq(&self) -> Seq<Token> {
        self.tokens@
    }

    /// The cursor: the index of the next token.
    pub closed spec fn position(&self) -> int {
        self.current as int
    }

    /// The diagnostics recorded so far.
    pub closed spec fn diagnostics(&self) -> Seq<ErrorView> {
        self.errors@
    }

    pub open spec fn wf(&self) -> bool {
        well_terminated(self.token_seq()) && 0 <= self.position() < self.token_seq().len()
    }

    /// `new` is `old` after rule `level` was parsed from `old`'s cursor and
    /// gave `r`.
    pub open spec fn rule_done(old: Parser, new: Parser, level: nat, r: Expr) -> bool {
        let p = parse_rule(old.token_seq(), level, old.position());
        &&& new.wf()
        &&& new.token_seq() == old.token_seq()
        &&& new.position() == old.position() + p.used
        &&& new.diagnostics() == old.diagnostics() + p.errors
        &&& r == p.expr
    }

    /// A parser at the first of `tokens`, with no diagnostics.
    pub fn new(tokens: Vec<Token>) -> (r: Parser)
        requires
            well_terminated(tokens@),
        ensures
            r.wf(),
            r.token_seq() == tokens@,
            r.position() == 0,
            r.diagnostics() == Seq::<ErrorView>::empty(),
    {
        Parser { tokens, current: 0, errors: LoxErrorList::new() }
    }

    /// The diagnostics recorded so far.
    pub fn get_errors(&self) -> (r: &LoxErrorList)
        ensures
            r@ == self.diagnostics(),
    {
        &self.errors
    }

    /// Parses one expression from the cursor. The tree comes back only when
    /// no diagnostic has been recorded; every diagnostic of the pass is kept
    /// in `errors`.
    pub fn parse(&mut self) -> (r: Option<Expr>)
        requires
            old(self).wf(),
        ensures
            ({
                let p = parse_rule(old(self).token_seq(), 0, old(self).position());
                &&& final(self).wf()
                &&& final(self).token_seq() == old(self).token_seq()
                &&& final(self).position() == old(self).position() + p.used
                &&& final(self).diagnostics() == old(self).diagnostics() + p.errors
                &&& r == (if final(self).diagnostics().len() == 0 {
                    Some(p.expr)
                } else {
                    None::<Expr>
                })
            }),
    {
        let result = self.expression();
        if self.errors.len() == 0 {
            Some(result)
        } else {
            None
        }
    }

    fn expression(&mut self) -> (r: Expr)
        requires
            old(self).wf(),
        ensures
            Self::rule_done(*old(self), *final(self), 0, r),
        decreases self.tokens@.len() - self.current, 7int,
    {
        self.equality()
    }

    fn equality(&mut self) -> (r: Expr)
        requires
            old(self).wf(),
        ensures
            Self::rule_done(*old(self), *final(self), 0, r),
        decreases self.tokens@.len() - self.current, 6int,
    {
        let ghost toks = self.tokens@;
        let ghost start = self.current as int;
        let ghost errs0 = self.errors@;
        let mut expr = self.comparison();
        let ghost first = parse_rule(toks, 1, start);
        let ghost mid = self.current as int;
        let ghost errs_mid = self.errors@;
        let ghost target = binary_rest(toks, 0, first.expr, mid);
        loop
            invariant
                self.wf(),
                self.tokens@ == toks,
                toks == old(self).tokens@,
                start == old(self).current,
                errs0 == old(self).errors@,
                start <= mid <= self.current,
                ({
                    let rest = binary_rest(toks, 0, expr, self.current as int);
                    &&& rest.expr == target.expr
                    &&& self.current + rest.used == mid + target.used
                    &&& self.errors@ + rest.errors == errs_mid + target.errors
                }),
            ensures
                !is_level_op(0, self.tokens@[self.current as int].ttype),
            decreases self.tokens@.len() - self.current,
        {
            if !(self.check(&TokenType::BangEqual) || self.check(&TokenType::EqualEqual)) {
                break;
            }
            let ghost before = self.current as int;
            let ghost errs_before = self.errors@;
            let ghost left = expr;
            self.advance();
            let operator = self.previous().clone();
            let right = self.comparison();
            expr = Expr::Binary(Box::new(expr), operator, Box::new(right));
            proof {
                let rp = parse_rule(toks, 1, before + 1);
                let rest = binary_rest(toks, 0, expr, self.current as int);
                assert(binary_rest(toks, 0, left, before).errors == rp.errors + rest.errors);
                assert(errs_before + (rp.errors + rest.errors) =~= (errs_before + rp.errors)
                    + rest.errors);
            }
        }
        proof {
            assert(self.errors@ + Seq::<ErrorView>::empty() =~= self.errors@);
            assert(errs0 + (first.errors + target.errors) =~= errs_mid + target.errors);
        }
        expr
    }

    fn comparison(&mut self) -> (r: Expr)
        requires
            old(self).wf(),
        ensures
            Self::rule_done(*old(self), *final(self), 1, r),
        decreases self.tokens@.len() - self.current, 5int,
    {
        let ghost toks = self.tokens@;
        let ghost start = self.current as int;
        let ghost errs0 = self.errors@;
        let mut expr = self.term();
        let ghost first = parse_rule(toks, 2, start);
        let ghost mid = self.current as int;
        let ghost errs_mid = self.errors@;
        let ghost target = binary_rest(toks, 1, first.expr, mid);
        loop
            invariant
                self.wf(),
                self.tokens@ == toks,
                toks == old(self).tokens@,
                start == old(self).current,
                errs0 == old(self).errors@,
                start <= mid <= self.current,
                ({
                    let rest = binary_rest(toks, 1, expr, self.current as int);
                    &&& rest.expr == target.expr
                    &&& self.current + rest.used == mid + target.used
                    &&& self.errors@ + rest.errors == errs_mid + target.errors
                }),
            ensures
                !is_level_op(1, self.tokens@[self.current as int].ttype),
            decreases self.tokens@.len() - self.current,
        {
            if !(self.check(&TokenType::Greater) || self.check(&TokenType::GreaterEqual)
                || self.check(&TokenType::Less) || self.check(&TokenType::LessEqual)) {
                break;
            }
            let ghost before = self.current as int;
            let ghost errs_before = self.errors@;
            let ghost left = expr;
            self.advance();
            let operator = self.previous().clone();
            let right = self.term();
            expr = Expr::Binary(Box::new(expr), operator, Box::new(right));
            proof {
                let rp = parse_rule(toks, 2, before + 1);
                let rest = binary_rest(toks, 1, expr, self.current as int);
                assert(binary_rest(toks, 1, left, before).errors == rp.errors + rest.errors);
                assert(errs_before + (rp.errors + rest.errors) =~= (errs_before + rp.errors)
                    + rest.errors);
            }
        }
        proof {
            assert(self.errors@ + Seq::<ErrorView>::empty() =~= self.errors@);
            assert(errs0 + (first.errors + target.errors) =~= errs_mid + target.errors);
        }
        expr
    }

    fn term(&mut self) -> (r: Expr)
        requires
            old(self).wf(),
        ensures
            Self::rule_done(*old(self), *final(self), 2, r),
        decreases self.tokens@.len() - self.current, 4int,
    {
        let ghost toks = self.tokens@;
        let ghost start = self.current as int;
        let ghost errs0 = self.errors@;
        let mut expr = self.factor();
        let ghost first = parse_rule(toks, 3, start);
        let ghost mid = self.current as int;
        let ghost errs_mid = self.errors@;
        let ghost target = binary_rest(toks, 2, first.expr, mid);
        loop
            invariant
                self.wf(),
                self.tokens@ == toks,
                toks == old(self).tokens@,
                start == old(self).current,
                errs0 == old(self).errors@,
                start <= mid <= self.current,
                ({
                    let rest = binary_rest(toks, 2, expr, self.current as int);
                    &&& rest.expr == target.expr
                    &&& self.current + rest.used == mid + target.used
                    &&& self.errors@ + rest.errors == errs_mid + target.errors
                }),
            ensures
                !is_level_op(2, self.tokens@[self.current as int].ttype),
            decreases self.tokens@.len() - self.current,
        {
            if !(self.check(&TokenType::Minus) || self.check(&TokenType::Plus)) {
                break;
            }
            let ghost before = self.current as int;
            let ghost errs_before = self.errors@;
            let ghost left = expr;
            self.advance();
            let operator = self.previous().clone();
            let right = self.factor();
            expr = Expr::Binary(Box::new(expr), operator, Box::new(right));
            proof {
                let rp = parse_rule(toks, 3, before + 1);
                let rest = binary_rest(toks, 2, expr, self.current as int);
                assert(binary_rest(toks, 2, left, before).errors == rp.errors + rest.errors);
                assert(errs_before + (rp.errors + rest.errors) =~= (errs_before + rp.errors)
                    + rest.errors);
            }
        }
        proof {
            assert(self.errors@ + Seq::<ErrorView>::empty() =~= self.errors@);
            assert(errs0 + (first.errors + target.errors) =~= errs_mid + target.errors);
        }
        expr
    }

    fn factor(&mut self) -> (r: Expr)
        requires
            old(self).wf(),
        ensures
            Self::rule_done(*old(self), *final(self), 3, r),
        decreases self.tokens@.len() - self.current, 3int,
    {
        let ghost toks = self.tokens@;
        let ghost start = self.current as int;
        let ghost errs0 = self.errors@;
        let mut expr = self.unary();
        let ghost first = parse_rule(toks, 4, start);
        let ghost mid = self.current as int;
        let ghost errs_mid = self.errors@;
        let ghost target = binary_rest(toks, 3, first.expr, mid);
        loop
            invariant
                self.wf(),
                self.tokens@ == toks,
                toks == old(self).tokens@,
                start == old(self).current,
                errs0 == old(self).errors@,
                start <= mid <= self.current,
                ({
                    let rest = binary_rest(toks, 3, expr, self.current as int);
                    &&& rest.expr == target.expr
                    &&& self.current + rest.used == mid + target.used
                    &&& self.errors@ + rest.errors == errs_mid + target.errors
                }),
            ensures
                !is_level_op(3, self.tokens@[self.current as int].ttype),
            decreases self.tokens@.len() - self.current,
        {
            if !(self.check(&TokenType::Slash) || self.check(&TokenType::Star)) {
                break;
            }
            let ghost before = self.current as int;
            let ghost errs_before = self.errors@;
            let ghost left = expr;
            self.advance();
            let operator = self.previous().clone();
            let right = self.unary();
            expr = Expr::Binary(Box::new(expr), operator, Box::new(right));
            proof {
                let rp = parse_rule(toks, 4, before + 1);
                let rest = binary_rest(toks, 3, expr, self.current as int);
                assert(binary_rest(toks, 3, left, before).errors == rp.errors + rest.errors);
                assert(errs_before + (rp.errors + rest.errors) =~= (errs_before + rp.errors)
                    + rest.errors);
            }
        }
        proof {
            assert(self.errors@ + Seq::<ErrorView>::empty() =~= self.errors@);
            assert(errs0 + (first.errors + target.errors) =~= errs_mid + target.errors);
        }
        expr
    }

    fn unary(&mut self) -> (r: Expr)
        requires
            old(self).wf(),
        ensures
            Self::rule_done(*old(self), *final(self), 4, r),
        decreases self.tokens@.len() - self.current, 2int,
    {
        if self.check(&TokenType::Bang) || self.check(&TokenType::Minus) {
            self.advance();
            let operator = self.previous().clone();
            let right = self.unary();
            Expr::Unary(operator, Box::new(right))
        } else {
            self.primary()
        }
    }

    fn primary(&mut self) -> (r: Expr)
        requires
            old(self).wf(),
        ensures
            Self::rule_done(*old(self), *final(self), 5, r),
        decreases self.tokens@.len() - self.current, 1int,
    {
        if self.check(&TokenType::False) || self.check(&TokenType::True) || self.check(
            &TokenType::Nil,
        ) || self.check(&TokenType::Number(String::new())) || self.check(
            &TokenType::String(String::new()),
        ) {
            self.advance();
            return Expr::Literal(self.previous().ttype.clone());
        }
        if self.check(&TokenType::LeftParen) {
            let ghost errs0 = self.errors@;
            self.advance();
            let expr = self.expression();
            let ghost errs1 = self.errors@;
            self.consume(TokenType::RightParen, "Expect ')' after expression.");
            proof {
                let toks = self.tokens@;
                let inner = parse_rule(toks, 0, old(self).current + 1);
                assert(self.errors@ == errs0 + inner.errors || self.errors@ =~= errs0 + (
                inner.errors.push(missing_paren_error(toks[old(self).current + 1 + inner.used]))));
            }
            return Expr::Grouping(Box::new(expr));
        }
        let tok = self.peek().clone();
        self.errors.push(LoxError::new(tok, String::from_str("Invalid Token")));
        proof {
            assert(self.errors@ =~= old(self).diagnostics() + seq![invalid_token_error(tok)]);
        }
        Expr::Literal(TokenType::Eof)
    }

    /// Whether the next token is of the same kind as `tt` (payloads aside),
    /// the end of input matching nothing.
    pub fn check(&self, tt: &TokenType) -> (r: bool)
        requires
            self.wf(),
        ensures
            r == (!(self.token_seq()[self.position()].ttype is Eof) && same_kind(
                self.token_seq()[self.position()].ttype,
                *tt,
            )),
    {
        if self.is_at_end() {
            false
        } else {
            self.peek().ttype.same_kind_as(tt)
        }
    }

    /// Consumes the next token if it is of kind `tt`, and otherwise records
    /// `msg` against the next token and gives the error kind.
    fn consume(&mut self, tt: TokenType, msg: &str) -> (r: TokenType)
        requires
            old(self).wf(),
        ensures
            final(self).wf(),
            final(self).token_seq() == old(self).token_seq(),
            ({
                let t = old(self).token_seq()[old(self).position()];
                if !(t.ttype is Eof) && same_kind(t.ttype, tt) {
                    &&& final(self).position() == old(self).position() + 1
                    &&& final(self).diagnostics() == old(self).diagnostics()
                    &&& r == t.ttype
                } else {
                    &&& final(self).position() == old(self).position()
                    &&& final(self).diagnostics() == old(self).diagnostics().push(
                        ErrorView { token: Some(t), line: Some(t.line), text: msg@ },
                    )
                    &&& r is Error
                }
            }),
    {
        if self.check(&tt) {
            self.advance();
            self.previous().ttype.clone()
        } else {
            let token = self.peek().clone();
            self.errors.push(LoxError::new(token, String::from_str(msg)));
            TokenType::Error
        }
    }

    /// Records `msg` against `token`.
    pub fn err_on_token(&mut self, token: &Token, msg: &str)
        ensures
            final(self).token_seq() == old(self).token_seq(),
            final(self).position() == old(self).position(),
            final(self).diagnostics() == old(self).diagnostics().push(
                ErrorView { token: Some(*token), line: Some(token.line), text: msg@ },
            ),
    {
        self.errors.push(LoxError::new(token.clone(), String::from_str(msg)))
    }

    /// Whether the next token is the end-of-input marker.
    pub fn is_at_end(&self) -> (r: bool)
        requires
            self.wf(),
        ensures
            r == (self.token_seq()[self.position()].ttype is Eof),
    {
        self.peek().is_eof()
    }

    /// The next token.
    pub fn peek(&self) -> (r: &Token)
        requires
            self.wf(),
        ensures
            *r == self.token_seq()[self.position()],
    {
        &self.tokens[self.current]
    }

    /// The token just consumed.
    pub fn previous(&self) -> (r: &Token)
        requires
            self.wf(),
            self.position() > 0,
        ensures
            *r == self.token_seq()[self.position() - 1],
    {
        &self.tokens[self.current - 1]
    }

    /// Consumes the next token unless it is the end-of-input marker.
    pub fn advance(&mut self) -> (r: Option<Token>)
        requires
            old(self).wf(),
        ensures
            final(self).wf(),
            final(self).token_seq() == old(self).token_seq(),
            final(self).diagnostics() == old(self).diagnostics(),
            ({
                let t = old(self).token_seq()[old(self).position()];
                if t.ttype is Eof {
                    final(self).position() == old(self).position() && r is None
                } else {
                    final(self).position() == old(self).position() + 1 && r == Some(t)
                }
            }),
    {
        if !self.is_at_end() {
            let n = self.tokens.len();
            assert(self.current + 1 < n);
            self.current = self.current + 1;
            Some(self.previous().clone())
        } else {
            None
        }
    }

    /// Recovery after a syntax error: skips the offending token, then tokens
    /// up to the end, past a `;`, or up to a token that starts a statement.
    pub fn synchronize(&mut self)
        requires
            old(self).wf(),
        ensures
            final(self).wf(),
            final(self).token_seq() == old(self).token_seq(),
            final(self).diagnostics() == old(self).diagnostics(),
            final(self).position() == sync_target(old(self).token_seq(), old(self).position()),
    {
        if self.is_at_end() {
            return;
        }
        self.advance();
        while !self.is_at_end()
            invariant
                self.wf(),
                self.tokens@ == old(self).tokens@,
                self.errors@ == old(self).errors@,
                self.current >= 1,
                sync_target(old(self).token_seq(), old(self).position()) == sync_scan(
                    self.tokens@,
                    self.current as int,
                ),
            decreases self.tokens@.len() - self.current,
        {
            if self.previous().ttype.same_kind_as(&TokenType::Semicolon) {
                return;
            }
            if self.peek().ttype.same_kind_as(&TokenType::Class) || self.peek().ttype.same_kind_as(
                &TokenType::Fun,
            ) || self.peek().ttype.same_kind_as(&TokenType::Var)
                || self.peek().ttype.same_kind_as(&TokenType::For)
                || self.peek().ttype.same_kind_as(&TokenType::If)
                || self.peek().ttype.same_kind_as(&TokenType::While)
                || self.peek().ttype.same_kind_as(&TokenType::Print)
                || self.peek().ttype.same_kind_as(&TokenType::Return) {
                return;
            }
            self.advance();
        }
    }
}

} // verus!
