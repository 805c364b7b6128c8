//! The tree-walking evaluator.
//!
//! Values are dynamically typed: nil, booleans, numbers and strings. The
//! evaluator decides every type rule itself; the arithmetic and ordering of
//! numbers come from a [`NumberDomain`] that the host supplies (IEEE-754
//! doubles in the interpreter), so what is proved here holds whatever the
//! numbers are.
//!
//! Evaluation stops at the first type error, in evaluation order: operands
//! left to right, innermost first.

use vstd::prelude::*;
use crate::ast::Expr;
use crate::lox_error::{ErrorView, LoxError, LoxErrorList};
use crate::parser::is_literal_kind;
use crate::printer::is_numeral;
use crate::token::{Token, TokenType};

verus! {

/// The numbers of the language and the operations on them. Each operation
/// is a function of its arguments: its result is the `spec_` function of the
/// same name applied to them, which each domain defines.
pub trait NumberDomain: Sized + Copy {
    spec fn spec_from_numeral(text: String) -> Self;

    spec fn spec_negation(a: Self) -> Self;

    spec fn spec_sum(a: Self, b: Self) -> Self;

    spec fn spec_difference(a: Self, b: Self) -> Self;

    spec fn spec_product(a: Self, b: Self) -> Self;

    spec fn spec_quotient(a: Self, b: Self) -> Self;

    spec fn spec_less(a: Self, b: Self) -> bool;

    spec fn spec_less_equal(a: Self, b: Self) -> bool;

    spec fn spec_greater(a: Self, b: Self) -> bool;

    spec fn spec_greater_equal(a: Self, b: Self) -> bool;

    spec fn spec_equal(a: Self, b: Self) -> bool;

    spec fn spec_render(a: Self) -> String;

    /// The number a numeral denotes.
    fn from_numeral(text: &String) -> (r: Self)
        requires
            is_numeral(text@),
        ensures
            r == Self::spec_from_numeral(*text),
    ;

    fn negation(&self) -> (r: Self)
        ensures
            r == Self::spec_negation(*self),
    ;

    fn sum(&self, other: &Self) -> (r: Self)
        ensures
            r == Self::spec_sum(*self, *other),
    ;

    fn difference(&self, other: &Self) -> (r: Self)
        ensures
            r == Self::spec_difference(*self, *other),
    ;

    fn product(&self, other: &Self) -> (r: Self)
        ensures
            r == Self::spec_product(*self, *other),
    ;

    fn quotient(&self, other: &Self) -> (r: Self)
        ensures
            r == Self::spec_quotient(*self, *other),
    ;

    fn less(&self, other: &Self) -> (r: bool)
        ensures
            r == Self::spec_less(*self, *other),
    ;

    fn less_equal(&self, other: &Self) -> (r: bool)
        ensures
            r == Self::spec_less_equal(*self, *other),
    ;

    fn greater(&self, other: &Self) -> (r: bool)
        ensures
            r == Self::spec_greater(*self, *other),
    ;

    fn greater_equal(&self, other: &Self) -> (r: bool)
        ensures
            r == Self::spec_greater_equal(*self, *other),
    ;

    /// Numeric equality; a domain with a not-a-number value makes it unequal
    /// to everything, itself included.
    fn equal(&self, other: &Self) -> (r: bool)
        ensures
            r == Self::spec_equal(*self, *other),
    ;

    /// The natural decimal form of the number.
    fn render(&self) -> (r: String)
        ensures
            r == Self::spec_render(*self),
    ;
}

/// A runtime value.
#[derive(Debug, PartialEq)]
pub enum LoxType<N> {
    Nil,
    Bool(bool),
    Number(N),
    String(String),
}

/// The type of a value.
pub enum Kind {
    Nil,
    Bool,
    Number,
    Str,
}

pub open spec fn kind_of<N>(v: LoxType<N>) -> Kind {
    match v {
        LoxType::Nil => Kind::Nil,
        LoxType::Bool(_) => Kind::Bool,
        LoxType::Number(_) => Kind::Number,
        LoxType::String(_) => Kind::Str,
    }
}

/// The name of a type in diagnostics.
pub open spec fn kind_name(k: Kind) -> Seq<char> {
    match k {
        Kind::Nil => "nil"@,
        Kind::Bool => "bool"@,
        Kind::Number => "number"@,
        Kind::Str => "string"@,
    }
}

/// The infix operators the evaluator knows.
pub open spec fn is_binary_op(t: TokenType) -> bool {
    t is BangEqual || t is EqualEqual || t is Greater || t is GreaterEqual || t is Less
        || t is LessEqual || t is Minus || t is Plus || t is Slash || t is Star
}

/// A tree the evaluator accepts: literals of literal kinds with numerals
/// for numbers, `!` and `-` as prefix operators, and known infix operators.
pub open spec fn evaluable(e: Expr) -> bool
    decreases e,
{
    match e {
        Expr::Literal(t) => is_literal_kind(t) && (t matches TokenType::Number(n) ==> is_numeral(
            n@,
        )),
        Expr::Grouping(inner) => evaluable(*inner),
        Expr::Unary(op, right) => (op.ttype is Bang || op.ttype is Minus) && evaluable(*right),
        Expr::Binary(left, op, right) => is_binary_op(op.ttype) && evaluable(*left) && evaluable(
            *right,
        ),
    }
}

pub open spec fn operator_error(op: Token, text: Seq<char>) -> ErrorView {
    ErrorView { token: Some(op), line: Some(op.line), text }
}

/// The diagnostic for an operand of type `found` where a number is needed.
pub open spec fn number_error(op: Token, found: Kind) -> ErrorView {
    operator_error(op, "Expected number but found "@ + kind_name(found))
}

/// The diagnostic for an operand of type `found` where a bool is needed.
pub open spec fn bool_error(op: Token, found: Kind) -> ErrorView {
    operator_error(op, "Expected bool but found "@ + kind_name(found))
}

/// The diagnostic for `+` on operands that are neither two numbers nor two strings.
pub open spec fn mismatch_error(op: Token) -> ErrorView {
    operator_error(op, "Mismatched types"@)
}

/// A value as the contracts see it: a string as its characters.
pub enum Value<N> {
    Nil,
    Bool(bool),
    Number(N),
    Str(Seq<char>),
}

pub open spec fn value_of<N>(v: LoxType<N>) -> Value<N> {
    match v {
        LoxType::Nil => Value::Nil,
        LoxType::Bool(b) => Value::Bool(b),
        LoxType::Number(n) => Value::Number(n),
        LoxType::String(s) => Value::Str(s@),
    }
}

pub open spec fn value_kind<N>(v: Value<N>) -> Kind {
    match v {
        Value::Nil => Kind::Nil,
        Value::Bool(_) => Kind::Bool,
        Value::Number(_) => Kind::Number,
        Value::Str(_) => Kind::Str,
    }
}

/// The value a literal denotes: a number literal the number of its numeral.
pub open spec fn literal_value<N: NumberDomain>(t: TokenType) -> Value<N> {
    match t {
        TokenType::Number(n) => Value::Number(N::spec_from_numeral(n)),
        TokenType::String(s) => Value::Str(s@),
        TokenType::True => Value::Bool(true),
        TokenType::False => Value::Bool(false),
        _ => Value::Nil,
    }
}

/// Equality of values: values of different types are unequal; numbers
/// compare by the domain's equality, strings by content, bools by value,
/// and nil equals nil.
pub open spec fn values_equal<N: NumberDomain>(a: Value<N>, b: Value<N>) -> bool {
    match (a, b) {
        (Value::Nil, Value::Nil) => true,
        (Value::Bool(x), Value::Bool(y)) => x == y,
        (Value::Number(x), Value::Number(y)) => N::spec_equal(x, y),
        (Value::Str(x), Value::Str(y)) => x == y,
        _ => false,
    }
}

/// A prefix operator applied to a value: `-` negates a number, `!` negates
/// a bool; any other operand is a type error.
pub open spec fn unary_value<N: NumberDomain>(op: Token, v: Value<N>) -> Result<Value<N>, ErrorView> {
    if op.ttype is Minus {
        match v {
            Value::Number(n) => Ok(Value::Number(N::spec_negation(n))),
            _ => Err(number_error(op, value_kind(v))),
        }
    } else {
        match v {
            Value::Bool(b) => Ok(Value::Bool(!b)),
            _ => Err(bool_error(op, value_kind(v))),
        }
    }
}

/// An infix operator applied to two values. `==` and `!=` never fail; `+`
/// adds two numbers or joins two strings; the other operators take two
/// numbers, the left operand checked first.
pub open spec fn binary_value<N: NumberDomain>(op: Token, l: Value<N>, r: Value<N>) -> Result<
    Value<N>,
    ErrorView,
> {
    let t = op.ttype;
    if t is EqualEqual {
        Ok(Value::Bool(values_equal(l, r)))
    } else if t is BangEqual {
        Ok(Value::Bool(!values_equal(l, r)))
    } else if t is Plus {
        match (l, r) {
            (Value::Number(a), Value::Number(b)) => Ok(Value::Number(N::spec_sum(a, b))),
            (Value::Str(a), Value::Str(b)) => Ok(Value::Str(a + b)),
            _ => Err(mismatch_error(op)),
        }
    } else {
        match (l, r) {
            (Value::Number(a), Value::Number(b)) => Ok(
                if t is Minus {
                    Value::Number(N::spec_difference(a, b))
                } else if t is Slash {
                    Value::Number(N::spec_quotient(a, b))
                } else if t is Star {
                    Value::Number(N::spec_product(a, b))
                } else if t is Greater {
                    Value::Bool(N::spec_greater(a, b))
                } else if t is GreaterEqual {
                    Value::Bool(N::spec_greater_equal(a, b))
                } else if t is Less {
                    Value::Bool(N::spec_less(a, b))
                } else {
                    Value::Bool(N::spec_less_equal(a, b))
                },
            ),
            (Value::Number(_), _) => Err(number_error(op, value_kind(r))),
            _ => Err(number_error(op, value_kind(l))),
        }
    }
}

/// The value of `e`, or the first diagnostic its evaluation raises, in
/// evaluation order: operands left to right, innermost first.
pub open spec fn eval_spec<N: NumberDomain>(e: Expr) -> Result<Value<N>, ErrorView>
    decreases e,
{
    match e {
        Expr::Literal(t) => Ok(literal_value(t)),
        Expr::Grouping(inner) => eval_spec(*inner),
        Expr::Unary(op, right) => match eval_spec::<N>(*right) {
            Err(x) => Err(x),
            Ok(v) => unary_value(op, v),
        },
        Expr::Binary(left, op, right) => match eval_spec::<N>(*left) {
            Err(x) => Err(x),
            Ok(a) => match eval_spec::<N>(*right) {
                Err(x) => Err(x),
                Ok(b) => binary_value(op, a, b),
            },
        },
    }
}

/// The text the interpreter prints for a value: `nil`, `true` or `false`,
/// the domain's rendering of a number, a string's raw content.
pub open spec fn value_text<N: NumberDomain>(v: Value<N>) -> Seq<char> {
    match v {
        Value::Nil => "nil"@,
        Value::Bool(b) => if b {
            "true"@
        } else {
            "false"@
        },
        Value::Number(n) => N::spec_render(n)@,
        Value::Str(s) => s,
    }
}

/// `r` is what evaluating `e` gives: the value of `eval_spec`, or its
/// diagnostic.
pub open spec fn evaluates_as<N: NumberDomain>(r: Result<LoxType<N>, LoxError>, e: Expr) -> bool {
    match (r, eval_spec::<N>(e)) {
        (Err(x), Err(y)) => x@ == y,
        (Ok(v), Ok(w)) => value_of(v) == w,
        _ => false,
    }
}

/// The name of a value's type in diagnostics.
pub fn to_lox_name<N>(val: &LoxType<N>) -> (r: &'static str)
    ensures
        r@ == kind_name(kind_of(*val)),
{
    match val {
        LoxType::Nil => "nil",
        LoxType::Bool(_) => "bool",
        LoxType::Number(_) => "number",
        LoxType::String(_) => "string",
    }
}

/// The value a literal denotes.
pub fn to_lox_type<N: NumberDomain>(tt: &TokenType) -> (r: LoxType<N>)
    requires
        is_literal_kind(*tt),
        tt matches TokenType::Number(n) ==> is_numeral(n@),
    ensures
        value_of(r) == literal_value::<N>(*tt),
{
    match tt {
        TokenType::Number(s) => LoxType::Number(N::from_numeral(s)),
        TokenType::String(s) => LoxType::String(s.clone()),
        TokenType::False => LoxType::Bool(false),
        TokenType::True => LoxType::Bool(true),
        _ => LoxType::Nil,
    }
}

impl<N: NumberDomain> LoxType<N> {
    /// The text the interpreter prints for the value: `nil`, `true` or
    /// `false`, the number's natural decimal form, a string's raw content.
    pub fn to_string(&self) -> (r: String)
        ensures
            r@ == value_text(value_of(*self)),
    {
        match self {
            LoxType::Nil => String::from_str("nil"),
            LoxType::Bool(f) => if *f {
                String::from_str("true")
            } else {
                String::from_str("false")
            },
            LoxType::Number(n) => n.render(),
            LoxType::String(s) => s.clone(),
        }
    }
}

fn type_error(token: &Token, expected: &str, found: &'static str) -> (r: LoxError)
    ensures
        r@ == operator_error(*token, expected@ + found@),
{
    LoxError::new(token.clone(), String::from_str(expected).concat(found))
}

/// The number held by `pr`, or the diagnostic naming the type found.
pub fn get_number<N: NumberDomain>(pr: &LoxType<N>, token: &Token) -> (r: Result<N, LoxError>)
    ensures
        match *pr {
            LoxType::Number(n) => r == Ok::<N, LoxError>(n),
            _ => r matches Err(e) && e@ == number_error(*token, kind_of(*pr)),
        },
{
    match pr {
        LoxType::Number(n) => Ok(*n),
        _ => Err(type_error(token, "Expected number but found ", to_lox_name(pr))),
    }
}

/// The bool held by `pr`, or the diagnostic naming the type found.
pub fn get_bool<N: NumberDomain>(pr: &LoxType<N>, token: &Token) -> (r: Result<bool, LoxError>)
    ensures
        match *pr {
            LoxType::Bool(b) => r == Ok::<bool, LoxError>(b),
            _ => r matches Err(e) && e@ == bool_error(*token, kind_of(*pr)),
        },
{
    match pr {
        LoxType::Bool(f) => Ok(*f),
        _ => Err(type_error(token, "Expected bool but found ", to_lox_name(pr))),
    }
}

/// A copy of the string held by `pr`, or the diagnostic naming the type found.
pub fn get_string<N: NumberDomain>(pr: &LoxType<N>, token: &Token) -> (r: Result<String, LoxError>)
    ensures
        match *pr {
            LoxType::String(s) => r matches Ok(c) && c@ == s@,
            _ => r matches Err(e) && e@ == operator_error(
                *token,
                "Expected string but found "@ + kind_name(kind_of(*pr)),
            ),
        },
{
    match pr {
        LoxType::String(s) => Ok(s.clone()),
        _ => Err(type_error(token, "Expected string but found ", to_lox_name(pr))),
    }
}

/// The numbers held by both operands, or the diagnostic for the first that
/// holds none.
pub fn get_numeric_values<N: NumberDomain>(
    left: &LoxType<N>,
    right: &LoxType<N>,
    token: &Token,
) -> (r: Result<(N, N), LoxError>)
    ensures
        match (*left, *right) {
            (LoxType::Number(a), LoxType::Number(b)) => r == Ok::<(N, N), LoxError>((a, b)),
            (LoxType::Number(_), _) => r matches Err(e) && e@ == number_error(
                *token,
                kind_of(*right),
            ),
            _ => r matches Err(e) && e@ == number_error(*token, kind_of(*left)),
        },
{
    let left_val = match get_number(left, token) {
        Ok(v) => v,
        Err(e) => return Err(e),
    };
    let right_val = match get_number(right, token) {
        Ok(v) => v,
        Err(e) => return Err(e),
    };
    Ok((left_val, right_val))
}

/// Copies of the strings held by both operands, or the diagnostic for the
/// first that holds none.
pub fn get_string_values<N: NumberDomain>(
    left: &LoxType<N>,
    right: &LoxType<N>,
    token: &Token,
) -> (r: Result<(String, String), LoxError>)
    ensures
        match (*left, *right) {
            (LoxType::String(a), LoxType::String(b)) => r matches Ok(p) && p.0@ == a@ && p.1@
                == b@,
            _ => r is Err,
        },
{
    let left_val = match get_string(left, token) {
        Ok(v) => v,
        Err(e) => return Err(e),
    };
    let right_val = match get_string(right, token) {
        Ok(v) => v,
        Err(e) => return Err(e),
    };
    Ok((left_val, right_val))
}

/// The bools held by both operands, or the diagnostic for the first that
/// holds none.
pub fn get_bool_values<N: NumberDomain>(
    left: &LoxType<N>,
    right: &LoxType<N>,
    token: &Token,
) -> (r: Result<(bool, bool), LoxError>)
    ensures
        match (*left, *right) {
            (LoxType::Bool(a), LoxType::Bool(b)) => r == Ok::<(bool, bool), LoxError>((a, b)),
            _ => r is Err,
        },
{
    let left_val = match get_bool(left, token) {
        Ok(v) => v,
        Err(e) => return Err(e),
    };
    let right_val = match get_bool(right, token) {
        Ok(v) => v,
        Err(e) => return Err(e),
    };
    Ok((left_val, right_val))
}

pub fn is_nil<N>(pr: &LoxType<N>) -> (r: bool)
    ensures
        r == (*pr is Nil),
{
    match pr {
        LoxType::Nil => true,
        _ => false,
    }
}

pub fn is_numeric<N>(pr: &LoxType<N>) -> (r: bool)
    ensures
        r == (*pr is Number),
{
    match pr {
        LoxType::Number(_) => true,
        _ => false,
    }
}

pub fn is_string<N>(pr: &LoxType<N>) -> (r: bool)
    ensures
        r == (*pr is String),
{
    match pr {
        LoxType::String(_) => true,
        _ => false,
    }
}

pub fn is_bool<N>(pr: &LoxType<N>) -> (r: bool)
    ensures
        r == (*pr is Bool),
{
    match pr {
        LoxType::Bool(_) => true,
        _ => false,
    }
}

/// Equality of two values: never a type error. Values of different types
/// are unequal; numbers compare by the domain's equality, strings by
/// content, bools by value, and nil equals nil.
pub fn is_equal<N: NumberDomain>(left: &LoxType<N>, right: &LoxType<N>, token: &Token) -> (r: bool)
    ensures
        r == values_equal(value_of(*left), value_of(*right)),
{
    if is_numeric(left) {
        if !is_numeric(right) {
            return false;
        }
        return match get_numeric_values(left, right, token) {
            Ok((left_val, right_val)) => left_val.equal(&right_val),
            Err(_) => false,
        };
    }
    if is_string(left) {
        if !is_string(right) {
            return false;
        }
        return match get_string_values(left, right, token) {
            Ok((left_val, right_val)) => left_val == right_val,
            Err(_) => false,
        };
    }
    if is_bool(left) {
        if !is_bool(right) {
            return false;
        }
        return match get_bool_values(left, right, token) {
            Ok((left_val, right_val)) => left_val == right_val,
            Err(_) => false,
        };
    }
    is_nil(left) && is_nil(right)
}

/// Evaluates expression trees.
pub struct Evaluator {}

impl Evaluator {
    /// The value of `expr`, or the first diagnostic its evaluation raises.
    pub fn evaluate<N: NumberDomain>(&self, expr: &Expr) -> (r: Result<LoxType<N>, LoxError>)
        requires
            evaluable(*expr),
        ensures
            evaluates_as(r, *expr),
        decreases expr, 1int,
    {
        match expr {
            Expr::Literal(value) => Ok(to_lox_type(value)),
            Expr::Grouping(inner) => self.evaluate(inner),
            Expr::Unary(..) => self.unary(expr),
            Expr::Binary(..) => self.binary(expr),
        }
    }

    /// Evaluates `expr` and gives the text to print for its value, or the
    /// diagnostic it raised as a one-element list.
    pub fn interpret<N: NumberDomain>(&self, expr: &Expr) -> (r: (Option<String>, LoxErrorList))
        requires
            evaluable(*expr),
        ensures
            match eval_spec::<N>(*expr) {
                Ok(v) => r.1@.len() == 0 && (r.0 matches Some(t) && t@ == value_text(v)),
                Err(e) => r.0 is None && r.1@ == seq![e],
            },
    {
        match self.evaluate::<N>(expr) {
            Err(l) => (None, LoxErrorList::single(l)),
            Ok(val) => (Some(val.to_string()), LoxErrorList::new()),
        }
    }

    /// A prefix node: `-` or `!` applied to the value of its operand.
    pub fn unary<N: NumberDomain>(&self, expr: &Expr) -> (r: Result<LoxType<N>, LoxError>)
        requires
            *expr is Unary,
            evaluable(*expr),
        ensures
            evaluates_as(r, *expr),
        decreases expr, 0int,
    {
        let (operator, right) = match expr {
            Expr::Unary(operator, right) => (operator, right),
            _ => unreached(),
        };
        let right_value = match self.evaluate::<N>(right) {
            Ok(v) => v,
            Err(e) => return Err(e),
        };
        match operator.ttype {
            TokenType::Minus => match get_number(&right_value, operator) {
                Ok(n) => Ok(LoxType::Number(n.negation())),
                Err(e) => Err(e),
            },
            _ => match get_bool(&right_value, operator) {
                Ok(b) => Ok(LoxType::Bool(!b)),
                Err(e) => Err(e),
            },
        }
    }

    /// An infix node: its operator applied to the values of its operands,
    /// evaluated left to right.
    pub fn binary<N: NumberDomain>(&self, expr: &Expr) -> (r: Result<LoxType<N>, LoxError>)
        requires
            *expr is Binary,
            evaluable(*expr),
        ensures
            evaluates_as(r, *expr),
        decreases expr, 0int,
    {
        let (left, operator, right) = match expr {
            Expr::Binary(left, operator, right) => (left, operator, right),
            _ => unreached(),
        };
        let left_value = match self.evaluate::<N>(left) {
            Ok(v) => v,
            Err(e) => return Err(e),
        };
        let right_value = match self.evaluate::<N>(right) {
            Ok(v) => v,
            Err(e) => return Err(e),
        };
        let token = operator;
        match operator.ttype {
            TokenType::Minus => match get_numeric_values(&left_value, &right_value, token) {
                Ok((a, b)) => Ok(LoxType::Number(a.difference(&b))),
                Err(e) => Err(e),
            },
            TokenType::Slash => match get_numeric_values(&left_value, &right_value, token) {
                Ok((a, b)) => Ok(LoxType::Number(a.quotient(&b))),
                Err(e) => Err(e),
            },
            TokenType::Star => match get_numeric_values(&left_value, &right_value, token) {
                Ok((a, b)) => Ok(LoxType::Number(a.product(&b))),
                Err(e) => Err(e),
            },
            TokenType::Plus => {
                if is_numeric(&left_value) && is_numeric(&right_value) {
                    match get_numeric_values(&left_value, &right_value, token) {
                        Ok((a, b)) => Ok(LoxType::Number(a.sum(&b))),
                        Err(e) => Err(e),
                    }
                } else if is_string(&left_value) && is_string(&right_value) {
                    match get_string_values(&left_value, &right_value, token) {
                        Ok((a, b)) => Ok(LoxType::String(a.concat(b.as_str()))),
                        Err(e) => Err(e),
                    }
                } else {
                    Err(LoxError::new(token.clone(), String::from_str("Mismatched types")))
                }
            },
            TokenType::Greater => match get_numeric_values(&left_value, &right_value, token) {
                Ok((a, b)) => Ok(LoxType::Bool(a.greater(&b))),
                Err(e) => Err(e),
            },
            TokenType::Less => match get_numeric_values(&left_value, &right_value, token) {
                Ok((a, b)) => Ok(LoxType::Bool(a.less(&b))),
                Err(e) => Err(e),
            },
            TokenType::GreaterEqual => match get_numeric_values(&left_value, &right_value, token) {
                Ok((a, b)) => Ok(LoxType::Bool(a.greater_equal(&b))),
                Err(e) => Err(e),
            },
            TokenType::LessEqual => match get_numeric_values(&left_value, &right_value, token) {
                Ok((a, b)) => Ok(LoxType::Bool(a.less_equal(&b))),
                Err(e) => Err(e),
            },
            TokenType::EqualEqual => Ok(LoxType::Bool(is_equal(&left_value, &right_value, token))),
            _ => Ok(LoxType::Bool(!is_equal(&left_value, &right_value, token))),
        }
    }
}

} // verus!
