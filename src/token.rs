//! Tokens as handed over by a scanner: a kind (with the literal text for
//! numbers, strings and identifiers), the lexeme and the source line.

use vstd::prelude::*;

verus! {

/// The kind of a token. Number literals keep their numeral text so that no
/// precision is lost before evaluation.
#[derive(Debug, PartialEq, Eq, Hash)]
pub enum TokenType {
    LeftParen,
    RightParen,
    LeftBrace,
    RightBrace,
    Comma,
    Dot,
    Minus,
    Plus,
    Semicolon,
    Slash,
    Star,
    Bang,
    BangEqual,
    Equal,
    EqualEqual,
    Greater,
    GreaterEqual,
    Less,
    LessEqual,
    String(String),
    Number(String),
    Identifier(String),
    And,
    Class,
    Else,
    False,
    Fun,
    For,
    If,
    Nil,
    Or,
    Print,
    Return,
    Super,
    This,
    True,
    Var,
    While,
    Eof,
    Error,
}

/// One token: its kind, the text it was read from and its line.
#[derive(Debug, PartialEq, Eq, Hash)]
pub struct Token {
    pub ttype: TokenType,
    pub lexeme: String,
    pub line: usize,
}

/// Two kinds are the same kind when they are the same variant, whatever
/// their payloads.
pub open spec fn same_kind(a: TokenType, b: TokenType) -> bool {
    match (a, b) {
        (TokenType::String(_), TokenType::String(_)) => true,
        (TokenType::Number(_), TokenType::Number(_)) => true,
        (TokenType::Identifier(_), TokenType::Identifier(_)) => true,
        _ => a == b,
    }
}

/// Kinds that carry a payload or mark a failure have no fixed symbol.
pub open spec fn has_symbol(t: TokenType) -> bool {
    !(t is String || t is Number || t is Identifier || t is Error)
}

/// The fixed text of each kind that has one.
pub open spec fn symbol_of(t: TokenType) -> Seq<char> {
    match t {
        TokenType::LeftParen => "("@,
        TokenType::RightParen => ")"@,
        TokenType::LeftBrace => "{"@,
        TokenType::RightBrace => "}"@,
        TokenType::Comma => ","@,
        TokenType::Dot => "."@,
        TokenType::Minus => "-"@,
        TokenType::Plus => "+"@,
        TokenType::Semicolon => ";"@,
        TokenType::Slash => "/"@,
        TokenType::Star => "*"@,
        TokenType::Bang => "!"@,
        TokenType::BangEqual => "!="@,
        TokenType::Equal => "="@,
        TokenType::EqualEqual => "=="@,
        TokenType::Greater => ">"@,
        TokenType::GreaterEqual => ">="@,
        TokenType::Less => "<"@,
        TokenType::LessEqual => "<="@,
        TokenType::And => "and"@,
        TokenType::Class => "class"@,
        TokenType::Else => "else"@,
        TokenType::False => "false"@,
        TokenType::Fun => "fun"@,
        TokenType::For => "for"@,
        TokenType::If => "if"@,
        TokenType::Nil => "nil"@,
        TokenType::Or => "or"@,
        TokenType::Print => "print"@,
        TokenType::Return => "return"@,
        TokenType::Super => "super"@,
        TokenType::This => "this"@,
        TokenType::True => "true"@,
        TokenType::Var => "var"@,
        TokenType::While => "while"@,
        TokenType::Eof => "eof"@,
        _ => Seq::empty(),
    }
}

/// The kinds whose symbol `to_keyword` looks up: every kind with a symbol
/// but the end-of-input marker, in declaration order.
pub open spec fn keyword_table() -> Seq<TokenType> {
    seq![
        TokenType::LeftParen, TokenType::RightParen, TokenType::LeftBrace,
        TokenType::RightBrace, TokenType::Comma, TokenType::Dot, TokenType::Minus,
        TokenType::Plus, TokenType::Semicolon, TokenType::Slash, TokenType::Star,
        TokenType::Bang, TokenType::BangEqual, TokenType::Equal, TokenType::EqualEqual,
        TokenType::Greater, TokenType::GreaterEqual, TokenType::Less, TokenType::LessEqual,
        TokenType::And, TokenType::Class, TokenType::Else, TokenType::False, TokenType::Fun,
        TokenType::For, TokenType::If, TokenType::Nil, TokenType::Or, TokenType::Print,
        TokenType::Return, TokenType::Super, TokenType::This, TokenType::True,
        TokenType::Var, TokenType::While,
    ]
}

impl Clone for TokenType {
    fn clone(&self) -> (r: Self)
        ensures
            r == *self,
    {
        match self {
            TokenType::String(s) => TokenType::String(s.clone()),
            TokenType::Number(s) => TokenType::Number(s.clone()),
            TokenType::Identifier(s) => TokenType::Identifier(s.clone()),
            TokenType::LeftParen => TokenType::LeftParen,
            TokenType::RightParen => TokenType::RightParen,
            TokenType::LeftBrace => TokenType::LeftBrace,
            TokenType::RightBrace => TokenType::RightBrace,
            TokenType::Comma => TokenType::Comma,
            TokenType::Dot => TokenType::Dot,
            TokenType::Minus => TokenType::Minus,
            TokenType::Plus => TokenType::Plus,
            TokenType::Semicolon => TokenType::Semicolon,
            TokenType::Slash => TokenType::Slash,
            TokenType::Star => TokenType::Star,
            TokenType::Bang => TokenType::Bang,
            TokenType::BangEqual => TokenType::BangEqual,
            TokenType::Equal => TokenType::Equal,
            TokenType::EqualEqual => TokenType::EqualEqual,
            TokenType::Greater => TokenType::Greater,
            TokenType::GreaterEqual => TokenType::GreaterEqual,
            TokenType::Less => TokenType::Less,
            TokenType::LessEqual => TokenType::LessEqual,
            TokenType::And => TokenType::And,
            TokenType::Class => TokenType::Class,
            TokenType::Else => TokenType::Else,
            TokenType::False => TokenType::False,
            TokenType::Fun => TokenType::Fun,
            TokenType::For => TokenType::For,
            TokenType::If => TokenType::If,
            TokenType::Nil => TokenType::Nil,
            TokenType::Or => TokenType::Or,
            TokenType::Print => TokenType::Print,
            TokenType::Return => TokenType::Return,
            TokenType::Super => TokenType::Super,
            TokenType::This => TokenType::This,
            TokenType::True => TokenType::True,
            TokenType::Var => TokenType::Var,
            TokenType::While => TokenType::While,
            TokenType::Eof => TokenType::Eof,
            TokenType::Error => TokenType::Error,
        }
    }
}

impl TokenType {
    /// Whether two kinds are the same variant, payloads aside.
    pub fn same_kind_as(&self, other: &TokenType) -> (r: bool)
        ensures
            r == same_kind(*self, *other),
    {
        match (self, other) {
            (TokenType::String(_), TokenType::String(_)) => true,
            (TokenType::Number(_), TokenType::Number(_)) => true,
            (TokenType::Identifier(_), TokenType::Identifier(_)) => true,
            (TokenType::String(_), _) | (_, TokenType::String(_)) => false,
            (TokenType::Number(_), _) | (_, TokenType::Number(_)) => false,
            (TokenType::Identifier(_), _) | (_, TokenType::Identifier(_)) => false,
            _ => self.fixed_index() == other.fixed_index(),
        }
    }

    /// Position of a payload-free kind in declaration order.
    fn fixed_index(&self) -> (r: u8)
        requires
            !(*self is String || *self is Number || *self is Identifier),
        ensures
            forall|o: TokenType|
                !(o is String || o is Number || o is Identifier) ==> (#[trigger] o.fixed_index_spec()
                    == r <==> o == *self),
            r == self.fixed_index_spec(),
    {
        match self {
            TokenType::LeftParen => 0,
            TokenType::RightParen => 1,
            TokenType::LeftBrace => 2,
            TokenType::RightBrace => 3,
            TokenType::Comma => 4,
            TokenType::Dot => 5,
            TokenType::Minus => 6,
            TokenType::Plus => 7,
            TokenType::Semicolon => 8,
            TokenType::Slash => 9,
            TokenType::Star => 10,
            TokenType::Bang => 11,
            TokenType::BangEqual => 12,
            TokenType::Equal => 13,
            TokenType::EqualEqual => 14,
            TokenType::Greater => 15,
            TokenType::GreaterEqual => 16,
            TokenType::Less => 17,
            TokenType::LessEqual => 18,
            TokenType::And => 19,
            TokenType::Class => 20,
            TokenType::Else => 21,
            TokenType::False => 22,
            TokenType::Fun => 23,
            TokenType::For => 24,
            TokenType::If => 25,
            TokenType::Nil => 26,
            TokenType::Or => 27,
            TokenType::Print => 28,
            TokenType::Return => 29,
            TokenType::Super => 30,
            TokenType::This => 31,
            TokenType::True => 32,
            TokenType::Var => 33,
            TokenType::While => 34,
            TokenType::Eof => 35,
            TokenType::Error => 36,
            _ => 37,
        }
    }

    spec fn fixed_index_spec(&self) -> u8 {
        match self {
            TokenType::LeftParen => 0,
            TokenType::RightParen => 1,
            TokenType::LeftBrace => 2,
            TokenType::RightBrace => 3,
            TokenType::Comma => 4,
            TokenType::Dot => 5,
            TokenType::Minus => 6,
            TokenType::Plus => 7,
            TokenType::Semicolon => 8,
            TokenType::Slash => 9,
            TokenType::Star => 10,
            TokenType::Bang => 11,
            TokenType::BangEqual => 12,
            TokenType::Equal => 13,
            TokenType::EqualEqual => 14,
            TokenType::Greater => 15,
            TokenType::GreaterEqual => 16,
            TokenType::Less => 17,
            TokenType::LessEqual => 18,
            TokenType::And => 19,
            TokenType::Class => 20,
            TokenType::Else => 21,
            TokenType::False => 22,
            TokenType::Fun => 23,
            TokenType::For => 24,
            TokenType::If => 25,
            TokenType::Nil => 26,
            TokenType::Or => 27,
            TokenType::Print => 28,
            TokenType::Return => 29,
            TokenType::Super => 30,
            TokenType::This => 31,
            TokenType::True => 32,
            TokenType::Var => 33,
            TokenType::While => 34,
            TokenType::Eof => 35,
            TokenType::Error => 36,
            _ => 37,
        }
    }
}

impl Clone for Token {
    fn clone(&self) -> (r: Self)
        ensures
            r == *self,
    {
        Token { ttype: self.ttype.clone(), lexeme: self.lexeme.clone(), line: self.line }
    }
}

impl Token {
    /// A token of kind `ttype` read from `lexeme` on `line`.
    pub fn new(ttype: &TokenType, lexeme: &String, line: usize) -> (r: Token)
        ensures
            r.ttype == *ttype,
            r.lexeme == *lexeme,
            r.line == line,
    {
        Token { ttype: ttype.clone(), lexeme: lexeme.clone(), line }
    }

    /// Whether this is the end-of-input marker.
    pub fn is_eof(&self) -> (r: bool)
        ensures
            r == (self.ttype is Eof),
    {
        match self.ttype {
            TokenType::Eof => true,
            _ => false,
        }
    }
}

impl TokenType {
    /// The fixed symbol of a kind that has one.
    pub fn to_stringslice(&self) -> (r: &'static str)
        requires
            has_symbol(*self),
        ensures
            r@ == symbol_of(*self),
    {
        match self {
            TokenType::LeftParen => "(",
            TokenType::RightParen => ")",
            TokenType::LeftBrace => "{",
            TokenType::RightBrace => "}",
            TokenType::Comma => ",",
            TokenType::Dot => ".",
            TokenType::Minus => "-",
            TokenType::Plus => "+",
            TokenType::Semicolon => ";",
            TokenType::Slash => "/",
            TokenType::Star => "*",
            TokenType::Bang => "!",
            TokenType::BangEqual => "!=",
            TokenType::Equal => "=",
            TokenType::EqualEqual => "==",
            TokenType::Greater => ">",
            TokenType::GreaterEqual => ">=",
            TokenType::Less => "<",
            TokenType::LessEqual => "<=",
            TokenType::And => "and",
            TokenType::Class => "class",
            TokenType::Else => "else",
            TokenType::False => "false",
            TokenType::Fun => "fun",
            TokenType::For => "for",
            TokenType::If => "if",
            TokenType::Nil => "nil",
            TokenType::Or => "or",
            TokenType::Print => "print",
            TokenType::Return => "return",
            TokenType::Super => "super",
            TokenType::This => "this",
            TokenType::True => "true",
            TokenType::Var => "var",
            TokenType::While => "while",
            _ => "eof",
        }
    }

    /// The kind whose symbol is `text`, among all kinds with a symbol but
    /// the end-of-input marker.
    pub fn to_keyword(text: &str) -> (r: Option<TokenType>)
        ensures
            r is Some <==> exists|i: int|
                0 <= i < keyword_table().len() && symbol_of(#[trigger] keyword_table()[i])
                    == text@,
            r matches Some(t) ==> symbol_of(t) == text@ && keyword_table().contains(t),
    {
        let wanted = text.to_owned();
        let table = [
            TokenType::LeftParen, TokenType::RightParen, TokenType::LeftBrace,
            TokenType::RightBrace, TokenType::Comma, TokenType::Dot, TokenType::Minus,
            TokenType::Plus, TokenType::Semicolon, TokenType::Slash, TokenType::Star,
            TokenType::Bang, TokenType::BangEqual, TokenType::Equal, TokenType::EqualEqual,
            TokenType::Greater, TokenType::GreaterEqual, TokenType::Less, TokenType::LessEqual,
            TokenType::And, TokenType::Class, TokenType::Else, TokenType::False, TokenType::Fun,
            TokenType::For, TokenType::If, TokenType::Nil, TokenType::Or, TokenType::Print,
            TokenType::Return, TokenType::Super, TokenType::This, TokenType::True,
            TokenType::Var, TokenType::While,
        ];
        assert(table@ =~= keyword_table());
        let mut i: usize = 0;
        while i < table.len()
            invariant
                table@ == keyword_table(),
                wanted@ == text@,
                i <= table@.len(),
                forall|j: int| 0 <= j < i ==> symbol_of(#[trigger] keyword_table()[j]) != text@,
            decreases table.len() - i,
        {
            let candidate = String::from_str(table[i].to_stringslice());
            if candidate == wanted {
                return Some(table[i].clone());
            }
            i = i + 1;
        }
        None
    }
}

} // verus!
