//! The vocabulary shared by the scanner, the parser and the evaluator.

use vstd::prelude::*;

verus! {

/// The closed set of token kinds.
#[derive(Clone, Copy, Debug, PartialEq, Eq, Structural)]
pub enum TokenType {
    // Single-character tokens.
    LeftParen,
    RightParen,
    LeftBrace,
    RightBrace,
    Comma,
    Dot,
    Minus,
    Plus,
    Semicolon,
    Slash,
    Star,
    // One or two character tokens.
    Bang,
    BangEqual,
    Equal,
    EqualEqual,
    Greater,
    GreaterEqual,
    Less,
    LessEqual,
    // Literals.
    Identifier,
    String,
    Number,
    // Keywords.
    And,
    Class,
    Else,
    False,
    Fun,
    For,
    If,
    Nil,
    Or,
    Print,
    Return,
    Super,
    This,
    True,
    Var,
    While,
    // End of input.
    Eof,
}

/// A literal value, as carried by a token or by a literal expression.
///
/// A number is held as its decimal source text (digits, then optionally a
/// `.` and more digits); turning it into a machine number is left to the
/// numeric domain that evaluates it.
#[derive(Debug)]
pub enum Literal {
    String(String),
    Number(String),
    True,
    False,
    Nil,
}

impl Clone for Literal {
    fn clone(&self) -> (r: Self)
        ensures
            r == *self,
    {
        match self {
            Literal::String(s) => Literal::String(s.clone()),
            Literal::Number(s) => Literal::Number(s.clone()),
            Literal::True => Literal::True,
            Literal::False => Literal::False,
            Literal::Nil => Literal::Nil,
        }
    }
}

/// Equality of literals: same variant, same text.
pub open spec fn literal_eq(a: &Literal, b: &Literal) -> bool {
    match (a, b) {
        (Literal::String(x), Literal::String(y)) => x@ == y@,
        (Literal::Number(x), Literal::Number(y)) => x@ == y@,
        (Literal::True, Literal::True) => true,
        (Literal::False, Literal::False) => true,
        (Literal::Nil, Literal::Nil) => true,
        _ => false,
    }
}

impl PartialEq for Literal {
    fn eq(&self, other: &Literal) -> (r: bool)
        ensures
            r == literal_eq(self, other),
    {
        match (self, other) {
            (Literal::String(x), Literal::String(y)) => *x == *y,
            (Literal::Number(x), Literal::Number(y)) => *x == *y,
            (Literal::True, Literal::True) => true,
            (Literal::False, Literal::False) => true,
            (Literal::Nil, Literal::Nil) => true,
            _ => false,
        }
    }
}

impl vstd::std_specs::cmp::PartialEqSpecImpl for Literal {
    open spec fn obeys_eq_spec() -> bool {
        true
    }

    open spec fn eq_spec(&self, other: &Literal) -> bool {
        literal_eq(self, other)
    }
}

/// The mathematical content of a literal.
pub enum LiteralView {
    Str(Seq<char>),
    Num(Seq<char>),
    True,
    False,
    Nil,
}

impl View for Literal {
    type V = LiteralView;

    open spec fn view(&self) -> LiteralView {
        match self {
            Literal::String(s) => LiteralView::Str(s@),
            Literal::Number(s) => LiteralView::Num(s@),
            Literal::True => LiteralView::True,
            Literal::False => LiteralView::False,
            Literal::Nil => LiteralView::Nil,
        }
    }
}

/// The mathematical content of a token.
pub struct TokenView {
    pub kind: TokenType,
    pub lexeme: Seq<char>,
    pub literal: Option<LiteralView>,
    pub line: nat,
}

/// A scanned token: its kind, the exact source text it was scanned from,
/// the decoded literal (strings and numbers only) and its 1-based line.
#[derive(Debug)]
pub struct Token {
    pub token_type: TokenType,
    pub lexeme: String,
    pub literal: Option<Literal>,
    pub line: usize,
}

impl View for Token {
    type V = TokenView;

    open spec fn view(&self) -> TokenView {
        TokenView {
            kind: self.token_type,
            lexeme: self.lexeme@,
            literal: match self.literal {
                Some(l) => Some(l@),
                None => None,
            },
            line: self.line as nat,
        }
    }
}

/// The view of each token of a sequence.
pub open spec fn tokens_view(s: Seq<Token>) -> Seq<TokenView> {
    s.map_values(|t: Token| t@)
}

impl Token {
    pub fn new(token_type: TokenType, lexeme: String, literal: Option<Literal>, line: usize) -> (r:
        Token)
        ensures
            r == (Token { token_type, lexeme, literal, line }),
    {
        Token { token_type, lexeme, literal, line }
    }
}

impl Clone for Token {
    fn clone(&self) -> (r: Self)
        ensures
            r == *self,
    {
        let literal = match &self.literal {
            Some(l) => Some(l.clone()),
            None => None,
        };
        Token {
            token_type: self.token_type,
            lexeme: self.lexeme.clone(),
            literal,
            line: self.line,
        }
    }
}

/// Equality of tokens: field by field, literals compared by `literal_eq`.
pub open spec fn token_eq(a: &Token, b: &Token) -> bool {
    &&& a.token_type == b.token_type
    &&& a.lexeme@ == b.lexeme@
    &&& a.line == b.line
    &&& match (a.literal, b.literal) {
        (Some(x), Some(y)) => literal_eq(&x, &y),
        (None, None) => true,
        _ => false,
    }
}

impl PartialEq for Token {
    fn eq(&self, other: &Token) -> (r: bool)
        ensures
            r == token_eq(self, other),
    {
        let same_literal = match (&self.literal, &other.literal) {
            (Some(x), Some(y)) => x.eq(y),
            (None, None) => true,
            _ => false,
        };
        self.token_type == other.token_type && self.lexeme == other.lexeme && self.line
            == other.line && same_literal
    }
}

impl vstd::std_specs::cmp::PartialEqSpecImpl for Token {
    open spec fn obeys_eq_spec() -> bool {
        true
    }

    open spec fn eq_spec(&self, other: &Token) -> bool {
        token_eq(self, other)
    }
}

} // verus!
