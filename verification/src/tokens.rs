//! Tokens: the leaves of the abstract syntax tree.
use vstd::prelude::*;

verus! {

/// The kind of a token. Non-terminal nodes of the tree carry `NonTerminal` and
/// hold the name of their grammar rule in the lexeme.
#[derive(Clone, Copy, Debug, PartialEq, Eq, Structural)]
pub enum TokenKind {
    Assignment,
    Equality,
    GreaterThan,
    GreaterThanOrEqual,
    LessThan,
    LessThanOrEqual,
    Not,
    NotEqual,
    LBrace,
    RBrace,
    LBracket,
    RBracket,
    LParen,
    RParen,
    Dot,
    FSlash,
    Minus,
    Percent,
    Plus,
    Star,
    And,
    Or,
    BitAnd,
    BitOr,
    BitXor,
    Import,
    Package,
    Private,
    Protected,
    Public,
    Abstract,
    Extends,
    Implements,
    Interface,
    Final,
    Native,
    Static,
    Boolean,
    Byte,
    Char,
    Int,
    Short,
    Str,
    Void,
    False,
    True,
    Null,
    Class,
    Delete,
    Instanceof,
    New,
    Object,
    This,
    Else,
    For,
    If,
    Return,
    While,
    Identifier,
    CharValue,
    NumValue,
    StrValue,
    Comma,
    Semicolon,
    NonTerminal,
}

/// The mathematical content of a token: its kind and the characters of its
/// lexeme, if any.
pub struct TokenModel {
    pub kind: TokenKind,
    pub lexeme: Option<Seq<char>>,
}

pub open spec fn lexeme_model(l: Option<String>) -> Option<Seq<char>> {
    match l {
        Some(s) => Some(s@),
        None => None,
    }
}

#[derive(Debug)]
pub struct Token {
    pub kind: TokenKind,
    pub lexeme: Option<String>,
}

impl Token {
    pub open spec fn model(&self) -> TokenModel {
        TokenModel { kind: self.kind, lexeme: lexeme_model(self.lexeme) }
    }

    /// Builds a token from its kind and an optional lexeme.
    pub fn new(kind: TokenKind, lexeme: Option<&str>) -> (t: Token)
        ensures
            t.model() == (TokenModel {
                kind,
                lexeme: match lexeme {
                    Some(l) => Some(l@),
                    None => None,
                },
            }),
    {
        let lexeme = match lexeme {
            Some(l) => Some(String::from_str(l)),
            None => None,
        };
        Token { kind, lexeme }
    }

    /// Token equality: same kind and same lexeme.
    pub fn same(&self, other: &Token) -> (r: bool)
        ensures
            r == (self.model() == other.model()),
    {
        self.kind == other.kind && lexeme_eq(&self.lexeme, &other.lexeme)
    }

    /// Whether this token is a non-terminal named `name`.
    pub fn is_rule(&self, name: &str) -> (r: bool)
        ensures
            r == (self.kind == TokenKind::NonTerminal && self.model().lexeme == Some(name@)),
    {
        self.kind == TokenKind::NonTerminal && lexeme_is(&self.lexeme, name)
    }
}

impl DeepView for Token {
    type V = TokenModel;

    open spec fn deep_view(&self) -> TokenModel {
        self.model()
    }
}

impl Clone for Token {
    fn clone(&self) -> (t: Token)
        ensures
            t.model() == self.model(),
    {
        let lexeme = match &self.lexeme {
            Some(l) => Some(l.clone()),
            None => None,
        };
        Token { kind: self.kind, lexeme }
    }
}

/// Equality of two optional lexemes.
pub fn lexeme_eq(a: &Option<String>, b: &Option<String>) -> (r: bool)
    ensures
        r == (lexeme_model(*a) == lexeme_model(*b)),
{
    match (a, b) {
        (Some(x), Some(y)) => *x == *y,
        (None, None) => true,
        _ => false,
    }
}

/// Whether an optional lexeme is present and spells `name`.
pub fn lexeme_is(a: &Option<String>, name: &str) -> (r: bool)
    ensures
        r == (lexeme_model(*a) == Some(name@)),
{
    match a {
        Some(x) => {
            let n = String::from_str(name);
            *x == n
        },
        None => false,
    }
}

/// The seven kinds that name primitive types (and `null`).
pub open spec fn is_primitive_kind(k: TokenKind) -> bool {
    k == TokenKind::Boolean || k == TokenKind::Byte || k == TokenKind::Char || k
        == TokenKind::Int || k == TokenKind::Null || k == TokenKind::Short || k == TokenKind::Void
}

pub fn primitive_kind(k: TokenKind) -> (r: bool)
    ensures
        r == is_primitive_kind(k),
{
    match k {
        TokenKind::Boolean | TokenKind::Byte | TokenKind::Char | TokenKind::Int | TokenKind::Null
        | TokenKind::Short | TokenKind::Void => true,
        _ => false,
    }
}

} // verus!
