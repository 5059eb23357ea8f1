//! The kinds of token that the lexer produces.

use vstd::prelude::*;

verus! {

/// The kind of a token: punctuation, operators, literal markers, keywords and
/// the end-of-input sentinel.
#[derive(Clone, Copy, Debug, PartialEq, Eq, Structural)]
pub enum TokenType {
    LeftParen,
    RightParen,
    LeftBrace,
    RightBrace,
    Comma,
    Dot,
    Minus,
    Plus,
    Semicolon,
    Slash,
    Star,
    Bang,
    BangEqual,
    Equal,
    EqualEqual,
    Greater,
    GreaterEqual,
    Less,
    LessEqual,
    Identifier,
    String,
    Number,
    And,
    Class,
    Else,
    False,
    Fun,
    For,
    If,
    Nil,
    Or,
    Print,
    Return,
    Super,
    This,
    True,
    Var,
    While,
    Eof,
}

impl TokenType {
    /// Whether a statement may begin with a token of this kind; error
    /// recovery in the parser stops in front of such a token.
    pub open spec fn starts_statement(self) -> bool {
        matches!(
            self,
            TokenType::Class | TokenType::Fun | TokenType::Var | TokenType::For | TokenType::If
                | TokenType::While | TokenType::Print | TokenType::Return
        )
    }

    /// Tells whether a statement may begin with a token of this kind.
    pub fn is_statement_start(self) -> (r: bool)
        ensures
            r == self.starts_statement(),
    {
        match self {
            TokenType::Class
            | TokenType::Fun
            | TokenType::Var
            | TokenType::For
            | TokenType::If
            | TokenType::While
            | TokenType::Print
            | TokenType::Return => true,
            _ => false,
        }
    }
}

} // verus!
