//! Tokens and runtime values.

use crate::lox_callable::LoxFunction;
use crate::token_type::TokenType;
use std::rc::Rc;
use vstd::prelude::*;

verus! {

/// A runtime value, also used for the literal that a token carries.
///
/// A number is held as the bit pattern of an IEEE-754 double.
#[derive(Debug)]
pub enum Object {
    String(String),
    NULL,
    Number(u64),
    Boolean(bool),
    LoxFunction(Rc<LoxFunction>),
}

/// `Rc::clone`: a second handle to the same allocation, so that the value
/// behind it is the same.
#[verifier::external_body]
pub(crate) fn share<T>(rc: &Rc<T>) -> (r: Rc<T>)
    ensures
        r == *rc,
{
    Rc::clone(rc)
}

impl Clone for Object {
    fn clone(&self) -> (r: Self)
        ensures
            r == *self,
    {
        match self {
            Object::String(s) => Object::String(s.clone()),
            Object::NULL => Object::NULL,
            Object::Number(bits) => Object::Number(*bits),
            Object::Boolean(b) => Object::Boolean(*b),
            Object::LoxFunction(f) => Object::LoxFunction(share(f)),
        }
    }
}

/// One lexical unit of the source text.
#[derive(Debug)]
pub struct Token {
    pub token_type: TokenType,
    /// The exact slice of the source that the token covers.
    pub lexeme: String,
    /// The value of a string or number literal; `NULL` for every other
    /// token. The lexer leaves the value of a number to its caller.
    pub literal: Object,
    /// One-based line of the token's last character.
    pub line: usize,
    /// One-based column of the token's first character.
    pub column: usize,
}

impl Token {
    pub fn new(
        token_type: TokenType,
        lexeme: String,
        literal: Object,
        line: usize,
        column: usize,
    ) -> (r: Self)
        ensures
            r == (Token { token_type, lexeme, literal, line, column }),
    {
        Self { token_type, lexeme, literal, line, column }
    }
}

impl Clone for Token {
    fn clone(&self) -> (r: Self)
        ensures
            r == *self,
    {
        Token {
            token_type: self.token_type,
            lexeme: self.lexeme.clone(),
            literal: self.literal.clone(),
            line: self.line,
            column: self.column,
        }
    }
}

} // verus!
