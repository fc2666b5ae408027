//! Tokens: what the scanner produces and the parser consumes.

use vstd::prelude::*;
use crate::value::Value;

verus! {

/// The closed set of token kinds.
#[allow(clippy::upper_case_acronyms)]
#[derive(Clone, Copy, Debug, PartialEq, Eq, Structural)]
pub enum TokenType {
    LeftParen,
    RightParen,
    LeftBrace,
    RightBrace,
    Comma,
    Dot,
    Minus,
    Plus,
    Semicolon,
    Slash,
    Star,
    Bang,
    BangEqual,
    Equal,
    EqualEqual,
    Greater,
    GreaterEqual,
    Less,
    LessEqual,
    Identifier,
    String,
    Number,
    And,
    Class,
    Else,
    False,
    Fun,
    For,
    If,
    Nil,
    Or,
    Print,
    Return,
    Super,
    This,
    True,
    Var,
    While,
    EOF,
}

/// One lexeme of the source, with its kind, its literal value and its line.
#[derive(Debug)]
pub struct Token {
    pub token_type: TokenType,
    /// The exact source text of the lexeme.
    pub lexeme: String,
    /// The value of a number, string or keyword literal; `Value::Nil` otherwise.
    pub literal: Value,
    /// The 1-based line on which the lexeme ends.
    pub line: u64,
}

impl Clone for Token {
    fn clone(&self) -> (copy: Self)
        ensures
            copy == *self,
    {
        Token {
            token_type: self.token_type,
            lexeme: self.lexeme.clone(),
            literal: self.literal.clone(),
            line: self.line,
        }
    }
}

} // verus!
