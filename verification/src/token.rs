//! The token model: the closed set of lexical categories, and the literal
//! text each token was scanned from.

use vstd::prelude::*;

verus! {

/// The lexical category of a token, together with the payload a category
/// carries (an identifier's name, an integer's value, a string's content).
#[derive(Debug, PartialEq, Clone)]
pub enum TokenType {
    EOF,
    Ident(String),
    Int(i64),
    Plus,
    Minus,
    Asterisk,
    Slash,
    Equal,
    NotEqual,
    LessThan,
    GreaterThan,
    Illegal,
    Let,
    If,
    Else,
    Fn,
    Return,
    True,
    False,
    LParen,
    RParen,
    LBrace,
    RBrace,
    Comma,
    Semicolon,
    Str(String),
}

/// The mathematical image of a `TokenType`: the same categories, with text
/// payloads abstracted to character sequences.
#[verifier::ext_equal]
pub enum SpecTokenType {
    EOF,
    Ident(Seq<char>),
    Int(i64),
    Plus,
    Minus,
    Asterisk,
    Slash,
    Equal,
    NotEqual,
    LessThan,
    GreaterThan,
    Illegal,
    Let,
    If,
    Else,
    Fn,
    Return,
    True,
    False,
    LParen,
    RParen,
    LBrace,
    RBrace,
    Comma,
    Semicolon,
    Str(Seq<char>),
}

impl View for TokenType {
    type V = SpecTokenType;

    open spec fn view(&self) -> SpecTokenType {
        match self {
            TokenType::EOF => SpecTokenType::EOF,
            TokenType::Ident(name) => SpecTokenType::Ident(name@),
            TokenType::Int(value) => SpecTokenType::Int(*value),
            TokenType::Plus => SpecTokenType::Plus,
            TokenType::Minus => SpecTokenType::Minus,
            TokenType::Asterisk => SpecTokenType::Asterisk,
            TokenType::Slash => SpecTokenType::Slash,
            TokenType::Equal => SpecTokenType::Equal,
            TokenType::NotEqual => SpecTokenType::NotEqual,
            TokenType::LessThan => SpecTokenType::LessThan,
            TokenType::GreaterThan => SpecTokenType::GreaterThan,
            TokenType::Illegal => SpecTokenType::Illegal,
            TokenType::Let => SpecTokenType::Let,
            TokenType::If => SpecTokenType::If,
            TokenType::Else => SpecTokenType::Else,
            TokenType::Fn => SpecTokenType::Fn,
            TokenType::Return => SpecTokenType::Return,
            TokenType::True => SpecTokenType::True,
            TokenType::False => SpecTokenType::False,
            TokenType::LParen => SpecTokenType::LParen,
            TokenType::RParen => SpecTokenType::RParen,
            TokenType::LBrace => SpecTokenType::LBrace,
            TokenType::RBrace => SpecTokenType::RBrace,
            TokenType::Comma => SpecTokenType::Comma,
            TokenType::Semicolon => SpecTokenType::Semicolon,
            TokenType::Str(content) => SpecTokenType::Str(content@),
        }
    }
}

/// A classified, minimal lexical unit. `literal` is always the exact
/// substring of the source the token was scanned from, never synthesized.
#[derive(Debug, PartialEq, Clone)]
pub struct Token {
    pub token_type: TokenType,
    pub literal: String,
}

/// The mathematical image of a `Token`.
#[verifier::ext_equal]
pub struct SpecToken {
    pub token_type: SpecTokenType,
    pub literal: Seq<char>,
}

impl View for Token {
    type V = SpecToken;

    open spec fn view(&self) -> SpecToken {
        SpecToken { token_type: self.token_type@, literal: self.literal@ }
    }
}

} // verus!
