//! The lexical tokens of the surface language.

use crate::cursor::ItemKind;
use vstd::prelude::*;

verus! {

/// A literal value as written in the source.
#[derive(Debug, PartialEq)]
pub enum Literal {
    Identifier(String),
    String(String),
    /// A number, carried as its decimal text.
    Number(String),
    Char(char),
    Bool(bool),
}

/// One lexical token. Tokens carry no position.
#[derive(Debug, PartialEq)]
pub enum Token {
    Identifier(String),
    Literal(Literal),
    Colon,
    LScope,
    RScope,
    Equal,
    Comma,
    LParen,
    RParen,
    Dot,
    And,
    Or,
    /// Luau code that passes through the compiler untouched.
    Luau(String),
}

/// What a `Literal` stands for, with text as sequences of characters.
pub ghost enum LiteralView {
    Identifier(Seq<char>),
    String(Seq<char>),
    Number(Seq<char>),
    Char(char),
    Bool(bool),
}

/// What a `Token` stands for, with text as sequences of characters.
pub ghost enum TokenView {
    Identifier(Seq<char>),
    Literal(LiteralView),
    Colon,
    LScope,
    RScope,
    Equal,
    Comma,
    LParen,
    RParen,
    Dot,
    And,
    Or,
    Luau(Seq<char>),
}

impl View for Literal {
    type V = LiteralView;

    open spec fn view(&self) -> LiteralView {
        match self {
            Literal::Identifier(s) => LiteralView::Identifier(s@),
            Literal::String(s) => LiteralView::String(s@),
            Literal::Number(s) => LiteralView::Number(s@),
            Literal::Char(c) => LiteralView::Char(*c),
            Literal::Bool(b) => LiteralView::Bool(*b),
        }
    }
}

impl View for Token {
    type V = TokenView;

    open spec fn view(&self) -> TokenView {
        match self {
            Token::Identifier(s) => TokenView::Identifier(s@),
            Token::Literal(l) => TokenView::Literal(l@),
            Token::Colon => TokenView::Colon,
            Token::LScope => TokenView::LScope,
            Token::RScope => TokenView::RScope,
            Token::Equal => TokenView::Equal,
            Token::Comma => TokenView::Comma,
            Token::LParen => TokenView::LParen,
            Token::RParen => TokenView::RParen,
            Token::Dot => TokenView::Dot,
            Token::And => TokenView::And,
            Token::Or => TokenView::Or,
            Token::Luau(s) => TokenView::Luau(s@),
        }
    }
}

/// The views of a list of tokens, one for one.
pub open spec fn token_views(tokens: Seq<Token>) -> Seq<TokenView> {
    Seq::new(tokens.len(), |i: int| tokens[i]@)
}

impl Clone for Literal {
    fn clone(&self) -> (r: Self)
        ensures
            r == *self,
    {
        match self {
            Literal::Identifier(s) => Literal::Identifier(s.clone()),
            Literal::String(s) => Literal::String(s.clone()),
            Literal::Number(s) => Literal::Number(s.clone()),
            Literal::Char(c) => Literal::Char(*c),
            Literal::Bool(b) => Literal::Bool(*b),
        }
    }
}

impl Clone for Token {
    fn clone(&self) -> (r: Self)
        ensures
            r == *self,
    {
        match self {
            Token::Identifier(s) => Token::Identifier(s.clone()),
            Token::Literal(l) => Token::Literal(l.clone()),
            Token::Colon => Token::Colon,
            Token::LScope => Token::LScope,
            Token::RScope => Token::RScope,
            Token::Equal => Token::Equal,
            Token::Comma => Token::Comma,
            Token::LParen => Token::LParen,
            Token::RParen => Token::RParen,
            Token::Dot => Token::Dot,
            Token::And => Token::And,
            Token::Or => Token::Or,
            Token::Luau(s) => Token::Luau(s.clone()),
        }
    }
}

/// The number of a token's variant, in the order of declaration.
pub open spec fn token_kind(t: TokenView) -> u8 {
    match t {
        TokenView::Identifier(_) => 0,
        TokenView::Literal(_) => 1,
        TokenView::Colon => 2,
        TokenView::LScope => 3,
        TokenView::RScope => 4,
        TokenView::Equal => 5,
        TokenView::Comma => 6,
        TokenView::LParen => 7,
        TokenView::RParen => 8,
        TokenView::Dot => 9,
        TokenView::And => 10,
        TokenView::Or => 11,
        TokenView::Luau(_) => 12,
    }
}

impl ItemKind for Token {
    fn kind(&self) -> (k: u8)
        ensures
            k == token_kind(self@),
    {
        match self {
            Token::Identifier(_) => 0,
            Token::Literal(_) => 1,
            Token::Colon => 2,
            Token::LScope => 3,
            Token::RScope => 4,
            Token::Equal => 5,
            Token::Comma => 6,
            Token::LParen => 7,
            Token::RParen => 8,
            Token::Dot => 9,
            Token::And => 10,
            Token::Or => 11,
            Token::Luau(_) => 12,
        }
    }
}

} // verus!
