//! The tokens of the schema language.

use crate::text::str_eq;
use vstd::prelude::*;

verus! {

/// The two reserved words.
#[derive(Clone, Copy, Debug, PartialEq, Eq, Structural)]
pub enum Keyword {
    Table,
    Type,
}

/// One token of a schema text.
#[derive(Debug, PartialEq)]
pub enum Token {
    Keyword(Keyword),
    OpenBrace,
    CloseBrace,
    OpenParen,
    CloseParen,
    Number(u32),
    RangeDecl,
    RatioDecl,
    Eq,
    Word(String),
    PrimaryKey,
}

/// A token as a mathematical value: a word is the sequence of its characters.
pub enum TokenView {
    Keyword(Keyword),
    OpenBrace,
    CloseBrace,
    OpenParen,
    CloseParen,
    Number(u32),
    RangeDecl,
    RatioDecl,
    Eq,
    Word(Seq<char>),
    PrimaryKey,
}

impl View for Token {
    type V = TokenView;

    open spec fn view(&self) -> TokenView {
        match self {
            Token::Keyword(k) => TokenView::Keyword(*k),
            Token::OpenBrace => TokenView::OpenBrace,
            Token::CloseBrace => TokenView::CloseBrace,
            Token::OpenParen => TokenView::OpenParen,
            Token::CloseParen => TokenView::CloseParen,
            Token::Number(n) => TokenView::Number(*n),
            Token::RangeDecl => TokenView::RangeDecl,
            Token::RatioDecl => TokenView::RatioDecl,
            Token::Eq => TokenView::Eq,
            Token::Word(w) => TokenView::Word(w@),
            Token::PrimaryKey => TokenView::PrimaryKey,
        }
    }
}

impl DeepView for Token {
    type V = TokenView;

    open spec fn deep_view(&self) -> TokenView {
        self@
    }
}

impl Token {
    /// Tests whether two tokens are equal; two words are equal when they hold
    /// the same characters.
    pub fn same_as(&self, other: &Token) -> (r: bool)
        ensures
            r == (self@ == other@),
    {
        match (self, other) {
            (Token::Keyword(a), Token::Keyword(b)) => *a == *b,
            (Token::OpenBrace, Token::OpenBrace) => true,
            (Token::CloseBrace, Token::CloseBrace) => true,
            (Token::OpenParen, Token::OpenParen) => true,
            (Token::CloseParen, Token::CloseParen) => true,
            (Token::Number(a), Token::Number(b)) => *a == *b,
            (Token::RangeDecl, Token::RangeDecl) => true,
            (Token::RatioDecl, Token::RatioDecl) => true,
            (Token::Eq, Token::Eq) => true,
            (Token::Word(a), Token::Word(b)) => str_eq(a.as_str(), b.as_str()),
            (Token::PrimaryKey, Token::PrimaryKey) => true,
            _ => false,
        }
    }
}

impl Clone for Token {
    fn clone(&self) -> (r: Self)
        ensures
            r == *self,
    {
        match self {
            Token::Keyword(k) => Token::Keyword(*k),
            Token::OpenBrace => Token::OpenBrace,
            Token::CloseBrace => Token::CloseBrace,
            Token::OpenParen => Token::OpenParen,
            Token::CloseParen => Token::CloseParen,
            Token::Number(n) => Token::Number(*n),
            Token::RangeDecl => Token::RangeDecl,
            Token::RatioDecl => Token::RatioDecl,
            Token::Eq => Token::Eq,
            Token::Word(w) => Token::Word(w.clone()),
            Token::PrimaryKey => Token::PrimaryKey,
        }
    }
}

} // verus!
