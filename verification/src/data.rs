//! The token data model and the lexer's error type.

use vstd::prelude::*;

verus! {

/// A token of the language: either a fixed punctuation mark or a
/// variant carrying the exact matched lexeme text.
///
/// `StringLit` carries the text strictly between the opening and the
/// closing quote (quotes excluded, no escape processing). `NumberLit`
/// carries a verbatim run of decimal digits and `.` characters (no
/// check that there is at most one `.`). `Symbol` carries a maximal run
/// of alphanumeric or `_` characters starting with a letter or `_`.
/// `Op` carries a maximal run of operator-set characters.
#[derive(Debug, Clone, PartialEq, Eq)]
pub enum Token {
    Comma,
    SemiColon,
    LParen,
    RParen,
    LCurly,
    RCurly,
    LSquare,
    RSquare,
    StringLit(String),
    NumberLit(String),
    Symbol(String),
    Op(String),
}

/// The mathematical model of a [`Token`]: the same variants, with each
/// payload abstracted to its character sequence.
pub enum TokenView {
    Comma,
    SemiColon,
    LParen,
    RParen,
    LCurly,
    RCurly,
    LSquare,
    RSquare,
    StringLit(Seq<char>),
    NumberLit(Seq<char>),
    Symbol(Seq<char>),
    Op(Seq<char>),
}

impl View for Token {
    type V = TokenView;

    open spec fn view(&self) -> TokenView {
        match self {
            Token::Comma => TokenView::Comma,
            Token::SemiColon => TokenView::SemiColon,
            Token::LParen => TokenView::LParen,
            Token::RParen => TokenView::RParen,
            Token::LCurly => TokenView::LCurly,
            Token::RCurly => TokenView::RCurly,
            Token::LSquare => TokenView::LSquare,
            Token::RSquare => TokenView::RSquare,
            Token::StringLit(s) => TokenView::StringLit(s@),
            Token::NumberLit(s) => TokenView::NumberLit(s@),
            Token::Symbol(s) => TokenView::Symbol(s@),
            Token::Op(s) => TokenView::Op(s@),
        }
    }
}

impl DeepView for Token {
    type V = TokenView;

    open spec fn deep_view(&self) -> TokenView {
        self.view()
    }
}

/// The single error of the lexer: the scanner, while not inside a
/// string, number, symbol or operator lexeme, met a character that
/// belongs to no rule of the language.
///
/// `position` is the index of the offending character in the character
/// stream that the scanner reads: the input text with comments deleted
/// and one sentinel space appended.
#[derive(Debug, Clone, Copy, PartialEq, Eq, Structural)]
pub struct LexError {
    pub character: char,
    pub position: usize,
}

} // verus!
