//! The token vocabulary shared by the lexer and the parser.

use vstd::prelude::*;

verus! {

/// One lexical unit of source text. Identifier and integer-literal tokens
/// keep the text they were scanned from; the digits of an integer literal
/// are converted to a number only when the parser builds an expression.
#[derive(Debug, PartialEq)]
pub enum Token {
    Name { name: String },
    UpName { name: String },
    Int { value: String },
    Colon,
    Comma,
    Equal,
    SemiColon,
    Let,
    Fn,
    LeftParen,
    RightParen,
    LeftBrace,
    RightBrace,
    EndOfFile,
}

/// The mathematical image of a `Token`: text fields become sequences of
/// characters. Contracts and the lexer/parser specifications speak of
/// this type.
pub enum TokV {
    Name(Seq<char>),
    UpName(Seq<char>),
    Int(Seq<char>),
    Colon,
    Comma,
    Equal,
    SemiColon,
    Let,
    Fn,
    LeftParen,
    RightParen,
    LeftBrace,
    RightBrace,
    EndOfFile,
}

pub open spec fn tok_view(t: Token) -> TokV {
    match t {
        Token::Name { name } => TokV::Name(name@),
        Token::UpName { name } => TokV::UpName(name@),
        Token::Int { value } => TokV::Int(value@),
        Token::Colon => TokV::Colon,
        Token::Comma => TokV::Comma,
        Token::Equal => TokV::Equal,
        Token::SemiColon => TokV::SemiColon,
        Token::Let => TokV::Let,
        Token::Fn => TokV::Fn,
        Token::LeftParen => TokV::LeftParen,
        Token::RightParen => TokV::RightParen,
        Token::LeftBrace => TokV::LeftBrace,
        Token::RightBrace => TokV::RightBrace,
        Token::EndOfFile => TokV::EndOfFile,
    }
}

pub open spec fn toks_view(ts: Seq<Token>) -> Seq<TokV> {
    ts.map_values(|t: Token| tok_view(t))
}

impl View for Token {
    type V = TokV;

    open spec fn view(&self) -> TokV {
        tok_view(*self)
    }
}

} // verus!
