//! The token type produced by the lexer, together with its mathematical
//! model used throughout the contracts.

use vstd::prelude::*;

verus! {

/// A classified lexical unit produced from raw text.
#[derive(Debug, PartialEq)]
pub enum Token {
    LParen,
    RParen,
    Plus,
    Minus,
    Multiply,
    Divide,
    Identifier(String),
    Integer(i32),
    StringLiteral(String),
}

/// The mathematical value of a [`Token`]: payloads appear as character
/// sequences and unbounded integers, so contracts can speak of them directly.
pub enum TokenModel {
    LParen,
    RParen,
    Plus,
    Minus,
    Multiply,
    Divide,
    Identifier(Seq<char>),
    Integer(int),
    StringLiteral(Seq<char>),
}

impl View for Token {
    type V = TokenModel;

    open spec fn view(&self) -> TokenModel {
        match self {
            Token::LParen => TokenModel::LParen,
            Token::RParen => TokenModel::RParen,
            Token::Plus => TokenModel::Plus,
            Token::Minus => TokenModel::Minus,
            Token::Multiply => TokenModel::Multiply,
            Token::Divide => TokenModel::Divide,
            Token::Identifier(s) => TokenModel::Identifier(s@),
            Token::Integer(n) => TokenModel::Integer(*n as int),
            Token::StringLiteral(s) => TokenModel::StringLiteral(s@),
        }
    }
}

impl Clone for Token {
    fn clone(&self) -> (r: Self)
        ensures
            r@ == self@,
    {
        match self {
            Token::LParen => Token::LParen,
            Token::RParen => Token::RParen,
            Token::Plus => Token::Plus,
            Token::Minus => Token::Minus,
            Token::Multiply => Token::Multiply,
            Token::Divide => Token::Divide,
            Token::Identifier(s) => Token::Identifier(s.clone()),
            Token::Integer(n) => Token::Integer(*n),
            Token::StringLiteral(s) => Token::StringLiteral(s.clone()),
        }
    }
}

/// The model of a whole token sequence.
pub open spec fn models(ts: Seq<Token>) -> Seq<TokenModel> {
    ts.map_values(|t: Token| t@)
}

/// Pushing a token onto a sequence pushes its model onto the model sequence.
pub proof fn lemma_models_push(ts: Seq<Token>, t: Token)
    ensures
        models(ts.push(t)) == models(ts).push(t@),
{
    assert(models(ts.push(t)) =~= models(ts).push(t@));
}

} // verus!
