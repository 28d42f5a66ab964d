//! A minimal lexer and evaluator for arithmetic-like expressions.
//!
//! `tokenize` turns a text string into a sequence of [`Token`]s;
//! `interpret` evaluates a token sequence against the fixed grammar
//! `expr := Integer (Plus | Minus) Integer`.

pub mod interp;
pub mod lexer;
pub mod token;

pub use interp::interpret;
pub use lexer::tokenize;
pub use token::Token;
