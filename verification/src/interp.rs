//! The evaluator: a cursor over a token sequence and the fixed two-operand
//! grammar `expr := Integer (Plus | Minus) Integer`.

use vstd::prelude::*;
use vstd::string::StringExecFns;

use crate::token::{models, Token, TokenModel};

verus! {

/// The token under a cursor at position `pos`, or `None` past the end.
pub open spec fn spec_current(ts: Seq<TokenModel>, pos: int) -> Option<TokenModel> {
    if 0 <= pos < ts.len() {
        Some(ts[pos])
    } else {
        None
    }
}

/// How a token (or its absence) is named in evaluator error messages.
pub open spec fn spec_found_name(t: Option<TokenModel>) -> Seq<char> {
    match t {
        None => "none"@,
        Some(TokenModel::LParen) => "LParen"@,
        Some(TokenModel::RParen) => "RParen"@,
        Some(TokenModel::Plus) => "Plus"@,
        Some(TokenModel::Minus) => "Minus"@,
        Some(TokenModel::Multiply) => "Multiply"@,
        Some(TokenModel::Divide) => "Divide"@,
        Some(TokenModel::Identifier(_)) => "Identifier"@,
        Some(TokenModel::Integer(_)) => "Integer"@,
        Some(TokenModel::StringLiteral(_)) => "StringLiteral"@,
    }
}

/// The error message of a failed integer expectation at cursor position `pos`.
pub open spec fn expected_integer_msg(ts: Seq<TokenModel>, pos: int) -> Seq<char> {
    "Expected INTEGER, found "@ + spec_found_name(spec_current(ts, pos))
}

/// The error message of a failed operator expectation at cursor position `pos`.
pub open spec fn expected_operator_msg(ts: Seq<TokenModel>, pos: int) -> Seq<char> {
    "Expected PLUS | MINUS, encountered: "@ + spec_found_name(spec_current(ts, pos))
}

/// What evaluating a token sequence yields: the sum or difference of the two
/// operands when the sequence starts `Integer (Plus | Minus) Integer`, and
/// otherwise the error of the first failed expectation. Tokens after the
/// third are ignored.
pub open spec fn spec_interpret(ts: Seq<TokenModel>) -> Result<int, Seq<char>> {
    match spec_current(ts, 0) {
        Some(TokenModel::Integer(left)) => match spec_current(ts, 1) {
            Some(TokenModel::Plus) => spec_second_operand(ts, left, true),
            Some(TokenModel::Minus) => spec_second_operand(ts, left, false),
            _ => Err(expected_operator_msg(ts, 1)),
        },
        _ => Err(expected_integer_msg(ts, 0)),
    }
}

/// The outcome once the left operand and the operator have been consumed.
pub open spec fn spec_second_operand(ts: Seq<TokenModel>, left: int, plus: bool) -> Result<
    int,
    Seq<char>,
> {
    match spec_current(ts, 2) {
        Some(TokenModel::Integer(right)) => Ok(
            if plus {
                left + right
            } else {
                left - right
            },
        ),
        _ => Err(expected_integer_msg(ts, 2)),
    }
}

/// Whether the evaluated result, if any, fits in `i32`. The operands are
/// `i32` values, so only their sum or difference can fall outside the type.
pub open spec fn spec_interpret_fits(ts: Seq<TokenModel>) -> bool {
    spec_interpret(ts) matches Ok(v) ==> i32::MIN <= v <= i32::MAX
}

fn found_name(cur: &Option<Token>) -> (r: &str)
    ensures
        r@ == spec_found_name(
            match cur {
                Some(t) => Some(t@),
                None => None,
            },
        ),
{
    match cur {
        None => "none",
        Some(Token::LParen) => "LParen",
        Some(Token::RParen) => "RParen",
        Some(Token::Plus) => "Plus",
        Some(Token::Minus) => "Minus",
        Some(Token::Multiply) => "Multiply",
        Some(Token::Divide) => "Divide",
        Some(Token::Identifier(_)) => "Identifier",
        Some(Token::Integer(_)) => "Integer",
        Some(Token::StringLiteral(_)) => "StringLiteral",
    }
}

/// A token sequence with a cursor that only moves forward.
struct Interpreter {
    tokens: Vec<Token>,
    pos: usize,
}

impl Interpreter {
    /// The model of the owned token sequence.
    spec fn toks(&self) -> Seq<TokenModel> {
        models(self.tokens@)
    }

    /// The cursor stays within `[0, tokens.len()]`.
    spec fn wf(&self) -> bool {
        self.pos <= self.tokens@.len()
    }

    fn new(tokens: Vec<Token>) -> (r: Self)
        ensures
            r.tokens == tokens,
            r.pos == 0,
    {
        Interpreter { tokens, pos: 0 }
    }

    fn advance(&mut self)
        requires
            old(self).pos < old(self).tokens@.len(),
        ensures
            final(self).tokens == old(self).tokens,
            final(self).pos == old(self).pos + 1,
    {
        proof {
            broadcast use vstd::std_specs::vec::axiom_spec_len;

            assert(self.tokens.len() == self.tokens@.len());
        }
        self.pos = self.pos + 1;
    }

    fn current(&self) -> (r: Option<Token>)
        ensures
            (match r {
                Some(t) => Some(t@),
                None => None,
            }) == spec_current(self.toks(), self.pos as int),
    {
        if self.pos < self.tokens.len() {
            Some(self.tokens[self.pos].clone())
        } else {
            None
        }
    }

    fn eat_plus(&mut self) -> (r: Result<(), String>)
        requires
            old(self).wf(),
        ensures
            final(self).wf(),
            final(self).tokens == old(self).tokens,
            r is Ok <==> spec_current(old(self).toks(), old(self).pos as int) == Some(
                TokenModel::Plus,
            ),
            r is Ok ==> final(self).pos == old(self).pos + 1,
            (match r {
                Ok(_) => true,
                Err(m) => final(self).pos == old(self).pos && m@ == "Expected PLUS, found "@
                    + spec_found_name(spec_current(old(self).toks(), old(self).pos as int)),
            }),
    {
        let cur = self.current();
        match cur {
            Some(Token::Plus) => {
                self.advance();
                Ok(())
            },
            _ => Err(String::from_str("Expected PLUS, found ").concat(found_name(&cur))),
        }
    }

    fn eat_minus(&mut self) -> (r: Result<(), String>)
        requires
            old(self).wf(),
        ensures
            final(self).wf(),
            final(self).tokens == old(self).tokens,
            r is Ok <==> spec_current(old(self).toks(), old(self).pos as int) == Some(
                TokenModel::Minus,
            ),
            r is Ok ==> final(self).pos == old(self).pos + 1,
            (match r {
                Ok(_) => true,
                Err(m) => final(self).pos == old(self).pos && m@ == "Expected MINUS, found "@
                    + spec_found_name(spec_current(old(self).toks(), old(self).pos as int)),
            }),
    {
        let cur = self.current();
        match cur {
            Some(Token::Minus) => {
                self.advance();
                Ok(())
            },
            _ => Err(String::from_str("Expected MINUS, found ").concat(found_name(&cur))),
        }
    }

    fn eat_integer(&mut self) -> (r: Result<i32, String>)
        requires
            old(self).wf(),
        ensures
            final(self).wf(),
            final(self).tokens == old(self).tokens,
            r is Ok <==> spec_current(old(self).toks(), old(self).pos as int) matches Some(
                TokenModel::Integer(_),
            ),
            (match r {
                Ok(n) => final(self).pos == old(self).pos + 1 && spec_current(
                    old(self).toks(),
                    old(self).pos as int,
                ) == Some(TokenModel::Integer(n as int)),
                Err(m) => final(self).pos == old(self).pos && m@ == expected_integer_msg(
                    old(self).toks(),
                    old(self).pos as int,
                ),
            }),
    {
        let cur = self.current();
        match cur {
            Some(Token::Integer(n)) => {
                self.advance();
                Ok(n)
            },
            _ => Err(String::from_str("Expected INTEGER, found ").concat(found_name(&cur))),
        }
    }

    fn expr(&mut self) -> (r: Result<i32, String>)
        requires
            old(self).wf(),
            old(self).pos == 0,
            spec_interpret_fits(old(self).toks()),
        ensures
            final(self).wf(),
            final(self).tokens == old(self).tokens,
            r is Ok ==> final(self).pos == old(self).pos + 3,
            r is Err ==> old(self).pos <= final(self).pos <= old(self).pos + 2,
            (match r {
                Ok(n) => spec_interpret(old(self).toks()) == Ok::<int, Seq<char>>(n as int),
                Err(m) => spec_interpret(old(self).toks()) matches Err(em) && m@ == em,
            }),
    {
        let left = self.eat_integer()?;

        let cur = self.current();
        let plus: bool;
        match cur {
            Some(Token::Plus) => {
                self.eat_plus()?;
                plus = true;
            },
            Some(Token::Minus) => {
                self.eat_minus()?;
                plus = false;
            },
            _ => {
                return Err(
                    String::from_str("Expected PLUS | MINUS, encountered: ").concat(
                        found_name(&cur),
                    ),
                );
            },
        }

        let right = self.eat_integer()?;

        if plus {
            Ok(left + right)
        } else {
            Ok(left - right)
        }
    }
}

/// Evaluates a token sequence against the grammar
/// `expr := Integer (Plus | Minus) Integer`.
///
/// Returns exactly what [`spec_interpret`] gives: the computed integer, or
/// the error message of the first failed expectation. The caller keeps the
/// result within `i32` (`spec_interpret_fits`); every failing input meets
/// that bound vacuously.
pub fn interpret(tokens: Vec<Token>) -> (r: Result<i32, String>)
    requires
        spec_interpret_fits(models(tokens@)),
    ensures
        (match r {
            Ok(n) => spec_interpret(models(tokens@)) == Ok::<int, Seq<char>>(n as int),
            Err(m) => spec_interpret(models(tokens@)) matches Err(em) && m@ == em,
        }),
{
    let mut interpreter = Interpreter::new(tokens);

    interpreter.expr()
}

} // verus!
