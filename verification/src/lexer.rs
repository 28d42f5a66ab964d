//! The tokenizer: a single left-to-right pass over the input characters
//! with one character of lookahead, specified by a recursive function over
//! the input's character sequence.

use vstd::prelude::*;
use vstd::string::StrSliceExecFns;
use vstd::string::StringExecFns;

use crate::token::{lemma_models_push, models, Token, TokenModel};

verus! {

/// A decimal digit.
pub open spec fn spec_is_digit(c: char) -> bool {
    '0' as int <= c as int && c as int <= '9' as int
}

/// A lowercase letter, the only kind that may start an identifier.
pub open spec fn spec_is_lower(c: char) -> bool {
    'a' as int <= c as int && c as int <= 'z' as int
}

/// A character that may continue an identifier run.
pub open spec fn spec_is_ident_char(c: char) -> bool {
    spec_is_lower(c) || spec_is_digit(c)
}

/// The numeric value of a digit character.
pub open spec fn digit_val(c: char) -> int {
    c as int - '0' as int
}

fn is_digit(c: char) -> (b: bool)
    ensures
        b == spec_is_digit(c),
{
    c as u32 >= '0' as u32 && c as u32 <= '9' as u32
}

fn is_lower(c: char) -> (b: bool)
    ensures
        b == spec_is_lower(c),
{
    c as u32 >= 'a' as u32 && c as u32 <= 'z' as u32
}

fn is_ident_char(c: char) -> (b: bool)
    ensures
        b == spec_is_ident_char(c),
{
    is_lower(c) || is_digit(c)
}

/// The first position at or after `i` that does not hold a digit.
pub open spec fn digit_run_end(s: Seq<char>, i: int) -> int
    decreases s.len() - i,
{
    if i < s.len() && spec_is_digit(s[i]) {
        digit_run_end(s, i + 1)
    } else {
        i
    }
}

/// The first position at or after `i` that does not hold an identifier
/// character.
pub open spec fn ident_run_end(s: Seq<char>, i: int) -> int
    decreases s.len() - i,
{
    if i < s.len() && spec_is_ident_char(s[i]) {
        ident_run_end(s, i + 1)
    } else {
        i
    }
}

/// The position of the first single quote at or after `i`, or the input's
/// end if none follows.
pub open spec fn quote_end(s: Seq<char>, i: int) -> int
    decreases s.len() - i,
{
    if i < s.len() {
        if s[i] == '\'' {
            i
        } else {
            quote_end(s, i + 1)
        }
    } else {
        i
    }
}

pub proof fn lemma_digit_run_end_bounds(s: Seq<char>, i: int)
    requires
        i <= s.len(),
    ensures
        i <= digit_run_end(s, i) <= s.len(),
    decreases s.len() - i,
{
    if i < s.len() && spec_is_digit(s[i]) {
        lemma_digit_run_end_bounds(s, i + 1);
    }
}

pub proof fn lemma_ident_run_end_bounds(s: Seq<char>, i: int)
    requires
        i <= s.len(),
    ensures
        i <= ident_run_end(s, i) <= s.len(),
    decreases s.len() - i,
{
    if i < s.len() && spec_is_ident_char(s[i]) {
        lemma_ident_run_end_bounds(s, i + 1);
    }
}

pub proof fn lemma_quote_end_bounds(s: Seq<char>, i: int)
    requires
        i <= s.len(),
    ensures
        i <= quote_end(s, i) <= s.len(),
    decreases s.len() - i,
{
    if i < s.len() && s[i] != '\'' {
        lemma_quote_end_bounds(s, i + 1);
    }
}

/// The value of a digit run read as a decimal number.
pub open spec fn digits_val(s: Seq<char>) -> int
    decreases s.len(),
{
    if s.len() == 0 {
        0
    } else {
        digits_val(s.drop_last()) * 10 + digit_val(s.last())
    }
}

pub proof fn lemma_digits_val_push(s: Seq<char>, c: char)
    ensures
        digits_val(s.push(c)) == digits_val(s) * 10 + digit_val(c),
{
    assert(s.push(c).drop_last() =~= s);
}

pub proof fn lemma_digits_val_nonneg(s: Seq<char>)
    requires
        forall|k: int| 0 <= k < s.len() ==> spec_is_digit(s[k]),
    ensures
        digits_val(s) >= 0,
    decreases s.len(),
{
    if s.len() > 0 {
        lemma_digits_val_nonneg(s.drop_last());
    }
}

/// Prepends one token to a tokenization outcome; a failure stays a failure.
pub open spec fn opt_cons(t: TokenModel, r: Option<Seq<TokenModel>>) -> Option<Seq<TokenModel>> {
    match r {
        Some(ts) => Some(seq![t] + ts),
        None => None,
    }
}

/// Prepends an already-produced prefix to a tokenization outcome.
pub open spec fn opt_app(p: Seq<TokenModel>, r: Option<Seq<TokenModel>>) -> Option<
    Seq<TokenModel>,
> {
    match r {
        Some(ts) => Some(p + ts),
        None => None,
    }
}

pub proof fn lemma_opt_app_cons(p: Seq<TokenModel>, t: TokenModel, r: Option<Seq<TokenModel>>)
    ensures
        opt_app(p, opt_cons(t, r)) == opt_app(p.push(t), r),
{
    match r {
        Some(ts) => {
            assert(p + (seq![t] + ts) =~= p.push(t) + ts);
        },
        None => {},
    }
}

/// The tokens produced from position `i` onward, or `None` when a digit run
/// from `i` onward does not fit in `i32`.
///
/// The branches mirror the lexer's classification rules, tried in priority
/// order: punctuation, space, digit run, identifier run, quoted literal,
/// and lastly any other character, which is skipped.
pub open spec fn spec_tokenize_from(s: Seq<char>, i: int) -> Option<Seq<TokenModel>>
    decreases s.len() - i,
{
    if i >= s.len() {
        Some(Seq::empty())
    } else {
        let c = s[i];
        if c == '(' {
            opt_cons(TokenModel::LParen, spec_tokenize_from(s, i + 1))
        } else if c == ')' {
            opt_cons(TokenModel::RParen, spec_tokenize_from(s, i + 1))
        } else if c == '+' {
            opt_cons(TokenModel::Plus, spec_tokenize_from(s, i + 1))
        } else if c == '-' {
            opt_cons(TokenModel::Minus, spec_tokenize_from(s, i + 1))
        } else if c == '*' {
            opt_cons(TokenModel::Multiply, spec_tokenize_from(s, i + 1))
        } else if c == '/' {
            opt_cons(TokenModel::Divide, spec_tokenize_from(s, i + 1))
        } else if c == ' ' {
            spec_tokenize_from(s, i + 1)
        } else if spec_is_digit(c) {
            let j = digit_run_end(s, i);
            let v = digits_val(s.subrange(i, j));
            proof {
                lemma_digit_run_end_bounds(s, i + 1);
            }
            if v <= i32::MAX {
                opt_cons(TokenModel::Integer(v), spec_tokenize_from(s, j))
            } else {
                None
            }
        } else if spec_is_lower(c) {
            let j = ident_run_end(s, i);
            proof {
                lemma_ident_run_end_bounds(s, i + 1);
            }
            opt_cons(TokenModel::Identifier(s.subrange(i, j)), spec_tokenize_from(s, j))
        } else if c == '\'' {
            let q = quote_end(s, i + 1);
            let next = if q < s.len() {
                q + 1
            } else {
                q
            };
            proof {
                lemma_quote_end_bounds(s, i + 1);
            }
            opt_cons(TokenModel::StringLiteral(s.subrange(i + 1, q)), spec_tokenize_from(s, next))
        } else {
            spec_tokenize_from(s, i + 1)
        }
    }
}

/// The tokenization of a whole input, or `None` on a numeric overflow.
pub open spec fn spec_tokenize(s: Seq<char>) -> Option<Seq<TokenModel>> {
    spec_tokenize_from(s, 0)
}

proof fn lemma_digit_run_end_all_digits(s: Seq<char>, i: int)
    requires
        0 <= i <= s.len(),
        forall|k: int| i <= k < s.len() ==> spec_is_digit(s[k]),
    ensures
        digit_run_end(s, i) == s.len(),
    decreases s.len() - i,
{
    if i < s.len() {
        lemma_digit_run_end_all_digits(s, i + 1);
    }
}

/// Law: a run of decimal digits whose value fits in `i32` tokenizes to
/// exactly one `Integer` token holding that value.
pub proof fn lemma_digit_run_tokenizes(s: Seq<char>)
    requires
        s.len() > 0,
        forall|k: int| 0 <= k < s.len() ==> spec_is_digit(s[k]),
        digits_val(s) <= i32::MAX,
    ensures
        spec_tokenize(s) == Some(seq![TokenModel::Integer(digits_val(s))]),
{
    lemma_digit_run_end_all_digits(s, 0);
    assert(s.subrange(0, s.len() as int) =~= s);
    assert(spec_tokenize_from(s, s.len() as int) == Some(Seq::<TokenModel>::empty()));
    assert(seq![TokenModel::Integer(digits_val(s))] + Seq::empty() =~= seq![
        TokenModel::Integer(digits_val(s)),
    ]);
}

/// Law: a run of decimal digits whose value exceeds `i32` makes the whole
/// tokenization fail; no token sequence is produced.
pub proof fn lemma_digit_run_overflows(s: Seq<char>)
    requires
        s.len() > 0,
        forall|k: int| 0 <= k < s.len() ==> spec_is_digit(s[k]),
        digits_val(s) > i32::MAX,
    ensures
        spec_tokenize(s) is None,
{
    lemma_digit_run_end_all_digits(s, 0);
    assert(s.subrange(0, s.len() as int) =~= s);
}

proof fn lemma_spaces_from(s: Seq<char>, i: int)
    requires
        0 <= i <= s.len(),
        forall|k: int| i <= k < s.len() ==> s[k] == ' ',
    ensures
        spec_tokenize_from(s, i) == Some(Seq::<TokenModel>::empty()),
    decreases s.len() - i,
{
    if i < s.len() {
        lemma_spaces_from(s, i + 1);
    }
}

/// Law: an input consisting only of spaces tokenizes to the empty sequence.
pub proof fn lemma_spaces_tokenize_empty(s: Seq<char>)
    requires
        forall|k: int| 0 <= k < s.len() ==> s[k] == ' ',
    ensures
        spec_tokenize(s) == Some(Seq::<TokenModel>::empty()),
{
    lemma_spaces_from(s, 0);
}

/// Law: tokenization is a pure function of the input text, so two calls on
/// the same input yield identical outcomes.
pub proof fn lemma_tokenize_deterministic(
    s: Seq<char>,
    r1: Option<Seq<TokenModel>>,
    r2: Option<Seq<TokenModel>>,
)
    requires
        r1 == spec_tokenize(s),
        r2 == spec_tokenize(s),
    ensures
        r1 == r2,
{
}

/// Converts a text string into its token sequence.
///
/// Succeeds with exactly the tokens that [`spec_tokenize`] gives, and fails
/// exactly when a digit run's value does not fit in `i32`, with the lexer's
/// single error message.
pub fn tokenize(input: &str) -> (r: Result<Vec<Token>, String>)
    ensures
        match r {
            Ok(toks) => spec_tokenize(input@) == Some(models(toks@)),
            Err(m) => spec_tokenize(input@) is None && m@ == "Failed to parse number"@,
        },
{
    let ghost s = input@;
    let n = input.unicode_len();
    let mut toks: Vec<Token> = Vec::new();
    let mut i: usize = 0;
    proof {
        assert(opt_app(models(toks@), spec_tokenize_from(s, 0)) == spec_tokenize(s)) by {
            match spec_tokenize_from(s, 0) {
                Some(ts) => {
                    assert(models(toks@) + ts =~= ts);
                },
                None => {},
            }
        }
    }
    while i < n
        invariant
            n == s.len(),
            s == input@,
            i <= n,
            opt_app(models(toks@), spec_tokenize_from(s, i as int)) == spec_tokenize(s),
        decreases n - i,
    {
        let c = input.get_char(i);
        if c == '(' {
            proof {
                lemma_opt_app_cons(models(toks@), TokenModel::LParen, spec_tokenize_from(s, i + 1));
                lemma_models_push(toks@, Token::LParen);
            }
            toks.push(Token::LParen);
            i = i + 1;
        } else if c == ')' {
            proof {
                lemma_opt_app_cons(models(toks@), TokenModel::RParen, spec_tokenize_from(s, i + 1));
                lemma_models_push(toks@, Token::RParen);
            }
            toks.push(Token::RParen);
            i = i + 1;
        } else if c == '+' {
            proof {
                lemma_opt_app_cons(models(toks@), TokenModel::Plus, spec_tokenize_from(s, i + 1));
                lemma_models_push(toks@, Token::Plus);
            }
            toks.push(Token::Plus);
            i = i + 1;
        } else if c == '-' {
            proof {
                lemma_opt_app_cons(models(toks@), TokenModel::Minus, spec_tokenize_from(s, i + 1));
                lemma_models_push(toks@, Token::Minus);
            }
            toks.push(Token::Minus);
            i = i + 1;
        } else if c == '*' {
            proof {
                lemma_opt_app_cons(
                    models(toks@),
                    TokenModel::Multiply,
                    spec_tokenize_from(s, i + 1),
                );
                lemma_models_push(toks@, Token::Multiply);
            }
            toks.push(Token::Multiply);
            i = i + 1;
        } else if c == '/' {
            proof {
                lemma_opt_app_cons(models(toks@), TokenModel::Divide, spec_tokenize_from(s, i + 1));
                lemma_models_push(toks@, Token::Divide);
            }
            toks.push(Token::Divide);
            i = i + 1;
        } else if c == ' ' {
            i = i + 1;
        } else if is_digit(c) {
            let mut j: usize = i + 1;
            let mut value: u64 = (c as u32 - '0' as u32) as u64;
            proof {
                assert(s.subrange(i as int, j as int) =~= Seq::empty().push(s[i as int]));
                lemma_digits_val_push(Seq::empty(), s[i as int]);
            }
            while j < n && is_digit(input.get_char(j))
                invariant
                    n == s.len(),
                    s == input@,
                    i < j <= n,
                    spec_is_digit(s[i as int]),
                    forall|k: int| i <= k < j ==> spec_is_digit(s[k]),
                    digit_run_end(s, i as int) == digit_run_end(s, j as int),
                    digits_val(s.subrange(i as int, j as int)) <= i32::MAX ==> value == digits_val(
                        s.subrange(i as int, j as int),
                    ),
                    digits_val(s.subrange(i as int, j as int)) > i32::MAX ==> value > i32::MAX,
                decreases n - j,
            {
                let d: u64 = (input.get_char(j) as u32 - '0' as u32) as u64;
                proof {
                    assert(s.subrange(i as int, j + 1) =~= s.subrange(i as int, j as int).push(
                        s[j as int],
                    ));
                    lemma_digits_val_push(s.subrange(i as int, j as int), s[j as int]);
                    lemma_digits_val_nonneg(s.subrange(i as int, j as int));
                }
                if value <= 2147483647 {
                    value = value * 10 + d;
                }
                j = j + 1;
            }
            let ghost run = s.subrange(i as int, j as int);
            proof {
                lemma_digits_val_nonneg(run);
            }
            if value <= 2147483647 {
                proof {
                    lemma_opt_app_cons(
                        models(toks@),
                        TokenModel::Integer(digits_val(run)),
                        spec_tokenize_from(s, j as int),
                    );
                    lemma_models_push(toks@, Token::Integer(value as i32));
                }
                toks.push(Token::Integer(value as i32));
                i = j;
            } else {
                return Err(String::from_str("Failed to parse number"));
            }
        } else if is_lower(c) {
            let mut j: usize = i + 1;
            while j < n && is_ident_char(input.get_char(j))
                invariant
                    n == s.len(),
                    s == input@,
                    i < j <= n,
                    ident_run_end(s, i as int) == ident_run_end(s, j as int),
                decreases n - j,
            {
                j = j + 1;
            }
            let text = input.substring_char(i, j);
            let tok = Token::Identifier(String::from_str(text));
            proof {
                lemma_opt_app_cons(
                    models(toks@),
                    TokenModel::Identifier(s.subrange(i as int, j as int)),
                    spec_tokenize_from(s, j as int),
                );
                lemma_models_push(toks@, tok);
            }
            toks.push(tok);
            i = j;
        } else if c == '\'' {
            let mut j: usize = i + 1;
            while j < n && input.get_char(j) != '\''
                invariant
                    n == s.len(),
                    s == input@,
                    i + 1 <= j <= n,
                    quote_end(s, i + 1) == quote_end(s, j as int),
                decreases n - j,
            {
                j = j + 1;
            }
            let text = input.substring_char(i + 1, j);
            let next: usize = if j < n {
                j + 1
            } else {
                j
            };
            let tok = Token::StringLiteral(String::from_str(text));
            proof {
                lemma_opt_app_cons(
                    models(toks@),
                    TokenModel::StringLiteral(s.subrange(i + 1, j as int)),
                    spec_tokenize_from(s, next as int),
                );
                lemma_models_push(toks@, tok);
            }
            toks.push(tok);
            i = next;
        } else {
            i = i + 1;
        }
    }
    proof {
        match spec_tokenize_from(s, n as int) {
            Some(ts) => {
                assert(models(toks@) + ts =~= models(toks@));
            },
            None => {},
        }
    }
    Ok(toks)
}

} // verus!
