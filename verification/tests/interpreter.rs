use lexeval::interpret;
use lexeval::Token;

#[test]
fn adds_two_integers() {
    let r = interpret(vec![Token::Integer(2), Token::Plus, Token::Integer(2)]);
    assert_eq!(r, Ok(4));
}

#[test]
fn subtracts_two_integers() {
    let r = interpret(vec![Token::Integer(5), Token::Minus, Token::Integer(3)]);
    assert_eq!(r, Ok(2));
}

#[test]
fn multiplication_is_not_supported() {
    let r = interpret(vec![Token::Integer(2), Token::Multiply, Token::Integer(2)]);
    assert_eq!(
        r,
        Err(String::from("Expected PLUS | MINUS, encountered: Multiply"))
    );
}

#[test]
fn missing_operator_reports_expected_kinds() {
    let r = interpret(vec![Token::Integer(2)]);
    assert_eq!(
        r,
        Err(String::from("Expected PLUS | MINUS, encountered: none"))
    );
}

#[test]
fn empty_sequence_reports_found_none() {
    let r = interpret(vec![]);
    assert_eq!(r, Err(String::from("Expected INTEGER, found none")));
}

#[test]
fn missing_right_operand_reports_expected_integer() {
    let r = interpret(vec![Token::Integer(2), Token::Plus]);
    assert_eq!(r, Err(String::from("Expected INTEGER, found none")));
    let r = interpret(vec![
        Token::Integer(2),
        Token::Plus,
        Token::Identifier(String::from("x")),
    ]);
    assert_eq!(r, Err(String::from("Expected INTEGER, found Identifier")));
}

#[test]
fn leading_non_integer_reports_expected_integer() {
    let r = interpret(vec![Token::LParen]);
    assert_eq!(r, Err(String::from("Expected INTEGER, found LParen")));
    let r = interpret(vec![Token::StringLiteral(String::from("hi"))]);
    assert_eq!(r, Err(String::from("Expected INTEGER, found StringLiteral")));
}

#[test]
fn trailing_tokens_are_ignored() {
    let r = interpret(vec![
        Token::Integer(2),
        Token::Plus,
        Token::Integer(3),
        Token::Integer(9),
        Token::RParen,
    ]);
    assert_eq!(r, Ok(5));
}

#[test]
fn negative_results_are_allowed() {
    let r = interpret(vec![Token::Integer(3), Token::Minus, Token::Integer(10)]);
    assert_eq!(r, Ok(-7));
}

#[test]
fn tokenize_then_interpret() {
    let tokens = lexeval::tokenize("2 + 3").unwrap();
    assert_eq!(interpret(tokens), Ok(5));
}
