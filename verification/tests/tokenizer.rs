use lexeval::tokenize;
use lexeval::Token;

#[test]
fn tokenizer_generates_correct_tokens() {
    let input = "(add 2 (subtract 44b ('hello world') 2))";
    let tokens = tokenize(&input).unwrap();

    assert_eq!(
        vec![
            Token::LParen,
            Token::Identifier(String::from("add")),
            Token::Integer(2),
            Token::LParen,
            Token::Identifier(String::from("subtract")),
            Token::Integer(44),
            Token::Identifier(String::from("b")),
            Token::LParen,
            Token::StringLiteral(String::from("hello world")),
            Token::RParen,
            Token::Integer(2),
            Token::RParen,
            Token::RParen
        ],
        tokens
    );
}

#[test]
fn digit_run_in_range_gives_one_integer() {
    assert_eq!(tokenize("0").unwrap(), vec![Token::Integer(0)]);
    assert_eq!(tokenize("7").unwrap(), vec![Token::Integer(7)]);
    assert_eq!(tokenize("2147483647").unwrap(), vec![Token::Integer(2147483647)]);
    assert_eq!(tokenize("00123").unwrap(), vec![Token::Integer(123)]);
}

#[test]
fn digit_run_out_of_range_fails() {
    let r = tokenize("2147483648");
    assert_eq!(r, Err(String::from("Failed to parse number")));
    let r = tokenize("99999999999999999999999999");
    assert_eq!(r, Err(String::from("Failed to parse number")));
    let r = tokenize("1 + 2147483648");
    assert_eq!(r, Err(String::from("Failed to parse number")));
}

#[test]
fn spaces_only_gives_empty_sequence() {
    assert_eq!(tokenize("     ").unwrap(), Vec::<Token>::new());
    assert_eq!(tokenize(" ").unwrap(), Vec::<Token>::new());
    assert_eq!(tokenize("").unwrap(), Vec::<Token>::new());
}

#[test]
fn punctuation_maps_to_structural_tokens() {
    assert_eq!(
        tokenize("()+-*/").unwrap(),
        vec![
            Token::LParen,
            Token::RParen,
            Token::Plus,
            Token::Minus,
            Token::Multiply,
            Token::Divide
        ]
    );
}

#[test]
fn unknown_characters_are_skipped() {
    assert_eq!(tokenize("A?z").unwrap(), vec![Token::Identifier(String::from("z"))]);
    assert_eq!(tokenize("X Y Z").unwrap(), Vec::<Token>::new());
}

#[test]
fn identifier_run_takes_letters_and_digits() {
    assert_eq!(
        tokenize("ab1c D").unwrap(),
        vec![Token::Identifier(String::from("ab1c"))]
    );
    assert_eq!(
        tokenize("12ab").unwrap(),
        vec![Token::Integer(12), Token::Identifier(String::from("ab"))]
    );
}

#[test]
fn unterminated_literal_closes_at_end_of_input() {
    assert_eq!(
        tokenize("'abc").unwrap(),
        vec![Token::StringLiteral(String::from("abc"))]
    );
    assert_eq!(
        tokenize("'").unwrap(),
        vec![Token::StringLiteral(String::from(""))]
    );
}

#[test]
fn string_literal_keeps_contents_verbatim() {
    assert_eq!(
        tokenize("'a (b) 9 +'").unwrap(),
        vec![Token::StringLiteral(String::from("a (b) 9 +"))]
    );
    assert_eq!(
        tokenize("'' 1").unwrap(),
        vec![Token::StringLiteral(String::from("")), Token::Integer(1)]
    );
}

#[test]
fn tokenizing_twice_yields_identical_sequences() {
    let input = "(add 2 (subtract 44b ('hello world') 2))";
    let first = tokenize(input);
    let second = tokenize(input);
    assert_eq!(first, second);
}
