use parsemath::{OperPrec, Token, Tokenizer};

fn value(t: Token) -> f64 {
    match t {
        Token::Num(s) => s.parse::<f64>().unwrap(),
        other => panic!("not a number: {:?}", other),
    }
}

#[test]
fn test_positive_integer() {
    let mut tokenizer = Tokenizer::new("42");
    assert_eq!(value(tokenizer.next().unwrap()), 42.0)
}

#[test]
fn test_decimal_integer() {
    let mut tokenizer = Tokenizer::new("42.1");
    assert_eq!(value(tokenizer.next().unwrap()), 42.1)
}

#[test]
fn test_operators() {
    let test_set = vec![
        ("+", Token::Add),
        ("-", Token::Subtract),
        ("*", Token::Multiply),
        ("/", Token::Divide),
        ("^", Token::Caret),
    ];

    for (str, token) in test_set.into_iter() {
        let mut tokenizer = Tokenizer::new(str);
        assert_eq!(tokenizer.next().unwrap(), token)
    }
}

#[test]
fn tokenizer_test_parentheses() {
    let test_set = vec![("(", Token::LeftParen), (")", Token::RightParen)];

    for (str, token) in test_set.into_iter() {
        let mut tokenizer = Tokenizer::new(str);
        assert_eq!(tokenizer.next().unwrap(), token)
    }
}

#[test]
fn test_eof() {
    let mut tokenizer = Tokenizer::new("");
    assert_eq!(tokenizer.next().unwrap(), Token::EOF)
}

#[test]
fn test_invalid_char() {
    let mut tokenizer = Tokenizer::new("a");
    assert_eq!(tokenizer.next(), None)
}

#[test]
fn whole_sequence() {
    let mut tokenizer = Tokenizer::new("3.5*(10-2)^2");
    let expected = vec![
        Token::Num("3.5".to_string()),
        Token::Multiply,
        Token::LeftParen,
        Token::Num("10".to_string()),
        Token::Subtract,
        Token::Num("2".to_string()),
        Token::RightParen,
        Token::Caret,
        Token::Num("2".to_string()),
        Token::EOF,
    ];
    for token in expected {
        assert_eq!(tokenizer.next(), Some(token));
    }
    assert_eq!(tokenizer.next(), None);
}

#[test]
fn exhausted_after_end_of_input() {
    let mut tokenizer = Tokenizer::new("7");
    assert_eq!(tokenizer.next(), Some(Token::Num("7".to_string())));
    assert_eq!(tokenizer.next(), Some(Token::EOF));
    assert_eq!(tokenizer.next(), None);
    assert_eq!(tokenizer.next(), None);
}

#[test]
fn exhausted_after_invalid_character() {
    let mut tokenizer = Tokenizer::new("1x+2");
    assert_eq!(tokenizer.next(), Some(Token::Num("1".to_string())));
    assert_eq!(tokenizer.next(), None);
    assert_eq!(tokenizer.next(), None);
}

#[test]
fn literal_takes_every_dot() {
    let mut tokenizer = Tokenizer::new("1.2.3+");
    assert_eq!(tokenizer.next(), Some(Token::Num("1.2.3".to_string())));
    assert_eq!(tokenizer.next(), Some(Token::Add));
}

#[test]
fn a_dot_cannot_start_a_literal() {
    let mut tokenizer = Tokenizer::new(".5");
    assert_eq!(tokenizer.next(), None);
}

#[test]
fn operator_precedence_levels() {
    assert_eq!(Token::Add.get_oper_prec(), OperPrec::AddSub);
    assert_eq!(Token::Subtract.get_oper_prec(), OperPrec::AddSub);
    assert_eq!(Token::Multiply.get_oper_prec(), OperPrec::MulDiv);
    assert_eq!(Token::Divide.get_oper_prec(), OperPrec::MulDiv);
    assert_eq!(Token::Caret.get_oper_prec(), OperPrec::Power);
    assert_eq!(Token::LeftParen.get_oper_prec(), OperPrec::DefaultZero);
    assert_eq!(Token::EOF.get_oper_prec(), OperPrec::DefaultZero);
    assert!(OperPrec::DefaultZero.rank() < OperPrec::AddSub.rank());
    assert!(OperPrec::AddSub.rank() < OperPrec::MulDiv.rank());
    assert!(OperPrec::MulDiv.rank() < OperPrec::Power.rank());
    assert!(OperPrec::Power.rank() < OperPrec::Negative.rank());
}

#[test]
fn token_descriptions() {
    assert_eq!(Token::Num("4.5".to_string()).describe(), "Num(4.5)");
    assert_eq!(Token::Caret.describe(), "Caret");
    assert_eq!(Token::EOF.describe(), "EOF");
}
