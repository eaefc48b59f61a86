use parsemath::{Node, ParseError, Parser};

/// The tree with each literal read as a float, so that expected trees can
/// be written with numbers.
#[derive(Debug, PartialEq)]
enum Tree {
    Add(Box<Tree>, Box<Tree>),
    Subtract(Box<Tree>, Box<Tree>),
    Multiply(Box<Tree>, Box<Tree>),
    Divide(Box<Tree>, Box<Tree>),
    Caret(Box<Tree>, Box<Tree>),
    Negative(Box<Tree>),
    Number(f64),
}

fn tree(n: &Node) -> Tree {
    let b = |m: &Node| Box::new(tree(m));
    match n {
        Node::Add(l, r) => Tree::Add(b(l), b(r)),
        Node::Subtract(l, r) => Tree::Subtract(b(l), b(r)),
        Node::Multiply(l, r) => Tree::Multiply(b(l), b(r)),
        Node::Divide(l, r) => Tree::Divide(b(l), b(r)),
        Node::Caret(l, r) => Tree::Caret(b(l), b(r)),
        Node::Negative(e) => Tree::Negative(b(e)),
        Node::Number(s) => Tree::Number(s.parse::<f64>().unwrap()),
    }
}

fn parsed(text: &str) -> Tree {
    let mut parser = Parser::new(text).unwrap();
    tree(&parser.parse().unwrap())
}

fn num(x: f64) -> Box<Tree> {
    Box::new(Tree::Number(x))
}

#[test]
fn test_addition() {
    let expected = Tree::Add(num(1.0), num(2.0));
    assert_eq!(parsed("1+2"), expected)
}

#[test]
fn test_subtraction() {
    let expected = Tree::Subtract(num(1.0), num(2.0));
    assert_eq!(parsed("1-2"), expected)
}

#[test]
fn test_multiplication() {
    let expected = Tree::Multiply(num(1.0), num(2.0));
    assert_eq!(parsed("1*2"), expected)
}

#[test]
fn test_division() {
    let expected = Tree::Divide(num(1.0), num(2.0));
    assert_eq!(parsed("1/2"), expected)
}

#[test]
fn test_power() {
    let expected = Tree::Caret(num(1.0), num(2.0));
    assert_eq!(parsed("1^2"), expected)
}

#[test]
fn test_negative() {
    let expected = Tree::Negative(num(1.0));
    assert_eq!(parsed("-1"), expected)
}

#[test]
fn test_several_additions() {
    let expected = Tree::Add(Box::new(Tree::Add(num(1.0), num(2.0))), num(3.0));
    assert_eq!(parsed("1+2+3"), expected)
}

#[test]
fn test_addition_and_multiplication() {
    let expected = Tree::Add(num(1.0), Box::new(Tree::Multiply(num(2.0), num(3.0))));
    assert_eq!(parsed("1+2*3"), expected)
}

#[test]
fn parser_test_parentheses() {
    let expected = Tree::Multiply(num(1.0), Box::new(Tree::Add(num(2.0), num(3.0))));
    assert_eq!(parsed("1*(2+3)"), expected);

    let expected2 = Tree::Multiply(Box::new(Tree::Add(num(1.0), num(2.0))), num(3.0));
    assert_eq!(parsed("(1+2)*3"), expected2);
}

#[test]
fn test_power_with_negative() {
    let expected = Tree::Caret(Box::new(Tree::Negative(num(1.0))), num(2.0));
    assert_eq!(parsed("-1^2"), expected)
}

#[test]
fn test_multiplication_of_parentheses() {
    let expected = Tree::Multiply(
        Box::new(Tree::Add(num(1.0), num(2.0))),
        Box::new(Tree::Add(num(3.0), num(4.0))),
    );
    assert_eq!(parsed("(1+2)(3+4)"), expected)
}

#[test]
fn single_operator_with_decimal_literals() {
    let expected = Tree::Divide(num(12.5), num(0.25));
    assert_eq!(parsed("12.5/0.25"), expected);
    let expected = Tree::Subtract(num(100.0), num(7.0));
    assert_eq!(parsed("100-7"), expected);
}

#[test]
fn literal_text_is_kept() {
    let mut parser = Parser::new("007.50").unwrap();
    assert_eq!(parser.parse().unwrap(), Node::Number("007.50".to_string()));
    let mut parser = Parser::new("1.2.3").unwrap();
    assert_eq!(parser.parse().unwrap(), Node::Number("1.2.3".to_string()));
}

#[test]
fn subtraction_groups_from_the_left() {
    let expected = Tree::Subtract(Box::new(Tree::Subtract(num(8.0), num(4.0))), num(2.0));
    assert_eq!(parsed("8-4-2"), expected);
}

#[test]
fn division_binds_before_subtraction() {
    let expected = Tree::Subtract(Box::new(Tree::Divide(num(6.0), num(3.0))), num(1.0));
    assert_eq!(parsed("6/3-1"), expected);
}

#[test]
fn power_binds_before_multiplication() {
    let expected = Tree::Multiply(num(2.0), Box::new(Tree::Caret(num(3.0), num(2.0))));
    assert_eq!(parsed("2*3^2"), expected);
}

#[test]
fn chained_powers_group_from_the_right() {
    let expected = Tree::Caret(num(2.0), Box::new(Tree::Caret(num(3.0), num(4.0))));
    assert_eq!(parsed("2^3^4"), expected);
}

#[test]
fn power_then_multiplication() {
    let expected = Tree::Multiply(Box::new(Tree::Caret(num(2.0), num(3.0))), num(4.0));
    assert_eq!(parsed("2^3*4"), expected);
    let expected = Tree::Caret(num(2.0), Box::new(Tree::Negative(num(3.0))));
    assert_eq!(parsed("2^-3"), expected);
}

#[test]
fn double_negation() {
    let expected = Tree::Negative(Box::new(Tree::Negative(num(5.0))));
    assert_eq!(parsed("--5"), expected);
}

#[test]
fn negation_of_group() {
    let expected = Tree::Negative(Box::new(Tree::Add(num(1.0), num(2.0))));
    assert_eq!(parsed("-(1+2)"), expected);
}

#[test]
fn three_adjacent_groups() {
    let expected = Tree::Multiply(
        num(1.0),
        Box::new(Tree::Multiply(num(2.0), num(3.0))),
    );
    assert_eq!(parsed("(1)(2)(3)"), expected);
}

#[test]
fn trailing_tokens_are_left_unread() {
    assert_eq!(parsed("1)"), Tree::Number(1.0));
}

#[test]
fn missing_closing_parenthesis() {
    let mut parser = Parser::new("(1+2").unwrap();
    match parser.parse() {
        Err(ParseError::InvalidOperator(m)) => assert_eq!(m, "Expected RightParen, got EOF"),
        other => panic!("unexpected {:?}", other),
    }
}

#[test]
fn wrong_closing_token() {
    let mut parser = Parser::new("(1(").unwrap();
    match parser.parse() {
        Err(ParseError::InvalidOperator(m)) => assert_eq!(m, "Expected RightParen, got LeftParen"),
        other => panic!("unexpected {:?}", other),
    }
}

#[test]
fn leading_operator_cannot_be_parsed() {
    for text in ["*2", "+2", "/2", "^2", ")"] {
        let mut parser = Parser::new(text).unwrap();
        assert!(matches!(parser.parse(), Err(ParseError::UnableToParse(_))));
    }
}

#[test]
fn empty_text_cannot_be_parsed() {
    let mut parser = Parser::new("").unwrap();
    assert!(matches!(parser.parse(), Err(ParseError::UnableToParse(_))));
}

#[test]
fn missing_right_operand() {
    let mut parser = Parser::new("1+").unwrap();
    assert!(matches!(parser.parse(), Err(ParseError::UnableToParse(_))));
}

#[test]
fn invalid_first_character() {
    match Parser::new("a+1") {
        Err(ParseError::InvalidOperator(m)) => assert_eq!(m, "Invalid character"),
        Err(e) => panic!("unexpected {:?}", e),
        Ok(_) => panic!("accepted an invalid character"),
    }
}

#[test]
fn invalid_character_later() {
    let mut parser = Parser::new("1+a").unwrap();
    match parser.parse() {
        Err(ParseError::InvalidOperator(m)) => assert_eq!(m, "Invalid character"),
        other => panic!("unexpected {:?}", other),
    }
    let mut parser = Parser::new("1 + 2").unwrap();
    assert!(matches!(parser.parse(), Err(ParseError::InvalidOperator(_))));
}

#[test]
fn mixed_additive_operators_group_from_the_left() {
    let expected = Tree::Add(Box::new(Tree::Subtract(num(1.0), num(2.0))), num(3.0));
    assert_eq!(parsed("1-2+3"), expected);
    let expected = Tree::Multiply(Box::new(Tree::Divide(num(8.0), num(2.0))), num(4.0));
    assert_eq!(parsed("8/2*4"), expected);
}

#[test]
fn long_power_chain_groups_from_the_right() {
    let inner = Tree::Caret(num(4.0), num(5.0));
    let middle = Tree::Caret(num(3.0), Box::new(inner));
    let expected = Tree::Caret(num(2.0), Box::new(middle));
    assert_eq!(parsed("2^3^4^5"), expected);
}
