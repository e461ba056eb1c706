use rlox::ast::{binary, grouping, literal, unary, Expr};
use rlox::token::{Literal, Token, TokenType};

fn number(text: &str) -> Expr {
    literal(Literal::Number(text.to_string()))
}

#[test]
fn test_binary_expr() {
    let expr = binary(
        number("1.0"),
        Token::new(TokenType::Minus, "-".into(), None, 1),
        number("2.0"),
    );
    assert_eq!(expr.to_string(), "(- 1.0 2.0)");
}

#[test]
fn test_nested_expr() {
    let expr = binary(
        number("1.0"),
        Token::new(TokenType::Minus, "-".into(), None, 1),
        grouping(number("2.0")),
    );
    assert_eq!(expr.to_string(), "(- 1.0 (group 2.0))");
}

#[test]
fn display_of_unary_and_keyword_literals() {
    let expr = unary(
        Token::new(TokenType::Bang, "!".into(), None, 1),
        grouping(literal(Literal::True)),
    );
    assert_eq!(expr.to_string(), "(! (group true))");
    assert_eq!(literal(Literal::False).to_string(), "false");
    assert_eq!(literal(Literal::Nil).to_string(), "nil");
    assert_eq!(literal(Literal::String("hi".to_string())).to_string(), "hi");
}

#[test]
fn display_of_binary_nests_operands() {
    let op = Token::new(TokenType::Star, "*".into(), None, 3);
    let inner = binary(number("2"), Token::new(TokenType::Plus, "+".into(), None, 3), number("3"));
    let expr = binary(grouping(inner), op, number("4"));
    assert_eq!(expr.to_string(), "(* (group (+ 2 3)) 4)");
}
