use rlox::ast::Expr;
use rlox::parser::{Parser, ParserError};
use rlox::scanner::Scanner;

fn parse(input: &str) -> Result<Expr, ParserError> {
    let mut scanner = Scanner::new(input.into());
    let tokens = scanner.scan_tokens();
    let mut parser = Parser::new(tokens);
    parser.expression()
}

#[test]
fn test_exression() {
    let tests = [
        ("1", "1"),
        ("1 + 2", "(+ 1 2)"),
        ("(1 + 2)", "(group (+ 1 2))"),
        ("1 - 2", "(- 1 2)"),
        ("1 * 2", "(* 1 2)"),
        ("1 / 2", "(/ 1 2)"),
        ("1 + 2 * 3", "(+ 1 (* 2 3))"),
        ("1 + 2 * 3 - 4", "(- (+ 1 (* 2 3)) 4)"),
        ("1 + (2 * 3) - 4", "(- (+ 1 (group (* 2 3))) 4)"),
        ("1 + (2 * 3) - (4 * 5)", "(- (+ 1 (group (* 2 3))) (group (* 4 5)))"),
    ];

    for (input, expected) in tests {
        let mut scanner = Scanner::new(input.into());
        let tokens = scanner.scan_tokens();
        let mut parser = Parser::new(tokens);
        let expr = parser.expression().unwrap();
        assert_eq!(expr.to_string(), expected);
    }
}

#[test]
fn subtraction_is_left_associative() {
    assert_eq!(parse("1 - 2 - 3").unwrap().to_string(), "(- (- 1 2) 3)");
}

#[test]
fn multiplication_binds_tighter_than_addition() {
    assert_eq!(parse("1 + 2 * 3").unwrap().to_string(), "(+ 1 (* 2 3))");
    assert_eq!(parse("(1 + 2) * 3").unwrap().to_string(), "(* (group (+ 1 2)) 3)");
}

#[test]
fn unary_operators_nest_to_the_right() {
    assert_eq!(parse("--1").unwrap().to_string(), "(- (- 1))");
    assert_eq!(parse("!-2 * 3").unwrap().to_string(), "(* (! (- 2)) 3)");
}

#[test]
fn comparison_and_equality_levels() {
    assert_eq!(
        parse("1 < 2 == 3 >= 4 != true").unwrap().to_string(),
        "(!= (== (< 1 2) (>= 3 4)) true)"
    );
    assert_eq!(parse("nil == false").unwrap().to_string(), "(== nil false)");
    assert_eq!(parse("\"a\" + \"b\"").unwrap().to_string(), "(+ a b)");
}

#[test]
fn unterminated_grouping_fails() {
    match parse("(1 + 2") {
        Err(ParserError::ParseError(message)) => {
            assert_eq!(message, "Expect ')' after expression.")
        }
        Ok(_) => panic!("expected a parse error"),
    }
}

#[test]
fn missing_operand_fails() {
    for input in ["", "1 +", ")", "* 2"] {
        match parse(input) {
            Err(ParserError::ParseError(message)) => assert_eq!(message, "Expect expression."),
            Ok(_) => panic!("expected a parse error"),
        }
    }
}

#[test]
fn trailing_tokens_are_left_unparsed() {
    assert_eq!(parse("1 2").unwrap().to_string(), "1");
}
