use rlox::error::LoxError;
use rlox::interpreter::{Interpreter, IntrError, IntrResult, Numeric};
use rlox::parser::Parser;
use rlox::pipeline::interpret;
use rlox::scanner::Scanner;
use rlox::token::TokenType;

#[derive(Debug, PartialEq)]
struct F64(f64);

impl Numeric for F64 {
    fn from_literal(text: &str) -> Self {
        F64(text.parse().unwrap())
    }
    fn negated(&self) -> Self {
        F64(-self.0)
    }
    fn sum(&self, other: &Self) -> Self {
        F64(self.0 + other.0)
    }
    fn difference(&self, other: &Self) -> Self {
        F64(self.0 - other.0)
    }
    fn product(&self, other: &Self) -> Self {
        F64(self.0 * other.0)
    }
    fn quotient(&self, other: &Self) -> Self {
        F64(self.0 / other.0)
    }
    fn greater(&self, other: &Self) -> bool {
        self.0 > other.0
    }
    fn greater_equal(&self, other: &Self) -> bool {
        self.0 >= other.0
    }
    fn less(&self, other: &Self) -> bool {
        self.0 < other.0
    }
    fn less_equal(&self, other: &Self) -> bool {
        self.0 <= other.0
    }
    fn equal(&self, other: &Self) -> bool {
        self.0 == other.0
    }
    fn is_positive(&self) -> bool {
        self.0 > 0.0
    }
}

fn run(input: &str) -> Result<IntrResult<F64>, IntrError> {
    let mut scanner = Scanner::new(input.into());
    let tokens = scanner.scan_tokens();
    let mut parser = Parser::new(tokens);
    let expr = parser.expression().unwrap();
    let mut interpreter = Interpreter;
    interpreter.evaluate(&expr)
}

#[test]
fn test_evaluate_unary_expression() {
    let result = run("-456").unwrap();
    assert_eq!(result, IntrResult::Number(F64(-456.0)));
}

#[test]
fn test_evaluate_binary_expression() {
    let tests = [
        ("2 > 1", IntrResult::Bool(true)),
        ("2 > 1", IntrResult::Bool(true)),
        ("1 > 2", IntrResult::Bool(false)),
        ("4 + 2", IntrResult::Number(F64(6.0))),
        ("1 + 1 * 3", IntrResult::Number(F64(4.0))),
        ("(1 + 1) * 3", IntrResult::Number(F64(6.0))),
        ("400 - 402", IntrResult::Number(F64(-2.0))),
        ("\"one\"", IntrResult::String("one".to_string())),
        ("\"one\" == \"one\"", IntrResult::Bool(true)),
        ("\"one\" != \"two\"", IntrResult::Bool(false)),
        ("\"hello \" + \"world\"", IntrResult::String("hello world".to_string())),
    ];

    for (input, expected) in tests.iter() {
        let result = run(input).unwrap();
        assert_eq!(result, *expected);
    }
}

#[test]
fn test_evaluate_error() {
    let result = run("5 + true");
    assert!(result.is_err());
}

#[test]
fn arithmetic_results() {
    assert_eq!(run("4 + 2").unwrap(), IntrResult::Number(F64(6.0)));
    assert_eq!(run("1 + 1 * 3").unwrap(), IntrResult::Number(F64(4.0)));
    assert_eq!(run("7 / 2").unwrap(), IntrResult::Number(F64(3.5)));
    assert_eq!(run("1 / 0").unwrap(), IntrResult::Number(F64(f64::INFINITY)));
}

#[test]
fn number_plus_bool_is_unsupported() {
    match run("5 + true") {
        Err(IntrError::Unsupported(token)) => {
            assert_eq!(token.token_type, TokenType::Plus);
            assert_eq!(token.lexeme, "+");
            assert_eq!(token.line, 1);
        }
        other => panic!("unexpected {:?}", other),
    }
}

#[test]
fn string_results() {
    assert_eq!(
        run("\"hello \" + \"world\"").unwrap(),
        IntrResult::String("hello world".to_string())
    );
    assert_eq!(run("\"one\" == \"one\"").unwrap(), IntrResult::Bool(true));
    assert_eq!(run("\"one\" == \"two\"").unwrap(), IntrResult::Bool(false));
}

#[test]
fn bang_maps_a_number_to_whether_it_is_positive() {
    assert_eq!(run("!0").unwrap(), IntrResult::Bool(false));
    assert_eq!(run("!1").unwrap(), IntrResult::Bool(true));
    assert_eq!(run("!-1").unwrap(), IntrResult::Bool(false));
    assert_eq!(run("!nil").unwrap(), IntrResult::Bool(false));
    assert_eq!(run("!true").unwrap(), IntrResult::Bool(false));
    assert_eq!(run("!\"\"").unwrap(), IntrResult::Bool(true));
}

#[test]
fn not_equal_compares_like_equal() {
    assert_eq!(run("1 != 1").unwrap(), IntrResult::Bool(true));
    assert_eq!(run("1 != 2").unwrap(), IntrResult::Bool(false));
    assert_eq!(run("\"a\" != \"a\"").unwrap(), IntrResult::Bool(true));
    assert!(matches!(run("nil != nil"), Err(IntrError::Unsupported(_))));
}

#[test]
fn nil_equality_and_cross_type_equality() {
    assert_eq!(run("nil == nil").unwrap(), IntrResult::Bool(true));
    assert!(matches!(run("1 == \"1\""), Err(IntrError::Unsupported(_))));
    assert!(matches!(run("true == true"), Err(IntrError::Unsupported(_))));
}

#[test]
fn comparisons_of_numbers() {
    assert_eq!(run("1 < 2").unwrap(), IntrResult::Bool(true));
    assert_eq!(run("2 <= 2").unwrap(), IntrResult::Bool(true));
    assert_eq!(run("1 >= 2").unwrap(), IntrResult::Bool(false));
    assert!(matches!(run("\"a\" < \"b\""), Err(IntrError::Unsupported(_))));
}

#[test]
fn negating_a_string_is_unsupported() {
    match run("-\"x\"") {
        Err(IntrError::Unsupported(token)) => assert_eq!(token.token_type, TokenType::Minus),
        other => panic!("unexpected {:?}", other),
    }
}

#[test]
fn first_failing_operator_is_reported() {
    match run("(1 + nil) * \"a\"") {
        Err(IntrError::Unsupported(token)) => assert_eq!(token.token_type, TokenType::Plus),
        other => panic!("unexpected {:?}", other),
    }
}

#[test]
fn interpret_runs_the_whole_pipeline() {
    assert_eq!(interpret::<F64>("(1 + 1) * 3").unwrap(), IntrResult::Number(F64(6.0)));
    assert!(matches!(interpret::<F64>("(1 + 2"), Err(LoxError::ParseError(_))));
    assert!(matches!(
        interpret::<F64>("\n5 + true"),
        Err(LoxError::RuntimeError(IntrError::Unsupported(ref t))) if t.line == 2
    ));
    assert_eq!(interpret::<F64>("nil").unwrap(), IntrResult::Nil);
}
