//! Source text to a value: scan, parse one expression, evaluate it.

use vstd::prelude::*;

use crate::error::LoxError;
use crate::interpreter::{eval, value_matches, Interpreter, IntrError, IntrResult, Numeric};
use crate::parser::{parse_expression, tokens_wf, Parser, ParserError};
use crate::scanner::{lemma_scan_from_shape, scan, scan_from, Scanner};
use crate::token::{tokens_view, Token, TokenType};

verus! {

/// Whether `r` is what parsing the tokens `ts` as one expression and then
/// evaluating it gives.
pub open spec fn interpreted_as<N>(r: Result<IntrResult<N>, LoxError>, ts: Seq<Token>) -> bool {
    match parse_expression(ts, 0) {
        Ok((e, _)) => match eval(e) {
            Ok(o) => r matches Ok(v) && value_matches(v, o),
            Err(t) => r == Err::<IntrResult<N>, LoxError>(
                LoxError::RuntimeError(IntrError::Unsupported(t)),
            ),
        },
        Err(m) => r matches Err(LoxError::ParseError(ParserError::ParseError(msg))) && msg@ == m,
    }
}

/// Scans `input`, parses one expression from its tokens and evaluates it.
pub fn interpret<N: Numeric>(input: &str) -> (r: Result<IntrResult<N>, LoxError>)
    requires
        input@.len() < usize::MAX,
    ensures
        exists|ts: Seq<Token>|
            tokens_view(ts) == scan(input@) && tokens_wf(ts) && interpreted_as(r, ts),
{
    let mut scanner = Scanner::new(input.to_owned());
    let tokens = scanner.scan_tokens();
    proof {
        lemma_scan_from_shape(input@, 0, 1);
        let s = scan(input@);
        assert(tokens@.len() == s.len());
        assert(tokens@.last()@ == s.last());
        assert forall|i: int|
            0 <= i < tokens@.len() && #[trigger] tokens@[i].token_type
                == TokenType::String implies tokens@[i].literal is Some by {
            assert(tokens@[i]@ == s[i]);
            assert(scan_from(input@, 0, 1)[i].kind == TokenType::String);
        }
    }
    let mut parser = Parser::new(tokens);
    let mut interpreter = Interpreter;
    let r = match parser.expression() {
        Ok(expr) => match interpreter.evaluate(&expr) {
            Ok(v) => Ok(v),
            Err(e) => Err(LoxError::from(e)),
        },
        Err(err) => Err(LoxError::from(err)),
    };
    assert(tokens_view(tokens@) == scan(input@) && tokens_wf(tokens@) && interpreted_as(r, tokens@));
    r
}

} // verus!
