//! The errors of the whole pipeline, from parsing and from evaluation.

use vstd::prelude::*;

use crate::interpreter::IntrError;
use crate::parser::ParserError;

verus! {

#[derive(Debug)]
pub enum LoxError {
    ParseError(ParserError),
    RuntimeError(IntrError),
}

impl From<ParserError> for LoxError {
    fn from(error: ParserError) -> (r: Self)
        ensures
            r == LoxError::ParseError(error),
    {
        LoxError::ParseError(error)
    }
}

impl vstd::std_specs::convert::FromSpecImpl<ParserError> for LoxError {
    open spec fn obeys_from_spec() -> bool {
        true
    }

    open spec fn from_spec(error: ParserError) -> LoxError {
        LoxError::ParseError(error)
    }
}

impl From<IntrError> for LoxError {
    fn from(error: IntrError) -> (r: Self)
        ensures
            r == LoxError::RuntimeError(error),
    {
        LoxError::RuntimeError(error)
    }
}

impl vstd::std_specs::convert::FromSpecImpl<IntrError> for LoxError {
    open spec fn obeys_from_spec() -> bool {
        true
    }

    open spec fn from_spec(error: IntrError) -> LoxError {
        LoxError::RuntimeError(error)
    }
}

} // verus!
