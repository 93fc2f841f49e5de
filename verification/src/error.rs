use vstd::prelude::*;
use vstd::string::StringExecFns;
use crate::query::{ErrorModel, QueryParsingError};

verus! {

/// The parts of the two sentences that report an error.
pub const NOT_SUPPORTED_PREFIX: &'static str = "the request ";

pub const NOT_SUPPORTED_SUFFIX: &'static str = " is not supported";

pub const SYNTAX_PREFIX: &'static str = "an syntax error ";

pub const SYNTAX_INFIX: &'static str = " occurred while parsing the request ";

/// The sentence that reports an error.
pub open spec fn error_message(error: ErrorModel) -> Seq<char> {
    match error {
        ErrorModel::UnsupportedRequest(request) => NOT_SUPPORTED_PREFIX@ + request
            + NOT_SUPPORTED_SUFFIX@,
        ErrorModel::QuerySyntaxError(expected, request) => SYNTAX_PREFIX@ + expected
            + SYNTAX_INFIX@ + request,
    }
}

impl QueryParsingError {
    /// The sentence that reports this error.
    pub fn message(&self) -> (text: String)
        ensures
            text@ == error_message(self@),
    {
        match self {
            QueryParsingError::UnsupportedRequest(request) => {
                let mut text = NOT_SUPPORTED_PREFIX.to_owned();
                text.append(request.as_str());
                text.append(NOT_SUPPORTED_SUFFIX);
                text
            },
            QueryParsingError::QuerySyntaxError(expected, request) => {
                let mut text = SYNTAX_PREFIX.to_owned();
                text.append(expected.as_str());
                text.append(SYNTAX_INFIX);
                text.append(request.as_str());
                text
            },
        }
    }
}

} // verus!
