//! Why a line could not be parsed or evaluated.

use vstd::prelude::*;
use vstd::string::StringExecFns;

verus! {

/// The failures of parsing and evaluation.
#[derive(Debug, PartialEq)]
pub enum LispError {
    /// A list was opened and the tokens ran out before it was closed.
    MissingClose,
    /// A `)` stands where an expression should begin.
    StrayClose,
    /// There is no token to parse.
    NoToken,
    /// An empty list was evaluated.
    EmptyList,
    /// A list's first element did not evaluate to a function.
    NotCallable,
    /// A function was evaluated outside the head of a list.
    BareFunction,
    /// A symbol has no binding.
    UnboundSymbol(String),
    /// An arithmetic function was given something that is no number.
    NotANumber,
    /// `-` was given no argument.
    NoOperand,
}

/// The mathematical value of a failure.
pub enum Failure {
    MissingClose,
    StrayClose,
    NoToken,
    EmptyList,
    NotCallable,
    BareFunction,
    UnboundSymbol(Seq<char>),
    NotANumber,
    NoOperand,
}

impl Failure {
    /// The message that reports the failure.
    pub open spec fn message(self) -> Seq<char> {
        match self {
            Failure::MissingClose => "no closing `)`"@,
            Failure::StrayClose => "unexpected `)`"@,
            Failure::NoToken => "unable to get token"@,
            Failure::EmptyList => "list is empty"@,
            Failure::NotCallable => "initial form must be a function"@,
            Failure::BareFunction => "unexpected form"@,
            Failure::UnboundSymbol(name) => "unexpected symbol: "@ + name,
            Failure::NotANumber => "expected a number"@,
            Failure::NoOperand => "requires at least one number"@,
        }
    }
}

impl View for LispError {
    type V = Failure;

    open spec fn view(&self) -> Failure {
        match self {
            LispError::MissingClose => Failure::MissingClose,
            LispError::StrayClose => Failure::StrayClose,
            LispError::NoToken => Failure::NoToken,
            LispError::EmptyList => Failure::EmptyList,
            LispError::NotCallable => Failure::NotCallable,
            LispError::BareFunction => Failure::BareFunction,
            LispError::UnboundSymbol(name) => Failure::UnboundSymbol(name@),
            LispError::NotANumber => Failure::NotANumber,
            LispError::NoOperand => Failure::NoOperand,
        }
    }
}

impl LispError {
    /// The message that reports the failure.
    pub fn message(&self) -> (text: String)
        ensures
            text@ == self@.message(),
    {
        match self {
            LispError::MissingClose => String::from_str("no closing `)`"),
            LispError::StrayClose => String::from_str("unexpected `)`"),
            LispError::NoToken => String::from_str("unable to get token"),
            LispError::EmptyList => String::from_str("list is empty"),
            LispError::NotCallable => String::from_str("initial form must be a function"),
            LispError::BareFunction => String::from_str("unexpected form"),
            LispError::UnboundSymbol(name) => String::from_str("unexpected symbol: ").concat(
                name.as_str(),
            ),
            LispError::NotANumber => String::from_str("expected a number"),
            LispError::NoOperand => String::from_str("requires at least one number"),
        }
    }
}

} // verus!
