use vstd::prelude::*;
use vstd::string::*;

use crate::decimal::{nat_digits, parse_i64, parse_i64_spec, push_digits};
use crate::text::views;

verus! {

/// Why a line could not be read as a message.
#[derive(Debug, Clone, PartialEq, Eq)]
pub enum ParseMessageError {
    /// The line holds no token at all.
    EmptyMessage,
    /// The first token names no message type.
    UnknownType(String),
    /// The named argument has no token at its position.
    MissingArgument(String),
    /// The line holds more arguments than the message type takes.
    TooManyArguments { expected: usize, actual: usize },
    /// The token at the named argument's position is not a whole decimal integer.
    InvalidIntegerArgument { argument: String, value: String },
}

/// A parse error with its strings as character sequences.
pub enum ErrorView {
    EmptyMessage,
    UnknownType(Seq<char>),
    MissingArgument(Seq<char>),
    TooManyArguments { expected: usize, actual: usize },
    InvalidIntegerArgument { argument: Seq<char>, value: Seq<char> },
}

impl View for ParseMessageError {
    type V = ErrorView;

    open spec fn view(&self) -> ErrorView {
        match self {
            ParseMessageError::EmptyMessage => ErrorView::EmptyMessage,
            ParseMessageError::UnknownType(t) => ErrorView::UnknownType(t@),
            ParseMessageError::MissingArgument(n) => ErrorView::MissingArgument(n@),
            ParseMessageError::TooManyArguments { expected, actual } => {
                ErrorView::TooManyArguments { expected: *expected, actual: *actual }
            },
            ParseMessageError::InvalidIntegerArgument { argument, value } => {
                ErrorView::InvalidIntegerArgument { argument: argument@, value: value@ }
            },
        }
    }
}

/// The human-readable rendering of a parse error.
pub open spec fn error_text(e: ErrorView) -> Seq<char> {
    match e {
        ErrorView::EmptyMessage => "empty message"@,
        ErrorView::UnknownType(t) => "unknown message type \""@ + t + "\""@,
        ErrorView::MissingArgument(n) => "missing argument \""@ + n + "\""@,
        ErrorView::TooManyArguments { expected, actual } => "too many arguments (expected "@
            + nat_digits(expected as nat) + ", got "@ + nat_digits(actual as nat) + ")"@,
        ErrorView::InvalidIntegerArgument { argument, value } => "invalid integer value \""@
            + value + "\" for argument \""@ + argument + "\""@,
    }
}

impl ParseMessageError {
    /// The human-readable rendering of this error.
    pub fn message(&self) -> (r: String)
        ensures
            r@ == error_text(self@),
    {
        match self {
            ParseMessageError::EmptyMessage => String::from_str("empty message"),
            ParseMessageError::UnknownType(t) => {
                let mut out = String::from_str("unknown message type \"");
                out.append(t.as_str());
                out.append("\"");
                out
            },
            ParseMessageError::MissingArgument(n) => {
                let mut out = String::from_str("missing argument \"");
                out.append(n.as_str());
                out.append("\"");
                out
            },
            ParseMessageError::TooManyArguments { expected, actual } => {
                let mut out = String::from_str("too many arguments (expected ");
                push_digits(&mut out, *expected as u64);
                out.append(", got ");
                push_digits(&mut out, *actual as u64);
                out.append(")");
                out
            },
            ParseMessageError::InvalidIntegerArgument { argument, value } => {
                let mut out = String::from_str("invalid integer value \"");
                out.append(value.as_str());
                out.append("\" for argument \"");
                out.append(argument.as_str());
                out.append("\"");
                out
            },
        }
    }
}

/// The outcome of the arity check on a line of `count` tokens whose message
/// type takes `expected` arguments: only too many arguments fail here.
pub open spec fn arity(count: nat, expected: usize) -> Result<(), ErrorView> {
    if count > expected + 1 {
        Err(ErrorView::TooManyArguments { expected, actual: (count - 1) as usize })
    } else {
        Ok(())
    }
}

/// The string argument `name` at `position`, used verbatim.
pub open spec fn text_at(parts: Seq<Seq<char>>, name: Seq<char>, position: int) -> Result<
    Seq<char>,
    ErrorView,
> {
    if 0 <= position < parts.len() {
        Ok(parts[position])
    } else {
        Err(ErrorView::MissingArgument(name))
    }
}

/// The integer argument `name` at `position`.
pub open spec fn integer_at(parts: Seq<Seq<char>>, name: Seq<char>, position: int) -> Result<
    i64,
    ErrorView,
> {
    if 0 <= position < parts.len() {
        match parse_i64_spec(parts[position]) {
            Some(v) => Ok(v),
            None => Err(ErrorView::InvalidIntegerArgument { argument: name, value: parts[position] }),
        }
    } else {
        Err(ErrorView::MissingArgument(name))
    }
}

/// The outcome of a check, with the error as its view.
pub open spec fn unit_result(r: Result<(), ParseMessageError>) -> Result<(), ErrorView> {
    match r {
        Ok(v) => Ok(v),
        Err(e) => Err(e@),
    }
}

/// The outcome of reading a string argument, as character sequences.
pub open spec fn text_result(r: Result<String, ParseMessageError>) -> Result<Seq<char>, ErrorView> {
    match r {
        Ok(v) => Ok(v@),
        Err(e) => Err(e@),
    }
}

/// The outcome of reading an integer argument, with the error as its view.
pub open spec fn integer_result(r: Result<i64, ParseMessageError>) -> Result<i64, ErrorView> {
    match r {
        Ok(v) => Ok(v),
        Err(e) => Err(e@),
    }
}

/// Fails when `parts` holds more than `expected` arguments after its first
/// token.
pub fn check_arguments(parts: &Vec<&str>, expected: usize) -> (r: Result<(), ParseMessageError>)
    ensures
        unit_result(r) == arity(parts@.len(), expected),
{
    if parts.len() > expected && parts.len() - expected > 1 {
        return Err(ParseMessageError::TooManyArguments { expected, actual: parts.len() - 1 });
    }
    Ok(())
}

/// The string argument `argument_name` at `position` of `parts`.
pub fn at_position(parts: &Vec<&str>, argument_name: &str, position: usize) -> (r: Result<
    String,
    ParseMessageError,
>)
    ensures
        text_result(r) == text_at(views(parts@), argument_name@, position as int),
{
    if position < parts.len() {
        Ok(String::from_str(parts[position]))
    } else {
        Err(ParseMessageError::MissingArgument(String::from_str(argument_name)))
    }
}

/// The integer argument `argument_name` at `position` of `parts`.
pub fn integer_at_position(parts: &Vec<&str>, argument_name: &str, position: usize) -> (r: Result<
    i64,
    ParseMessageError,
>)
    ensures
        integer_result(r) == integer_at(views(parts@), argument_name@, position as int),
{
    if position < parts.len() {
        let token = parts[position];
        match parse_i64(token) {
            Some(v) => Ok(v),
            None => Err(
                ParseMessageError::InvalidIntegerArgument {
                    argument: String::from_str(argument_name),
                    value: String::from_str(token),
                },
            ),
        }
    } else {
        Err(ParseMessageError::MissingArgument(String::from_str(argument_name)))
    }
}

} // verus!
