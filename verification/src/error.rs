//! The diagnostic taxonomy: a closed set of syntactic and semantic
//! failure kinds, each with a fixed, parameterized message, plus the
//! lifting of a parse failure into a reportable diagnostic.

use vstd::prelude::*;
use vstd::pervasive::unreached;
use vstd::string::StringExecFns;
use crate::span::{Position, Span, span_wf};

verus! {

/// A purely syntactic failure, caught before an AST exists.
#[derive(Debug, Clone, Copy, PartialEq)]
pub enum ParseError {
    EmptySearch,
    EmptyUpdate,
    InvalidBlock,
    MissingEnd,
    MissingUpdate,
    NumberOverflow(),
}

/// A semantic failure, caught while validating a well-formed AST.
/// `ParseError` re-wraps a syntactic kind so both report through the
/// same pipeline.
#[derive(Debug, Clone, PartialEq)]
pub enum Error {
    InvalidNeedle,
    InvalidLookupType,
    Unprovided(String),
    UnknownFunction(String),
    UnknownFunctionParam(String, String),
    ParseError(ParseError),
}

/// One reportable problem: a failure kind anchored to the source range
/// that triggered it.
#[derive(Debug, Clone, PartialEq)]
pub struct CompileError {
    pub span: Span,
    pub error: Error,
}

/// What the external parser hands back: either it produced a block, or
/// it failed at a position with a syntactic failure kind.
#[derive(Debug, Clone, Copy, PartialEq)]
pub enum ParseResult {
    Success,
    Error(Position, ParseError),
}

/// The fixed message for each syntactic failure kind.
pub open spec fn parse_error_message(e: ParseError) -> Seq<char> {
    match e {
        ParseError::EmptySearch => "This block has an empty search. If you want a block to run\n unconditionally, you can omit the search section."@,
        ParseError::EmptyUpdate => "This block doesn't have any actions in it."@,
        ParseError::InvalidBlock => "This block is invalid, but unfortunately I don't have a lot of information about why."@,
        ParseError::MissingEnd => "The `end` keyword is missing for this block."@,
        ParseError::MissingUpdate => "This block is missing either a `bind` or `commit` section."@,
        ParseError::NumberOverflow() => "This block contains a number too large or small to represent with the numeric datatype in use."@,
    }
}

/// The fixed message for each semantic failure kind; parameterized kinds
/// interpolate their payload verbatim.
pub open spec fn error_message(e: Error) -> Seq<char> {
    match e {
        Error::InvalidNeedle => "The `from` in a sorted aggregate has to be the same size as the `for` in order to match the values."@,
        Error::InvalidLookupType => "Lookup can only have \"add\" or \"remove\" for its type field."@,
        Error::Unprovided(v) => "Nothing in the block is providing `"@ + v@
            + "`. You can search for\n something that provides `"@ + v@
            + "`, or bind a constant.\n e.g. `"@ + v@ + ": \"Hello\"`"@,
        Error::UnknownFunction(f) => "I don't know the `"@ + f@
            + "` function, so I'm not sure what to execute."@,
        Error::UnknownFunctionParam(f, p) => "The `"@ + f@
            + "` function doesn't have a `"@ + p@ + "` attribute."@,
        Error::ParseError(pe) => parse_error_message(pe),
    }
}

impl ParseError {
    /// The human-readable message for this failure kind.
    pub fn message(&self) -> (r: String)
        ensures
            r@ == parse_error_message(*self),
    {
        match self {
            ParseError::EmptySearch => String::from_str("This block has an empty search. If you want a block to run\n unconditionally, you can omit the search section."),
            ParseError::EmptyUpdate => String::from_str("This block doesn't have any actions in it."),
            ParseError::InvalidBlock => String::from_str("This block is invalid, but unfortunately I don't have a lot of information about why."),
            ParseError::MissingEnd => String::from_str("The `end` keyword is missing for this block."),
            ParseError::MissingUpdate => String::from_str("This block is missing either a `bind` or `commit` section."),
            ParseError::NumberOverflow() => String::from_str("This block contains a number too large or small to represent with the numeric datatype in use."),
        }
    }
}

impl Error {
    /// The human-readable message for this failure kind, with any payload
    /// interpolated verbatim.
    pub fn message(&self) -> (r: String)
        ensures
            r@ == error_message(*self),
    {
        match self {
            Error::InvalidNeedle => String::from_str("The `from` in a sorted aggregate has to be the same size as the `for` in order to match the values."),
            Error::InvalidLookupType => String::from_str("Lookup can only have \"add\" or \"remove\" for its type field."),
            Error::Unprovided(v) => {
                let mut s = String::from_str("Nothing in the block is providing `");
                s.append(v.as_str());
                s.append("`. You can search for\n something that provides `");
                s.append(v.as_str());
                s.append("`, or bind a constant.\n e.g. `");
                s.append(v.as_str());
                s.append(": \"Hello\"`");
                proof {
                    assert(s@ =~= error_message(*self));
                }
                s
            }
            Error::UnknownFunction(f) => {
                let mut s = String::from_str("I don't know the `");
                s.append(f.as_str());
                s.append("` function, so I'm not sure what to execute.");
                proof {
                    assert(s@ =~= error_message(*self));
                }
                s
            }
            Error::UnknownFunctionParam(f, p) => {
                let mut s = String::from_str("The `");
                s.append(f.as_str());
                s.append("` function doesn't have a `");
                s.append(p.as_str());
                s.append("` attribute.");
                proof {
                    assert(s@ =~= error_message(*self));
                }
                s
            }
            Error::ParseError(pe) => pe.message(),
        }
    }
}

/// Lifts a parse failure into a diagnostic: a single-character span at
/// the failure position, wrapping the syntactic kind. Defined only for
/// the failure variant; calling it on anything else is a caller bug and
/// is excluded here rather than detected at run time.
pub fn from_parse_error(outcome: &ParseResult) -> (r: CompileError)
    requires
        outcome is Error,
        outcome->Error_0.column < u32::MAX,
        outcome->Error_0.offset < u32::MAX,
    ensures
        r.span.start == outcome->Error_0,
        r.span.stop.line == outcome->Error_0.line,
        r.span.stop.column == outcome->Error_0.column + 1,
        r.span.stop.offset == outcome->Error_0.offset + 1,
        r.error == Error::ParseError(outcome->Error_1),
        span_wf(r.span),
{
    match outcome {
        ParseResult::Error(info, err) => {
            let span = Span::from_point(*info);
            CompileError { span, error: Error::ParseError(*err) }
        }
        ParseResult::Success => unreached(),
    }
}

} // verus!
