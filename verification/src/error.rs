//! The error taxonomy of the execution core. Every fallible operation
//! returns one of these kinds together with a human-readable message.

use vstd::prelude::*;

verus! {

/// The kind of an execution-core error.
#[derive(Clone, Copy, PartialEq, Eq, Structural, Debug)]
pub enum ErrorKind {
    /// An operator is unsupported for an operand type, or the operand
    /// types do not match each other.
    BadDataValueType,
    /// A function was applied to the wrong number of arguments.
    NumberArgumentsNotMatch,
    /// A registry lookup failed: no function is registered under the name.
    UnknownFunction,
    /// A non-typeable node (such as a wildcard) was asked for its type.
    IllegalDataType,
    /// A projected column is neither an aggregate nor part of the grouping.
    IllegalAggregateExp,
    /// A constant-only argument was varying, or a bound was out of range.
    BadArguments,
    /// An internal invariant was broken by the caller.
    LogicalError,
    /// An expression shape that the caller must not hand to this layer.
    SyntaxException,
}

/// An execution-core error: a kind plus a message.
#[derive(Clone, Debug)]
pub struct ErrorCode {
    kind: ErrorKind,
    message: String,
}

impl ErrorCode {
    /// The kind of this error.
    pub closed spec fn spec_kind(&self) -> ErrorKind {
        self.kind
    }

    #[verifier::when_used_as_spec(spec_kind)]
    pub fn kind(&self) -> (k: ErrorKind)
        ensures
            k == self.spec_kind(),
    {
        self.kind
    }

    /// The human-readable message of this error.
    pub fn message(&self) -> &String {
        &self.message
    }

    pub fn new(kind: ErrorKind, message: String) -> (e: ErrorCode)
        ensures
            e.kind() == kind,
    {
        ErrorCode { kind, message }
    }

    pub fn bad_data_value_type(message: String) -> (e: ErrorCode)
        ensures
            e.kind() == ErrorKind::BadDataValueType,
    {
        ErrorCode { kind: ErrorKind::BadDataValueType, message }
    }

    pub fn number_arguments_not_match(message: String) -> (e: ErrorCode)
        ensures
            e.kind() == ErrorKind::NumberArgumentsNotMatch,
    {
        ErrorCode { kind: ErrorKind::NumberArgumentsNotMatch, message }
    }

    pub fn unknown_function(message: String) -> (e: ErrorCode)
        ensures
            e.kind() == ErrorKind::UnknownFunction,
    {
        ErrorCode { kind: ErrorKind::UnknownFunction, message }
    }

    pub fn illegal_data_type(message: String) -> (e: ErrorCode)
        ensures
            e.kind() == ErrorKind::IllegalDataType,
    {
        ErrorCode { kind: ErrorKind::IllegalDataType, message }
    }

    pub fn illegal_aggregate_exp(message: String) -> (e: ErrorCode)
        ensures
            e.kind() == ErrorKind::IllegalAggregateExp,
    {
        ErrorCode { kind: ErrorKind::IllegalAggregateExp, message }
    }

    pub fn bad_arguments(message: String) -> (e: ErrorCode)
        ensures
            e.kind() == ErrorKind::BadArguments,
    {
        ErrorCode { kind: ErrorKind::BadArguments, message }
    }

    pub fn logical_error(message: String) -> (e: ErrorCode)
        ensures
            e.kind() == ErrorKind::LogicalError,
    {
        ErrorCode { kind: ErrorKind::LogicalError, message }
    }

    pub fn syntax_exception(message: String) -> (e: ErrorCode)
        ensures
            e.kind() == ErrorKind::SyntaxException,
    {
        ErrorCode { kind: ErrorKind::SyntaxException, message }
    }
}

} // verus!
