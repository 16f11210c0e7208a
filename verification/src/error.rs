use vstd::prelude::*;

verus! {

/// What a failed parser reports, named after the error codes of `nom`.
#[derive(Debug, Clone, Copy, PartialEq, Eq, Structural)]
pub enum ParseErrorKind {
    /// The input ended before a fixed-size field.
    Eof,
    /// A variable-length integer did not fit its type.
    TooLarge,
    /// A value was read but is not allowed there.
    Verify,
    /// A tag byte matched no known alternative.
    Alt,
    /// An instruction word carries an unknown opcode.
    Tag,
}

/// Why the bytecode reader stopped.
#[derive(Debug, Clone, Copy, PartialEq, Eq, Structural)]
pub enum ParseError {
    /// The input ended inside a variable-length integer: one more byte is needed.
    Incomplete,
    /// A recoverable error, raised by the parser that started at byte `offset`.
    Error { offset: usize, kind: ParseErrorKind },
    /// An unrecoverable error, raised at byte `offset`.
    Failure { offset: usize, kind: ParseErrorKind },
}

/// The result of a parser in the model: the position after what it read, and
/// the value read.
pub type PResult<T> = Result<(int, T), ParseError>;

/// A recoverable error at position `p`.
pub open spec fn error_at(p: int, kind: ParseErrorKind) -> ParseError {
    ParseError::Error { offset: p as usize, kind }
}

/// An unrecoverable error at position `p`.
pub open spec fn failure_at(p: int, kind: ParseErrorKind) -> ParseError {
    ParseError::Failure { offset: p as usize, kind }
}

} // verus!
