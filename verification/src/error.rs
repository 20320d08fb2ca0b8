//! Errors reported by the library, with the kind of failure and where it happened.
use vstd::prelude::*;

verus! {

/// What kind of failure an [`Error`] reports.
#[derive(Debug, Clone, Copy, PartialEq, Eq)]
pub enum ErrorType {
    ArgumentMissing,
    ActionNotRegistered,
    CommandAlreadyRegistered,
    ParseError,
    ParameterError,
    TooManyParameters,
    ConversionError,
    SerializationError,
    General,
    CacheNotSupported,
    UnknownCommand,
    NotSupported,
    NotAvailable,
    KeyNotFound,
    KeyNotSupported,
    KeyReadError,
    KeyWriteError,
    UnexpectedError,
    ExecutionError,
    DependencyVersionMismatch,
    DependencyCycle,
    Cancelled,
}

/// A place in a query text. A position whose line is 0 is unknown.
#[derive(Debug, Clone, Copy, PartialEq, Eq)]
pub struct Position {
    pub offset: usize,
    pub line: usize,
    pub column: usize,
}

impl Position {
    pub fn new(offset: usize, line: usize, column: usize) -> (r: Position)
        ensures
            r == (Position { offset, line, column }),
    {
        Position { offset, line, column }
    }

    pub fn unknown() -> (r: Position)
        ensures
            r == (Position { offset: 0, line: 0, column: 0 }),
    {
        Position { offset: 0, line: 0, column: 0 }
    }

    pub open spec fn spec_is_unknown(self) -> bool {
        self.line == 0
    }

    pub fn is_unknown(&self) -> (r: bool)
        ensures
            r == self.spec_is_unknown(),
    {
        self.line == 0
    }
}

/// A failure: its kind, a message for people, and the position it refers to.
#[derive(Debug, Clone, PartialEq)]
pub struct Error {
    pub error_type: ErrorType,
    pub message: String,
    pub position: Position,
}

impl Error {
    pub fn new(error_type: ErrorType, message: String) -> (r: Error)
        ensures
            r.error_type == error_type,
            r.message@ == message@,
            r.position == Position::unknown_spec(),
    {
        Error { error_type, message, position: Position::unknown() }
    }

    pub fn general_error(message: String) -> (r: Error)
        ensures
            r.error_type == ErrorType::General,
            r.message@ == message@,
            r.position == Position::unknown_spec(),
    {
        Error::new(ErrorType::General, message)
    }

    pub fn parameter_error(message: String) -> (r: Error)
        ensures
            r.error_type == ErrorType::ParameterError,
            r.message@ == message@,
            r.position == Position::unknown_spec(),
    {
        Error::new(ErrorType::ParameterError, message)
    }

    pub fn unexpected_error(message: String) -> (r: Error)
        ensures
            r.error_type == ErrorType::UnexpectedError,
            r.message@ == message@,
            r.position == Position::unknown_spec(),
    {
        Error::new(ErrorType::UnexpectedError, message)
    }

    pub fn conversion_error(message: String) -> (r: Error)
        ensures
            r.error_type == ErrorType::ConversionError,
            r.message@ == message@,
            r.position == Position::unknown_spec(),
    {
        Error::new(ErrorType::ConversionError, message)
    }

    /// The same error, pointing at `position`.
    pub fn with_position(self, position: &Position) -> (r: Error)
        ensures
            r.error_type == self.error_type,
            r.message@ == self.message@,
            r.position == *position,
    {
        Error { error_type: self.error_type, message: self.message, position: *position }
    }
}

impl Position {
    pub open spec fn unknown_spec() -> Position {
        Position { offset: 0, line: 0, column: 0 }
    }
}

} // verus!
