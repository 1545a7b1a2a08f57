use vstd::prelude::*;

verus! {

/// `chrono::ParseError`, carried through unread: why a date text was refused.
#[verifier::external_type_specification]
#[verifier::external_body]
pub struct ExDateParseError(chrono::ParseError);

/// `std::io::Error`, carried through unread.
#[verifier::external_type_specification]
#[verifier::external_body]
pub struct ExIoError(std::io::Error);

/// `serde_json::Error`, carried through unread.
#[verifier::external_type_specification]
#[verifier::external_body]
pub struct ExJsonError(serde_json::Error);

/// Everything that can go wrong while a command is carried out.
#[derive(Debug)]
pub enum AppError {
    /// The task file could not be read or written.
    Io(std::io::Error),
    /// The task file does not hold a list of tasks.
    Json(serde_json::Error),
    /// A due date was not written as a calendar date.
    Chrono(chrono::ParseError),
    /// No task has this identifier.
    TaskNotFound(u32),
    /// The text names no status.
    InvalidStatus(String),
    /// Any other failure, with its message.
    Custom(String),
}

/// What a command gives: its result, or why it failed.
pub type AppResult<T> = Result<T, AppError>;

impl From<std::io::Error> for AppError {
    fn from(e: std::io::Error) -> (r: AppError) {
        AppError::Io(e)
    }
}

impl vstd::std_specs::convert::FromSpecImpl<std::io::Error> for AppError {
    open spec fn obeys_from_spec() -> bool {
        true
    }

    open spec fn from_spec(e: std::io::Error) -> AppError {
        AppError::Io(e)
    }
}

impl From<serde_json::Error> for AppError {
    fn from(e: serde_json::Error) -> (r: AppError) {
        AppError::Json(e)
    }
}

impl vstd::std_specs::convert::FromSpecImpl<serde_json::Error> for AppError {
    open spec fn obeys_from_spec() -> bool {
        true
    }

    open spec fn from_spec(e: serde_json::Error) -> AppError {
        AppError::Json(e)
    }
}

impl From<chrono::ParseError> for AppError {
    fn from(e: chrono::ParseError) -> (r: AppError) {
        AppError::Chrono(e)
    }
}

impl vstd::std_specs::convert::FromSpecImpl<chrono::ParseError> for AppError {
    open spec fn obeys_from_spec() -> bool {
        true
    }

    open spec fn from_spec(e: chrono::ParseError) -> AppError {
        AppError::Chrono(e)
    }
}

} // verus!
