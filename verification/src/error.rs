//! The error type of the library.
use vstd::prelude::*;

verus! {

/// An application error, by kind, with its message.
#[derive(Debug, PartialEq, Eq)]
pub enum AppError {
    /// Input that the rules refuse; the message explains why.
    Validation(String),
    /// A network failure.
    Network(String),
    /// Malformed JSON.
    Json(String),
    /// A database failure.
    Database(String),
    /// A file system failure.
    Io(String),
}

/// The message that an error carries.
pub open spec fn error_message(e: AppError) -> Seq<char> {
    match e {
        AppError::Validation(m) => m@,
        AppError::Network(m) => m@,
        AppError::Json(m) => m@,
        AppError::Database(m) => m@,
        AppError::Io(m) => m@,
    }
}

impl AppError {
    /// The message that the error carries, as the error reads.
    pub fn message(&self) -> (r: String)
        ensures
            r@ == error_message(*self),
    {
        match self {
            AppError::Validation(m) => m.clone(),
            AppError::Network(m) => m.clone(),
            AppError::Json(m) => m.clone(),
            AppError::Database(m) => m.clone(),
            AppError::Io(m) => m.clone(),
        }
    }
}

} // verus!
