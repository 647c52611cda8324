//! The one error type of the library.

use vstd::prelude::*;

verus! {

/// Why an operation failed, with the text that the user reads.
#[derive(Debug)]
pub enum AppError {
    /// A rule of this library.
    Message(String),
    /// The file system.
    Io(String),
    /// A document that is no JSON, or not of the expected shape.
    Json(String),
    /// A transfer.
    Http(String),
}

/// What an [`AppError`] says.
pub enum ErrorModel {
    Message(Seq<char>),
    Io(Seq<char>),
    Json(Seq<char>),
    Http(Seq<char>),
}

impl ErrorModel {
    /// The text alone.
    pub open spec fn text(self) -> Seq<char> {
        match self {
            ErrorModel::Message(text) => text,
            ErrorModel::Io(text) => text,
            ErrorModel::Json(text) => text,
            ErrorModel::Http(text) => text,
        }
    }
}

impl View for AppError {
    type V = ErrorModel;

    open spec fn view(&self) -> ErrorModel {
        match self {
            AppError::Message(text) => ErrorModel::Message(text@),
            AppError::Io(text) => ErrorModel::Io(text@),
            AppError::Json(text) => ErrorModel::Json(text@),
            AppError::Http(text) => ErrorModel::Http(text@),
        }
    }
}

impl AppError {
    /// The text of the error.
    pub fn message(&self) -> (text: String)
        ensures
            text@ == self@.text(),
    {
        match self {
            AppError::Message(text) => text.clone(),
            AppError::Io(text) => text.clone(),
            AppError::Json(text) => text.clone(),
            AppError::Http(text) => text.clone(),
        }
    }
}

/// What is wrong with an outcome: `None` for success.
pub open spec fn fault<T>(outcome: Result<T, AppError>) -> Option<ErrorModel> {
    match outcome {
        Ok(_) => None,
        Err(error) => Some(error@),
    }
}

/// The error of a broken rule.
pub open spec fn broken(text: Seq<char>) -> Option<ErrorModel> {
    Some(ErrorModel::Message(text))
}

/// The first of two faults, where the second is looked for only when the first is none.
pub open spec fn either(first: Option<ErrorModel>, second: Option<ErrorModel>) -> Option<
    ErrorModel,
> {
    if first is Some {
        first
    } else {
        second
    }
}

} // verus!
