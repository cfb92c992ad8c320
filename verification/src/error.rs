//! Errors the library reports.
use vstd::prelude::*;

verus! {

/// What went wrong; the text says where and why.
#[derive(Debug, Clone, PartialEq, Eq)]
pub enum AppError {
    CommandFailed(String),
    InvalidInput(String),
    InvalidConfig(String),
}

/// The result type of the library's fallible operations.
pub type AppResult<T> = Result<T, AppError>;

} // verus!
