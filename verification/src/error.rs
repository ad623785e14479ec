//! The error that a command ends with.

use vstd::prelude::*;

verus! {

/// A failed command: its exit code and what it says.
#[derive(Debug)]
pub struct AppError {
    pub code: i32,
    pub message: String,
}

/// The error with this exit code and message.
pub fn app_error(code: i32, message: &str) -> (r: AppError)
    ensures
        r.code == code,
        r.message@ == message@,
{
    AppError { code, message: message.to_owned() }
}

} // verus!
