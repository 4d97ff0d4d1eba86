//! The library's error type.

use vstd::prelude::*;

verus! {

/// An error reported to the user.
pub enum AppError {
    /// A failure described by its message.
    Other(String),
    /// Shared state could not be locked.
    LockPoisoned,
}

impl AppError {
    /// The message shown for the error.
    pub fn message(&self) -> (r: String)
        ensures
            self matches AppError::Other(m) ==> r@ == m@,
            self is LockPoisoned ==> r@ == "internal state lock poisoned"@,
    {
        match self {
            AppError::Other(m) => m.clone(),
            AppError::LockPoisoned => crate::text::string_of(&crate::text::chars_of("internal state lock poisoned")),
        }
    }
}

} // verus!
