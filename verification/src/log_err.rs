//! Discarding errors on purpose.

use vstd::prelude::*;

verus! {

/// Turns a result into an option, giving up the error.
pub trait LogErr<T>: Sized {
    /// The value of a success.
    spec fn value(self) -> Option<T>;

    /// The value of a success; an error is of passing interest.
    fn warn_err(self) -> (v: Option<T>)
        ensures
            v == self.value(),
    ;

    /// The value of a success; an error should not have happened.
    fn log_err(self) -> (v: Option<T>)
        ensures
            v == self.value(),
    ;
}

impl<T, E> LogErr<T> for Result<T, E> {
    open spec fn value(self) -> Option<T> {
        match self {
            Ok(v) => Some(v),
            Err(_) => None,
        }
    }

    fn warn_err(self) -> Option<T> {
        match self {
            Ok(v) => Some(v),
            Err(_) => None,
        }
    }

    fn log_err(self) -> Option<T> {
        match self {
            Ok(v) => Some(v),
            Err(_) => None,
        }
    }
}

} // verus!
