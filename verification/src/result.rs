//! The result type of functions that fail with a chain, and a way to drop
//! the result of a formatting operation on purpose.

use crate::error::Error;
use vstd::prelude::*;

verus! {

/// `Result<T>` is a simplified return type to use throughout an application.
pub type Result<T> = std::result::Result<T, Error>;

/// Lets the result of a formatting operation be ignored.
pub trait ResultExt {
    /// Simply consumes the result, ignoring it.
    fn omit(&self);
}

impl ResultExt for std::result::Result<(), std::fmt::Error> {
    fn omit(&self) {
        match self {
            Ok(_) => (),
            Err(_) => (),
        }
    }
}

} // verus!
