//! A way to drop the result of a formatting operation on purpose.

use vstd::prelude::*;

verus! {

/// Lets the result of a formatting operation be ignored.
pub trait OmitExt {
    /// Simply consumes the result, ignoring it.
    fn omit(&self);
}

impl OmitExt for Result<(), std::fmt::Error> {
    fn omit(&self) {
        match self {
            Ok(_) => (),
            Err(_) => (),
        }
    }
}

} // verus!
