//! The essential names of the library in one place.

pub use crate::error::Error;
pub use crate::error::TypeTag;
pub use crate::wrapper::Wrapper;
pub use crate::Result;
pub use crate::WITCHER_COLOR;
pub use crate::WITCHER_FULLSTACK;
pub use std::any::TypeId;
