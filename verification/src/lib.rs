//! Error values that carry their context: a chain of causes, a simplified
//! call stack for every link of it, and the concrete type behind each link.
//!
//! A chain is made of nodes (`Error`), each with a message, and may end in
//! foreign errors (`External`). It is rendered at three levels of detail,
//! walked to its first external cause or to its innermost link, and asked
//! for the concrete type behind a link. `Wrapper` adds wrapping and bounded
//! retries to any result whose failure can stand in a chain.

use vstd::prelude::*;

pub mod backtrace;
pub mod error;
pub mod format;
pub mod misc;
pub mod prelude;
pub mod result;
pub mod term;
pub mod text;
pub mod wrapper;

pub use crate::error::Error;
pub use crate::wrapper::Wrapper;

verus! {

/// Name of the configuration variable that enables or disables colour.
pub const WITCHER_COLOR: &'static str = "WITCHER_COLOR";

/// Name of the configuration variable that enables or disables the complete
/// stack in the full rendering.
pub const WITCHER_FULLSTACK: &'static str = "WITCHER_FULLSTACK";

/// `Result<T>` is a simplified return type to use throughout an application.
pub type Result<T, E = Error> = std::result::Result<T, E>;

/// `std::fmt::Error`, the error of a formatting operation; nothing is known
/// of a value of it.
#[verifier::external_type_specification]
#[verifier::external_body]
pub struct ExFmtError(std::fmt::Error);

} // verus!
