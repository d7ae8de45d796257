//! What can go wrong.

use vstd::prelude::*;

verus! {

/// A failed link step.
#[derive(Debug, PartialEq, Eq)]
pub enum Error {
    /// A table outgrew its format.
    Limit(&'static str),
    /// An input file is malformed.
    Malformed {
        /// The file.
        file: String,
        /// Where in it.
        offset: u64,
        /// What is wrong.
        what: String,
    },
    /// The linker contradicts itself.
    Internal(&'static str),
    /// An option that has no effect yet.
    Unimplemented(&'static str),
}

/// The outcome of a link step.
pub type LinkResult<T> = Result<T, Error>;

} // verus!
