//! Error values used across the crate.

use vstd::prelude::*;

verus! {

/// Enumeration of all possible error types.
#[derive(Debug)]
pub enum Error {
    /// Reading from or writing to the outside world failed; the payload
    /// carries the reported reason.
    IO(String),
    /// A category code number was out of range; the payload carries the
    /// offending text.
    InvalidCategoryCode(String),
    /// A directory does not exist or is not a directory.
    InvalidDirectory(String),
    /// A filename does not exist or is not a file.
    InvalidFilename(String),
}

} // verus!
