//! The ways in which shredding a single file is refused or fails.

use vstd::prelude::*;

verus! {

/// Why a file was not admitted, or why its entry could not be obscured.
#[derive(Clone, Copy, Debug, PartialEq, Eq, Structural)]
pub enum ShredError {
    /// Nothing exists at the path (a dangling link included).
    NotFound,
    /// The path is a symbolic link.
    RefusedSymlink,
    /// The path is a directory, a device or another non-regular file.
    NotAFile,
    /// The file's permissions forbid writing.
    ReadOnly,
    /// The operator did not confirm.
    AbortedByUser,
    /// The path has no final name component.
    InvalidName,
}

} // verus!
