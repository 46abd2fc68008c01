//! The ways a resolution can fail.

use vstd::prelude::*;

verus! {

/// Why a path could not be resolved.
#[derive(Clone, Copy, Debug, PartialEq, Eq, Structural)]
pub enum ResolveError {
    /// The process working directory could not be determined.
    CwdUnavailable,
    /// A tilde needed expansion but no home directory is known.
    HomeNotFound,
    /// The base path is relative and cannot be made absolute.
    InvalidBase,
    /// The base path names a file that has no parent directory.
    NoParentDirectory,
}

} // verus!
