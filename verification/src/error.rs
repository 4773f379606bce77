//! The ways in which a run can go wrong.

use vstd::prelude::*;

verus! {

/// What went wrong. None of these stops a run: the first two concern the
/// discovery of directories, the others a single directory.
#[derive(Clone, Copy, Debug, PartialEq, Eq, Structural)]
pub enum ErrorKind {
    /// Neither a membership declaration nor a directory scan was to be had.
    DiscoveryUnavailable,
    /// The workspace manifest was there but is not well-formed.
    ManifestParseError,
    /// The child process could not be started.
    SpawnFailure,
    /// The child process ran and did not report success.
    NonZeroExit,
    /// The directory could not be brought into its canonical form.
    PathResolutionError,
}

} // verus!
