//! The conditions under which an operation of the registry is refused.

use vstd::prelude::*;

verus! {

/// Why an operation was refused. Every kind is an expected condition that
/// the client can recover from.
#[derive(Clone, Copy, Debug, PartialEq, Eq, Structural)]
pub enum Error {
    /// The repository was never created.
    RepositoryNotFound,
    /// The upload session is unknown, completed or deleted.
    SessionNotFound,
    /// The repository holds no blob under the digest.
    BlobNotFound,
    /// The declared start offset is not the session's current length.
    OffsetConflict { current_length: usize },
    /// The range token is not of the form `<start>-<end>`.
    MalformedRange,
}

} // verus!
