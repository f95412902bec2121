//! The registry as a mathematical value, and what each operation makes of it.

use vstd::prelude::*;
use crate::error::Error;

verus! {

/// A pre-validated byte range: the offset at which a chunk starts, and the
/// end offset that the client declared for it.
#[derive(Clone, Copy, Debug, PartialEq, Eq, Structural)]
pub struct ByteRange {
    pub start: usize,
    pub end: usize,
}

/// What one repository holds: its sessions in progress, id to the bytes
/// received so far, and its blobs, digest to content.
pub struct RepositoryState {
    pub uploads: Map<Seq<char>, Seq<u8>>,
    pub layers: Map<Seq<char>, Seq<u8>>,
}

/// The whole registry: repository name to what the repository holds.
pub type RegistryState = Map<Seq<char>, RepositoryState>;

/// A repository that holds nothing.
pub open spec fn empty_repository() -> RepositoryState {
    RepositoryState { uploads: Map::empty(), layers: Map::empty() }
}

/// Whether session `id` is in progress in `repository`.
pub open spec fn has_session(s: RegistryState, repository: Seq<char>, id: Seq<char>) -> bool {
    s.dom().contains(repository) && s[repository].uploads.dom().contains(id)
}

/// Whether `repository` holds a blob under `digest`.
pub open spec fn has_blob(s: RegistryState, repository: Seq<char>, digest: Seq<char>) -> bool {
    s.dom().contains(repository) && s[repository].layers.dom().contains(digest)
}

/// Whether an upload whose range is `range` is in step with session `id`:
/// with no range nothing is asked, with one its start must be the
/// session's current length. The declared end is not looked at.
pub open spec fn in_step(
    s: RegistryState,
    repository: Seq<char>,
    id: Seq<char>,
    range: Option<ByteRange>,
) -> bool {
    match range {
        None => true,
        Some(r) => s[repository].uploads[id].len() == r.start,
    }
}

/// The registry after a session `id` was opened in `repository`: the
/// repository exists, and the session is there with no bytes.
pub open spec fn after_start(s: RegistryState, repository: Seq<char>, id: Seq<char>) -> RegistryState {
    let r = if s.dom().contains(repository) {
        s[repository]
    } else {
        empty_repository()
    };
    s.insert(
        repository,
        RepositoryState { uploads: r.uploads.insert(id, Seq::<u8>::empty()), layers: r.layers },
    )
}

/// The registry after `bytes` were appended to session `id`.
pub open spec fn after_append(
    s: RegistryState,
    repository: Seq<char>,
    id: Seq<char>,
    bytes: Seq<u8>,
) -> RegistryState {
    let r = s[repository];
    s.insert(
        repository,
        RepositoryState { uploads: r.uploads.insert(id, r.uploads[id] + bytes), layers: r.layers },
    )
}

/// The registry after session `id` was committed with the last `bytes`
/// under `digest`: the session is gone, the blob is the whole buffer.
pub open spec fn after_commit(
    s: RegistryState,
    repository: Seq<char>,
    id: Seq<char>,
    bytes: Seq<u8>,
    digest: Seq<char>,
) -> RegistryState {
    let r = s[repository];
    s.insert(
        repository,
        RepositoryState {
            uploads: r.uploads.remove(id),
            layers: r.layers.insert(digest, r.uploads[id] + bytes),
        },
    )
}

/// The registry after session `id` was discarded.
pub open spec fn after_delete(s: RegistryState, repository: Seq<char>, id: Seq<char>) -> RegistryState {
    let r = s[repository];
    s.insert(repository, RepositoryState { uploads: r.uploads.remove(id), layers: r.layers })
}

/// The answer to a status request on session `id`: its current length, or
/// the reason why there is none.
pub open spec fn status_answer(
    s: RegistryState,
    repository: Seq<char>,
    id: Seq<char>,
    length: Result<usize, Error>,
) -> bool {
    match length {
        Ok(n) => has_session(s, repository, id) && n == s[repository].uploads[id].len(),
        Err(Error::RepositoryNotFound) => !s.dom().contains(repository),
        Err(Error::SessionNotFound) => s.dom().contains(repository) && !has_session(
            s,
            repository,
            id,
        ),
        Err(_) => false,
    }
}

/// The answer to an upload of `bytes` at `range` into session `id`, be it
/// a chunk or the last write: the length of the buffer with the bytes, or
/// the reason why they were refused. An offset conflict carries the
/// session's current length.
pub open spec fn upload_answer(
    s: RegistryState,
    repository: Seq<char>,
    id: Seq<char>,
    bytes: Seq<u8>,
    range: Option<ByteRange>,
    length: Result<usize, Error>,
) -> bool {
    match length {
        Ok(n) => has_session(s, repository, id) && in_step(s, repository, id, range) && n
            == s[repository].uploads[id].len() + bytes.len(),
        Err(Error::RepositoryNotFound) => !s.dom().contains(repository),
        Err(Error::SessionNotFound) => s.dom().contains(repository) && !has_session(
            s,
            repository,
            id,
        ),
        Err(Error::OffsetConflict { current_length }) => has_session(s, repository, id) && !in_step(
            s,
            repository,
            id,
            range,
        ) && current_length == s[repository].uploads[id].len(),
        Err(_) => false,
    }
}

/// The answer to the deletion of session `id`: the length of what was
/// discarded. An unknown repository counts as an unknown session.
pub open spec fn delete_answer(
    s: RegistryState,
    repository: Seq<char>,
    id: Seq<char>,
    length: Result<usize, Error>,
) -> bool {
    match length {
        Ok(n) => has_session(s, repository, id) && n == s[repository].uploads[id].len(),
        Err(Error::SessionNotFound) => !has_session(s, repository, id),
        Err(_) => false,
    }
}

/// The answer to an existence check on `digest`: the length of the blob.
pub open spec fn head_answer(
    s: RegistryState,
    repository: Seq<char>,
    digest: Seq<char>,
    length: Result<usize, Error>,
) -> bool {
    match length {
        Ok(n) => has_blob(s, repository, digest) && n == s[repository].layers[digest].len(),
        Err(Error::RepositoryNotFound) => !s.dom().contains(repository),
        Err(Error::BlobNotFound) => s.dom().contains(repository) && !has_blob(
            s,
            repository,
            digest,
        ),
        Err(_) => false,
    }
}

} // verus!
