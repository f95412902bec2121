//! The storage engine: per-repository upload sessions and finalized blobs.

use vstd::prelude::*;
use bytes::Bytes;
use crate::error::Error;
use crate::storage::model::{
    after_append, after_commit, after_delete, after_start, delete_answer, head_answer,
    status_answer, upload_answer, ByteRange, RegistryState,
};

pub mod blobs;
pub mod guarantees;
pub mod memory;
pub mod model;
pub mod table;
pub mod uploads;

verus! {

/// The byte buffer of the `bytes` crate, in which request bodies arrive.
#[verifier::external_type_specification]
#[verifier::external_body]
pub struct ExBytes(bytes::Bytes);

/// The bytes that a `Bytes` value holds, in order.
pub uninterp spec fn bytes_contents(data: Bytes) -> Seq<u8>;

/// Borrows the contents of a `Bytes` value through its `as_ref`, which
/// hands out the whole buffer as a slice.
#[verifier::external_body]
pub(crate) fn bytes_as_slice(data: &Bytes) -> (s: &[u8])
    ensures
        s@ == bytes_contents(*data),
{
    data.as_ref()
}

/// A session as the client resumes it: where it lives and how many bytes
/// it holds.
#[derive(Debug)]
pub struct UploadStatus {
    pub repository: String,
    pub id: String,
    pub length: usize,
}

/// A committed blob: its identity, its length and, where the last write
/// came with a range, the range that the whole blob covers.
#[derive(Debug)]
pub struct Committed {
    pub repository: String,
    pub digest: String,
    pub length: usize,
    pub range: Option<ByteRange>,
}

/// A blob that exists: its digest and the length of its content.
#[derive(Debug)]
pub struct BlobInfo {
    pub digest: String,
    pub length: usize,
}

/// The length that an upload status reports, or the error.
pub open spec fn status_length(r: Result<UploadStatus, Error>) -> Result<usize, Error> {
    match r {
        Ok(u) => Ok(u.length),
        Err(e) => Err(e),
    }
}

/// Whether a status, if there is one, names this repository and session.
pub open spec fn names_session(
    r: Result<UploadStatus, Error>,
    repository: Seq<char>,
    id: Seq<char>,
) -> bool {
    r.is_ok() ==> r.unwrap().repository@ == repository && r.unwrap().id@ == id
}

/// The length that a commit reports, or the error.
pub open spec fn committed_length(r: Result<Committed, Error>) -> Result<usize, Error> {
    match r {
        Ok(c) => Ok(c.length),
        Err(e) => Err(e),
    }
}

/// The length that an existence check reports, or the error.
pub open spec fn blob_length(r: Result<BlobInfo, Error>) -> Result<usize, Error> {
    match r {
        Ok(b) => Ok(b.length),
        Err(e) => Err(e),
    }
}

/// The range that a commit of `length` bytes reports for the range it
/// was given: the whole blob, where there was one.
pub open spec fn committed_range(range: Option<ByteRange>, length: usize) -> Option<ByteRange> {
    match range {
        None => None,
        Some(_) => Some(ByteRange { start: 0, end: length }),
    }
}

/// The six operations of the upload protocol, which every storage backend
/// offers. `state` is what the backend holds; each operation says what it
/// answers on that state and what the state is afterwards.
pub trait Backend {
    /// The backend's own consistency condition.
    spec fn wf(&self) -> bool;

    /// What the backend holds.
    spec fn state(&self) -> RegistryState;

    /// Opens a session in `repository`, creating the repository if it is
    /// not there. Never refused.
    fn start_upload(&mut self, repository: String) -> (r: UploadStatus)
        requires
            old(self).wf(),
        ensures
            final(self).wf(),
            r.repository@ == repository@,
            r.length == 0,
            final(self).state() == after_start(old(self).state(), repository@, r.id@),
    ;

    /// Reports the current length of session `id`.
    fn get_upload(&self, repository: String, id: String) -> (r: Result<UploadStatus, Error>)
        requires
            self.wf(),
        ensures
            status_answer(self.state(), repository@, id@, status_length(r)),
            names_session(r, repository@, id@),
    ;

    /// Appends a chunk to session `id` if `range` starts at its current
    /// length. A refused chunk changes nothing.
    fn chunk_upload(&mut self, repository: String, id: String, data: &Bytes, range: ByteRange) -> (r:
        Result<UploadStatus, Error>)
        requires
            old(self).wf(),
        ensures
            final(self).wf(),
            upload_answer(
                old(self).state(),
                repository@,
                id@,
                bytes_contents(*data),
                Some(range),
                status_length(r),
            ),
            names_session(r, repository@, id@),
            r.is_ok() ==> final(self).state() == after_append(
                old(self).state(),
                repository@,
                id@,
                bytes_contents(*data),
            ),
            r.is_err() ==> final(self).state() == old(self).state(),
    ;

    /// Appends the last bytes to session `id`, ends the session and
    /// commits its buffer as the blob `digest`. With a range, its start
    /// must be the session's current length. A refused completion changes
    /// nothing.
    fn complete_upload(
        &mut self,
        repository: String,
        id: String,
        data: &Bytes,
        digest: String,
        range: Option<ByteRange>,
    ) -> (r: Result<Committed, Error>)
        requires
            old(self).wf(),
        ensures
            final(self).wf(),
            upload_answer(
                old(self).state(),
                repository@,
                id@,
                bytes_contents(*data),
                range,
                committed_length(r),
            ),
            r.is_ok() ==> r.unwrap().repository@ == repository@ && r.unwrap().digest@ == digest@
                && r.unwrap().range == committed_range(range, r.unwrap().length),
            r.is_ok() ==> final(self).state() == after_commit(
                old(self).state(),
                repository@,
                id@,
                bytes_contents(*data),
                digest@,
            ),
            r.is_err() ==> final(self).state() == old(self).state(),
    ;

    /// Discards session `id` and reports the length of what it held.
    fn delete_upload(&mut self, repository: String, id: String) -> (r: Result<UploadStatus, Error>)
        requires
            old(self).wf(),
        ensures
            final(self).wf(),
            delete_answer(old(self).state(), repository@, id@, status_length(r)),
            names_session(r, repository@, id@),
            r.is_ok() ==> final(self).state() == after_delete(old(self).state(), repository@, id@),
            r.is_err() ==> final(self).state() == old(self).state(),
    ;

    /// Reports whether `repository` holds a blob under `digest`, and its
    /// length.
    fn head_layer(&self, repository: String, digest: String) -> (r: Result<BlobInfo, Error>)
        requires
            self.wf(),
        ensures
            head_answer(self.state(), repository@, digest@, blob_length(r)),
            r.is_ok() ==> r.unwrap().digest@ == digest@,
    ;
}

} // verus!
