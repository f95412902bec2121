//! The upload sessions of one repository: append-only buffers in progress.

use vstd::prelude::*;
use crate::error::Error;
use crate::storage::table::ByteTable;

verus! {

/// Draws a session id from `uuid::Uuid::new_v4` and writes it out with the
/// crate's `to_string`. The id is random, so nothing is claimed of it; the
/// draw fails only where the system has no random numbers to give.
#[verifier::external_body]
pub(crate) fn fresh_session_id() -> (id: String) {
    uuid::Uuid::new_v4().to_string()
}

/// The sessions in progress, each an id with the bytes received so far.
pub struct UploadTable {
    sessions: ByteTable,
}

impl UploadTable {
    pub closed spec fn wf(&self) -> bool {
        self.sessions.wf()
    }

    /// Session id to the bytes received so far.
    pub closed spec fn view(&self) -> Map<Seq<char>, Seq<u8>> {
        self.sessions@
    }

    /// A table without sessions.
    pub fn new() -> (t: UploadTable)
        ensures
            t.wf(),
            t@ == Map::<Seq<char>, Seq<u8>>::empty(),
    {
        UploadTable { sessions: ByteTable::new() }
    }

    /// Opens a session under `id` with an empty buffer. A session that
    /// already had this id starts over.
    pub fn create_with_id(&mut self, id: String)
        requires
            old(self).wf(),
        ensures
            final(self).wf(),
            final(self)@ == old(self)@.insert(id@, Seq::<u8>::empty()),
    {
        self.sessions.put(id, Vec::new());
    }

    /// Opens a session under a freshly drawn id, and returns the id.
    pub fn create(&mut self) -> (id: String)
        requires
            old(self).wf(),
        ensures
            final(self).wf(),
            final(self)@ == old(self)@.insert(id@, Seq::<u8>::empty()),
    {
        let id = fresh_session_id();
        self.create_with_id(id.clone());
        id
    }

    /// The current length of the session `id`, if it is in progress.
    pub fn get(&self, id: &String) -> (r: Option<usize>)
        requires
            self.wf(),
        ensures
            r.is_some() == self@.dom().contains(id@),
            r.is_some() ==> r.unwrap() == self@[id@].len(),
    {
        self.sessions.len_of(id)
    }

    /// Appends `bytes` to the session `id` if `offset` is exactly its
    /// current length, and returns the new length. Otherwise nothing
    /// changes, and the error carries the current length.
    pub fn append(&mut self, id: &String, offset: usize, bytes: &[u8]) -> (r: Result<usize, Error>)
        requires
            old(self).wf(),
        ensures
            final(self).wf(),
            append_answer(old(self)@, id@, offset, bytes@, r),
            r.is_ok() ==> final(self)@ == old(self)@.insert(id@, old(self)@[id@] + bytes@),
            r.is_err() ==> final(self)@ == old(self)@,
    {
        match self.sessions.len_of(id) {
            None => Err(Error::SessionNotFound),
            Some(current) => {
                if current != offset {
                    Err(Error::OffsetConflict { current_length: current })
                } else {
                    match self.sessions.extend(id, bytes) {
                        Some(n) => Ok(n),
                        None => Err(Error::SessionNotFound),
                    }
                }
            },
        }
    }

    /// Detaches the session `id` and returns its whole buffer.
    pub fn remove(&mut self, id: &String) -> (r: Option<Vec<u8>>)
        requires
            old(self).wf(),
        ensures
            final(self).wf(),
            r.is_some() == old(self)@.dom().contains(id@),
            r.is_some() ==> r.unwrap()@ == old(self)@[id@],
            final(self)@ == old(self)@.remove(id@),
    {
        self.sessions.remove(id)
    }
}

/// The answer to an append at `offset` on the sessions `m`: the new
/// length, or the reason why nothing was appended.
pub open spec fn append_answer(
    m: Map<Seq<char>, Seq<u8>>,
    id: Seq<char>,
    offset: usize,
    bytes: Seq<u8>,
    r: Result<usize, Error>,
) -> bool {
    match r {
        Ok(n) => m.dom().contains(id) && m[id].len() == offset && n == offset + bytes.len(),
        Err(Error::SessionNotFound) => !m.dom().contains(id),
        Err(Error::OffsetConflict { current_length }) => m.dom().contains(id) && m[id].len()
            != offset && current_length == m[id].len(),
        Err(_) => false,
    }
}

} // verus!
