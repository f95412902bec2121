//! The finalized blobs of one repository, addressed by digest.

use vstd::prelude::*;
use crate::storage::table::ByteTable;

verus! {

/// The immutable blobs of one repository.
pub struct BlobStore {
    blobs: ByteTable,
}

impl BlobStore {
    pub closed spec fn wf(&self) -> bool {
        self.blobs.wf()
    }

    /// Digest to content.
    pub closed spec fn view(&self) -> Map<Seq<char>, Seq<u8>> {
        self.blobs@
    }

    /// A store without blobs.
    pub fn new() -> (s: BlobStore)
        ensures
            s.wf(),
            s@ == Map::<Seq<char>, Seq<u8>>::empty(),
    {
        BlobStore { blobs: ByteTable::new() }
    }

    /// Makes `bytes` the content of `digest`, whatever it was before.
    pub fn put(&mut self, digest: String, bytes: Vec<u8>)
        requires
            old(self).wf(),
        ensures
            final(self).wf(),
            final(self)@ == old(self)@.insert(digest@, bytes@),
    {
        self.blobs.put(digest, bytes);
    }

    /// The length of the blob under `digest`, if there is one.
    pub fn get(&self, digest: &String) -> (r: Option<usize>)
        requires
            self.wf(),
        ensures
            r.is_some() == self@.dom().contains(digest@),
            r.is_some() ==> r.unwrap() == self@[digest@].len(),
    {
        self.blobs.len_of(digest)
    }
}

} // verus!
