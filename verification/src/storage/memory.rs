//! A backend that keeps every repository in memory.

use vstd::prelude::*;
use bytes::Bytes;
use crate::error::Error;
use crate::storage::blobs::BlobStore;
use crate::storage::model::{
    after_start, empty_repository, ByteRange, RegistryState, RepositoryState,
};
use crate::storage::uploads::{fresh_session_id, UploadTable};
use crate::storage::{bytes_as_slice, bytes_contents, Backend, BlobInfo, Committed, UploadStatus};

verus! {

/// One repository: its name, its sessions in progress and its blobs.
struct Repository {
    name: String,
    uploads: UploadTable,
    layers: BlobStore,
}

impl Repository {
    spec fn wf(&self) -> bool {
        self.uploads.wf() && self.layers.wf()
    }

    /// What the repository holds.
    spec fn view(&self) -> RepositoryState {
        RepositoryState { uploads: self.uploads@, layers: self.layers@ }
    }
}

/// The registry in memory: a directory of repositories, each created when
/// it is first used, in which no name occurs twice.
pub struct MemoryBackend {
    repos: Vec<Repository>,
}

impl MemoryBackend {
    /// Every repository is consistent, and no two share a name.
    pub closed spec fn inv(&self) -> bool {
        &&& forall|i: int| 0 <= i < self.repos.len() ==> (#[trigger] self.repos[i]).wf()
        &&& forall|i: int, j: int|
            0 <= i < self.repos.len() && 0 <= j < self.repos.len() && self.repos[i].name@
                == self.repos[j].name@ ==> i == j
    }

    spec fn has_at(&self, name: Seq<char>, i: int) -> bool {
        0 <= i < self.repos.len() && self.repos[i].name@ == name
    }

    /// Repository name to what the repository holds.
    pub closed spec fn view(&self) -> RegistryState {
        Map::new(
            |k: Seq<char>| exists|i: int| self.has_at(k, i),
            |k: Seq<char>| self.repos[choose|i: int| self.has_at(k, i)]@,
        )
    }

    proof fn lemma_at(&self, name: Seq<char>, i: int)
        requires
            self.inv(),
            self.has_at(name, i),
        ensures
            self@.dom().contains(name),
            self@[name] == self.repos[i]@,
    {
        let j = choose|j: int| self.has_at(name, j);
        assert(i == j);
    }

    /// The registry after the repository at `i` alone has changed, from
    /// one consistent value to another, under the same name.
    proof fn lemma_changed_at(&self, before: &MemoryBackend, i: int)
        requires
            before.inv(),
            0 <= i < before.repos.len(),
            self.repos.len() == before.repos.len(),
            self.repos[i].wf(),
            self.repos[i].name@ == before.repos[i].name@,
            forall|j: int| 0 <= j < self.repos.len() && j != i ==> self.repos[j] == before.repos[j],
        ensures
            self.inv(),
            self@ == before@.insert(before.repos[i].name@, self.repos[i]@),
    {
        let m = before@.insert(before.repos[i].name@, self.repos[i]@);
        assert forall|j: int| 0 <= j < self.repos.len() implies (#[trigger] self.repos[j]).wf() by {
            if j != i {
                assert(before.repos[j].wf());
            }
        }
        assert forall|a: int, b: int|
            0 <= a < self.repos.len() && 0 <= b < self.repos.len() && self.repos[a].name@
                == self.repos[b].name@ implies a == b by {
            assert(before.repos[a].name@ == self.repos[a].name@);
            assert(before.repos[b].name@ == self.repos[b].name@);
        }
        assert forall|k: Seq<char>| self@.dom().contains(k) == m.dom().contains(k) by {
            if self@.dom().contains(k) {
                let j = choose|j: int| self.has_at(k, j);
                assert(before.has_at(k, j));
            }
            if before@.dom().contains(k) {
                let j = choose|j: int| before.has_at(k, j);
                assert(self.has_at(k, j));
            }
            if k == before.repos[i].name@ {
                assert(self.has_at(k, i));
            }
        }
        assert forall|k: Seq<char>| self@.dom().contains(k) implies #[trigger] self@[k] == m[k] by {
            let j = choose|j: int| self.has_at(k, j);
            self.lemma_at(k, j);
            assert(before.has_at(k, j));
            before.lemma_at(k, j);
        }
        assert(self@ =~= m);
    }

    /// A registry without repositories.
    pub fn new() -> (b: MemoryBackend)
        ensures
            b.inv(),
            b@ == Map::<Seq<char>, RepositoryState>::empty(),
    {
        let b = MemoryBackend { repos: Vec::new() };
        assert(b@ =~= Map::<Seq<char>, RepositoryState>::empty());
        b
    }

    /// Opens a session under `id` in `repository`, creating the repository
    /// if it is not there. A session of that repository that already had
    /// this id starts over; other repositories do not see the id.
    pub fn start_upload_with_id(&mut self, repository: String, id: String) -> (r: UploadStatus)
        requires
            old(self).inv(),
        ensures
            final(self).inv(),
            r.repository@ == repository@,
            r.id@ == id@,
            r.length == 0,
            final(self)@ == after_start(old(self)@, repository@, id@),
    {
        let i = self.get_or_create(&repository);
        let ghost mid = *self;
        self.repos[i].uploads.create_with_id(id.clone());
        proof {
            self.lemma_changed_at(&mid, i as int);
            assert(self@ =~= after_start(old(self)@, repository@, id@));
        }
        UploadStatus { repository, id, length: 0 }
    }

    /// Where the repository `name` stands in the directory, if it exists.
    /// Never creates one.
    fn get(&self, name: &String) -> (r: Option<usize>)
        requires
            self.inv(),
        ensures
            match r {
                Some(i) => self.has_at(name@, i as int) && self@.dom().contains(name@) && self@[name@]
                    == self.repos[i as int]@,
                None => !self@.dom().contains(name@),
            },
    {
        let mut i: usize = 0;
        while i < self.repos.len()
            invariant
                self.inv(),
                i <= self.repos.len(),
                forall|j: int| 0 <= j < i ==> !self.has_at(name@, j),
            decreases self.repos.len() - i,
        {
            if self.repos[i].name == *name {
                proof {
                    self.lemma_at(name@, i as int);
                }
                return Some(i);
            }
            i += 1;
        }
        None
    }

    /// Where the repository `name` stands in the directory, after creating
    /// it empty if it was not there.
    fn get_or_create(&mut self, name: &String) -> (i: usize)
        requires
            old(self).inv(),
        ensures
            final(self).inv(),
            final(self).has_at(name@, i as int),
            final(self)@ == (if old(self)@.dom().contains(name@) {
                old(self)@
            } else {
                old(self)@.insert(name@, empty_repository())
            }),
            final(self)@.dom().contains(name@),
            final(self)@[name@] == final(self).repos[i as int]@,
    {
        match self.get(name) {
            Some(i) => i,
            None => {
                let n = self.repos.len();
                self.repos.push(
                    Repository {
                        name: name.clone(),
                        uploads: UploadTable::new(),
                        layers: BlobStore::new(),
                    },
                );
                proof {
                    let m = old(self)@.insert(name@, empty_repository());
                    assert(self.has_at(name@, n as int));
                    assert forall|j: int| 0 <= j < self.repos.len() implies (
                    #[trigger] self.repos[j]).wf() by {
                        if j < n {
                            assert(old(self).repos[j].wf());
                        }
                    }
                    assert forall|a: int, b: int|
                        0 <= a < self.repos.len() && 0 <= b < self.repos.len()
                            && self.repos[a].name@ == self.repos[b].name@ implies a == b by {
                        if a == n && b != n {
                            assert(old(self).has_at(name@, b));
                        }
                        if b == n && a != n {
                            assert(old(self).has_at(name@, a));
                        }
                    }
                    assert forall|k: Seq<char>| self@.dom().contains(k) == m.dom().contains(k) by {
                        if self@.dom().contains(k) {
                            let j = choose|j: int| self.has_at(k, j);
                            if j != n {
                                assert(old(self).has_at(k, j));
                            }
                        }
                        if old(self)@.dom().contains(k) {
                            let j = choose|j: int| old(self).has_at(k, j);
                            assert(self.has_at(k, j));
                        }
                    }
                    assert forall|k: Seq<char>| self@.dom().contains(k) implies #[trigger] self@[k]
                        == m[k] by {
                        let j = choose|j: int| self.has_at(k, j);
                        self.lemma_at(k, j);
                        if j != n {
                            assert(old(self).has_at(k, j));
                            old(self).lemma_at(k, j);
                        } else {
                            assert(self.repos[n as int]@ == empty_repository());
                        }
                    }
                    assert(self@ =~= m);
                    self.lemma_at(name@, n as int);
                }
                n
            },
        }
    }
}

impl Default for MemoryBackend {
    fn default() -> (b: MemoryBackend)
        ensures
            b.inv(),
            b@ == Map::<Seq<char>, RepositoryState>::empty(),
    {
        MemoryBackend::new()
    }
}

impl Backend for MemoryBackend {
    open spec fn wf(&self) -> bool {
        self.inv()
    }

    open spec fn state(&self) -> RegistryState {
        self@
    }

    fn start_upload(&mut self, repository: String) -> (r: UploadStatus) {
        self.start_upload_with_id(repository, fresh_session_id())
    }

    fn get_upload(&self, repository: String, id: String) -> (r: Result<UploadStatus, Error>) {
        match self.get(&repository) {
            None => Err(Error::RepositoryNotFound),
            Some(i) => match self.repos[i].uploads.get(&id) {
                None => Err(Error::SessionNotFound),
                Some(length) => Ok(UploadStatus { repository, id, length }),
            },
        }
    }

    fn chunk_upload(&mut self, repository: String, id: String, data: &Bytes, range: ByteRange) -> (r:
        Result<UploadStatus, Error>) {
        match self.get(&repository) {
            None => Err(Error::RepositoryNotFound),
            Some(i) => {
                match self.repos[i].uploads.append(&id, range.start, bytes_as_slice(data)) {
                    Err(e) => {
                        proof {
                            self.lemma_changed_at(old(self), i as int);
                            assert(self@ =~= old(self)@);
                        }
                        Err(e)
                    },
                    Ok(length) => {
                        proof {
                            self.lemma_changed_at(old(self), i as int);
                        }
                        Ok(UploadStatus { repository, id, length })
                    },
                }
            },
        }
    }

    fn complete_upload(
        &mut self,
        repository: String,
        id: String,
        data: &Bytes,
        digest: String,
        range: Option<ByteRange>,
    ) -> (r: Result<Committed, Error>) {
        let i = match self.get(&repository) {
            None => {
                return Err(Error::RepositoryNotFound);
            },
            Some(i) => i,
        };
        let current = match self.repos[i].uploads.get(&id) {
            None => {
                return Err(Error::SessionNotFound);
            },
            Some(n) => n,
        };
        let ranged = match range {
            None => false,
            Some(r) => {
                if r.start != current {
                    return Err(Error::OffsetConflict { current_length: current });
                }
                true
            },
        };
        match self.repos[i].uploads.remove(&id) {
            None => Err(Error::SessionNotFound),
            Some(mut buffer) => {
                buffer.extend_from_slice(bytes_as_slice(data));
                let length = buffer.len();
                proof {
                    assert(buffer@ =~= old(self)@[repository@].uploads[id@] + bytes_contents(*data));
                }
                self.repos[i].layers.put(digest.clone(), buffer);
                proof {
                    self.lemma_changed_at(old(self), i as int);
                }
                let range = if ranged {
                    Some(ByteRange { start: 0, end: length })
                } else {
                    None
                };
                Ok(Committed { repository, digest, length, range })
            },
        }
    }

    fn delete_upload(&mut self, repository: String, id: String) -> (r: Result<UploadStatus, Error>) {
        match self.get(&repository) {
            None => Err(Error::SessionNotFound),
            Some(i) => match self.repos[i].uploads.remove(&id) {
                None => {
                    proof {
                        self.lemma_changed_at(old(self), i as int);
                        assert(self.repos[i as int]@.uploads =~= old(self).repos[i as int]@.uploads);
                        assert(self@ =~= old(self)@);
                    }
                    Err(Error::SessionNotFound)
                },
                Some(buffer) => {
                    proof {
                        self.lemma_changed_at(old(self), i as int);
                    }
                    Ok(UploadStatus { repository, id, length: buffer.len() })
                },
            },
        }
    }

    fn head_layer(&self, repository: String, digest: String) -> (r: Result<BlobInfo, Error>) {
        match self.get(&repository) {
            None => Err(Error::RepositoryNotFound),
            Some(i) => match self.repos[i].layers.get(&digest) {
                None => Err(Error::BlobNotFound),
                Some(length) => Ok(BlobInfo { digest, length }),
            },
        }
    }
}

} // verus!
