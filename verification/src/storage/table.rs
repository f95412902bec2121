//! An associative container from string keys to byte buffers.

use vstd::prelude::*;

verus! {

/// One key with the bytes stored under it.
struct Entry {
    key: String,
    data: Vec<u8>,
}

/// A finite map from strings to byte buffers, kept as a list of entries
/// in which no key occurs twice.
pub struct ByteTable {
    entries: Vec<Entry>,
}

impl ByteTable {
    /// No two entries share a key.
    pub closed spec fn wf(&self) -> bool {
        forall|i: int, j: int|
            0 <= i < self.entries.len() && 0 <= j < self.entries.len()
                && self.entries[i].key@ == self.entries[j].key@ ==> i == j
    }

    spec fn has_at(&self, key: Seq<char>, i: int) -> bool {
        0 <= i < self.entries.len() && self.entries[i].key@ == key
    }

    /// The map that the table stands for.
    pub closed spec fn view(&self) -> Map<Seq<char>, Seq<u8>> {
        Map::new(
            |k: Seq<char>| exists|i: int| self.has_at(k, i),
            |k: Seq<char>| self.entries[choose|i: int| self.has_at(k, i)].data@,
        )
    }

    proof fn lemma_at(&self, key: Seq<char>, i: int)
        requires
            self.wf(),
            self.has_at(key, i),
        ensures
            self@.dom().contains(key),
            self@[key] == self.entries[i].data@,
    {
        let j = choose|j: int| self.has_at(key, j);
        assert(i == j);
    }

    /// The empty table.
    pub fn new() -> (t: ByteTable)
        ensures
            t.wf(),
            t@ == Map::<Seq<char>, Seq<u8>>::empty(),
    {
        let t = ByteTable { entries: Vec::new() };
        assert(t@ =~= Map::<Seq<char>, Seq<u8>>::empty());
        t
    }

    fn find(&self, key: &String) -> (r: Option<usize>)
        requires
            self.wf(),
        ensures
            match r {
                Some(i) => self.has_at(key@, i as int),
                None => !self@.dom().contains(key@),
            },
    {
        let mut i: usize = 0;
        while i < self.entries.len()
            invariant
                i <= self.entries.len(),
                forall|j: int| 0 <= j < i ==> !self.has_at(key@, j),
            decreases self.entries.len() - i,
        {
            if self.entries[i].key == *key {
                return Some(i);
            }
            i += 1;
        }
        None
    }

    /// The length of the bytes under `key`, if the key is present.
    pub fn len_of(&self, key: &String) -> (r: Option<usize>)
        requires
            self.wf(),
        ensures
            r.is_some() == self@.dom().contains(key@),
            r.is_some() ==> r.unwrap() == self@[key@].len(),
    {
        match self.find(key) {
            Some(i) => {
                proof {
                    self.lemma_at(key@, i as int);
                }
                Some(self.entries[i].data.len())
            },
            None => None,
        }
    }

    /// The entries decide the view: a map that holds each entry, and
    /// nothing but entries, is the view.
    proof fn lemma_view_is(&self, m: Map<Seq<char>, Seq<u8>>)
        requires
            self.wf(),
            forall|i: int|
                0 <= i < self.entries.len() ==> m.dom().contains(#[trigger] self.entries[i].key@)
                    && m[self.entries[i].key@] == self.entries[i].data@,
            forall|k: Seq<char>| m.dom().contains(k) ==> exists|i: int| self.has_at(k, i),
        ensures
            self@ == m,
    {
        assert forall|k: Seq<char>| self@.dom().contains(k) implies m.dom().contains(k) by {
            let j = choose|j: int| self.has_at(k, j);
            assert(m.dom().contains(self.entries[j].key@));
        }
        assert forall|k: Seq<char>| self@.dom().contains(k) implies #[trigger] self@[k] == m[k] by {
            let j = choose|j: int| self.has_at(k, j);
            self.lemma_at(k, j);
            assert(m.dom().contains(self.entries[j].key@));
        }
        assert(self@ =~= m);
    }

    /// Every entry is in the view.
    proof fn lemma_entries_in_view(&self)
        requires
            self.wf(),
        ensures
            forall|i: int|
                0 <= i < self.entries.len() ==> self@.dom().contains(#[trigger] self.entries[i].key@)
                    && self@[self.entries[i].key@] == self.entries[i].data@,
            forall|k: Seq<char>| self@.dom().contains(k) ==> exists|i: int| self.has_at(k, i),
    {
        assert forall|i: int| 0 <= i < self.entries.len() implies self@.dom().contains(
            #[trigger] self.entries[i].key@,
        ) && self@[self.entries[i].key@] == self.entries[i].data@ by {
            assert(self.has_at(self.entries[i].key@, i));
            self.lemma_at(self.entries[i].key@, i);
        }
    }

    /// Stores `data` under `key`, replacing what was there.
    pub fn put(&mut self, key: String, data: Vec<u8>)
        requires
            old(self).wf(),
        ensures
            final(self).wf(),
            final(self)@ == old(self)@.insert(key@, data@),
    {
        let ghost k = key@;
        let ghost m = old(self)@.insert(key@, data@);
        proof {
            old(self).lemma_entries_in_view();
        }
        match self.find(&key) {
            Some(i) => {
                self.entries[i].data = data;
                proof {
                    assert(self.has_at(k, i as int));
                    assert forall|q: Seq<char>| m.dom().contains(q) implies exists|j: int|
                        self.has_at(q, j) by {
                        if q != k {
                            let j = choose|j: int| old(self).has_at(q, j);
                            assert(self.has_at(q, j));
                        }
                    }
                    self.lemma_view_is(m);
                }
            },
            None => {
                self.entries.push(Entry { key, data });
                proof {
                    let n = old(self).entries.len() as int;
                    assert(self.has_at(k, n));
                    assert forall|q: Seq<char>| m.dom().contains(q) implies exists|j: int|
                        self.has_at(q, j) by {
                        if q != k {
                            let j = choose|j: int| old(self).has_at(q, j);
                            assert(self.has_at(q, j));
                        }
                    }
                    self.lemma_view_is(m);
                }
            },
        }
    }

    /// Appends `bytes` to what is stored under `key`, and returns the new
    /// length; `None`, and no change, where the key is absent.
    pub fn extend(&mut self, key: &String, bytes: &[u8]) -> (r: Option<usize>)
        requires
            old(self).wf(),
        ensures
            final(self).wf(),
            r.is_some() == old(self)@.dom().contains(key@),
            r.is_some() ==> r.unwrap() == old(self)@[key@].len() + bytes@.len() && final(self)@
                == old(self)@.insert(key@, old(self)@[key@] + bytes@),
            r.is_none() ==> final(self)@ == old(self)@,
    {
        let ghost k = key@;
        proof {
            old(self).lemma_entries_in_view();
        }
        match self.find(key) {
            Some(i) => {
                let ghost m = old(self)@.insert(k, old(self)@[k] + bytes@);
                self.entries[i].data.extend_from_slice(bytes);
                proof {
                    assert(self.entries[i as int].data@ =~= old(self).entries[i as int].data@
                        + bytes@);
                    assert(self.has_at(k, i as int));
                    assert forall|q: Seq<char>| m.dom().contains(q) implies exists|j: int|
                        self.has_at(q, j) by {
                        if q != k {
                            let j = choose|j: int| old(self).has_at(q, j);
                            assert(self.has_at(q, j));
                        }
                    }
                    self.lemma_view_is(m);
                }
                Some(self.entries[i].data.len())
            },
            None => None,
        }
    }

    /// Detaches and returns what is stored under `key`; `None`, and no
    /// change, where the key is absent.
    pub fn remove(&mut self, key: &String) -> (r: Option<Vec<u8>>)
        requires
            old(self).wf(),
        ensures
            final(self).wf(),
            r.is_some() == old(self)@.dom().contains(key@),
            r.is_some() ==> r.unwrap()@ == old(self)@[key@],
            final(self)@ == old(self)@.remove(key@),
    {
        let ghost k = key@;
        let ghost m = old(self)@.remove(k);
        proof {
            old(self).lemma_entries_in_view();
        }
        match self.find(key) {
            Some(i) => {
                let e = self.entries.remove(i);
                proof {
                    assert forall|j: int| 0 <= j < self.entries.len() implies self.entries[j]
                        == old(self).entries[if j < i { j } else { j + 1 }] by {}
                    assert forall|q: Seq<char>| m.dom().contains(q) implies exists|j: int|
                        self.has_at(q, j) by {
                        let j = choose|j: int| old(self).has_at(q, j);
                        if j < i {
                            assert(self.has_at(q, j));
                        } else {
                            assert(self.has_at(q, j - 1));
                        }
                    }
                    self.lemma_view_is(m);
                }
                Some(e.data)
            },
            None => {
                assert(self@ =~= m);
                None
            },
        }
    }
}

} // verus!
