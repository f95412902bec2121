//! What holds of the protocol whatever the registry holds, proved over the
//! functions in which the operations' contracts are written.

use vstd::prelude::*;
use crate::error::Error;
use crate::storage::model::{
    after_append, after_commit, after_delete, after_start, has_blob, has_session, head_answer,
    status_answer, upload_answer, delete_answer, ByteRange, RegistryState,
};

verus! {

/// An upload with a range into a session in progress is accepted exactly
/// when the range starts at the session's current length. Otherwise the
/// answer is an offset conflict that carries exactly that length. (That a
/// refused upload leaves the registry as it was is part of each
/// operation's own contract.)
pub proof fn append_is_contiguous(
    s: RegistryState,
    repository: Seq<char>,
    id: Seq<char>,
    bytes: Seq<u8>,
    range: ByteRange,
    answer: Result<usize, Error>,
)
    requires
        has_session(s, repository, id),
        upload_answer(s, repository, id, bytes, Some(range), answer),
    ensures
        answer.is_ok() <==> range.start == s[repository].uploads[id].len(),
        answer.is_ok() ==> answer.unwrap() == s[repository].uploads[id].len() + bytes.len(),
        answer.is_err() ==> (answer.unwrap_err() matches Error::OffsetConflict { current_length }
            && current_length == s[repository].uploads[id].len()),
{
}

/// An accepted chunk grows the session's buffer by exactly the chunk: what
/// was there stays in front, byte for byte.
pub proof fn append_extends_buffer(
    s: RegistryState,
    repository: Seq<char>,
    id: Seq<char>,
    bytes: Seq<u8>,
)
    requires
        has_session(s, repository, id),
    ensures
        has_session(after_append(s, repository, id, bytes), repository, id),
        after_append(s, repository, id, bytes)[repository].uploads[id]
            == s[repository].uploads[id] + bytes,
        s[repository].uploads[id].is_prefix_of(
            after_append(s, repository, id, bytes)[repository].uploads[id],
        ),
        after_append(s, repository, id, bytes)[repository].layers == s[repository].layers,
{
}

/// The answer to an upload is decided by the registry and the request:
/// there are no two answers to one request.
pub proof fn upload_answer_is_unique(
    s: RegistryState,
    repository: Seq<char>,
    id: Seq<char>,
    bytes: Seq<u8>,
    range: Option<ByteRange>,
    first: Result<usize, Error>,
    second: Result<usize, Error>,
)
    requires
        upload_answer(s, repository, id, bytes, range, first),
        upload_answer(s, repository, id, bytes, range, second),
    ensures
        first == second,
{
}

/// A session is completed at most once. Once a completion was accepted,
/// the blob under its digest is the session's buffer followed by the last
/// bytes, and every further completion of that session, whatever it
/// brings, is answered with `SessionNotFound` and so changes nothing.
pub proof fn completion_happens_once(
    s: RegistryState,
    repository: Seq<char>,
    id: Seq<char>,
    bytes: Seq<u8>,
    digest: Seq<char>,
    range: Option<ByteRange>,
    first: Result<usize, Error>,
    late_bytes: Seq<u8>,
    late_range: Option<ByteRange>,
    second: Result<usize, Error>,
)
    requires
        upload_answer(s, repository, id, bytes, range, first),
        first.is_ok(),
        upload_answer(
            after_commit(s, repository, id, bytes, digest),
            repository,
            id,
            late_bytes,
            late_range,
            second,
        ),
    ensures
        second == Err::<usize, Error>(Error::SessionNotFound),
        !has_session(after_commit(s, repository, id, bytes, digest), repository, id),
        has_blob(after_commit(s, repository, id, bytes, digest), repository, digest),
        after_commit(s, repository, id, bytes, digest)[repository].layers[digest]
            == s[repository].uploads[id] + bytes,
{
}

/// A session that was completed or deleted is gone: its status, a further
/// chunk and its deletion are all answered with `SessionNotFound`.
pub proof fn ended_session_is_not_found(
    s: RegistryState,
    repository: Seq<char>,
    id: Seq<char>,
    bytes: Seq<u8>,
    digest: Seq<char>,
    status: Result<usize, Error>,
    deletion: Result<usize, Error>,
    status_after_delete: Result<usize, Error>,
)
    requires
        status_answer(after_commit(s, repository, id, bytes, digest), repository, id, status),
        delete_answer(after_commit(s, repository, id, bytes, digest), repository, id, deletion),
        status_answer(after_delete(s, repository, id), repository, id, status_after_delete),
    ensures
        status == Err::<usize, Error>(Error::SessionNotFound),
        deletion == Err::<usize, Error>(Error::SessionNotFound),
        status_after_delete == Err::<usize, Error>(Error::SessionNotFound),
{
}

/// Repositories are isolated. Whatever an operation on `repository` does,
/// any other repository exists afterwards exactly if it existed before,
/// and holds what it held, also where both use the same session id.
pub proof fn repositories_are_isolated(
    s: RegistryState,
    repository: Seq<char>,
    other: Seq<char>,
    id: Seq<char>,
    bytes: Seq<u8>,
    digest: Seq<char>,
)
    requires
        repository != other,
    ensures
        after_start(s, repository, id).dom().contains(other) == s.dom().contains(other),
        after_append(s, repository, id, bytes).dom().contains(other) == s.dom().contains(other),
        after_commit(s, repository, id, bytes, digest).dom().contains(other) == s.dom().contains(
            other,
        ),
        after_delete(s, repository, id).dom().contains(other) == s.dom().contains(other),
        after_start(s, repository, id)[other] == s[other],
        after_append(s, repository, id, bytes)[other] == s[other],
        after_commit(s, repository, id, bytes, digest)[other] == s[other],
        after_delete(s, repository, id)[other] == s[other],
{
}

/// An operation on `repository` observes that repository alone: two
/// registries that agree on it give the same answers there, whatever
/// their other repositories hold.
pub proof fn answers_observe_one_repository(
    s: RegistryState,
    t: RegistryState,
    repository: Seq<char>,
    key: Seq<char>,
    bytes: Seq<u8>,
    range: Option<ByteRange>,
    answer: Result<usize, Error>,
)
    requires
        s.dom().contains(repository) == t.dom().contains(repository),
        s.dom().contains(repository) ==> s[repository] == t[repository],
    ensures
        status_answer(s, repository, key, answer) == status_answer(t, repository, key, answer),
        upload_answer(s, repository, key, bytes, range, answer) == upload_answer(
            t,
            repository,
            key,
            bytes,
            range,
            answer,
        ),
        delete_answer(s, repository, key, answer) == delete_answer(t, repository, key, answer),
        head_answer(s, repository, key, answer) == head_answer(t, repository, key, answer),
{
}

/// Two sessions of one repository are independent. A chunk for one leaves
/// the other's buffer as it was, chunks for the two may come in either
/// order, and the blob that one is committed as holds that session's own
/// bytes and none of the other's.
pub proof fn sessions_are_independent(
    s: RegistryState,
    repository: Seq<char>,
    one: Seq<char>,
    other: Seq<char>,
    bytes: Seq<u8>,
    other_bytes: Seq<u8>,
    digest: Seq<char>,
)
    requires
        has_session(s, repository, one),
        has_session(s, repository, other),
        one != other,
    ensures
        has_session(after_append(s, repository, one, bytes), repository, other),
        after_append(s, repository, one, bytes)[repository].uploads[other]
            == s[repository].uploads[other],
        after_append(after_append(s, repository, one, bytes), repository, other, other_bytes)
            == after_append(after_append(s, repository, other, other_bytes), repository, one, bytes),
        after_commit(
            after_append(s, repository, other, other_bytes),
            repository,
            one,
            bytes,
            digest,
        )[repository].layers[digest] == s[repository].uploads[one] + bytes,
        has_session(after_commit(s, repository, one, bytes, digest), repository, other),
        after_commit(s, repository, one, bytes, digest)[repository].uploads[other]
            == s[repository].uploads[other],
{
    let a = after_append(after_append(s, repository, one, bytes), repository, other, other_bytes);
    let b = after_append(after_append(s, repository, other, other_bytes), repository, one, bytes);
    assert(a[repository].uploads =~= b[repository].uploads);
    assert(a =~= b);
}

/// A blob is immutable. Opening a session, appending to one and deleting
/// one leave every blob of the repository as it is, and a commit changes
/// the blob under its own digest and no other.
pub proof fn blobs_change_only_by_commit(
    s: RegistryState,
    repository: Seq<char>,
    id: Seq<char>,
    bytes: Seq<u8>,
    digest: Seq<char>,
    other: Seq<char>,
)
    requires
        s.dom().contains(repository),
    ensures
        after_start(s, repository, id)[repository].layers == s[repository].layers,
        after_append(s, repository, id, bytes)[repository].layers == s[repository].layers,
        after_delete(s, repository, id)[repository].layers == s[repository].layers,
        other != digest ==> has_blob(after_commit(s, repository, id, bytes, digest), repository, other)
            == has_blob(s, repository, other),
        other != digest ==> after_commit(s, repository, id, bytes, digest)[repository].layers[other]
            == s[repository].layers[other],
{
}

/// An existence check has one answer as long as nothing is written: two
/// checks of one digest on the same registry report the same length, or
/// fail alike.
pub proof fn head_is_repeatable(
    s: RegistryState,
    repository: Seq<char>,
    digest: Seq<char>,
    first: Result<usize, Error>,
    second: Result<usize, Error>,
)
    requires
        head_answer(s, repository, digest, first),
        head_answer(s, repository, digest, second),
    ensures
        first == second,
{
}

/// No session and no blob exists in a repository that does not exist, and
/// a repository comes to exist only where a session is opened in it.
pub proof fn nothing_exists_before_its_repository(
    s: RegistryState,
    repository: Seq<char>,
    key: Seq<char>,
    id: Seq<char>,
    bytes: Seq<u8>,
    digest: Seq<char>,
)
    requires
        !s.dom().contains(repository),
    ensures
        !has_session(s, repository, key),
        !has_blob(s, repository, key),
        after_start(s, repository, id).dom().contains(repository),
        has_session(after_start(s, repository, id), repository, id),
        after_start(s, repository, id)[repository].uploads[id] == Seq::<u8>::empty(),
        !has_blob(after_start(s, repository, id), repository, key),
{
}

} // verus!
