//! The protocol's operations as a request handler calls them: path
//! components in, a response out.

use vstd::prelude::*;
use vstd::string::StringExecFns;
use bytes::Bytes;
use crate::endpoints::wire::{
    bare, chunk_response, committed_response, deleted_response, head_response, render_chunk,
    render_committed, render_deleted, render_error, render_head, render_started, render_status,
    started_response, status_response, Response,
};
use crate::error::Error;
use crate::range::{parse_range, parsed_text};
use crate::storage::model::{
    after_append, after_commit, after_delete, after_start, delete_answer, head_answer,
    status_answer, upload_answer, ByteRange,
};
use crate::storage::{bytes_contents, Backend};

pub mod resume;
pub mod wire;

verus! {

/// The digest that a completion names, as the query of the request
/// carries it. An opaque key: nothing is computed from it.
#[derive(Debug)]
pub struct Digest {
    pub digest: String,
}

/// The key of the repository `name` in `namespace`.
pub open spec fn repository_key(namespace: Seq<char>, name: Seq<char>) -> Seq<char> {
    namespace + "/"@ + name
}

/// Joins the two path components into the repository's key.
pub fn repository_name(namespace: String, name: &str) -> (r: String)
    ensures
        r@ == repository_key(namespace@, name@),
{
    let mut r = namespace;
    r.append("/");
    r.append(name);
    r
}

/// The range that came with a request, if any came: `None` where there
/// was no token, the parsed range or `MalformedRange` where there was one.
pub open spec fn optional_range(token: Option<String>) -> Result<Option<ByteRange>, Error> {
    match token {
        None => Ok(None),
        Some(t) => match parsed_text(t@) {
            Ok(range) => Ok(Some(range)),
            Err(e) => Err(e),
        },
    }
}

/// The range that must come with a chunk: the parsed range, or
/// `MalformedRange` where the token is missing or is no range token.
pub open spec fn required_range(token: Option<String>) -> Result<ByteRange, Error> {
    match token {
        None => Err(Error::MalformedRange),
        Some(t) => parsed_text(t@),
    }
}

/// Answers the version check: 200.
pub fn v2() -> (r: Response)
    ensures
        r@ == bare(200),
{
    let r = Response { status: 200, headers: Vec::new() };
    assert(r@.headers =~= Seq::empty());
    r
}

/// Answers a request that no route takes: 404.
pub fn default_endpoint() -> (r: Response)
    ensures
        r@ == bare(404),
{
    let r = Response { status: 404, headers: Vec::new() };
    assert(r@.headers =~= Seq::empty());
    r
}

/// Opens a session in the repository `namespace/name`.
pub fn start_upload<B: Backend>(storage: &mut B, namespace: String, name: String) -> (r: Response)
    requires
        old(storage).wf(),
    ensures
        final(storage).wf(),
        exists|id: Seq<char>|
            {
                &&& final(storage).state() == after_start(
                    old(storage).state(),
                    repository_key(namespace@, name@),
                    id,
                )
                &&& r@ == started_response(repository_key(namespace@, name@), id)
            },
{
    let repository = repository_name(namespace, name.as_str());
    let status = storage.start_upload(repository);
    render_started(&status)
}

/// Reports how far the session `id` has come.
pub fn get_upload<B: Backend>(storage: &B, namespace: String, name: String, id: String) -> (r:
    Response)
    requires
        storage.wf(),
    ensures
        exists|answer: Result<usize, Error>|
            {
                &&& status_answer(storage.state(), repository_key(namespace@, name@), id@, answer)
                &&& r@ == status_response(repository_key(namespace@, name@), id@, answer)
            },
{
    let repository = repository_name(namespace, name.as_str());
    let answer = storage.get_upload(repository.clone(), id.clone());
    render_status(&repository, &id, &answer)
}

/// Appends a chunk to the session `id`. `range` is the token of the
/// request's `Content-Range`; a missing or malformed one is answered
/// before the backend is asked.
pub fn chunk_upload<B: Backend>(
    storage: &mut B,
    namespace: String,
    name: String,
    id: String,
    data: &Bytes,
    range: Option<String>,
) -> (r: Response)
    requires
        old(storage).wf(),
    ensures
        final(storage).wf(),
        match required_range(range) {
            Err(_) => r@ == bare(400) && final(storage).state() == old(storage).state(),
            Ok(at) => exists|answer: Result<usize, Error>|
                {
                    &&& upload_answer(
                        old(storage).state(),
                        repository_key(namespace@, name@),
                        id@,
                        bytes_contents(*data),
                        Some(at),
                        answer,
                    )
                    &&& r@ == chunk_response(repository_key(namespace@, name@), id@, answer)
                    &&& final(storage).state() == if answer.is_ok() {
                        after_append(
                            old(storage).state(),
                            repository_key(namespace@, name@),
                            id@,
                            bytes_contents(*data),
                        )
                    } else {
                        old(storage).state()
                    }
                },
        },
{
    let repository = repository_name(namespace, name.as_str());
    let parsed = match &range {
        None => Err(Error::MalformedRange),
        Some(token) => parse_range(token.as_str()),
    };
    match parsed {
        Err(e) => render_error(&repository, &id, e),
        Ok(at) => {
            let answer = storage.chunk_upload(repository.clone(), id.clone(), data, at);
            render_chunk(&repository, &id, &answer)
        },
    }
}

/// Completes the session `id` as the blob that `digest` names. `range` is
/// the token of the request's `Content-Range`, where it has one.
pub fn complete_upload<B: Backend>(
    storage: &mut B,
    namespace: String,
    name: String,
    id: String,
    data: &Bytes,
    digest: Digest,
    range: Option<String>,
) -> (r: Response)
    requires
        old(storage).wf(),
    ensures
        final(storage).wf(),
        match optional_range(range) {
            Err(_) => r@ == bare(400) && final(storage).state() == old(storage).state(),
            Ok(at) => exists|answer: Result<usize, Error>|
                {
                    &&& upload_answer(
                        old(storage).state(),
                        repository_key(namespace@, name@),
                        id@,
                        bytes_contents(*data),
                        at,
                        answer,
                    )
                    &&& r@ == committed_response(
                        repository_key(namespace@, name@),
                        id@,
                        digest.digest@,
                        at.is_some(),
                        answer,
                    )
                    &&& final(storage).state() == if answer.is_ok() {
                        after_commit(
                            old(storage).state(),
                            repository_key(namespace@, name@),
                            id@,
                            bytes_contents(*data),
                            digest.digest@,
                        )
                    } else {
                        old(storage).state()
                    }
                },
        },
{
    let repository = repository_name(namespace, name.as_str());
    let at = match &range {
        None => None,
        Some(token) => match parse_range(token.as_str()) {
            Err(e) => {
                return render_error(&repository, &id, e);
            },
            Ok(at) => Some(at),
        },
    };
    let key = digest.digest;
    let answer = storage.complete_upload(repository.clone(), id.clone(), data, key.clone(), at);
    render_committed(&repository, &id, &key, &answer)
}

/// Discards the session `id`.
pub fn delete_upload<B: Backend>(storage: &mut B, namespace: String, name: String, id: String) -> (r:
    Response)
    requires
        old(storage).wf(),
    ensures
        final(storage).wf(),
        exists|answer: Result<usize, Error>|
            {
                &&& delete_answer(
                    old(storage).state(),
                    repository_key(namespace@, name@),
                    id@,
                    answer,
                )
                &&& r@ == deleted_response(repository_key(namespace@, name@), id@, answer)
                &&& final(storage).state() == if answer.is_ok() {
                    after_delete(old(storage).state(), repository_key(namespace@, name@), id@)
                } else {
                    old(storage).state()
                }
            },
{
    let repository = repository_name(namespace, name.as_str());
    let answer = storage.delete_upload(repository.clone(), id.clone());
    render_deleted(&repository, &id, &answer)
}

/// Checks whether the repository holds a blob under `digest`.
pub fn head_layer<B: Backend>(storage: &B, namespace: String, name: String, digest: String) -> (r:
    Response)
    requires
        storage.wf(),
    ensures
        exists|answer: Result<usize, Error>|
            {
                &&& head_answer(storage.state(), repository_key(namespace@, name@), digest@, answer)
                &&& r@ == head_response(digest@, answer)
            },
{
    let repository = repository_name(namespace, name.as_str());
    let answer = storage.head_layer(repository, digest.clone());
    render_head(&digest, &answer)
}

} // verus!
