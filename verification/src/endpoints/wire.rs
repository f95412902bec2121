//! Results of the backend as they go onto the wire: a status code and the
//! headers of the upload protocol.

use vstd::prelude::*;
use vstd::string::StringExecFns;
use crate::error::Error;
use crate::storage::{
    blob_length, committed_length, status_length, BlobInfo, Committed, UploadStatus,
};

verus! {

/// A response without a body: its status code and its headers in order.
#[derive(Debug)]
pub struct Response {
    pub status: u16,
    pub headers: Vec<(String, String)>,
}

/// A response as a mathematical value.
pub struct ResponseView {
    pub status: u16,
    pub headers: Seq<(Seq<char>, Seq<char>)>,
}

impl View for Response {
    type V = ResponseView;

    open spec fn view(&self) -> ResponseView {
        ResponseView {
            status: self.status,
            headers: Seq::new(
                self.headers@.len(),
                |i: int| (self.headers@[i].0@, self.headers@[i].1@),
            ),
        }
    }
}

/// The character that writes the digit `d`.
pub open spec fn digit_char(d: nat) -> char {
    if d == 0 {
        '0'
    } else if d == 1 {
        '1'
    } else if d == 2 {
        '2'
    } else if d == 3 {
        '3'
    } else if d == 4 {
        '4'
    } else if d == 5 {
        '5'
    } else if d == 6 {
        '6'
    } else if d == 7 {
        '7'
    } else if d == 8 {
        '8'
    } else {
        '9'
    }
}

/// `n` in decimal, without leading zeros.
pub open spec fn decimal_text(n: nat) -> Seq<char>
    decreases n,
{
    if n < 10 {
        seq![digit_char(n)]
    } else {
        decimal_text(n / 10).push(digit_char(n % 10))
    }
}

/// Where an upload session is resumed.
pub open spec fn upload_location(repository: Seq<char>, id: Seq<char>) -> Seq<char> {
    "/v2/"@ + repository + "/blobs/uploads/"@ + id
}

/// Where a committed blob is found.
pub open spec fn blob_location(repository: Seq<char>, digest: Seq<char>) -> Seq<char> {
    "/v2/"@ + repository + "/blobs/"@ + digest
}

/// The range of a session of `length` bytes, with its unit.
pub open spec fn unit_range(length: nat) -> Seq<char> {
    "bytes=0-"@ + decimal_text(length)
}

/// The range of a buffer of `length` bytes, without a unit.
pub open spec fn bare_range(length: nat) -> Seq<char> {
    "0-"@ + decimal_text(length)
}

/// A response that is a status code and nothing else.
pub open spec fn bare(status: u16) -> ResponseView {
    ResponseView { status, headers: Seq::empty() }
}

/// The response to an error. Whatever is not found is a 404; a malformed
/// range is a 400; an offset conflict is a 416 that tells the client
/// where the session is and how long its buffer is now.
pub open spec fn error_response(repository: Seq<char>, id: Seq<char>, e: Error) -> ResponseView {
    match e {
        Error::RepositoryNotFound => bare(404),
        Error::SessionNotFound => bare(404),
        Error::BlobNotFound => bare(404),
        Error::MalformedRange => bare(400),
        Error::OffsetConflict { current_length } => ResponseView {
            status: 416,
            headers: seq![
                ("Location"@, upload_location(repository, id)),
                ("Range"@, bare_range(current_length as nat)),
                ("Content-Length"@, "0"@),
                ("Docker-Upload-UUID"@, id),
            ],
        },
    }
}

/// The response to a session that was opened: 202, at length zero.
pub open spec fn started_response(repository: Seq<char>, id: Seq<char>) -> ResponseView {
    ResponseView {
        status: 202,
        headers: seq![
            ("Location"@, upload_location(repository, id)),
            ("Range"@, "bytes=0-0"@),
            ("Content-Length"@, "0"@),
            ("Docker-Upload-UUID"@, id),
        ],
    }
}

/// A response that tells where a session is and how long its buffer is.
pub open spec fn session_response(
    status: u16,
    repository: Seq<char>,
    id: Seq<char>,
    length: nat,
) -> ResponseView {
    ResponseView {
        status,
        headers: seq![
            ("Location"@, upload_location(repository, id)),
            ("Range"@, unit_range(length)),
            ("Docker-Upload-UUID"@, id),
        ],
    }
}

/// The response to a status request: 204 with the session's length.
pub open spec fn status_response(
    repository: Seq<char>,
    id: Seq<char>,
    answer: Result<usize, Error>,
) -> ResponseView {
    match answer {
        Ok(n) => session_response(204, repository, id, n as nat),
        Err(e) => error_response(repository, id, e),
    }
}

/// The response to a deletion: 200 with the length of what was discarded.
pub open spec fn deleted_response(
    repository: Seq<char>,
    id: Seq<char>,
    answer: Result<usize, Error>,
) -> ResponseView {
    match answer {
        Ok(n) => session_response(200, repository, id, n as nat),
        Err(e) => error_response(repository, id, e),
    }
}

/// The response to a chunk: 201 with the session's new length.
pub open spec fn chunk_response(
    repository: Seq<char>,
    id: Seq<char>,
    answer: Result<usize, Error>,
) -> ResponseView {
    match answer {
        Ok(n) => ResponseView {
            status: 201,
            headers: seq![
                ("Location"@, upload_location(repository, id)),
                ("Range"@, bare_range(n as nat)),
                ("Content-Length"@, "0"@),
                ("Docker-Upload-UUID"@, id),
            ],
        },
        Err(e) => error_response(repository, id, e),
    }
}

/// The response to a completion: 201 with the blob's place and digest,
/// and the range of the whole blob where the last write came with one.
pub open spec fn committed_response(
    repository: Seq<char>,
    id: Seq<char>,
    digest: Seq<char>,
    ranged: bool,
    answer: Result<usize, Error>,
) -> ResponseView {
    match answer {
        Ok(n) => {
            let headers = seq![
                ("Location"@, blob_location(repository, digest)),
                ("Content-Length"@, "0"@),
                ("Docker-Content-Digest"@, digest),
            ];
            ResponseView {
                status: 201,
                headers: if ranged {
                    headers.push(("Range"@, bare_range(n as nat)))
                } else {
                    headers
                },
            }
        },
        Err(e) => error_response(repository, id, e),
    }
}

/// The response to an existence check: 200 with the blob's length.
pub open spec fn head_response(digest: Seq<char>, answer: Result<usize, Error>) -> ResponseView {
    match answer {
        Ok(n) => ResponseView {
            status: 200,
            headers: seq![
                ("Content-Length"@, decimal_text(n as nat)),
                ("Docker-Content-Digest"@, digest),
            ],
        },
        Err(e) => error_response(Seq::empty(), Seq::empty(), e),
    }
}

fn digit_text(d: usize) -> (r: &'static str)
    requires
        d < 10,
    ensures
        r@ == seq![digit_char(d as nat)],
{
    proof {
        reveal_strlit("0");
        reveal_strlit("1");
        reveal_strlit("2");
        reveal_strlit("3");
        reveal_strlit("4");
        reveal_strlit("5");
        reveal_strlit("6");
        reveal_strlit("7");
        reveal_strlit("8");
        reveal_strlit("9");
    }
    let r = if d == 0 {
        "0"
    } else if d == 1 {
        "1"
    } else if d == 2 {
        "2"
    } else if d == 3 {
        "3"
    } else if d == 4 {
        "4"
    } else if d == 5 {
        "5"
    } else if d == 6 {
        "6"
    } else if d == 7 {
        "7"
    } else if d == 8 {
        "8"
    } else {
        "9"
    };
    assert(r@ =~= seq![digit_char(d as nat)]);
    r
}

/// Writes `n` in decimal.
pub fn decimal(n: usize) -> (r: String)
    ensures
        r@ == decimal_text(n as nat),
    decreases n,
{
    if n < 10 {
        String::from_str(digit_text(n))
    } else {
        let mut r = decimal(n / 10);
        r.append(digit_text(n % 10));
        assert(r@ =~= decimal_text(n as nat));
        r
    }
}

fn concat2(a: &str, b: &str) -> (r: String)
    ensures
        r@ == a@ + b@,
{
    let mut r = String::from_str(a);
    r.append(b);
    r
}

fn concat4(a: &str, b: &str, c: &str, d: &str) -> (r: String)
    ensures
        r@ == a@ + b@ + c@ + d@,
{
    let mut r = String::from_str(a);
    r.append(b);
    r.append(c);
    r.append(d);
    r
}

fn with_header(response: Response, name: &str, value: String) -> (r: Response)
    ensures
        r@.status == response@.status,
        r@.headers == response@.headers.push((name@, value@)),
{
    let Response { status, mut headers } = response;
    headers.push((String::from_str(name), value));
    let r = Response { status, headers };
    assert(r@.headers =~= response@.headers.push((name@, value@)));
    r
}

fn status_only(status: u16) -> (r: Response)
    ensures
        r@ == bare(status),
{
    let r = Response { status, headers: Vec::new() };
    assert(r@.headers =~= Seq::empty());
    r
}

/// Renders an error.
pub fn render_error(repository: &String, id: &String, e: Error) -> (r: Response)
    ensures
        r@ == error_response(repository@, id@, e),
{
    match e {
        Error::RepositoryNotFound => status_only(404),
        Error::SessionNotFound => status_only(404),
        Error::BlobNotFound => status_only(404),
        Error::MalformedRange => status_only(400),
        Error::OffsetConflict { current_length } => {
            let r = status_only(416);
            let r = with_header(
                r,
                "Location",
                concat4("/v2/", repository.as_str(), "/blobs/uploads/", id.as_str()),
            );
            let r = with_header(r, "Range", concat2("0-", decimal(current_length).as_str()));
            let r = with_header(r, "Content-Length", String::from_str("0"));
            let r = with_header(r, "Docker-Upload-UUID", id.clone());
            assert(r@.headers =~= error_response(repository@, id@, e).headers);
            r
        },
    }
}

/// Renders a session that was opened.
pub fn render_started(status: &UploadStatus) -> (r: Response)
    ensures
        r@ == started_response(status.repository@, status.id@),
{
    let r = status_only(202);
    let r = with_header(
        r,
        "Location",
        concat4("/v2/", status.repository.as_str(), "/blobs/uploads/", status.id.as_str()),
    );
    let r = with_header(r, "Range", String::from_str("bytes=0-0"));
    let r = with_header(r, "Content-Length", String::from_str("0"));
    let r = with_header(r, "Docker-Upload-UUID", status.id.clone());
    assert(r@.headers =~= started_response(status.repository@, status.id@).headers);
    r
}

fn render_session(code: u16, repository: &String, id: &String, length: usize) -> (r: Response)
    ensures
        r@ == session_response(code, repository@, id@, length as nat),
{
    let r = status_only(code);
    let r = with_header(
        r,
        "Location",
        concat4("/v2/", repository.as_str(), "/blobs/uploads/", id.as_str()),
    );
    let r = with_header(r, "Range", concat2("bytes=0-", decimal(length).as_str()));
    let r = with_header(r, "Docker-Upload-UUID", id.clone());
    assert(r@.headers =~= session_response(code, repository@, id@, length as nat).headers);
    r
}

/// Renders the answer to a status request on session `id`.
pub fn render_status(repository: &String, id: &String, answer: &Result<UploadStatus, Error>) -> (r:
    Response)
    ensures
        r@ == status_response(repository@, id@, status_length(*answer)),
{
    match answer {
        Ok(u) => render_session(204, repository, id, u.length),
        Err(e) => render_error(repository, id, *e),
    }
}

/// Renders the answer to the deletion of session `id`.
pub fn render_deleted(repository: &String, id: &String, answer: &Result<UploadStatus, Error>) -> (r:
    Response)
    ensures
        r@ == deleted_response(repository@, id@, status_length(*answer)),
{
    match answer {
        Ok(u) => render_session(200, repository, id, u.length),
        Err(e) => render_error(repository, id, *e),
    }
}

/// Renders the answer to a chunk for session `id`.
pub fn render_chunk(repository: &String, id: &String, answer: &Result<UploadStatus, Error>) -> (r:
    Response)
    ensures
        r@ == chunk_response(repository@, id@, status_length(*answer)),
{
    match answer {
        Ok(u) => {
            let r = status_only(201);
            let r = with_header(
                r,
                "Location",
                concat4("/v2/", repository.as_str(), "/blobs/uploads/", id.as_str()),
            );
            let r = with_header(r, "Range", concat2("0-", decimal(u.length).as_str()));
            let r = with_header(r, "Content-Length", String::from_str("0"));
            let r = with_header(r, "Docker-Upload-UUID", id.clone());
            assert(r@.headers =~= chunk_response(repository@, id@, Ok(u.length)).headers);
            r
        },
        Err(e) => render_error(repository, id, *e),
    }
}

/// Whether a completion reports a range.
pub open spec fn reports_range(answer: Result<Committed, Error>) -> bool {
    answer.is_ok() && answer.unwrap().range.is_some()
}

/// Renders the answer to the completion of session `id` under `digest`.
pub fn render_committed(
    repository: &String,
    id: &String,
    digest: &String,
    answer: &Result<Committed, Error>,
) -> (r: Response)
    ensures
        r@ == committed_response(
            repository@,
            id@,
            digest@,
            reports_range(*answer),
            committed_length(*answer),
        ),
{
    match answer {
        Ok(c) => {
            let r = status_only(201);
            let r = with_header(
                r,
                "Location",
                concat4("/v2/", repository.as_str(), "/blobs/", digest.as_str()),
            );
            let r = with_header(r, "Content-Length", String::from_str("0"));
            let r = with_header(r, "Docker-Content-Digest", digest.clone());
            let r = if c.range.is_some() {
                with_header(r, "Range", concat2("0-", decimal(c.length).as_str()))
            } else {
                r
            };
            assert(r@.headers =~= committed_response(
                repository@,
                id@,
                digest@,
                c.range.is_some(),
                Ok(c.length),
            ).headers);
            r
        },
        Err(e) => render_error(repository, id, *e),
    }
}

/// Renders the answer to an existence check on `digest`.
pub fn render_head(digest: &String, answer: &Result<BlobInfo, Error>) -> (r: Response)
    ensures
        r@ == head_response(digest@, blob_length(*answer)),
{
    match answer {
        Ok(b) => {
            let r = status_only(200);
            let r = with_header(r, "Content-Length", decimal(b.length));
            let r = with_header(r, "Docker-Content-Digest", digest.clone());
            assert(r@.headers =~= head_response(digest@, Ok(b.length)).headers);
            r
        },
        Err(e) => {
            let none = String::new();
            render_error(&none, &none, *e)
        },
    }
}

} // verus!
