use blob_registry::endpoints::wire::{
    decimal, render_chunk, render_committed, render_deleted, render_error, render_head,
    render_started, render_status, Response,
};
use blob_registry::endpoints::{
    chunk_upload, complete_upload, default_endpoint, delete_upload, get_upload, head_layer,
    repository_name, start_upload, v2, Digest,
};
use blob_registry::error::Error;
use blob_registry::range::parse_range;
use blob_registry::storage::memory::MemoryBackend;
use blob_registry::storage::model::ByteRange;
use blob_registry::storage::{BlobInfo, Committed, UploadStatus};
use bytes::Bytes;

fn headers(pairs: &[(&str, &str)]) -> Vec<(String, String)> {
    pairs.iter().map(|(k, v)| (k.to_string(), v.to_string())).collect()
}

fn header(r: &Response, name: &str) -> String {
    for (k, v) in &r.headers {
        if k == name {
            return v.clone();
        }
    }
    panic!("no header {}", name)
}

fn s(x: &str) -> String {
    x.to_string()
}

#[test]
fn decimal_writes_numbers() {
    assert_eq!(decimal(0), "0");
    assert_eq!(decimal(7), "7");
    assert_eq!(decimal(10), "10");
    assert_eq!(decimal(12345), "12345");
    assert_eq!(decimal(9007199254740993), "9007199254740993");
    assert_eq!(decimal(usize::MAX), usize::MAX.to_string());
}

#[test]
fn repository_key_joins_with_a_slash() {
    assert_eq!(repository_name(s("lib"), "app"), "lib/app");
    assert_eq!(repository_name(s(""), ""), "/");
}

#[test]
fn errors_on_the_wire() {
    let (r, i) = (s("lib/app"), s("u1"));
    for e in [Error::RepositoryNotFound, Error::SessionNotFound, Error::BlobNotFound] {
        let w = render_error(&r, &i, e);
        assert_eq!(w.status, 404);
        assert!(w.headers.is_empty());
    }
    let w = render_error(&r, &i, Error::MalformedRange);
    assert_eq!(w.status, 400);
    assert!(w.headers.is_empty());
    let w = render_error(&r, &i, Error::OffsetConflict { current_length: 5 });
    assert_eq!(w.status, 416);
    assert_eq!(
        w.headers,
        headers(&[
            ("Location", "/v2/lib/app/blobs/uploads/u1"),
            ("Range", "0-5"),
            ("Content-Length", "0"),
            ("Docker-Upload-UUID", "u1"),
        ])
    );
}

#[test]
fn results_on_the_wire() {
    let (r, i, d) = (s("lib/app"), s("u1"), s("sha256:abc"));
    let status = UploadStatus { repository: r.clone(), id: i.clone(), length: 42 };
    let w = render_started(&UploadStatus { repository: r.clone(), id: i.clone(), length: 0 });
    assert_eq!(w.status, 202);
    assert_eq!(
        w.headers,
        headers(&[
            ("Location", "/v2/lib/app/blobs/uploads/u1"),
            ("Range", "bytes=0-0"),
            ("Content-Length", "0"),
            ("Docker-Upload-UUID", "u1"),
        ])
    );
    let answer = Ok(status);
    let w = render_status(&r, &i, &answer);
    assert_eq!(w.status, 204);
    assert_eq!(
        w.headers,
        headers(&[
            ("Location", "/v2/lib/app/blobs/uploads/u1"),
            ("Range", "bytes=0-42"),
            ("Docker-Upload-UUID", "u1"),
        ])
    );
    let w = render_deleted(&r, &i, &answer);
    assert_eq!(w.status, 200);
    assert_eq!(
        w.headers,
        headers(&[
            ("Location", "/v2/lib/app/blobs/uploads/u1"),
            ("Range", "bytes=0-42"),
            ("Docker-Upload-UUID", "u1"),
        ])
    );
    let w = render_chunk(&r, &i, &answer);
    assert_eq!(w.status, 201);
    assert_eq!(
        w.headers,
        headers(&[
            ("Location", "/v2/lib/app/blobs/uploads/u1"),
            ("Range", "0-42"),
            ("Content-Length", "0"),
            ("Docker-Upload-UUID", "u1"),
        ])
    );
    assert_eq!(render_status(&r, &i, &Err(Error::SessionNotFound)).status, 404);
    assert_eq!(render_deleted(&r, &i, &Err(Error::SessionNotFound)).status, 404);
    assert_eq!(render_chunk(&r, &i, &Err(Error::OffsetConflict { current_length: 1 })).status, 416);

    let plain = Ok(Committed { repository: r.clone(), digest: d.clone(), length: 5, range: None });
    let w = render_committed(&r, &i, &d, &plain);
    assert_eq!(w.status, 201);
    assert_eq!(
        w.headers,
        headers(&[
            ("Location", "/v2/lib/app/blobs/sha256:abc"),
            ("Content-Length", "0"),
            ("Docker-Content-Digest", "sha256:abc"),
        ])
    );
    let ranged = Ok(Committed {
        repository: r.clone(),
        digest: d.clone(),
        length: 5,
        range: Some(ByteRange { start: 0, end: 5 }),
    });
    let w = render_committed(&r, &i, &d, &ranged);
    assert_eq!(
        w.headers,
        headers(&[
            ("Location", "/v2/lib/app/blobs/sha256:abc"),
            ("Content-Length", "0"),
            ("Docker-Content-Digest", "sha256:abc"),
            ("Range", "0-5"),
        ])
    );
    assert_eq!(render_committed(&r, &i, &d, &Err(Error::RepositoryNotFound)).status, 404);

    let w = render_head(&d, &Ok(BlobInfo { digest: d.clone(), length: 1234 }));
    assert_eq!(w.status, 200);
    assert_eq!(
        w.headers,
        headers(&[("Content-Length", "1234"), ("Docker-Content-Digest", "sha256:abc")])
    );
    assert_eq!(render_head(&d, &Err(Error::BlobNotFound)).status, 404);
}

#[test]
fn fixed_answers() {
    assert_eq!(v2().status, 200);
    assert!(v2().headers.is_empty());
    assert_eq!(default_endpoint().status, 404);
    assert!(default_endpoint().headers.is_empty());
}

#[test]
fn a_push_through_the_endpoints() {
    let mut b = MemoryBackend::new();
    let w = start_upload(&mut b, s("lib"), s("app"));
    assert_eq!(w.status, 202);
    let id = header(&w, "Docker-Upload-UUID");
    assert_eq!(id.len(), 36);
    assert_eq!(header(&w, "Location"), format!("/v2/lib/app/blobs/uploads/{}", id));
    assert_eq!(header(&w, "Range"), "bytes=0-0");

    let w = chunk_upload(&mut b, s("lib"), s("app"), id.clone(), &Bytes::from_static(b"hello"), Some(s("0-4")));
    assert_eq!(w.status, 201);
    assert_eq!(header(&w, "Range"), "0-5");

    let w = chunk_upload(&mut b, s("lib"), s("app"), id.clone(), &Bytes::from_static(b"x"), Some(s("3-3")));
    assert_eq!(w.status, 416);
    assert_eq!(header(&w, "Range"), "0-5");

    let w = chunk_upload(&mut b, s("lib"), s("app"), id.clone(), &Bytes::from_static(b"x"), Some(s("five")));
    assert_eq!(w.status, 400);
    assert!(w.headers.is_empty());

    let w = chunk_upload(&mut b, s("lib"), s("app"), id.clone(), &Bytes::from_static(b"x"), None);
    assert_eq!(w.status, 400);

    let w = get_upload(&b, s("lib"), s("app"), id.clone());
    assert_eq!(w.status, 204);
    assert_eq!(header(&w, "Range"), "bytes=0-5");

    let w = complete_upload(
        &mut b,
        s("lib"),
        s("app"),
        id.clone(),
        &Bytes::from_static(b"!"),
        Digest { digest: s("sha256:abc") },
        Some(s("4-5")),
    );
    assert_eq!(w.status, 416);
    let w = complete_upload(
        &mut b,
        s("lib"),
        s("app"),
        id.clone(),
        &Bytes::from_static(b"!"),
        Digest { digest: s("sha256:abc") },
        Some(s("5-")),
    );
    assert_eq!(w.status, 400);
    assert_eq!(get_upload(&b, s("lib"), s("app"), id.clone()).status, 204);
    let w = complete_upload(
        &mut b,
        s("lib"),
        s("app"),
        id.clone(),
        &Bytes::from_static(b"!"),
        Digest { digest: s("sha256:abc") },
        Some(s("5-5")),
    );
    assert_eq!(w.status, 201);
    assert_eq!(header(&w, "Location"), "/v2/lib/app/blobs/sha256:abc");
    assert_eq!(header(&w, "Docker-Content-Digest"), "sha256:abc");
    assert_eq!(header(&w, "Range"), "0-6");

    assert_eq!(get_upload(&b, s("lib"), s("app"), id.clone()).status, 404);
    assert_eq!(delete_upload(&mut b, s("lib"), s("app"), id.clone()).status, 404);

    let w = head_layer(&b, s("lib"), s("app"), s("sha256:abc"));
    assert_eq!(w.status, 200);
    assert_eq!(header(&w, "Content-Length"), "6");
    assert_eq!(header(&w, "Docker-Content-Digest"), "sha256:abc");
    assert_eq!(head_layer(&b, s("lib"), s("app"), s("sha256:other")).status, 404);
    assert_eq!(head_layer(&b, s("lib"), s("other"), s("sha256:abc")).status, 404);
}

#[test]
fn a_cancelled_upload_through_the_endpoints() {
    let mut b = MemoryBackend::new();
    let id = header(&start_upload(&mut b, s("lib"), s("app")), "Docker-Upload-UUID");
    chunk_upload(&mut b, s("lib"), s("app"), id.clone(), &Bytes::from_static(b"abc"), Some(s("0-2")));
    let w = delete_upload(&mut b, s("lib"), s("app"), id.clone());
    assert_eq!(w.status, 200);
    assert_eq!(header(&w, "Range"), "bytes=0-3");
    assert_eq!(header(&w, "Docker-Upload-UUID"), id);
    assert_eq!(delete_upload(&mut b, s("lib"), s("app"), id.clone()).status, 404);
    assert_eq!(delete_upload(&mut b, s("no"), s("repo"), id).status, 404);
}

#[test]
fn a_reported_range_parses_back() {
    for n in [0usize, 5, 10, 99, 100, 4096, usize::MAX] {
        let token = format!("0-{}", decimal(n));
        assert_eq!(parse_range(&token), Ok(ByteRange { start: 0, end: n }));
    }
    let w = render_error(&s("lib/app"), &s("u1"), Error::OffsetConflict { current_length: 77 });
    assert_eq!(parse_range(&header(&w, "Range")), Ok(ByteRange { start: 0, end: 77 }));
}

#[test]
fn a_client_that_follows_a_conflict_is_accepted() {
    let mut b = MemoryBackend::new();
    let id = header(&start_upload(&mut b, s("lib"), s("app")), "Docker-Upload-UUID");
    chunk_upload(&mut b, s("lib"), s("app"), id.clone(), &Bytes::from_static(b"abcdefg"), Some(s("0-6")));
    let w = chunk_upload(&mut b, s("lib"), s("app"), id.clone(), &Bytes::from_static(b"h"), Some(s("2-2")));
    assert_eq!(w.status, 416);
    let told = parse_range(&header(&w, "Range")).unwrap();
    assert_eq!(told.end, 7);
    let again = format!("{}-{}", told.end, told.end);
    let w = chunk_upload(&mut b, s("lib"), s("app"), id, &Bytes::from_static(b"h"), Some(again));
    assert_eq!(w.status, 201);
    assert_eq!(header(&w, "Range"), "0-8");
}
