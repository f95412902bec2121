//! Blob store of a container-image registry: resumable, chunked uploads
//! that end in immutable blobs addressed by digest.

pub mod endpoints;
pub mod error;
pub mod range;
pub mod storage;
