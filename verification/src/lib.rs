//! Discreet incident-data intake: one S3-compatible bucket per case, a public
//! upload site under `site/`, a private `data/` prefix written only by the
//! case's write-only key, and a SHA-256 manifest checked against what was
//! received.
use vstd::prelude::*;

pub mod case;
pub mod config;
pub mod digest;
pub mod display;
pub mod error;
pub mod integrity;
pub mod manifest;
pub mod minio_iam;
pub mod ops;
pub mod s3_dataplane;
pub mod text;

verus! {

} // verus!
