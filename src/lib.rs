//! A pluggable blob-storage backend: path-addressed reads with a size cap, and
//! batched write transactions that commit in a fixed order and report exactly
//! which prefix landed when a substrate write fails.
//!
//! The substrates themselves (a local directory, an S3 bucket) are driven by the
//! caller: this crate decides what to write, in which order, and what a read or a
//! failed write means. `model` states what that amounts to on a substrate that
//! keeps what it is given.
pub mod backend;
pub mod blob;
pub mod commit;
pub mod error;
pub mod fetch;
pub mod harness;
pub mod model;
pub mod path;
pub mod transaction;

pub use backend::{Backend, LocalBackend, Location, S3Backend};
pub use blob::{Blob, CompressionAlgorithm};
pub use commit::Commit;
pub use error::Error;
pub use fetch::{resolve_get, Fetched, StoredObject};
pub use harness::TestS3;
pub use path::is_valid_path;
pub use transaction::Transaction;
