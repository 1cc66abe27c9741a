use vstd::prelude::*;
use crate::blob::Blob;
use crate::error::Error;
use crate::fetch::{get_outcome, outcome_of, resolve_get, Fetched};
use crate::path::{is_valid_path, valid_path};
use crate::transaction::Transaction;

verus! {

/// A substrate that keeps each blob in a file below a root directory.
#[derive(Debug)]
pub struct LocalBackend {
    root: String,
}

/// A substrate that keeps each blob as an object of one S3 bucket.
#[derive(Debug)]
pub struct S3Backend {
    bucket: String,
}

impl LocalBackend {
    pub closed spec fn root_spec(&self) -> Seq<char> {
        self.root@
    }

    pub fn new(root: String) -> (r: LocalBackend)
        ensures
            r.root_spec() == root@,
    {
        LocalBackend { root }
    }

    pub fn root(&self) -> (r: &str)
        ensures
            r@ == self.root_spec(),
    {
        self.root.as_str()
    }
}

impl S3Backend {
    pub closed spec fn bucket_spec(&self) -> Seq<char> {
        self.bucket@
    }

    pub fn new(bucket: String) -> (r: S3Backend)
        ensures
            r.bucket_spec() == bucket@,
    {
        S3Backend { bucket }
    }

    pub fn bucket(&self) -> (r: &str)
        ensures
            r@ == self.bucket_spec(),
    {
        self.bucket.as_str()
    }
}

/// The file below `root` that holds `path`.
pub open spec fn file_of(root: Seq<char>, path: Seq<char>) -> Seq<char> {
    root + seq!['/'] + path
}

/// Where a path is kept on a substrate.
#[derive(Debug)]
pub enum Location {
    File(String),
    Object { bucket: String, key: String },
}

/// A storage backend on one of the supported substrates. Its configuration is
/// fixed once made and shared by every read and transaction.
#[derive(Debug)]
pub enum Backend {
    Local(LocalBackend),
    S3(S3Backend),
}

impl Backend {
    /// A fresh, empty transaction against this backend.
    pub fn start_transaction(&self) -> (r: Transaction)
        ensures
            r@.len() == 0,
            r.wf(),
    {
        Transaction::new()
    }

    /// Where `path` is kept: a file below the root, or the object of the same key
    /// in the bucket. A malformed path can hold nothing, so it is `NotFound`.
    pub fn locate(&self, path: &str) -> (r: Result<Location, Error>)
        ensures
            !valid_path(path@) ==> r matches Err(Error::NotFound),
            valid_path(path@) ==> match self {
                Backend::Local(l) => r matches Ok(Location::File(f)) && f@ == file_of(
                    l.root_spec(),
                    path@,
                ),
                Backend::S3(s) => r matches Ok(Location::Object { bucket, key }) && bucket@
                    == s.bucket_spec() && key@ == path@,
            },
    {
        if !is_valid_path(path) {
            return Err(Error::NotFound);
        }
        match self {
            Backend::Local(l) => {
                let mut f = l.root.clone();
                let sep = "/";
                proof {
                    reveal_strlit("/");
                }
                f.append(sep);
                f.append(path);
                assert(f@ =~= file_of(l.root_spec(), path@));
                Ok(Location::File(f))
            },
            Backend::S3(s) => Ok(
                Location::Object { bucket: s.bucket.clone(), key: String::from_str(path) },
            ),
        }
    }

    /// The blob at `path`, capped at `max_size` bytes, given what the substrate
    /// answered at the place [`Backend::locate`] gave. Every substrate reports
    /// a missing object as `NotFound`.
    pub fn get(&self, path: &str, max_size: usize, fetched: Fetched) -> (r: Result<Blob, Error>)
        ensures
            !valid_path(path@) ==> r matches Err(Error::NotFound),
            valid_path(path@) ==> outcome_of(r) == get_outcome(path@, max_size as nat, fetched@),
            r matches Err(Error::SizeExceeded { max_size: m }) ==> m == max_size,
    {
        if !is_valid_path(path) {
            return Err(Error::NotFound);
        }
        resolve_get(path, max_size, fetched)
    }
}

} // verus!
