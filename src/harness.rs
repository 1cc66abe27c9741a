use vstd::prelude::*;
use crate::backend::{Backend, S3Backend};
use crate::blob::{same_bytes, same_chars, Blob, BlobView, CompressionAlgorithm};
use crate::commit::{stamp_all, Commit};
use crate::error::Error;
use crate::fetch::{get_outcome, Fetched, FetchedView, GetOutcome};
use crate::model::{fetch_from, lemma_round_trip, write_all};
use crate::path::valid_path;
use crate::transaction::{all_valid, stage_all, views};

verus! {

/// Relies on rand::random: it draws a value from the thread-local generator;
/// nothing is promised of which.
pub assume_specification<T>[ rand::random::<T> ]() -> (r: T)
    where
        rand::distributions::Standard: rand::distributions::Distribution<T>,
;

pub open spec fn digits() -> Seq<char> {
    seq!['0', '1', '2', '3', '4', '5', '6', '7', '8', '9']
}

/// The decimal numeral of `n`, without leading zeros.
pub open spec fn decimal(n: nat) -> Seq<char>
    decreases n,
{
    if n < 10 {
        seq![digits()[n as int]]
    } else {
        decimal(n / 10).push(digits()[(n % 10) as int])
    }
}

pub open spec fn bucket_prefix() -> Seq<char> {
    seq![
        'd', 'o', 'c', 's', '-', 'r', 's', '-', 't', 'e', 's', 't', '-', 'b', 'u', 'c', 'k', 'e',
        't', '-',
    ]
}

/// The name of the scratch bucket drawn as `n`.
pub open spec fn bucket_name(n: u64) -> Seq<char> {
    bucket_prefix() + decimal(n as nat)
}

/// The decimal numeral of `n`.
pub fn decimal_string(n: u64) -> (r: String)
    ensures
        r@ == decimal(n as nat),
    decreases n,
{
    let numerals = "0123456789";
    proof {
        reveal_strlit("0123456789");
    }
    assert(numerals@ =~= digits());
    let d = (n % 10) as usize;
    let digit = numerals.substring_char(d, d + 1);
    assert(digit@ =~= seq![digits()[d as int]]);
    if n < 10 {
        String::from_str(digit)
    } else {
        let mut s = decimal_string(n / 10);
        s.append(digit);
        assert(s@ =~= decimal(n as nat));
        s
    }
}

/// Two blobs agree in everything but the commit time.
pub open spec fn same_blob(a: BlobView, b: BlobView) -> bool {
    &&& a.path == b.path
    &&& a.mime == b.mime
    &&& a.content == b.content
    &&& a.compression == b.compression
}

/// An uncapped read of `path`, on which the substrate answered `fetched`,
/// returns a blob that agrees with `expected`.
pub open spec fn reads_back(path: Seq<char>, fetched: FetchedView, expected: BlobView) -> bool {
    &&& valid_path(path)
    &&& match get_outcome(path, usize::MAX as nat, fetched) {
        GetOutcome::Read(b) => same_blob(b, expected),
        _ => false,
    }
}

/// A blob uploaded alone reads back through [`TestS3::assert_blob`] from a
/// bucket that keeps what the upload's commit wrote.
pub proof fn lemma_upload_reads_back(objects: Map<Seq<char>, BlobView>, b: BlobView, now: i64)
    requires
        valid_path(b.path),
        b.content.len() <= usize::MAX,
    ensures
        reads_back(
            b.path,
            fetch_from(write_all(objects, stamp_all(stage_all(Seq::empty(), seq![b]), now)), b.path),
            b,
        ),
{
    lemma_round_trip(objects, b, now, usize::MAX as nat);
}

/// After `second` is uploaded over `first` at the same path, the bucket reads
/// back as `second`, and no longer as `first` where their contents differ.
pub proof fn lemma_upload_overwrites(
    objects: Map<Seq<char>, BlobView>,
    first: BlobView,
    second: BlobView,
    t1: i64,
    t2: i64,
)
    requires
        valid_path(first.path),
        first.path == second.path,
        second.content.len() <= usize::MAX,
    ensures
        ({
            let once = write_all(objects, stamp_all(stage_all(Seq::empty(), seq![first]), t1));
            let twice = write_all(once, stamp_all(stage_all(Seq::empty(), seq![second]), t2));
            &&& reads_back(first.path, fetch_from(twice, first.path), second)
            &&& first.content != second.content ==> !reads_back(
                first.path,
                fetch_from(twice, first.path),
                first,
            )
        }),
{
    let once = write_all(objects, stamp_all(stage_all(Seq::empty(), seq![first]), t1));
    lemma_round_trip(once, second, t2, usize::MAX as nat);
}

fn same_compression(a: Option<CompressionAlgorithm>, b: Option<CompressionAlgorithm>) -> (r: bool)
    ensures
        r == (a == b),
{
    match (a, b) {
        (None, None) => true,
        (Some(CompressionAlgorithm::Zstd), Some(CompressionAlgorithm::Zstd)) => true,
        (Some(CompressionAlgorithm::Gzip), Some(CompressionAlgorithm::Gzip)) => true,
        _ => false,
    }
}

/// A backend over a scratch S3 bucket of its own, for exercising the storage
/// contract against a real object store.
#[derive(Debug)]
pub struct TestS3 {
    backend: Backend,
}

impl TestS3 {
    /// The name of the scratch bucket.
    pub closed spec fn bucket_spec(&self) -> Seq<char> {
        match self.backend {
            Backend::S3(s) => s.bucket_spec(),
            Backend::Local(_) => Seq::empty(),
        }
    }

    /// A harness over the bucket drawn as `n`.
    pub fn with_number(n: u64) -> (r: TestS3)
        ensures
            r.bucket_spec() == bucket_name(n),
    {
        let mut name = String::from_str("docs-rs-test-bucket-");
        proof {
            reveal_strlit("docs-rs-test-bucket-");
        }
        let number = decimal_string(n);
        name.append(number.as_str());
        assert(name@ =~= bucket_name(n));
        TestS3 { backend: Backend::S3(S3Backend::new(name)) }
    }

    /// A harness over a bucket with a freshly drawn name, so that each run has a
    /// bucket of its own. The bucket itself is created by the caller.
    pub fn new() -> (r: TestS3)
        ensures
            exists|n: u64| r.bucket_spec() == bucket_name(n),
    {
        let n: u64 = rand::random::<u64>();
        TestS3::with_number(n)
    }

    pub fn bucket(&self) -> (r: &str)
        ensures
            r@ == self.bucket_spec(),
    {
        match &self.backend {
            Backend::S3(s) => s.bucket(),
            Backend::Local(_) => {
                proof {
                    reveal_strlit("");
                }
                ""
            },
        }
    }

    pub fn backend(&self) -> (r: &Backend)
        ensures
            *r == self.backend_spec(),
    {
        &self.backend
    }

    /// Stages `blobs` in a fresh transaction and begins its commit at `now`; the
    /// caller writes the commit's entries to the bucket.
    pub fn upload(&self, blobs: Vec<Blob>, now: i64) -> (r: Result<Commit, Error>)
        ensures
            r is Ok <==> all_valid(views(blobs@)),
            r matches Ok(c) ==> c.wf() && c.written() == 0 && c.entries() == stamp_all(
                stage_all(Seq::empty(), views(blobs@)),
                now,
            ),
            r matches Err(e) ==> e matches Error::InvalidPath { index } && index < blobs@.len()
                && !valid_path(blobs@[index as int].path@) && forall|j: int|
                0 <= j < index ==> valid_path(#[trigger] blobs@[j].path@),
    {
        let mut transaction = self.backend.start_transaction();
        assert(transaction@ =~= Seq::empty());
        match transaction.store_batch(blobs) {
            Ok(()) => Ok(transaction.complete(now)),
            Err(e) => Err(e),
        }
    }

    /// Whether an uncapped read of `path`, on which the bucket answered
    /// `fetched`, returns `blob` (its commit time aside).
    pub fn assert_blob(&self, blob: &Blob, path: &str, fetched: Fetched) -> (r: bool)
        ensures
            r == reads_back(path@, fetched@, blob@),
    {
        match self.backend.get(path, usize::MAX, fetched) {
            Ok(actual) => same_chars(actual.path.as_str(), blob.path.as_str()) && same_chars(
                actual.mime.as_str(),
                blob.mime.as_str(),
            ) && same_bytes(&actual.content, &blob.content) && same_compression(
                actual.compression,
                blob.compression,
            ),
            Err(_) => false,
        }
    }

    /// Whether a read of `path`, on which the bucket answered `fetched`, is `NotFound`.
    pub fn assert_404(&self, path: &str, fetched: Fetched) -> (r: bool)
        ensures
            r == (!valid_path(path@) || get_outcome(path@, usize::MAX as nat, fetched@)
                == GetOutcome::NotFound),
    {
        match self.backend.get(path, usize::MAX, fetched) {
            Err(Error::NotFound) => true,
            _ => false,
        }
    }

    pub closed spec fn backend_spec(&self) -> Backend {
        self.backend
    }

    /// The backend, lent for the caller to adjust.
    pub fn with_client(&mut self) -> (r: &mut Backend)
        ensures
            *r == old(self).backend_spec(),
            final(self).backend_spec() == *final(r),
    {
        &mut self.backend
    }
}

} // verus!
