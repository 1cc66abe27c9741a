use blob_storage::backend::{Backend, LocalBackend, Location, S3Backend};
use blob_storage::blob::{Blob, CompressionAlgorithm};
use blob_storage::commit::Commit;
use blob_storage::error::Error;
use blob_storage::fetch::{resolve_get, Fetched, StoredObject};
use blob_storage::harness::{decimal_string, TestS3};
use blob_storage::path::is_valid_path;
use blob_storage::transaction::Transaction;
use std::collections::HashMap;

fn blob(path: &str, content: &[u8]) -> Blob {
    Blob {
        path: path.to_string(),
        mime: "text/plain".to_string(),
        date_updated: 0,
        content: content.to_vec(),
        compression: None,
    }
}

/// A substrate that keeps what it is given, with an optional write that fails.
struct MemoryStore {
    objects: HashMap<String, StoredObject>,
    fail_on: Option<String>,
}

impl MemoryStore {
    fn new() -> Self {
        MemoryStore { objects: HashMap::new(), fail_on: None }
    }

    fn put(&mut self, b: &Blob) -> Result<(), String> {
        if self.fail_on.as_deref() == Some(b.path.as_str()) {
            return Err(format!("write of {} refused", b.path));
        }
        self.objects.insert(
            b.path.clone(),
            StoredObject {
                mime: b.mime.clone(),
                date_updated: b.date_updated,
                content: b.content.clone(),
                compression: b.compression,
            },
        );
        Ok(())
    }

    fn fetch(&self, path: &str) -> Fetched {
        match self.objects.get(path) {
            Some(o) => Fetched::Found(o.clone()),
            None => Fetched::Missing,
        }
    }

    fn run(&mut self, mut commit: Commit) -> Result<(), (Error, Transaction)> {
        loop {
            let outcome = match commit.next_put() {
                None => break,
                Some(b) => self.put(b),
            };
            match outcome {
                Ok(()) => commit.stored(),
                Err(cause) => return Err(commit.failed(cause)),
            }
        }
        commit.finish().map_err(|e| (e, Transaction::new()))
    }

    fn get(&self, backend: &Backend, path: &str, max_size: usize) -> Result<Blob, Error> {
        backend.get(path, max_size, self.fetch(path))
    }
}

fn s3() -> Backend {
    Backend::S3(S3Backend::new("bucket".to_string()))
}

fn commit_batch(store: &mut MemoryStore, backend: &Backend, blobs: Vec<Blob>, now: i64) -> Result<(), Error> {
    let mut t = backend.start_transaction();
    t.store_batch(blobs)?;
    store.run(t.complete(now)).map_err(|(e, _)| e)
}

#[test]
fn end_to_end_two_blobs() {
    let backend = s3();
    let mut store = MemoryStore::new();
    let r = commit_batch(&mut store, &backend, vec![blob("a.txt", b"hello"), blob("b.txt", b"world")], 7);
    assert!(r.is_ok());
    let a = store.get(&backend, "a.txt", 1024).unwrap();
    assert_eq!(a.content, b"hello".to_vec());
    assert_eq!(a.path, "a.txt");
    assert_eq!(a.date_updated, 7);
    assert!(matches!(store.get(&backend, "missing.txt", 1024), Err(Error::NotFound)));
}

#[test]
fn round_trip_keeps_type_and_compression() {
    let backend = Backend::Local(LocalBackend::new("/srv".to_string()));
    let mut store = MemoryStore::new();
    let mut b = blob("docs/index.html", b"<html></html>");
    b.mime = "text/html".to_string();
    b.compression = Some(CompressionAlgorithm::Zstd);
    commit_batch(&mut store, &backend, vec![b], 99).unwrap();
    let r = store.get(&backend, "docs/index.html", 13).unwrap();
    assert_eq!(r.content, b"<html></html>".to_vec());
    assert_eq!(r.mime, "text/html");
    assert_eq!(r.compression, Some(CompressionAlgorithm::Zstd));
    assert_eq!(r.date_updated, 99);
}

#[test]
fn not_found_in_every_shape() {
    let backend = s3();
    assert!(matches!(backend.get("x", 10, Fetched::Missing), Err(Error::NotFound)));
    let f = Fetched::Failed { status: Some(404), message: "Not Found".to_string() };
    assert!(matches!(backend.get("x", 10, f), Err(Error::NotFound)));
    let local = Backend::Local(LocalBackend::new("/srv".to_string()));
    assert!(matches!(local.get("x", 10, Fetched::Missing), Err(Error::NotFound)));
}

#[test]
fn other_failures_are_transient() {
    let f = Fetched::Failed { status: Some(500), message: "boom".to_string() };
    match resolve_get("x", 10, f) {
        Err(Error::Transient { message }) => assert_eq!(message, "boom"),
        other => panic!("unexpected {:?}", other),
    }
    let f = Fetched::Failed { status: None, message: "reset".to_string() };
    assert!(matches!(resolve_get("x", 10, f), Err(Error::Transient { .. })));
}

#[test]
fn size_cap_refuses_larger_objects() {
    let backend = s3();
    let mut store = MemoryStore::new();
    commit_batch(&mut store, &backend, vec![blob("big", &[1u8; 11])], 1).unwrap();
    assert!(matches!(store.get(&backend, "big", 10), Err(Error::SizeExceeded { max_size: 10 })));
    assert_eq!(store.get(&backend, "big", 11).unwrap().content.len(), 11);
    assert!(matches!(store.get(&backend, "big", 0), Err(Error::SizeExceeded { max_size: 0 })));
}

#[test]
fn empty_blob_fits_a_zero_cap() {
    let f = Fetched::Found(StoredObject {
        mime: String::new(),
        date_updated: 0,
        content: vec![],
        compression: None,
    });
    assert_eq!(resolve_get("e", 0, f).unwrap().content.len(), 0);
}

#[test]
fn partial_failure_names_the_written_prefix() {
    let backend = s3();
    let mut store = MemoryStore::new();
    store.fail_on = Some("c".to_string());
    let mut t = backend.start_transaction();
    t.store_batch(vec![blob("a", b"1"), blob("b", b"2"), blob("c", b"3"), blob("d", b"4")]).unwrap();
    let (err, rest) = store.run(t.complete(5)).unwrap_err();
    match err {
        Error::PartialFailure { committed, cause } => {
            assert_eq!(committed, vec!["a".to_string(), "b".to_string()]);
            assert_eq!(cause, "write of c refused");
        }
        other => panic!("unexpected {:?}", other),
    }
    let left: Vec<&str> = rest.entries().iter().map(|b| b.path.as_str()).collect();
    assert_eq!(left, vec!["c", "d"]);
    assert!(store.get(&backend, "a", 10).is_ok());
    assert!(store.get(&backend, "b", 10).is_ok());
    assert!(matches!(store.get(&backend, "c", 10), Err(Error::NotFound)));
    assert!(matches!(store.get(&backend, "d", 10), Err(Error::NotFound)));
    store.fail_on = None;
    assert!(store.run(rest.complete(6)).is_ok());
    assert_eq!(store.get(&backend, "d", 10).unwrap().content, b"4".to_vec());
    assert_eq!(store.get(&backend, "a", 10).unwrap().date_updated, 5);
}

#[test]
fn failure_on_first_write_commits_nothing() {
    let backend = s3();
    let mut store = MemoryStore::new();
    store.fail_on = Some("a".to_string());
    let mut t = backend.start_transaction();
    t.store_batch(vec![blob("a", b"1")]).unwrap();
    match store.run(t.complete(0)) {
        Err((Error::PartialFailure { committed, .. }, rest)) => {
            assert!(committed.is_empty());
            assert_eq!(rest.len(), 1);
        }
        _ => panic!("expected a partial failure"),
    }
}

#[test]
fn staged_entries_are_invisible() {
    let backend = s3();
    let mut store = MemoryStore::new();
    commit_batch(&mut store, &backend, vec![blob("old", b"before")], 1).unwrap();
    let mut t = backend.start_transaction();
    t.store_batch(vec![blob("old", b"after"), blob("new", b"fresh")]).unwrap();
    assert_eq!(store.get(&backend, "old", 100).unwrap().content, b"before".to_vec());
    assert!(matches!(store.get(&backend, "new", 100), Err(Error::NotFound)));
    store.run(t.complete(2)).unwrap();
    assert_eq!(store.get(&backend, "old", 100).unwrap().content, b"after".to_vec());
}

#[test]
fn overwrite_replaces_content() {
    let backend = s3();
    let mut store = MemoryStore::new();
    commit_batch(&mut store, &backend, vec![blob("p", b"a much longer old body")], 1).unwrap();
    commit_batch(&mut store, &backend, vec![blob("p", b"new")], 2).unwrap();
    let r = store.get(&backend, "p", 100).unwrap();
    assert_eq!(r.content, b"new".to_vec());
    assert_eq!(r.date_updated, 2);
}

#[test]
fn last_write_in_a_batch_wins_and_keeps_its_place() {
    let mut t = Transaction::new();
    t.store_batch(vec![blob("x", b"1"), blob("y", b"2"), blob("x", b"3")]).unwrap();
    assert_eq!(t.len(), 2);
    assert_eq!(t.entries()[0].path, "x");
    assert_eq!(t.entries()[0].content, b"3".to_vec());
    assert_eq!(t.entries()[1].path, "y");
    t.store_batch(vec![blob("z", b"4"), blob("y", b"5")]).unwrap();
    let order: Vec<&str> = t.entries().iter().map(|b| b.path.as_str()).collect();
    assert_eq!(order, vec!["x", "y", "z"]);
    assert_eq!(t.entries()[1].content, b"5".to_vec());
}

#[test]
fn invalid_path_stages_nothing() {
    let mut t = Transaction::new();
    t.store_batch(vec![blob("keep", b"k")]).unwrap();
    let r = t.store_batch(vec![blob("ok", b"1"), blob("../etc/passwd", b"2"), blob("/abs", b"3")]);
    assert!(matches!(r, Err(Error::InvalidPath { index: 1 })));
    assert_eq!(t.len(), 1);
    assert_eq!(t.entries()[0].path, "keep");
}

#[test]
fn complete_stamps_commit_time_in_staging_order() {
    let mut t = Transaction::new();
    let mut b = blob("b", b"2");
    b.date_updated = 123;
    t.store_batch(vec![b, blob("a", b"1")]).unwrap();
    let mut c = t.complete(42);
    assert_eq!(c.next_put().unwrap().path, "b");
    assert_eq!(c.next_put().unwrap().date_updated, 42);
    c.stored();
    assert_eq!(c.next_put().unwrap().path, "a");
    c.stored();
    assert!(c.next_put().is_none());
    assert!(c.finish().is_ok());
}

#[test]
fn empty_transaction_commits_at_once() {
    let backend = s3();
    let t = backend.start_transaction();
    let c = t.complete(0);
    assert!(c.next_put().is_none());
    assert!(c.finish().is_ok());
}

#[test]
fn path_rules() {
    for p in ["a", "a.txt", "dir/sub/file.rs", ".hidden", "...", "a..b", "x/.y", "ünïcode/路径"] {
        assert!(is_valid_path(p), "{p}");
    }
    for p in ["", "/", "/a", "a/", "a//b", ".", "..", "../x", "a/./b", "a/..", "a/../b", "a\0b"] {
        assert!(!is_valid_path(p), "{p:?}");
    }
}

#[test]
fn locate_maps_paths_per_substrate() {
    let local = Backend::Local(LocalBackend::new("/data".to_string()));
    match local.locate("a/b.txt") {
        Ok(Location::File(f)) => assert_eq!(f, "/data/a/b.txt"),
        other => panic!("unexpected {:?}", other),
    }
    match s3().locate("a/b.txt") {
        Ok(Location::Object { bucket, key }) => {
            assert_eq!(bucket, "bucket");
            assert_eq!(key, "a/b.txt");
        }
        other => panic!("unexpected {:?}", other),
    }
    assert!(matches!(local.locate("../secret"), Err(Error::NotFound)));
    assert!(matches!(local.get("../secret", 10, Fetched::Missing), Err(Error::NotFound)));
}

#[test]
fn compression_names() {
    assert_eq!(CompressionAlgorithm::Zstd.name(), "zstd");
    assert_eq!(CompressionAlgorithm::Gzip.name(), "gzip");
    assert_eq!(CompressionAlgorithm::from_name("zstd"), Some(CompressionAlgorithm::Zstd));
    assert_eq!(CompressionAlgorithm::from_name("gzip"), Some(CompressionAlgorithm::Gzip));
    assert_eq!(CompressionAlgorithm::from_name("zst"), None);
    assert_eq!(CompressionAlgorithm::from_name("ZSTD"), None);
    assert_eq!(CompressionAlgorithm::from_name(""), None);
}

#[test]
fn decimal_numerals() {
    assert_eq!(decimal_string(0), "0");
    assert_eq!(decimal_string(7), "7");
    assert_eq!(decimal_string(10), "10");
    assert_eq!(decimal_string(1234567890), "1234567890");
    assert_eq!(decimal_string(u64::MAX), "18446744073709551615");
}

#[test]
fn test_bucket_names_are_fresh() {
    let a = TestS3::new();
    let b = TestS3::new();
    for t in [&a, &b] {
        let digits = t.bucket().strip_prefix("docs-rs-test-bucket-").unwrap();
        assert!(!digits.is_empty());
        assert!(digits.chars().all(|c| c.is_ascii_digit()));
        assert_eq!(digits.parse::<u64>().unwrap().to_string(), digits);
    }
    assert_ne!(a.bucket(), b.bucket());
}

#[test]
fn harness_upload_and_read_back() {
    let t = TestS3::new();
    let mut store = MemoryStore::new();
    let b = blob("dir/file.txt", b"content");
    let commit = t.upload(vec![b.clone()], 3).unwrap();
    store.run(commit).unwrap();
    assert!(t.assert_blob(&b, "dir/file.txt", store.fetch("dir/file.txt")));
    let mut other = b.clone();
    other.content = b"different".to_vec();
    assert!(!t.assert_blob(&other, "dir/file.txt", store.fetch("dir/file.txt")));
    assert!(t.assert_404("nothing.txt", store.fetch("nothing.txt")));
    assert!(!t.assert_404("dir/file.txt", store.fetch("dir/file.txt")));
    let f = Fetched::Failed { status: Some(404), message: String::new() };
    assert!(t.assert_404("gone", f));
    assert!(matches!(t.upload(vec![blob("", b"x")], 0), Err(Error::InvalidPath { index: 0 })));
}

#[test]
fn bucket_name_from_number() {
    assert_eq!(TestS3::with_number(0).bucket(), "docs-rs-test-bucket-0");
    assert_eq!(TestS3::with_number(42).bucket(), "docs-rs-test-bucket-42");
    assert_eq!(TestS3::with_number(u64::MAX).bucket(), "docs-rs-test-bucket-18446744073709551615");
}

#[test]
fn harness_upload_names_first_bad_path() {
    let t = TestS3::with_number(1);
    let r = t.upload(vec![blob("a", b"1"), blob("b", b"2"), blob("c//d", b"3"), blob("", b"4")], 0);
    assert!(matches!(r, Err(Error::InvalidPath { index: 2 })));
}

#[test]
fn harness_lends_its_backend() {
    let mut t = TestS3::new();
    *t.with_client() = Backend::S3(S3Backend::new("renamed".to_string()));
    assert_eq!(t.bucket(), "renamed");
}
