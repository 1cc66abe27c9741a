use vstd::prelude::*;

verus! {

/// How a blob's content is compressed, recorded so that a reader can decide
/// whether to decompress. A blob without one is stored as is.
#[derive(Clone, Copy, Debug, PartialEq, Eq, Structural)]
pub enum CompressionAlgorithm {
    Zstd,
    Gzip,
}

/// The name under which a compression is recorded next to the content (an S3
/// object's content encoding, for one).
pub open spec fn compression_name(c: CompressionAlgorithm) -> Seq<char> {
    match c {
        CompressionAlgorithm::Zstd => seq!['z', 's', 't', 'd'],
        CompressionAlgorithm::Gzip => seq!['g', 'z', 'i', 'p'],
    }
}

/// Distinct compressions are recorded under distinct names, so a recorded name
/// reads back as the compression it was written for.
pub proof fn lemma_compression_names_distinct(a: CompressionAlgorithm, b: CompressionAlgorithm)
    ensures
        compression_name(a) == compression_name(b) ==> a == b,
{
    if a != b {
        match (a, b) {
            (CompressionAlgorithm::Zstd, _) => assert(compression_name(a)[0] != compression_name(b)[0]),
            (CompressionAlgorithm::Gzip, _) => assert(compression_name(a)[0] != compression_name(b)[0]),
        }
    }
}

/// Whether two strings hold the same characters.
pub fn same_chars(a: &str, b: &str) -> (r: bool)
    ensures
        r == (a@ == b@),
{
    let n = a.unicode_len();
    if n != b.unicode_len() {
        return false;
    }
    let mut i: usize = 0;
    while i < n
        invariant
            n == a@.len(),
            n == b@.len(),
            i <= n,
            forall|k: int| 0 <= k < i ==> a@[k] == b@[k],
        decreases n - i,
    {
        if a.get_char(i) != b.get_char(i) {
            return false;
        }
        i = i + 1;
    }
    assert(a@ =~= b@);
    true
}

/// Whether two byte vectors hold the same bytes.
pub fn same_bytes(a: &Vec<u8>, b: &Vec<u8>) -> (r: bool)
    ensures
        r == (a@ == b@),
{
    if a.len() != b.len() {
        return false;
    }
    let mut i: usize = 0;
    while i < a.len()
        invariant
            a@.len() == b@.len(),
            i <= a@.len(),
            forall|k: int| 0 <= k < i ==> a@[k] == b@[k],
        decreases a@.len() - i,
    {
        if a[i] != b[i] {
            return false;
        }
        i = i + 1;
    }
    assert(a@ =~= b@);
    true
}

impl CompressionAlgorithm {
    /// The recorded name of this compression.
    pub fn name(&self) -> (r: &'static str)
        ensures
            r@ == compression_name(*self),
    {
        match self {
            CompressionAlgorithm::Zstd => {
                let r = "zstd";
                proof {
                    reveal_strlit("zstd");
                }
                assert(r@ =~= compression_name(*self));
                r
            },
            CompressionAlgorithm::Gzip => {
                let r = "gzip";
                proof {
                    reveal_strlit("gzip");
                }
                assert(r@ =~= compression_name(*self));
                r
            },
        }
    }

    /// The compression recorded under `name`, if any is.
    pub fn from_name(name: &str) -> (r: Option<CompressionAlgorithm>)
        ensures
            r matches Some(c) ==> compression_name(c) == name@,
            r is None ==> forall|c: CompressionAlgorithm| compression_name(c) != name@,
    {
        if same_chars(name, CompressionAlgorithm::Zstd.name()) {
            Some(CompressionAlgorithm::Zstd)
        } else if same_chars(name, CompressionAlgorithm::Gzip.name()) {
            Some(CompressionAlgorithm::Gzip)
        } else {
            assert forall|c: CompressionAlgorithm| compression_name(c) != name@ by {
                match c {
                    CompressionAlgorithm::Zstd => {},
                    CompressionAlgorithm::Gzip => {},
                }
            }
            None
        }
    }
}

/// The unit of stored content.
#[derive(Clone, Debug)]
pub struct Blob {
    pub path: String,
    pub mime: String,
    /// Seconds since the Unix epoch, assigned by the backend when the blob is committed.
    pub date_updated: i64,
    pub content: Vec<u8>,
    pub compression: Option<CompressionAlgorithm>,
}

/// The mathematical value of a [`Blob`].
pub struct BlobView {
    pub path: Seq<char>,
    pub mime: Seq<char>,
    pub date_updated: i64,
    pub content: Seq<u8>,
    pub compression: Option<CompressionAlgorithm>,
}

impl View for Blob {
    type V = BlobView;

    open spec fn view(&self) -> BlobView {
        BlobView {
            path: self.path@,
            mime: self.mime@,
            date_updated: self.date_updated,
            content: self.content@,
            compression: self.compression,
        }
    }
}

impl BlobView {
    /// The same blob as committed at time `now`.
    pub open spec fn stamped(self, now: i64) -> BlobView {
        BlobView { date_updated: now, ..self }
    }
}

} // verus!
