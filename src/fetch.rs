use vstd::prelude::*;
use crate::blob::{Blob, BlobView, CompressionAlgorithm};
use crate::error::Error;

verus! {

/// The HTTP status with which a substrate reports that nothing is stored at a key.
pub const NOT_FOUND_STATUS: u16 = 404;

/// An object as a substrate returned it: everything of a blob but its path.
#[derive(Clone, Debug)]
pub struct StoredObject {
    pub mime: String,
    pub date_updated: i64,
    pub content: Vec<u8>,
    pub compression: Option<CompressionAlgorithm>,
}

pub struct ObjectView {
    pub mime: Seq<char>,
    pub date_updated: i64,
    pub content: Seq<u8>,
    pub compression: Option<CompressionAlgorithm>,
}

impl View for StoredObject {
    type V = ObjectView;

    open spec fn view(&self) -> ObjectView {
        ObjectView {
            mime: self.mime@,
            date_updated: self.date_updated,
            content: self.content@,
            compression: self.compression,
        }
    }
}

/// What a substrate answered to a fetch of one path. A substrate may report a
/// missing object either as such or as a failure that carries a not-found status.
#[derive(Debug)]
pub enum Fetched {
    Found(StoredObject),
    Missing,
    Failed { status: Option<u16>, message: String },
}

pub enum FetchedView {
    Found(ObjectView),
    Missing,
    Failed { status: Option<u16>, message: Seq<char> },
}

impl View for Fetched {
    type V = FetchedView;

    open spec fn view(&self) -> FetchedView {
        match self {
            Fetched::Found(o) => FetchedView::Found(o@),
            Fetched::Missing => FetchedView::Missing,
            Fetched::Failed { status, message } => FetchedView::Failed {
                status: *status,
                message: message@,
            },
        }
    }
}

/// What a read amounts to.
pub enum GetOutcome {
    Read(BlobView),
    NotFound,
    TooLarge,
    Failed(Seq<char>),
    Other,
}

/// The blob at `path` holding `o`.
pub open spec fn blob_at(path: Seq<char>, o: ObjectView) -> BlobView {
    BlobView {
        path,
        mime: o.mime,
        date_updated: o.date_updated,
        content: o.content,
        compression: o.compression,
    }
}

/// A read of `path` capped at `max_size` bytes, on which the substrate answered `f`.
pub open spec fn get_outcome(path: Seq<char>, max_size: nat, f: FetchedView) -> GetOutcome {
    match f {
        FetchedView::Found(o) => if o.content.len() > max_size {
            GetOutcome::TooLarge
        } else {
            GetOutcome::Read(blob_at(path, o))
        },
        FetchedView::Missing => GetOutcome::NotFound,
        FetchedView::Failed { status, message } => if status == Some(NOT_FOUND_STATUS) {
            GetOutcome::NotFound
        } else {
            GetOutcome::Failed(message)
        },
    }
}

/// What a read's result amounts to.
pub open spec fn outcome_of(r: Result<Blob, Error>) -> GetOutcome {
    match r {
        Ok(b) => GetOutcome::Read(b@),
        Err(Error::NotFound) => GetOutcome::NotFound,
        Err(Error::SizeExceeded { .. }) => GetOutcome::TooLarge,
        Err(Error::Transient { message }) => GetOutcome::Failed(message@),
        Err(_) => GetOutcome::Other,
    }
}

/// The result of reading `path` with a cap of `max_size` bytes, given what the
/// substrate answered. A missing object is `NotFound` whichever way the
/// substrate reported it; an object over the cap is refused, never truncated.
pub fn resolve_get(path: &str, max_size: usize, fetched: Fetched) -> (r: Result<Blob, Error>)
    ensures
        outcome_of(r) == get_outcome(path@, max_size as nat, fetched@),
        r matches Err(Error::SizeExceeded { max_size: m }) ==> m == max_size,
{
    match fetched {
        Fetched::Found(o) => {
            if o.content.len() > max_size {
                Err(Error::SizeExceeded { max_size })
            } else {
                Ok(
                    Blob {
                        path: String::from_str(path),
                        mime: o.mime,
                        date_updated: o.date_updated,
                        content: o.content,
                        compression: o.compression,
                    },
                )
            }
        },
        Fetched::Missing => Err(Error::NotFound),
        Fetched::Failed { status, message } => {
            let not_found = match status {
                Some(code) => code == NOT_FOUND_STATUS,
                None => false,
            };
            if not_found {
                Err(Error::NotFound)
            } else {
                Err(Error::Transient { message })
            }
        },
    }
}

} // verus!
