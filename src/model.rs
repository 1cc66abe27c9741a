use vstd::prelude::*;
use crate::blob::BlobView;
use crate::commit::stamp_all;
use crate::fetch::{blob_at, get_outcome, FetchedView, GetOutcome, ObjectView, NOT_FOUND_STATUS};
use crate::transaction::{holds_path, stage_all, unique_paths};

verus! {

/// What a substrate holds for a committed blob.
pub open spec fn object_of(b: BlobView) -> ObjectView {
    ObjectView {
        mime: b.mime,
        date_updated: b.date_updated,
        content: b.content,
        compression: b.compression,
    }
}

/// The answer of a substrate holding `objects` to a fetch of `path`.
pub open spec fn fetch_from(objects: Map<Seq<char>, BlobView>, path: Seq<char>) -> FetchedView {
    if objects.contains_key(path) {
        FetchedView::Found(object_of(objects[path]))
    } else {
        FetchedView::Missing
    }
}

/// What a substrate holds after `entries` were written to it, in order, each
/// write replacing whatever was at its path.
pub open spec fn write_all(
    objects: Map<Seq<char>, BlobView>,
    entries: Seq<BlobView>,
) -> Map<Seq<char>, BlobView>
    decreases entries.len(),
{
    if entries.len() == 0 {
        objects
    } else {
        write_all(objects, entries.drop_last()).insert(entries.last().path, entries.last())
    }
}

/// After writing `entries` with distinct paths, each of their paths holds its
/// entry, and every other path holds what it held before.
pub proof fn lemma_write_all(
    objects: Map<Seq<char>, BlobView>,
    entries: Seq<BlobView>,
    p: Seq<char>,
)
    requires
        unique_paths(entries),
    ensures
        forall|i: int|
            0 <= i < entries.len() && entries[i].path == p ==> write_all(objects, entries).contains_key(p)
                && write_all(objects, entries)[p] == entries[i],
        !holds_path(entries, p) ==> fetch_from(write_all(objects, entries), p) == fetch_from(objects, p),
    decreases entries.len(),
{
    if entries.len() > 0 {
        let init = entries.drop_last();
        assert(unique_paths(init));
        lemma_write_all(objects, init, p);
        if !holds_path(entries, p) {
            assert(!holds_path(init, p)) by {
                if holds_path(init, p) {
                    let i = choose|i: int| 0 <= i < init.len() && init[i].path == p;
                    assert(entries[i].path == p);
                }
            }
            assert(entries.last().path != p);
        }
        assert forall|i: int| 0 <= i < entries.len() && entries[i].path == p implies write_all(
            objects,
            entries,
        ).contains_key(p) && write_all(objects, entries)[p] == entries[i] by {
            if i < entries.len() - 1 {
                assert(entries.last().path != p);
                assert(init[i] == entries[i]);
            }
        }
    }
}

/// Round trip: a blob staged alone and committed at `now` reads back, under any
/// cap that its content fits, with its content, type and compression, stamped `now`.
pub proof fn lemma_round_trip(
    objects: Map<Seq<char>, BlobView>,
    b: BlobView,
    now: i64,
    max_size: nat,
)
    requires
        b.content.len() <= max_size,
    ensures
        get_outcome(
            b.path,
            max_size,
            fetch_from(write_all(objects, stamp_all(stage_all(Seq::empty(), seq![b]), now)), b.path),
        ) == GetOutcome::Read(b.stamped(now)),
{
    let staged = stage_all(Seq::empty(), seq![b]);
    assert(seq![b].drop_last() =~= Seq::<BlobView>::empty());
    assert(!holds_path(Seq::<BlobView>::empty(), b.path));
    assert(stage_all(Seq::empty(), Seq::<BlobView>::empty()) == Seq::<BlobView>::empty());
    assert(seq![b].last() == b);
    assert(Seq::<BlobView>::empty().push(b) =~= seq![b]);
    assert(staged =~= seq![b]);
    let entries = stamp_all(staged, now);
    assert(entries =~= seq![b.stamped(now)]);
    assert(entries.drop_last() =~= Seq::<BlobView>::empty());
    assert(blob_at(b.path, object_of(b.stamped(now))) == b.stamped(now));
}

/// A path that holds nothing reads as `NotFound`, whether the substrate says
/// the object is missing or fails with a not-found status.
pub proof fn lemma_not_found(
    objects: Map<Seq<char>, BlobView>,
    path: Seq<char>,
    max_size: nat,
    message: Seq<char>,
)
    requires
        !objects.contains_key(path),
    ensures
        get_outcome(path, max_size, fetch_from(objects, path)) == GetOutcome::NotFound,
        get_outcome(
            path,
            max_size,
            FetchedView::Failed { status: Some(NOT_FOUND_STATUS), message },
        ) == GetOutcome::NotFound,
{
}

/// A stored object over the cap is refused, never read in part.
pub proof fn lemma_size_cap(objects: Map<Seq<char>, BlobView>, path: Seq<char>, max_size: nat)
    requires
        objects.contains_key(path),
        objects[path].content.len() > max_size,
    ensures
        get_outcome(path, max_size, fetch_from(objects, path)) == GetOutcome::TooLarge,
{
}

/// A commit of distinct entries that stopped after the first `n` writes leaves
/// exactly those readable: each of them reads back as written, and an entry
/// past them whose path held nothing before still reads as `NotFound`.
pub proof fn lemma_committed_prefix(
    objects: Map<Seq<char>, BlobView>,
    entries: Seq<BlobView>,
    n: int,
    max_size: nat,
)
    requires
        unique_paths(entries),
        0 <= n <= entries.len(),
    ensures
        forall|i: int|
            0 <= i < n ==> #[trigger] fetch_from(write_all(objects, entries.take(n)), entries[i].path)
                == FetchedView::Found(object_of(entries[i])),
        forall|i: int|
            n <= i < entries.len() && !objects.contains_key(entries[i].path) ==> get_outcome(
                entries[i].path,
                max_size,
                #[trigger] fetch_from(write_all(objects, entries.take(n)), entries[i].path),
            ) == GetOutcome::NotFound,
{
    let done = entries.take(n);
    assert(unique_paths(done));
    assert forall|i: int| 0 <= i < n implies #[trigger] fetch_from(
        write_all(objects, done),
        entries[i].path,
    ) == FetchedView::Found(object_of(entries[i])) by {
        lemma_write_all(objects, done, entries[i].path);
        assert(done[i] == entries[i]);
    }
    assert forall|i: int|
        n <= i < entries.len() && !objects.contains_key(entries[i].path) implies get_outcome(
        entries[i].path,
        max_size,
        #[trigger] fetch_from(write_all(objects, done), entries[i].path),
    ) == GetOutcome::NotFound by {
        lemma_write_all(objects, done, entries[i].path);
        assert(!holds_path(done, entries[i].path)) by {
            if holds_path(done, entries[i].path) {
                let j = choose|j: int| 0 <= j < done.len() && done[j].path == entries[i].path;
                assert(entries[j].path == entries[i].path);
            }
        }
    }
}

/// Staging writes nothing: whatever a transaction holds, a read sees only what
/// the substrate held, `NotFound` where it held nothing.
pub proof fn lemma_staged_invisible(
    objects: Map<Seq<char>, BlobView>,
    pending: Seq<BlobView>,
    batch: Seq<BlobView>,
    path: Seq<char>,
    max_size: nat,
)
    requires
        holds_path(stage_all(pending, batch), path),
    ensures
        !objects.contains_key(path) ==> get_outcome(path, max_size, fetch_from(objects, path))
            == GetOutcome::NotFound,
        objects.contains_key(path) && objects[path].content.len() <= max_size ==> get_outcome(
            path,
            max_size,
            fetch_from(objects, path),
        ) == GetOutcome::Read(blob_at(path, object_of(objects[path]))),
{
}

/// Overwrite: after committing `first` and then `second` at the same path, a
/// read returns the second blob alone.
pub proof fn lemma_overwrite(
    objects: Map<Seq<char>, BlobView>,
    first: BlobView,
    second: BlobView,
    t1: i64,
    t2: i64,
    max_size: nat,
)
    requires
        first.path == second.path,
        second.content.len() <= max_size,
    ensures
        ({
            let once = write_all(objects, stamp_all(stage_all(Seq::empty(), seq![first]), t1));
            let twice = write_all(once, stamp_all(stage_all(Seq::empty(), seq![second]), t2));
            get_outcome(second.path, max_size, fetch_from(twice, second.path)) == GetOutcome::Read(
                second.stamped(t2),
            )
        }),
{
    let once = write_all(objects, stamp_all(stage_all(Seq::empty(), seq![first]), t1));
    lemma_round_trip(once, second, t2, max_size);
}

} // verus!
