use vstd::prelude::*;
use crate::blob::{Blob, BlobView};
use crate::error::Error;
use crate::path::{is_valid_path, valid_path};

verus! {

/// The views of a sequence of blobs.
pub open spec fn views(v: Seq<Blob>) -> Seq<BlobView> {
    v.map_values(|b: Blob| b@)
}

/// No two entries share a path.
pub open spec fn unique_paths(s: Seq<BlobView>) -> bool {
    forall|i: int, j: int|
        0 <= i < s.len() && 0 <= j < s.len() && i != j ==> s[i].path != s[j].path
}

/// Some entry of `s` is at path `p`.
pub open spec fn holds_path(s: Seq<BlobView>, p: Seq<char>) -> bool {
    exists|i: int| 0 <= i < s.len() && s[i].path == p
}

/// Every blob of a batch has a well-formed path.
pub open spec fn all_valid(bs: Seq<BlobView>) -> bool {
    forall|i: int| 0 <= i < bs.len() ==> valid_path(#[trigger] bs[i].path)
}

/// `s` with `b` staged: `b` replaces the entry at its path where there is one,
/// keeping that entry's place, and is added at the end where there is none.
pub open spec fn stage(s: Seq<BlobView>, b: BlobView) -> Seq<BlobView> {
    if holds_path(s, b.path) {
        s.update(choose|i: int| 0 <= i < s.len() && s[i].path == b.path, b)
    } else {
        s.push(b)
    }
}

/// `s` with each blob of `bs` staged in turn, so that the last write to a path wins.
pub open spec fn stage_all(s: Seq<BlobView>, bs: Seq<BlobView>) -> Seq<BlobView>
    decreases bs.len(),
{
    if bs.len() == 0 {
        s
    } else {
        stage(stage_all(s, bs.drop_last()), bs.last())
    }
}

/// Staging keeps paths unique.
pub proof fn lemma_stage_unique(s: Seq<BlobView>, b: BlobView)
    requires
        unique_paths(s),
    ensures
        unique_paths(stage(s, b)),
{
}

/// Staging a batch keeps paths unique.
pub proof fn lemma_stage_all_unique(s: Seq<BlobView>, bs: Seq<BlobView>)
    requires
        unique_paths(s),
    ensures
        unique_paths(stage_all(s, bs)),
    decreases bs.len(),
{
    if bs.len() > 0 {
        lemma_stage_all_unique(s, bs.drop_last());
        lemma_stage_unique(stage_all(s, bs.drop_last()), bs.last());
    }
}

/// Within a batch the last write to a path wins: staging `first` and then
/// `second` at the same path leaves what staging `second` alone would.
pub proof fn lemma_last_write_wins(s: Seq<BlobView>, first: BlobView, second: BlobView)
    requires
        unique_paths(s),
        first.path == second.path,
    ensures
        stage_all(s, seq![first, second]) == stage_all(s, seq![second]),
{
    assert(seq![first, second].drop_last() =~= seq![first]);
    assert(seq![first].drop_last() =~= Seq::<BlobView>::empty());
    assert(seq![second].drop_last() =~= Seq::<BlobView>::empty());
    assert(stage_all(s, Seq::<BlobView>::empty()) == s);
    assert(seq![first].last() == first);
    assert(seq![second].last() == second);
    assert(seq![first, second].last() == second);
    assert(stage_all(s, seq![first]) == stage(s, first));
    assert(stage_all(s, seq![second]) == stage(s, second));
    let once = stage(s, first);
    if holds_path(s, first.path) {
        let i = choose|i: int| 0 <= i < s.len() && s[i].path == first.path;
        assert(once[i].path == second.path);
        assert(holds_path(once, second.path));
        lemma_stage_unique(s, first);
        let j = choose|j: int| 0 <= j < once.len() && once[j].path == second.path;
        assert(j == i);
        assert(stage(once, second) =~= stage(s, second));
    } else {
        assert(once[s.len() as int].path == second.path);
        assert(holds_path(once, second.path));
        lemma_stage_unique(s, first);
        let j = choose|j: int| 0 <= j < once.len() && once[j].path == second.path;
        assert(j == s.len()) by {
            if j < s.len() {
                assert(s[j].path == first.path);
            }
        }
        assert(stage(once, second) =~= s.push(second));
    }
}

/// An in-flight batch of pending writes, keyed by path, in the order in which
/// each path was first staged. Nothing in it is visible to readers until it is
/// committed.
#[derive(Debug)]
pub struct Transaction {
    entries: Vec<Blob>,
}

impl View for Transaction {
    type V = Seq<BlobView>;

    closed spec fn view(&self) -> Seq<BlobView> {
        views(self.entries@)
    }
}

impl Transaction {
    pub open spec fn wf(&self) -> bool {
        unique_paths(self@)
    }

    /// An empty transaction.
    pub fn new() -> (r: Transaction)
        ensures
            r@ == Seq::<BlobView>::empty(),
            r.wf(),
    {
        let r = Transaction { entries: Vec::new() };
        assert(r@ =~= Seq::<BlobView>::empty());
        r
    }

    /// The pending entries, in commit order.
    pub fn entries(&self) -> (r: &[Blob])
        ensures
            views(r@) == self@,
    {
        self.entries.as_slice()
    }

    pub fn len(&self) -> (r: usize)
        ensures
            r == self@.len(),
    {
        self.entries.len()
    }

    pub(crate) fn from_entries(entries: Vec<Blob>) -> (r: Transaction)
        requires
            unique_paths(views(entries@)),
        ensures
            r@ == views(entries@),
            r.wf(),
    {
        Transaction { entries }
    }

    pub(crate) fn into_entries(self) -> (r: Vec<Blob>)
        ensures
            views(r@) == self@,
    {
        self.entries
    }

    fn stage_one(&mut self, b: Blob)
        requires
            old(self).wf(),
        ensures
            final(self)@ == stage(old(self)@, b@),
            final(self).wf(),
    {
        proof {
            lemma_stage_unique(self@, b@);
        }
        let mut i: usize = 0;
        while i < self.entries.len()
            invariant
                *self == *old(self),
                self.wf(),
                i <= self.entries@.len(),
                forall|j: int| 0 <= j < i ==> self.entries@[j].path@ != b.path@,
            decreases self.entries@.len() - i,
        {
            if self.entries[i].path == b.path {
                let ghost before = self@;
                assert(before[i as int].path == b@.path);
                assert(holds_path(before, b@.path));
                let ghost c = choose|j: int| 0 <= j < before.len() && before[j].path == b@.path;
                assert(before[c].path == b@.path);
                assert(before[c].path == before[i as int].path);
                assert(c == i);
                self.entries[i] = b;
                assert(self@ =~= before.update(i as int, b@));
                return;
            }
            i = i + 1;
        }
        let ghost before = self@;
        assert(!holds_path(before, b@.path));
        self.entries.push(b);
        assert(self@ =~= before.push(b@));
    }

    /// Stages every blob of `blobs`, in order, replacing any pending entry at the
    /// same path. Touches no storage. Where a path is malformed, stages nothing
    /// and names the first such blob.
    pub fn store_batch(&mut self, blobs: Vec<Blob>) -> (r: Result<(), Error>)
        requires
            old(self).wf(),
        ensures
            final(self).wf(),
            r is Ok <==> all_valid(views(blobs@)),
            r is Ok ==> final(self)@ == stage_all(old(self)@, views(blobs@)),
            r is Err ==> final(self)@ == old(self)@,
            r matches Err(e) ==> e matches Error::InvalidPath { index } && index < blobs@.len()
                && !valid_path(blobs@[index as int].path@) && forall|j: int|
                0 <= j < index ==> valid_path(#[trigger] blobs@[j].path@),
    {
        let ghost bs = views(blobs@);
        let mut i: usize = 0;
        while i < blobs.len()
            invariant
                i <= blobs@.len(),
                bs == views(blobs@),
                *self == *old(self),
                self.wf(),
                forall|j: int| 0 <= j < i ==> valid_path(#[trigger] blobs@[j].path@),
            decreases blobs@.len() - i,
        {
            if !is_valid_path(blobs[i].path.as_str()) {
                assert(!valid_path(bs[i as int].path));
                return Err(Error::InvalidPath { index: i });
            }
            i = i + 1;
        }
        assert(all_valid(bs)) by {
            assert forall|j: int| 0 <= j < bs.len() implies valid_path(#[trigger] bs[j].path) by {
                assert(valid_path(blobs@[j].path@));
            }
        }
        let mut rest = blobs;
        let ghost start = self@;
        let ghost mut k: int = 0;
        while rest.len() > 0
            invariant
                0 <= k <= bs.len(),
                rest@.len() == bs.len() - k,
                views(rest@) == bs.subrange(k, bs.len() as int),
                self@ == stage_all(start, bs.take(k)),
                self.wf(),
            decreases rest@.len(),
        {
            let ghost before_rest = rest@;
            let b = rest.remove(0);
            proof {
                assert(views(before_rest)[0] == bs[k]);
                assert(b@ == bs[k]);
                assert(bs.take(k + 1).drop_last() =~= bs.take(k));
                assert forall|j: int| 0 <= j < rest@.len() implies views(rest@)[j] == bs[k + 1 + j] by {
                    assert(rest@[j] == before_rest[j + 1]);
                    assert(views(before_rest)[j + 1] == bs[k + 1 + j]);
                }
                assert(views(rest@) =~= bs.subrange(k + 1, bs.len() as int));
            }
            self.stage_one(b);
            proof {
                k = k + 1;
            }
        }
        assert(bs.take(k) =~= bs);
        Ok(())
    }
}

} // verus!
