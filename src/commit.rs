use vstd::prelude::*;
use crate::blob::{Blob, BlobView};
use crate::error::Error;
use crate::transaction::{unique_paths, views, Transaction};

verus! {

/// Each entry as committed at time `now`.
pub open spec fn stamp_all(s: Seq<BlobView>, now: i64) -> Seq<BlobView> {
    s.map_values(|b: BlobView| b.stamped(now))
}

/// The paths of a sequence of entries, in order.
pub open spec fn paths(s: Seq<BlobView>) -> Seq<Seq<char>> {
    s.map_values(|b: BlobView| b.path)
}

/// A commit in progress. The caller writes the entries to the substrate one at a
/// time, in the fixed order given here, and reports each outcome back; the
/// entries before `written()` are those known to have landed.
#[derive(Debug)]
pub struct Commit {
    entries: Vec<Blob>,
    written: usize,
}

impl Transaction {
    /// Ends the staging of this transaction and begins its commit at time `now`:
    /// every entry, in staging order, stamped with `now`, none written yet.
    pub fn complete(self, now: i64) -> (r: Commit)
        requires
            self.wf(),
        ensures
            r.entries() == stamp_all(self@, now),
            r.written() == 0,
            r.wf(),
    {
        let ghost staged = self@;
        let mut entries = self.into_entries();
        let mut i: usize = 0;
        while i < entries.len()
            invariant
                i <= entries@.len(),
                entries@.len() == staged.len(),
                forall|j: int| 0 <= j < i ==> #[trigger] views(entries@)[j] == staged[j].stamped(now),
                forall|j: int| i <= j < entries@.len() ==> #[trigger] views(entries@)[j] == staged[j],
            decreases entries@.len() - i,
        {
            let ghost before = entries@;
            entries[i].date_updated = now;
            proof {
                assert(entries@.len() == before.len());
                assert forall|j: int| 0 <= j < entries@.len() && j != i implies #[trigger] views(
                    entries@,
                )[j] == views(before)[j] by {
                    assert(entries@[j] == before[j]);
                }
                assert(views(entries@)[i as int] == views(before)[i as int].stamped(now));
            }
            i = i + 1;
        }
        let r = Commit { entries, written: 0 };
        assert(r.entries() =~= stamp_all(staged, now));
        assert forall|a: int, b: int|
            0 <= a < r.entries().len() && 0 <= b < r.entries().len() && a != b implies
            r.entries()[a].path != r.entries()[b].path by {
            assert(staged[a].path != staged[b].path);
        }
        r
    }
}

impl Commit {
    /// The entries to write, in order.
    pub closed spec fn entries(&self) -> Seq<BlobView> {
        views(self.entries@)
    }

    /// How many entries, from the front, have been written.
    pub closed spec fn written(&self) -> nat {
        self.written as nat
    }

    pub open spec fn wf(&self) -> bool {
        &&& self.written() <= self.entries().len()
        &&& unique_paths(self.entries())
    }

    /// The next entry to write, or `None` once every entry has been written.
    pub fn next_put(&self) -> (r: Option<&Blob>)
        requires
            self.wf(),
        ensures
            r is None <==> self.written() == self.entries().len(),
            r matches Some(b) ==> b@ == self.entries()[self.written() as int],
    {
        if self.written < self.entries.len() {
            Some(&self.entries[self.written])
        } else {
            None
        }
    }

    /// Records that the entry returned by [`Commit::next_put`] was written.
    pub fn stored(&mut self)
        requires
            old(self).wf(),
            old(self).written() < old(self).entries().len(),
        ensures
            final(self).wf(),
            final(self).entries() == old(self).entries(),
            final(self).written() == old(self).written() + 1,
    {
        if self.written < self.entries.len() {
            self.written = self.written + 1;
        }
    }

    /// Records that writing the next entry failed with `cause`, which ends the
    /// commit. The error names exactly the entries written before it; the
    /// transaction handed back holds the failed entry and all after it, so that
    /// a retry never writes again what already landed.
    pub fn failed(self, cause: String) -> (r: (Error, Transaction))
        requires
            self.wf(),
        ensures
            r.0 matches Error::PartialFailure { committed, cause: c } && committed.deep_view()
                == paths(self.entries().take(self.written() as int)) && c@ == cause@,
            r.1@ == self.entries().skip(self.written() as int),
            r.1.wf(),
    {
        let ghost all = self.entries();
        let n = self.written;
        let mut written = self.entries;
        let rest = written.split_off(n);
        let mut committed: Vec<String> = Vec::new();
        let mut i: usize = 0;
        while i < written.len()
            invariant
                i <= written@.len(),
                written@.len() == n,
                n <= all.len(),
                views(written@) == all.take(n as int),
                committed.deep_view() == paths(all.take(i as int)),
            decreases written@.len() - i,
        {
            committed.push(written[i].path.clone());
            proof {
                assert(views(written@)[i as int] == all[i as int]);
                assert(paths(all.take(i + 1)) =~= paths(all.take(i as int)).push(all[i as int].path));
                assert(committed.deep_view() =~= paths(all.take(i + 1)));
            }
            i = i + 1;
        }
        assert(views(rest@) =~= all.skip(n as int));
        assert forall|a: int, b: int|
            0 <= a < views(rest@).len() && 0 <= b < views(rest@).len() && a != b implies
            views(rest@)[a].path != views(rest@)[b].path by {
            assert(all[a + n].path != all[b + n].path);
        }
        (Error::PartialFailure { committed, cause }, Transaction::from_entries(rest))
    }

    /// Ends a commit in which every entry was written.
    pub fn finish(self) -> (r: Result<(), Error>)
        requires
            self.wf(),
            self.written() == self.entries().len(),
        ensures
            r is Ok,
    {
        Ok(())
    }
}

} // verus!
