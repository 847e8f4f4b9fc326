use vstd::prelude::*;

verus! {

/// From this many entries on, positions are published only every `PUBLISH_STEP`
/// increments.
pub const BUSY_TOTAL: u64 = 1000;

/// Spacing of published positions in a busy run.
pub const PUBLISH_STEP: u64 = 100;

/// Whether the position `count` is handed to the progress sink, in a run of
/// `total` entries.
pub open spec fn publishes(total: nat, count: nat) -> bool {
    total < BUSY_TOTAL || count % (PUBLISH_STEP as nat) == 0
}

/// The positions published by the first `n` increments of a run of `total` entries.
pub open spec fn published(total: nat, n: nat) -> Seq<nat>
    decreases n,
{
    if n == 0 {
        seq![]
    } else if publishes(total, n) {
        published(total, (n - 1) as nat).push(n)
    } else {
        published(total, (n - 1) as nat)
    }
}

/// The positions a whole run reports: those published along the way, then the
/// final count once every entry is done.
pub open spec fn reported(total: nat) -> Seq<nat> {
    published(total, total).push(total)
}

/// Whether the position reached after an increment is to be published.
pub fn should_publish(total: u64, count: u64) -> (r: bool)
    ensures
        r == publishes(total as nat, count as nat),
{
    total < BUSY_TOTAL || count % PUBLISH_STEP == 0
}

/// Count of the entries processed in a run of a known number of entries.
pub struct ProgressCounter {
    total: u64,
    count: u64,
}

impl ProgressCounter {
    /// The counter never passes the total.
    pub closed spec fn wf(&self) -> bool {
        self.count <= self.total
    }

    pub closed spec fn spec_total(&self) -> nat {
        self.total as nat
    }

    pub closed spec fn spec_count(&self) -> nat {
        self.count as nat
    }

    /// A counter at zero for a run of `total` entries.
    pub fn new(total: u64) -> (r: Self)
        ensures
            r.wf(),
            r.spec_total() == total,
            r.spec_count() == 0,
    {
        ProgressCounter { total, count: 0 }
    }

    pub fn total(&self) -> (r: u64)
        ensures
            r == self.spec_total(),
    {
        self.total
    }

    pub fn count(&self) -> (r: u64)
        ensures
            r == self.spec_count(),
    {
        self.count
    }

    /// Records one more processed entry; returns the position to publish, if any.
    pub fn record(&mut self) -> (r: Option<u64>)
        requires
            old(self).wf(),
            old(self).spec_count() < old(self).spec_total(),
        ensures
            final(self).wf(),
            final(self).spec_total() == old(self).spec_total(),
            final(self).spec_count() == old(self).spec_count() + 1,
            r == (if publishes(final(self).spec_total(), final(self).spec_count()) {
                Some(final(self).spec_count() as u64)
            } else {
                None
            }),
    {
        self.count = self.count + 1;
        if should_publish(self.total, self.count) {
            Some(self.count)
        } else {
            None
        }
    }

    /// The position to report when the run is over.
    pub fn finish(&self) -> (r: u64)
        ensures
            r == self.spec_count(),
    {
        self.count
    }
}

proof fn lemma_published_bounded(total: nat, n: nat)
    ensures
        forall|i: int| 0 <= i < published(total, n).len() ==> 0 < #[trigger] published(total, n)[i] <= n,
        forall|i: int, j: int|
            0 <= i < j < published(total, n).len() ==> published(total, n)[i] < published(total, n)[j],
    decreases n,
{
    if n > 0 {
        let m = (n - 1) as nat;
        lemma_published_bounded(total, m);
        let prev = published(total, m);
        if publishes(total, n) {
            let cur = prev.push(n);
            assert(published(total, n) == cur);
            assert forall|i: int| 0 <= i < cur.len() implies 0 < #[trigger] cur[i] <= n by {
                if i < prev.len() {
                    assert(cur[i] == prev[i]);
                }
            }
            assert forall|i: int, j: int| 0 <= i < j < cur.len() implies cur[i] < cur[j] by {
                assert(cur[i] == prev[i]);
                if j < prev.len() {
                    assert(cur[j] == prev[j]);
                }
            }
        } else {
            assert(published(total, n) == prev);
        }
    }
}

/// Positions reported over a run never go down, and the last one is the number of
/// entries.
pub proof fn lemma_progress_monotonic(total: nat)
    ensures
        forall|i: int, j: int|
            0 <= i <= j < reported(total).len() ==> reported(total)[i] <= reported(total)[j],
        reported(total).last() == total,
{
    lemma_published_bounded(total, total);
}

} // verus!
