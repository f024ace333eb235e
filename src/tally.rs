//! The shared tally of finished deletions.
use vstd::prelude::*;

verus! {

/// What a tally has counted: files deleted and deletions that failed.
pub struct TallyView {
    pub deleted: nat,
    pub failed: nat,
}

/// The tally after one more outcome has been recorded.
pub open spec fn record_spec(t: TallyView, deleted: bool) -> TallyView {
    if deleted {
        TallyView { deleted: t.deleted + 1, failed: t.failed }
    } else {
        TallyView { deleted: t.deleted, failed: t.failed + 1 }
    }
}

/// How far the progress sink moves for one outcome.
pub open spec fn advance_spec(deleted: bool) -> nat {
    if deleted {
        1
    } else {
        0
    }
}

/// The tally after recording `outcomes` in order, starting from nothing.
pub open spec fn tally_after(outcomes: Seq<bool>) -> TallyView
    decreases outcomes.len(),
{
    if outcomes.len() == 0 {
        TallyView { deleted: 0, failed: 0 }
    } else {
        record_spec(tally_after(outcomes.drop_last()), outcomes.last())
    }
}

/// The number of outcomes that are successful deletions.
pub open spec fn successes(outcomes: Seq<bool>) -> nat
    decreases outcomes.len(),
{
    if outcomes.len() == 0 {
        0
    } else {
        successes(outcomes.drop_last()) + if outcomes.last() {
            1nat
        } else {
            0nat
        }
    }
}

/// The sum of the advances handed to the progress sink for `outcomes`.
pub open spec fn advances(outcomes: Seq<bool>) -> nat
    decreases outcomes.len(),
{
    if outcomes.len() == 0 {
        0
    } else {
        advances(outcomes.drop_last()) + advance_spec(outcomes.last())
    }
}

/// Recording any sequence of outcomes counts each success once as a deleted
/// file and each failure once as a failed one: with K failures among M
/// outcomes, the tally holds M - K deleted and K failed.
pub proof fn lemma_tally_counts(outcomes: Seq<bool>)
    ensures
        tally_after(outcomes).deleted == successes(outcomes),
        tally_after(outcomes).failed == outcomes.len() - successes(outcomes),
        successes(outcomes) <= outcomes.len(),
    decreases outcomes.len(),
{
    if outcomes.len() > 0 {
        lemma_tally_counts(outcomes.drop_last());
    }
}

/// When every deletion succeeds, the tally counts every one of them and no
/// failure.
pub proof fn lemma_all_deleted(outcomes: Seq<bool>)
    requires
        forall|i: int| 0 <= i < outcomes.len() ==> #[trigger] outcomes[i],
    ensures
        tally_after(outcomes).deleted == outcomes.len(),
        tally_after(outcomes).failed == 0,
    decreases outcomes.len(),
{
    if outcomes.len() > 0 {
        let prev = outcomes.drop_last();
        assert forall|i: int| 0 <= i < prev.len() implies #[trigger] prev[i] by {
            assert(prev[i] == outcomes[i]);
        }
        lemma_all_deleted(prev);
        assert(outcomes[outcomes.len() - 1]);
    }
}

/// The advances handed to the progress sink add up to exactly the number of
/// files the tally counts as deleted.
pub proof fn lemma_advances_match_deleted(outcomes: Seq<bool>)
    ensures
        advances(outcomes) == tally_after(outcomes).deleted,
    decreases outcomes.len(),
{
    if outcomes.len() > 0 {
        lemma_advances_match_deleted(outcomes.drop_last());
    }
}

/// The shared counter of the pool: every worker records here how each of its
/// deletions ended.
pub struct Tally {
    deleted: u64,
    failed: u64,
}

impl View for Tally {
    type V = TallyView;

    closed spec fn view(&self) -> TallyView {
        TallyView { deleted: self.deleted as nat, failed: self.failed as nat }
    }
}

impl Tally {
    /// A tally that has counted nothing yet.
    pub fn new() -> (r: Tally)
        ensures
            r@ == (TallyView { deleted: 0, failed: 0 }),
    {
        Tally { deleted: 0, failed: 0 }
    }

    /// Number of files deleted so far.
    pub fn deleted(&self) -> (r: u64)
        ensures
            r == self@.deleted,
    {
        self.deleted
    }

    /// Number of deletions that failed so far.
    pub fn failed(&self) -> (r: u64)
        ensures
            r == self@.failed,
    {
        self.failed
    }

    /// Whether one more outcome still fits in the counters.
    pub fn can_record(&self) -> (r: bool)
        ensures
            r == (self@.deleted + self@.failed < u64::MAX),
    {
        self.deleted < u64::MAX - self.failed
    }

    /// Records how one deletion ended, and returns how far the progress sink
    /// is to move for it: one on success, nothing on failure.
    pub fn record(&mut self, deleted: bool) -> (advance: u64)
        requires
            old(self)@.deleted + old(self)@.failed < u64::MAX,
        ensures
            final(self)@ == record_spec(old(self)@, deleted),
            advance == advance_spec(deleted),
    {
        if deleted {
            self.deleted = self.deleted + 1;
            1
        } else {
            self.failed = self.failed + 1;
            0
        }
    }
}

} // verus!
