use vstd::prelude::*;

use crate::plan::RenamePlan;

verus! {

/// The result of one rename.
#[derive(Clone, Debug, PartialEq, Eq)]
pub enum RenameOutcome {
    Succeeded,
    Failed(String),
}

/// The index to rename next, after `done` renames of a plan of `total`; none when all
/// have been tried.
pub open spec fn next_index_of(total: nat, done: nat) -> Option<nat> {
    if done < total {
        Some(done)
    } else {
        None
    }
}

/// A run of a plan: the renames are tried one by one in plan order, and each one's
/// outcome is kept, whether it succeeded or failed.
pub struct Execution {
    total: usize,
    outcomes: Vec<RenameOutcome>,
}

impl Execution {
    /// The number of renames in the plan being run.
    pub closed spec fn spec_total(&self) -> nat {
        self.total as nat
    }

    /// The outcomes so far, one per index tried, in plan order.
    pub closed spec fn spec_outcomes(&self) -> Seq<RenameOutcome> {
        self.outcomes@
    }

    /// No more outcomes than renames in the plan.
    pub closed spec fn wf(&self) -> bool {
        self.outcomes.len() <= self.total
    }

    /// A run of `plan` that has tried nothing yet.
    pub fn new(plan: &RenamePlan) -> (r: Execution)
        ensures
            r.wf(),
            r.spec_total() == plan.spec_sources().len(),
            r.spec_outcomes() == Seq::<RenameOutcome>::empty(),
    {
        Execution { total: plan.len(), outcomes: Vec::new() }
    }

    /// The index of the rename to try next, or none when every index has been tried.
    pub fn next_index(&self) -> (r: Option<usize>)
        requires
            self.wf(),
        ensures
            r matches Some(i) ==> next_index_of(self.spec_total(), self.spec_outcomes().len())
                == Some(i as nat),
            r is None ==> next_index_of(self.spec_total(), self.spec_outcomes().len()) is None,
    {
        if self.outcomes.len() < self.total {
            Some(self.outcomes.len())
        } else {
            None
        }
    }

    /// Keeps the outcome of the rename just tried; a failure does not end the run.
    pub fn record(&mut self, outcome: RenameOutcome)
        requires
            old(self).wf(),
            old(self).spec_outcomes().len() < old(self).spec_total(),
        ensures
            final(self).wf(),
            final(self).spec_total() == old(self).spec_total(),
            final(self).spec_outcomes() == kept(old(self).spec_outcomes(), outcome),
    {
        self.outcomes.push(outcome);
    }

    /// True when every index of the plan has been tried.
    pub fn is_finished(&self) -> (r: bool)
        ensures
            r == (self.spec_outcomes().len() >= self.spec_total()),
    {
        self.outcomes.len() >= self.total
    }

    /// The outcomes, one per index tried, in plan order.
    pub fn into_outcomes(self) -> (r: Vec<RenameOutcome>)
        ensures
            r@ == self.spec_outcomes(),
    {
        self.outcomes
    }
}

/// The outcomes of a run once `outcome` is kept after `done`.
pub open spec fn kept(done: Seq<RenameOutcome>, outcome: RenameOutcome) -> Seq<RenameOutcome> {
    done.push(outcome)
}

/// A failed rename does not stop the run: once the failure of the index tried after
/// `done` is kept, that outcome stands in its place and the next index of the plan is
/// tried, whenever the plan has one.
pub proof fn failure_is_not_fatal(total: nat, done: Seq<RenameOutcome>, reason: String)
    requires
        done.len() + 1 < total,
    ensures
        kept(done, RenameOutcome::Failed(reason))[done.len() as int] == RenameOutcome::Failed(
            reason,
        ),
        kept(done, RenameOutcome::Failed(reason)).subrange(0, done.len() as int) == done,
        next_index_of(total, kept(done, RenameOutcome::Failed(reason)).len()) == Some(
            (done.len() + 1) as nat,
        ),
{
    assert(kept(done, RenameOutcome::Failed(reason)).subrange(0, done.len() as int) =~= done);
}

} // verus!
