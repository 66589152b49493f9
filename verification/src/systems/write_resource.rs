//! The stage that applies the inspector's updates to one singleton record.

use crate::channel::drain;
use crate::systems::write_component::{applied_count, WriteOutcome, WritePlan};
use crossbeam_channel::Receiver;
use vstd::prelude::*;

verus! {

/// What the host found out about one update for a singleton record.
#[derive(Debug, Clone, Copy, PartialEq, Eq, Structural)]
pub struct ResourceAttempt {
    /// Whether the payload could be read as a record of the type.
    pub decoded: bool,
    /// Whether a record of the type exists.
    pub present: bool,
}

/// Whether an update fails: its payload is no record of the type, or there is
/// no record to overwrite.
pub open spec fn resource_fails(attempt: ResourceAttempt) -> bool {
    !attempt.decoded || !attempt.present
}

/// What is done with an update.
pub open spec fn resource_outcome_of(attempt: ResourceAttempt) -> WriteOutcome {
    if !attempt.decoded {
        WriteOutcome::NotDecoded
    } else if !attempt.present {
        WriteOutcome::Missing
    } else {
        WriteOutcome::Applied
    }
}

/// Decides what is done with one update.
pub fn decide_resource_write(attempt: ResourceAttempt) -> (outcome: WriteOutcome)
    ensures
        outcome == resource_outcome_of(attempt),
        outcome == WriteOutcome::Applied <==> !resource_fails(attempt),
{
    if !attempt.decoded {
        WriteOutcome::NotDecoded
    } else if !attempt.present {
        WriteOutcome::Missing
    } else {
        WriteOutcome::Applied
    }
}

/// What is done with each of a list of updates.
pub open spec fn resource_outcomes_of(attempts: Seq<ResourceAttempt>) -> Seq<WriteOutcome> {
    Seq::new(attempts.len(), |i: int| resource_outcome_of(attempts[i]))
}

/// How many of the updates fail.
pub open spec fn resource_failure_count(attempts: Seq<ResourceAttempt>) -> nat
    decreases attempts.len(),
{
    if attempts.len() == 0 {
        0
    } else {
        resource_failure_count(attempts.drop_last()) + if resource_fails(attempts.last()) {
            1nat
        } else {
            0nat
        }
    }
}

/// Of any number of updates, each one is either applied or fails: there are
/// no more outcomes than updates, and the updates applied are those that do
/// not fail.
pub proof fn lemma_resource_applied_and_failed(attempts: Seq<ResourceAttempt>)
    ensures
        resource_outcomes_of(attempts).len() == attempts.len(),
        applied_count(resource_outcomes_of(attempts)) <= attempts.len(),
        applied_count(resource_outcomes_of(attempts)) == attempts.len() - resource_failure_count(
            attempts,
        ),
    decreases attempts.len(),
{
    if attempts.len() > 0 {
        lemma_resource_applied_and_failed(attempts.drop_last());
        assert(resource_outcomes_of(attempts).drop_last() =~= resource_outcomes_of(
            attempts.drop_last(),
        ));
    }
}

/// Decides what is done with each update of one tick. One update that fails
/// does not keep the others from being applied.
pub fn plan_resource_writes(attempts: &Vec<ResourceAttempt>) -> (plan: WritePlan)
    ensures
        plan.outcomes@ == resource_outcomes_of(attempts@),
        plan.applied == applied_count(plan.outcomes@),
        plan.applied == attempts@.len() - resource_failure_count(attempts@),
{
    let mut outcomes: Vec<WriteOutcome> = Vec::new();
    let mut applied: usize = 0;
    let mut i: usize = 0;
    proof {
        assert(outcomes@ =~= resource_outcomes_of(attempts@.take(0)));
    }
    while i < attempts.len()
        invariant
            i <= attempts.len(),
            outcomes@ == resource_outcomes_of(attempts@.take(i as int)),
            applied == applied_count(outcomes@),
            applied <= i,
        decreases attempts.len() - i,
    {
        let outcome = decide_resource_write(attempts[i]);
        let ghost before = outcomes@;
        outcomes.push(outcome);
        proof {
            assert(attempts@.take(i as int + 1).drop_last() =~= attempts@.take(i as int));
            assert(outcomes@ =~= resource_outcomes_of(attempts@.take(i as int + 1)));
            assert(outcomes@.drop_last() =~= before);
        }
        if outcome == WriteOutcome::Applied {
            applied = applied + 1;
        }
        i = i + 1;
    }
    proof {
        assert(attempts@.take(attempts@.len() as int) =~= attempts@);
        lemma_resource_applied_and_failed(attempts@);
    }
    WritePlan { outcomes, applied }
}

/// The stage that applies updates to the singleton record of the type
/// registered under `id`.
pub struct WriteResourceSystem {
    id: &'static str,
    incoming: Receiver<serde_json::Value>,
}

impl WriteResourceSystem {
    /// The name under which the type is registered.
    pub closed spec fn name_text(&self) -> Seq<char> {
        self.id@
    }

    /// The end of the queue from which the stage takes its updates.
    pub closed spec fn queue(&self) -> Receiver<serde_json::Value> {
        self.incoming
    }

    /// The stage for the type registered under `id`, which takes its updates
    /// from `incoming`.
    pub fn new(id: &'static str, incoming: Receiver<serde_json::Value>) -> (system: Self)
        ensures
            system.name_text() == id@,
            system.queue() == incoming,
    {
        WriteResourceSystem { id, incoming }
    }

    /// The name under which the type is registered.
    pub fn id(&self) -> (id: &'static str)
        ensures
            id@ == self.name_text(),
    {
        self.id
    }

    /// Takes the updates that are waiting, oldest first, without waiting for
    /// more. That none is waiting is no error.
    pub fn take_updates(&self) -> (updates: Vec<serde_json::Value>) {
        drain(&self.incoming)
    }
}

} // verus!
