//! The stage that applies the inspector's updates to the records of one
//! per-entity type.

use crate::channel::drain;
use crate::serializable_entity::SerializableEntity;
use crate::types::IncomingComponent;
use crossbeam_channel::Receiver;
use vstd::prelude::*;

verus! {

/// What is done with one update.
#[derive(Debug, Clone, Copy, PartialEq, Eq, Structural)]
pub enum WriteOutcome {
    /// The record is overwritten with the update.
    Applied,
    /// The payload is no record of the type; the update is dropped.
    NotDecoded,
    /// There is nothing to overwrite; the update is dropped.
    Missing,
    /// The entity has been replaced since the inspector saw it; the update
    /// is dropped.
    Stale,
}

/// What the host found out about one update for a per-entity record.
#[derive(Debug, Clone, Copy, PartialEq, Eq, Structural)]
pub struct ComponentAttempt {
    /// The entity that the update names.
    pub entity: SerializableEntity,
    /// Whether the payload could be read as a record of the type.
    pub decoded: bool,
    /// The generation of the live entity in the named slot, if the slot holds
    /// a live entity that has a record of the type.
    pub target: Option<i32>,
}

/// Whether an update fails: its payload is no record of the type, or its
/// entity is not there or has no such record, or the entity's generation is
/// not the one that the update names.
pub open spec fn fails(attempt: ComponentAttempt) -> bool {
    ||| !attempt.decoded
    ||| attempt.target is None
    ||| attempt.target != Some(attempt.entity.generation)
}

/// What is done with an update.
pub open spec fn outcome_of(attempt: ComponentAttempt) -> WriteOutcome {
    if !attempt.decoded {
        WriteOutcome::NotDecoded
    } else {
        match attempt.target {
            None => WriteOutcome::Missing,
            Some(generation) => if generation == attempt.entity.generation {
                WriteOutcome::Applied
            } else {
                WriteOutcome::Stale
            },
        }
    }
}

/// What is done with each of a list of updates.
pub open spec fn outcomes_of(attempts: Seq<ComponentAttempt>) -> Seq<WriteOutcome> {
    Seq::new(attempts.len(), |i: int| outcome_of(attempts[i]))
}

/// How many of the outcomes are `Applied`.
pub open spec fn applied_count(outcomes: Seq<WriteOutcome>) -> nat
    decreases outcomes.len(),
{
    if outcomes.len() == 0 {
        0
    } else {
        applied_count(outcomes.drop_last()) + if outcomes.last() == WriteOutcome::Applied {
            1nat
        } else {
            0nat
        }
    }
}

/// How many of the updates fail.
pub open spec fn failure_count(attempts: Seq<ComponentAttempt>) -> nat
    decreases attempts.len(),
{
    if attempts.len() == 0 {
        0
    } else {
        failure_count(attempts.drop_last()) + if fails(attempts.last()) {
            1nat
        } else {
            0nat
        }
    }
}

/// Of any number of updates, each one is either applied or fails: there are
/// no more outcomes than updates, and the updates applied are those that do
/// not fail.
pub proof fn lemma_applied_and_failed(attempts: Seq<ComponentAttempt>)
    ensures
        outcomes_of(attempts).len() == attempts.len(),
        applied_count(outcomes_of(attempts)) <= attempts.len(),
        applied_count(outcomes_of(attempts)) == attempts.len() - failure_count(attempts),
    decreases attempts.len(),
{
    if attempts.len() > 0 {
        lemma_applied_and_failed(attempts.drop_last());
        assert(outcomes_of(attempts).drop_last() =~= outcomes_of(attempts.drop_last()));
    }
}

/// The outcomes of a list of updates, with the number of those applied.
pub struct WritePlan {
    pub outcomes: Vec<WriteOutcome>,
    pub applied: usize,
}

/// Decides what is done with one update.
pub fn decide_component_write(attempt: ComponentAttempt) -> (outcome: WriteOutcome)
    ensures
        outcome == outcome_of(attempt),
        outcome == WriteOutcome::Applied <==> !fails(attempt),
{
    if !attempt.decoded {
        WriteOutcome::NotDecoded
    } else {
        match attempt.target {
            None => WriteOutcome::Missing,
            Some(generation) => if generation == attempt.entity.generation {
                WriteOutcome::Applied
            } else {
                WriteOutcome::Stale
            },
        }
    }
}

/// Decides what is done with each update of one tick. One update that fails
/// does not keep the others from being applied.
pub fn plan_component_writes(attempts: &Vec<ComponentAttempt>) -> (plan: WritePlan)
    ensures
        plan.outcomes@ == outcomes_of(attempts@),
        plan.applied == applied_count(plan.outcomes@),
        plan.applied == attempts@.len() - failure_count(attempts@),
{
    let mut outcomes: Vec<WriteOutcome> = Vec::new();
    let mut applied: usize = 0;
    let mut i: usize = 0;
    proof {
        assert(outcomes@ =~= outcomes_of(attempts@.take(0)));
    }
    while i < attempts.len()
        invariant
            i <= attempts.len(),
            outcomes@ == outcomes_of(attempts@.take(i as int)),
            applied == applied_count(outcomes@),
            applied <= i,
        decreases attempts.len() - i,
    {
        let outcome = decide_component_write(attempts[i]);
        let ghost before = outcomes@;
        outcomes.push(outcome);
        proof {
            assert(attempts@.take(i as int + 1).drop_last() =~= attempts@.take(i as int));
            assert(outcomes@ =~= outcomes_of(attempts@.take(i as int + 1)));
            assert(outcomes@.drop_last() =~= before);
        }
        if outcome == WriteOutcome::Applied {
            applied = applied + 1;
        }
        i = i + 1;
    }
    proof {
        assert(attempts@.take(attempts@.len() as int) =~= attempts@);
        lemma_applied_and_failed(attempts@);
    }
    WritePlan { outcomes, applied }
}

/// The stage that applies updates to the records of the per-entity type
/// registered under `id`.
pub struct WriteComponentSystem {
    id: &'static str,
    reader: Receiver<IncomingComponent>,
}

impl WriteComponentSystem {
    /// The name under which the type is registered.
    pub closed spec fn name_text(&self) -> Seq<char> {
        self.id@
    }

    /// The end of the queue from which the stage takes its updates.
    pub closed spec fn queue(&self) -> Receiver<IncomingComponent> {
        self.reader
    }

    /// The stage for the type registered under `id`, which takes its updates
    /// from `reader`.
    pub fn new(id: &'static str, reader: Receiver<IncomingComponent>) -> (system: Self)
        ensures
            system.name_text() == id@,
            system.queue() == reader,
    {
        WriteComponentSystem { id, reader }
    }

    /// The name under which the type is registered.
    pub fn id(&self) -> (id: &'static str)
        ensures
            id@ == self.name_text(),
    {
        self.id
    }

    /// Takes the updates that are waiting, oldest first, without waiting for
    /// more. That none is waiting is no error.
    pub fn take_updates(&self) -> (updates: Vec<IncomingComponent>) {
        drain(&self.reader)
    }
}

} // verus!
