//! The stage that creates and destroys entities at the inspector's request.

use crate::channel::drain;
use crate::serializable_entity::{first_with_id, resolve, SerializableEntity};
use crate::systems::editor_input::ids_of;
use crate::types::EntityMessage;
use crossbeam_channel::Receiver;
use vstd::prelude::*;

verus! {

/// One thing that the host is asked to do to its entities.
#[derive(Debug, Clone, Copy, PartialEq, Eq, Structural)]
pub enum EntityCommand {
    /// Create this many entities. Their identities are not reported back:
    /// the inspector learns of them from the next full state.
    Create(usize),
    /// Delete this entity.
    Delete(SerializableEntity),
}

/// The deletions asked for by a list of slot numbers, in their order. A
/// number that stands for no live entity asks for nothing.
pub open spec fn deletions_of(ids: Seq<u32>, live: Seq<SerializableEntity>) -> Seq<EntityCommand>
    decreases ids.len(),
{
    if ids.len() == 0 {
        Seq::empty()
    } else {
        let before = deletions_of(ids.drop_last(), live);
        match first_with_id(live, ids.last()) {
            Some(entity) => before.push(EntityCommand::Delete(entity)),
            None => before,
        }
    }
}

/// What one request asks of the host. `creates` and `destroys` say which
/// kinds of request are heeded.
pub open spec fn commands_of_message(
    message: EntityMessage,
    live: Seq<SerializableEntity>,
    creates: bool,
    destroys: bool,
) -> Seq<EntityCommand> {
    match message {
        EntityMessage::Create(amount) => if creates {
            seq![EntityCommand::Create(amount)]
        } else {
            Seq::empty()
        },
        EntityMessage::Destroy(ids) => if destroys {
            deletions_of(ids@, live)
        } else {
            Seq::empty()
        },
    }
}

/// What a list of requests asks of the host, in their order.
pub open spec fn commands_of(
    messages: Seq<EntityMessage>,
    live: Seq<SerializableEntity>,
    creates: bool,
    destroys: bool,
) -> Seq<EntityCommand>
    decreases messages.len(),
{
    if messages.len() == 0 {
        Seq::empty()
    } else {
        commands_of(messages.drop_last(), live, creates, destroys) + commands_of_message(
            messages.last(),
            live,
            creates,
            destroys,
        )
    }
}

/// Every deletion that is asked for names an entity that is alive.
pub proof fn lemma_deletions_are_live(ids: Seq<u32>, live: Seq<SerializableEntity>, at: int)
    requires
        0 <= at < deletions_of(ids, live).len(),
    ensures
        deletions_of(ids, live)[at] matches EntityCommand::Delete(entity) && live.contains(entity),
    decreases ids.len(),
{
    if ids.len() > 0 {
        let before = deletions_of(ids.drop_last(), live);
        crate::serializable_entity::lemma_first_with_id(live, ids.last());
        if at < before.len() {
            lemma_deletions_are_live(ids.drop_last(), live, at);
        }
    }
}

/// Whether no two of the entities stand in the same slot.
pub open spec fn distinct_slots(live: Seq<SerializableEntity>) -> bool {
    forall|i: int, j: int| 0 <= i < j < live.len() ==> live[i].id != live[j].id
}

/// Where no two live entities stand in the same slot, the slot number of a
/// live entity stands for that entity.
pub proof fn lemma_slot_finds_entity(live: Seq<SerializableEntity>, entity: SerializableEntity)
    requires
        distinct_slots(live),
        live.contains(entity),
    ensures
        first_with_id(live, entity.id) == Some(entity),
    decreases live.len(),
{
    let at = choose|at: int| 0 <= at < live.len() && live[at] == entity;
    if live[0].id == entity.id {
        if at != 0 {
            assert(live[0].id != live[at].id);
        }
    } else {
        let rest = live.drop_first();
        assert(rest[at - 1] == entity);
        assert forall|i: int, j: int| 0 <= i < j < rest.len() implies rest[i].id != rest[j].id by {
            assert(rest[i] == live[i + 1]);
            assert(rest[j] == live[j + 1]);
        }
        lemma_slot_finds_entity(rest, entity);
    }
}

/// The deletions that follow from a list of live entities' slot numbers are
/// the deletions of those entities, one by one.
pub open spec fn deletions_for(entities: Seq<SerializableEntity>) -> Seq<EntityCommand> {
    Seq::new(entities.len(), |i: int| EntityCommand::Delete(entities[i]))
}

/// A request to destroy deletes the entities that it names and that are
/// alive in the named generation, and no others: where `named` are all alive
/// and no two live entities stand in one slot, the deletions asked for by
/// their slot numbers are the deletions of exactly `named`.
pub proof fn lemma_destroy_deletes_what_was_named(
    named: Seq<SerializableEntity>,
    live: Seq<SerializableEntity>,
)
    requires
        distinct_slots(live),
        forall|i: int| 0 <= i < named.len() ==> live.contains(#[trigger] named[i]),
    ensures
        deletions_of(ids_of(named), live) == deletions_for(named),
    decreases named.len(),
{
    let ids = ids_of(named);
    if named.len() == 0 {
        assert(deletions_of(ids, live) =~= deletions_for(named));
    } else {
        let head = named.drop_last();
        assert forall|i: int| 0 <= i < head.len() implies live.contains(#[trigger] head[i]) by {
            assert(head[i] == named[i]);
        }
        lemma_destroy_deletes_what_was_named(head, live);
        assert(ids.drop_last() =~= ids_of(head));
        assert(live.contains(named[named.len() - 1]));
        lemma_slot_finds_entity(live, named.last());
        assert(deletions_for(head).push(EntityCommand::Delete(named.last())) =~= deletions_for(
            named,
        ));
    }
}

/// Works out what a list of requests asks of the host.
pub fn plan_entity_commands(
    messages: &Vec<EntityMessage>,
    live: &Vec<SerializableEntity>,
    creates: bool,
    destroys: bool,
) -> (commands: Vec<EntityCommand>)
    ensures
        commands@ == commands_of(messages@, live@, creates, destroys),
{
    let mut commands: Vec<EntityCommand> = Vec::new();
    let mut i: usize = 0;
    proof {
        assert(messages@.take(0) =~= Seq::<EntityMessage>::empty());
    }
    while i < messages.len()
        invariant
            i <= messages.len(),
            commands@ == commands_of(messages@.take(i as int), live@, creates, destroys),
        decreases messages.len() - i,
    {
        let ghost done = commands@;
        proof {
            assert(messages@.take(i as int + 1).drop_last() =~= messages@.take(i as int));
            assert(messages@.take(i as int + 1).last() == messages@[i as int]);
        }
        match &messages[i] {
            EntityMessage::Create(amount) => {
                if creates {
                    commands.push(EntityCommand::Create(*amount));
                    proof {
                        assert(commands@ =~= done + seq![EntityCommand::Create(*amount)]);
                    }
                } else {
                    proof {
                        assert(commands@ =~= done + Seq::<EntityCommand>::empty());
                    }
                }
            },
            EntityMessage::Destroy(ids) => {
                if destroys {
                    let mut k: usize = 0;
                    proof {
                        assert(ids@.take(0) =~= Seq::<u32>::empty());
                        assert(commands@ =~= done + deletions_of(ids@.take(0), live@));
                    }
                    while k < ids.len()
                        invariant
                            k <= ids.len(),
                            commands@ == done + deletions_of(ids@.take(k as int), live@),
                        decreases ids.len() - k,
                    {
                        proof {
                            assert(ids@.take(k as int + 1).drop_last() =~= ids@.take(k as int));
                            assert(ids@.take(k as int + 1).last() == ids@[k as int]);
                        }
                        let ghost sofar = deletions_of(ids@.take(k as int), live@);
                        match resolve(live, ids[k]) {
                            Some(entity) => {
                                commands.push(EntityCommand::Delete(entity));
                                proof {
                                    assert(commands@ =~= done + sofar.push(
                                        EntityCommand::Delete(entity),
                                    ));
                                }
                            },
                            None => {},
                        }
                        k = k + 1;
                    }
                    proof {
                        assert(ids@.take(ids@.len() as int) =~= ids@);
                    }
                } else {
                    proof {
                        assert(commands@ =~= done + Seq::<EntityCommand>::empty());
                    }
                }
            },
        }
        i = i + 1;
    }
    proof {
        assert(messages@.take(messages@.len() as int) =~= messages@);
    }
    commands
}

/// The stage that heeds both kinds of request.
pub struct EntityHandlerSystem {
    receiver: Receiver<EntityMessage>,
}

impl EntityHandlerSystem {
    /// The end of the queue from which the stage takes its requests.
    pub closed spec fn queue(&self) -> Receiver<EntityMessage> {
        self.receiver
    }

    /// The stage that takes its requests from `receiver`.
    pub fn new(receiver: Receiver<EntityMessage>) -> (system: Self)
        ensures
            system.queue() == receiver,
    {
        EntityHandlerSystem { receiver }
    }

    /// Takes the requests that are waiting, oldest first, without waiting for
    /// more.
    pub fn take_requests(&self) -> (messages: Vec<EntityMessage>) {
        drain(&self.receiver)
    }

    /// What `messages` ask of the host while `live` are the entities alive:
    /// one creation for every request to create, and one deletion for every
    /// slot number that stands for a live entity.
    pub fn plan(messages: &Vec<EntityMessage>, live: &Vec<SerializableEntity>) -> (commands: Vec<
        EntityCommand,
    >)
        ensures
            commands@ == commands_of(messages@, live@, true, true),
    {
        plan_entity_commands(messages, live, true, true)
    }

    /// One tick: takes the waiting requests and works out what they ask of
    /// the host.
    pub fn run(&self, live: &Vec<SerializableEntity>) -> (commands: Vec<EntityCommand>)
        ensures
            exists|messages: Seq<EntityMessage>|
                commands@ == #[trigger] commands_of(messages, live@, true, true),
    {
        let messages = self.take_requests();
        let commands = Self::plan(&messages, live);
        proof {
            assert(commands@ == commands_of(messages@, live@, true, true));
        }
        commands
    }
}

/// The stage that heeds requests to create entities only.
pub struct CreateEntitiesSystem {
    receiver: Receiver<EntityMessage>,
}

impl CreateEntitiesSystem {
    /// The end of the queue from which the stage takes its requests.
    pub closed spec fn queue(&self) -> Receiver<EntityMessage> {
        self.receiver
    }

    /// The stage that takes its requests from `receiver`.
    pub fn new(receiver: Receiver<EntityMessage>) -> (system: Self)
        ensures
            system.queue() == receiver,
    {
        CreateEntitiesSystem { receiver }
    }

    /// One tick: takes the waiting requests and works out the creations that
    /// they ask for. Requests to destroy are passed over.
    pub fn run(&self) -> (commands: Vec<EntityCommand>)
        ensures
            exists|messages: Seq<EntityMessage>|
                commands@ == #[trigger] commands_of(
                    messages,
                    Seq::<SerializableEntity>::empty(),
                    true,
                    false,
                ),
    {
        let messages = drain(&self.receiver);
        let live: Vec<SerializableEntity> = Vec::new();
        let commands = plan_entity_commands(&messages, &live, true, false);
        proof {
            assert(live@ =~= Seq::<SerializableEntity>::empty());
            assert(commands@ == commands_of(
                messages@,
                Seq::<SerializableEntity>::empty(),
                true,
                false,
            ));
        }
        commands
    }
}

/// The stage that heeds requests to destroy entities only.
pub struct DestroyEntitiesSystem {
    receiver: Receiver<EntityMessage>,
}

impl DestroyEntitiesSystem {
    /// The end of the queue from which the stage takes its requests.
    pub closed spec fn queue(&self) -> Receiver<EntityMessage> {
        self.receiver
    }

    /// The stage that takes its requests from `receiver`.
    pub fn new(receiver: Receiver<EntityMessage>) -> (system: Self)
        ensures
            system.queue() == receiver,
    {
        DestroyEntitiesSystem { receiver }
    }

    /// One tick: takes the waiting requests and works out the deletions that
    /// they ask for. Requests to create are passed over.
    pub fn run(&self, live: &Vec<SerializableEntity>) -> (commands: Vec<EntityCommand>)
        ensures
            exists|messages: Seq<EntityMessage>|
                commands@ == #[trigger] commands_of(messages, live@, false, true),
    {
        let messages = drain(&self.receiver);
        let commands = plan_entity_commands(&messages, live, false, true);
        proof {
            assert(commands@ == commands_of(messages@, live@, false, true));
        }
        commands
    }
}

} // verus!
