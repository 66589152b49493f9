//! The stage that receives from the inspector: it puts the received bytes
//! together into messages and hands each message to the stage that it is
//! meant for.

use crate::channel::send;
use crate::channel_map::ChannelMap;
use crate::serializable_entity::{find_live, is_live, SerializableEntity};
use crate::text::texts;
use crate::transport::{contents, messages_of, remainder_of, IncomingBuffer};
use crate::types::{EntityMessage, IncomingComponent, IncomingMessage};
use crossbeam_channel::Sender;
use vstd::prelude::*;
use vstd::utf8::{decode_utf8, encode_utf8, encode_utf8_decode_utf8, valid_utf8};

verus! {

/// How one attempt to read a datagram ended.
#[derive(Debug, Clone, Copy, PartialEq, Eq, Structural)]
pub enum ReceiveEvent {
    /// A datagram came in. `from_inspector` says whether its sender is the
    /// inspector's address.
    Datagram { from_inspector: bool },
    /// Nothing is waiting to be read.
    WouldBlock,
    /// The peer was not there to take what was sent to it.
    ConnectionReset,
    /// The read failed in another way.
    Failed,
}

/// What follows an attempt to read a datagram.
#[derive(Debug, Clone, Copy, PartialEq, Eq, Structural)]
pub struct PollStep {
    /// Whether to try to read once more on this tick.
    pub again: bool,
    /// Whether the failure is worth a line in the log.
    pub report: bool,
}

/// Most attempts to read a datagram on one tick.
pub const MAX_READS_PER_POLL: usize = 1024;

/// The reads made on one tick, and how many there may be.
pub struct ReceivePoll {
    pub reads: usize,
    pub limit: usize,
}

impl ReceivePoll {
    /// The count for a tick on which nothing has been read yet, with the
    /// usual limit.
    pub fn new() -> (poll: Self)
        ensures
            poll.reads == 0,
            poll.limit == MAX_READS_PER_POLL,
    {
        ReceivePoll { reads: 0, limit: MAX_READS_PER_POLL }
    }
}

/// What follows an attempt to read when `reads` attempts have been made on
/// this tick, this one counted, and `limit` may be made. Reading stops when
/// nothing is waiting and when the limit is reached. Of the failures, only
/// one that says neither of the two expected things is reported.
pub open spec fn step_after(event: ReceiveEvent, reads: int, limit: int) -> PollStep {
    PollStep { again: event != ReceiveEvent::WouldBlock && reads < limit, report: event == ReceiveEvent::Failed }
}

/// The identities' slot numbers, in their order.
pub open spec fn ids_of(entities: Seq<SerializableEntity>) -> Seq<u32> {
    Seq::new(entities.len(), |i: int| entities[i].id)
}

/// Those of `entities` that are among `live`, by number and generation, in
/// their order.
pub open spec fn live_among(entities: Seq<SerializableEntity>, live: Seq<SerializableEntity>) -> Seq<
    SerializableEntity,
>
    decreases entities.len(),
{
    if entities.len() == 0 {
        Seq::empty()
    } else {
        let before = live_among(entities.drop_last(), live);
        if is_live(live, entities.last()) {
            before.push(entities.last())
        } else {
            before
        }
    }
}

/// The slot numbers of those of `entities` that are alive in the generation
/// that they name, in their order. An identity whose generation is not the
/// live one names an entity that is gone, and is left out.
pub fn destroy_ids(entities: &Vec<SerializableEntity>, live: &Vec<SerializableEntity>) -> (ids: Vec<
    u32,
>)
    ensures
        ids@ == ids_of(live_among(entities@, live@)),
{
    let mut ids: Vec<u32> = Vec::new();
    let mut i: usize = 0;
    proof {
        assert(entities@.take(0) =~= Seq::<SerializableEntity>::empty());
        assert(ids@ =~= ids_of(live_among(entities@.take(0), live@)));
    }
    while i < entities.len()
        invariant
            i <= entities.len(),
            ids@ == ids_of(live_among(entities@.take(i as int), live@)),
        decreases entities.len() - i,
    {
        let ghost done = live_among(entities@.take(i as int), live@);
        proof {
            assert(entities@.take(i as int + 1).drop_last() =~= entities@.take(i as int));
            assert(entities@.take(i as int + 1).last() == entities@[i as int]);
        }
        if find_live(live, entities[i]) {
            ids.push(entities[i].id);
            proof {
                assert(ids@ =~= ids_of(done.push(entities@[i as int])));
            }
        }
        i = i + 1;
    }
    proof {
        assert(entities@.take(entities@.len() as int) =~= entities@);
    }
    ids
}

/// Every identity that is kept is alive, and an identity that is not alive is
/// not kept: a request that names only entities that are gone names nothing.
pub proof fn lemma_live_among(entities: Seq<SerializableEntity>, live: Seq<SerializableEntity>)
    ensures
        forall|i: int|
            0 <= i < live_among(entities, live).len() ==> is_live(
                live,
                #[trigger] live_among(entities, live)[i],
            ) && entities.contains(live_among(entities, live)[i]),
        (forall|i: int| 0 <= i < entities.len() ==> !is_live(live, #[trigger] entities[i]))
            ==> live_among(entities, live) == Seq::<SerializableEntity>::empty(),
    decreases entities.len(),
{
    if entities.len() > 0 {
        let head = entities.drop_last();
        lemma_live_among(head, live);
        let kept = live_among(entities, live);
        assert forall|i: int| 0 <= i < kept.len() implies is_live(live, #[trigger] kept[i])
            && entities.contains(kept[i]) by {
            let before = live_among(head, live);
            if i < before.len() {
                assert(kept[i] == before[i]);
                let at = choose|at: int| 0 <= at < head.len() && head[at] == before[i];
                assert(entities[at] == kept[i]);
            } else {
                assert(kept[i] == entities.last());
                assert(entities[entities.len() - 1] == kept[i]);
            }
        }
        if forall|i: int| 0 <= i < entities.len() ==> !is_live(live, #[trigger] entities[i]) {
            assert forall|i: int| 0 <= i < head.len() implies !is_live(live, #[trigger] head[i]) by {
                assert(head[i] == entities[i]);
            }
            assert(!is_live(live, entities[entities.len() - 1]));
        }
    }
}

/// Where a message goes.
#[derive(Debug, Clone, Copy, PartialEq, Eq, Structural)]
pub enum Route {
    /// To the stage that applies updates to the named per-entity type.
    Component,
    /// To the stage that applies updates to the named singleton type.
    Resource,
    /// To the stage that creates and destroys entities.
    EntityHandler,
    /// Nowhere: the update names an entity that is not alive, or not in the
    /// generation that the update names.
    Stale,
    /// Nowhere: no stage is registered for writing under the name.
    Unregistered,
}

/// Where `message` goes while `live` are the entities alive and the names in
/// `components` and `resources` are registered for writing.
pub open spec fn route_of(
    message: IncomingMessage,
    live: Seq<SerializableEntity>,
    components: Seq<Seq<char>>,
    resources: Seq<Seq<char>>,
) -> Route {
    match message {
        IncomingMessage::ComponentUpdate { id, entity, data } => if !is_live(live, entity) {
            Route::Stale
        } else if components.contains(id@) {
            Route::Component
        } else {
            Route::Unregistered
        },
        IncomingMessage::ResourceUpdate { id, data } => if resources.contains(id@) {
            Route::Resource
        } else {
            Route::Unregistered
        },
        IncomingMessage::CreateEntities { amount } => Route::EntityHandler,
        IncomingMessage::DestroyEntities { entities } => Route::EntityHandler,
    }
}

/// An update is never handed to a stage that is not registered for writing
/// under the update's name: whatever entities are alive, an update for a
/// singleton type goes to that type's stage if the name is registered, and
/// nowhere if it is not.
pub proof fn lemma_unregistered_update_goes_nowhere(
    message: IncomingMessage,
    live: Seq<SerializableEntity>,
    components: Seq<Seq<char>>,
    resources: Seq<Seq<char>>,
)
    ensures
        message matches IncomingMessage::ResourceUpdate { id, data } ==> (route_of(
            message,
            live,
            components,
            resources,
        ) == if resources.contains(id@) {
            Route::Resource
        } else {
            Route::Unregistered
        }),
        message matches IncomingMessage::ComponentUpdate { id, entity, data }
            ==> !components.contains(id@) ==> route_of(message, live, components, resources)
            != Route::Component,
{
}

/// The request to create `amount` entities.
pub fn create_request(amount: usize) -> (request: EntityMessage)
    ensures
        request == EntityMessage::Create(amount),
{
    EntityMessage::Create(amount)
}

/// The request to destroy those of `entities` that are alive in the
/// generation that they name. The request names their slots.
pub fn destroy_request(entities: &Vec<SerializableEntity>, live: &Vec<SerializableEntity>) -> (request:
    EntityMessage)
    ensures
        request matches EntityMessage::Destroy(ids) && ids@ == ids_of(
            live_among(entities@, live@),
        ),
{
    EntityMessage::Destroy(destroy_ids(entities, live))
}

/// The update for the record of `entity`, as it is handed to the stage that
/// applies it.
pub fn component_request(entity: SerializableEntity, data: serde_json::Value) -> (request:
    IncomingComponent)
    ensures
        request.entity == entity,
        request.data == data,
{
    IncomingComponent { entity, data }
}

/// Where a message went, and whether the queue of the stage took it.
#[derive(Debug, Clone, Copy, PartialEq, Eq, Structural)]
pub struct Routed {
    pub route: Route,
    pub delivered: bool,
}

/// The texts of those messages that are valid UTF-8, in their order.
pub open spec fn valid_texts(messages: Seq<Seq<u8>>) -> Seq<Seq<char>>
    decreases messages.len(),
{
    if messages.len() == 0 {
        Seq::empty()
    } else {
        let before = valid_texts(messages.drop_last());
        if valid_utf8(messages.last()) {
            before.push(decode_utf8(messages.last()))
        } else {
            before
        }
    }
}

/// Calls `String::from_utf8`: the bytes as a string if they are valid UTF-8,
/// and `None` if they are not. The string's UTF-8 encoding is the bytes.
#[verifier::external_body]
pub(crate) fn utf8_text(bytes: Vec<u8>) -> (text: Option<String>)
    ensures
        text is Some <==> valid_utf8(bytes@),
        text matches Some(s) ==> encode_utf8(s@) == bytes@,
{
    String::from_utf8(bytes).ok()
}

/// Reads each message as UTF-8 text. A message that is not valid UTF-8 is
/// dropped; the others follow in their order.
pub fn decode_messages(messages: Vec<Vec<u8>>) -> (decoded: Vec<String>)
    ensures
        texts(decoded@) == valid_texts(contents(messages@)),
{
    let mut decoded: Vec<String> = Vec::new();
    let ghost all = messages@;
    proof {
        assert(contents(all.take(0)) =~= Seq::<Seq<u8>>::empty());
        assert(texts(decoded@) =~= valid_texts(contents(all.take(0))));
    }
    for message in it: messages
        invariant
            it.seq() == all,
            texts(decoded@) == valid_texts(contents(all.take(it.index() as int))),
    {
        let ghost done = contents(all.take(it.index() as int));
        let ghost next = contents(all.take(it.index() as int + 1));
        let ghost sofar = texts(decoded@);
        proof {
            assert(next.drop_last() =~= done);
            assert(next.last() == message@);
        }
        match utf8_text(message) {
            Some(text) => {
                proof {
                    encode_utf8_decode_utf8(text@);
                }
                decoded.push(text);
                proof {
                    assert(texts(decoded@) =~= sofar.push(text@));
                }
            },
            None => {},
        }
    }
    proof {
        assert(all.take(all.len() as int) =~= all);
    }
    decoded
}

/// The stage that receives from the inspector.
pub struct EditorInputSystem {
    component_map: ChannelMap<IncomingComponent>,
    resource_map: ChannelMap<serde_json::Value>,
    entity_handler: Sender<EntityMessage>,
    incoming_buffer: IncomingBuffer,
}

impl EditorInputSystem {
    /// The names of the per-entity types registered for writing.
    pub closed spec fn component_names(&self) -> Seq<Seq<char>> {
        self.component_map.names()
    }

    /// The names of the singleton types registered for writing.
    pub closed spec fn resource_names(&self) -> Seq<Seq<char>> {
        self.resource_map.names()
    }

    /// The sending ends of the queues of the stages for per-entity types, in
    /// the order of their names.
    pub closed spec fn component_queues(&self) -> Seq<Sender<IncomingComponent>> {
        self.component_map.senders()
    }

    /// The sending ends of the queues of the stages for singleton types, in
    /// the order of their names.
    pub closed spec fn resource_queues(&self) -> Seq<Sender<serde_json::Value>> {
        self.resource_map.senders()
    }

    /// The sending end of the queue of the stage that creates and destroys
    /// entities.
    pub closed spec fn entity_queue(&self) -> Sender<EntityMessage> {
        self.entity_handler
    }

    /// The bytes received and not yet handed out as messages.
    pub closed spec fn buffered(&self) -> Seq<u8> {
        self.incoming_buffer@
    }

    /// The receiving stage that hands updates to the stages in the two
    /// tables, and requests about entities to `entity_handler`.
    pub fn new(
        component_map: ChannelMap<IncomingComponent>,
        resource_map: ChannelMap<serde_json::Value>,
        entity_handler: Sender<EntityMessage>,
    ) -> (system: Self)
        ensures
            system.component_names() == component_map.names(),
            system.resource_names() == resource_map.names(),
            system.component_queues() == component_map.senders(),
            system.resource_queues() == resource_map.senders(),
            system.entity_queue() == entity_handler,
            system.buffered() == Seq::<u8>::empty(),
    {
        EditorInputSystem {
            component_map,
            resource_map,
            entity_handler,
            incoming_buffer: IncomingBuffer::new(),
        }
    }

    /// Takes note of one attempt to read a datagram. The bytes of a datagram
    /// from the inspector are kept; those of a datagram from anyone else are
    /// discarded. Says what follows.
    pub fn receive(&mut self, poll: &mut ReceivePoll, event: ReceiveEvent, bytes: &[u8]) -> (step:
        PollStep)
        ensures
            final(self).component_names() == old(self).component_names(),
            final(self).resource_names() == old(self).resource_names(),
            final(self).component_queues() == old(self).component_queues(),
            final(self).resource_queues() == old(self).resource_queues(),
            final(self).entity_queue() == old(self).entity_queue(),
            final(self).buffered() == if event == (ReceiveEvent::Datagram { from_inspector: true }) {
                old(self).buffered() + bytes@
            } else {
                old(self).buffered()
            },
            final(poll).limit == old(poll).limit,
            final(poll).reads == if old(poll).reads < usize::MAX {
                old(poll).reads + 1
            } else {
                usize::MAX as int
            },
            step == step_after(event, final(poll).reads as int, old(poll).limit as int),
    {
        if poll.reads < usize::MAX {
            poll.reads = poll.reads + 1;
        }
        let mut report = false;
        let mut again = poll.reads < poll.limit;
        match event {
            ReceiveEvent::Datagram { from_inspector } => {
                if from_inspector {
                    self.incoming_buffer.extend(bytes);
                }
            },
            ReceiveEvent::WouldBlock => {
                again = false;
            },
            ReceiveEvent::ConnectionReset => {},
            ReceiveEvent::Failed => {
                report = true;
            },
        }
        PollStep { again, report }
    }

    /// Takes the complete messages out of the received bytes, oldest first,
    /// and reads them as text. Bytes after the last delimiter stay for the
    /// next tick. A message that is not valid UTF-8 is dropped.
    pub fn take_messages(&mut self) -> (messages: Vec<String>)
        ensures
            final(self).component_names() == old(self).component_names(),
            final(self).resource_names() == old(self).resource_names(),
            final(self).component_queues() == old(self).component_queues(),
            final(self).resource_queues() == old(self).resource_queues(),
            final(self).entity_queue() == old(self).entity_queue(),
            texts(messages@) == valid_texts(messages_of(old(self).buffered())),
            final(self).buffered() == remainder_of(old(self).buffered()),
    {
        let raw = self.incoming_buffer.take_messages();
        decode_messages(raw)
    }

    /// Hands one message to the stage that it is meant for. An update for an
    /// entity that is not alive in the named generation is dropped, and so is
    /// an update for a type that is not registered for writing. An update
    /// for a per-entity record is handed on as `component_request` makes it,
    /// one for a singleton record as its payload, each to the queue that the
    /// table gives for the update's name. A request about entities is handed
    /// on as `create_request` or `destroy_request` makes it.
    pub fn route(&self, message: IncomingMessage, live: &Vec<SerializableEntity>) -> (routed:
        Routed)
        ensures
            routed.route == route_of(
                message,
                live@,
                self.component_names(),
                self.resource_names(),
            ),
            routed.delivered ==> routed.route != Route::Stale && routed.route
                != Route::Unregistered,
    {
        match message {
            IncomingMessage::ComponentUpdate { id, entity, data } => {
                if !find_live(live, entity) {
                    return Routed { route: Route::Stale, delivered: false };
                }
                match self.component_map.get(id.as_str()) {
                    None => Routed { route: Route::Unregistered, delivered: false },
                    Some(queue) => {
                        let delivered = send(queue, component_request(entity, data));
                        Routed { route: Route::Component, delivered }
                    },
                }
            },
            IncomingMessage::ResourceUpdate { id, data } => {
                match self.resource_map.get(id.as_str()) {
                    None => Routed { route: Route::Unregistered, delivered: false },
                    Some(queue) => {
                        let delivered = send(queue, data);
                        Routed { route: Route::Resource, delivered }
                    },
                }
            },
            IncomingMessage::CreateEntities { amount } => {
                let delivered = send(&self.entity_handler, create_request(amount));
                Routed { route: Route::EntityHandler, delivered }
            },
            IncomingMessage::DestroyEntities { entities } => {
                let delivered = send(&self.entity_handler, destroy_request(&entities, live));
                Routed { route: Route::EntityHandler, delivered }
            },
        }
    }
}

} // verus!
