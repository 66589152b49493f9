//! The stage that sends to the inspector: it gathers what the other stages
//! have published, decides whether the full state goes out on this tick, and
//! puts the envelope together.

use crate::channel::drain;
use crate::serializable_entity::{entities_json, write_entities_json, SerializableEntity};
use crate::text::{comma_separated, push_comma_separated, texts};
use crate::timer::{deadline_after, SendTimer};
use crate::systems::editor_input::valid_texts;
use crate::transport::{
    buffer_after, contents, datagrams_of, lemma_message_survives_transport, messages_received,
    split_datagrams, DELIMITER,
};
use crate::types::SerializedData;
use crossbeam_channel::Receiver;
use vstd::prelude::*;
use vstd::string::StringExecFns;
use vstd::string::StringSliceAdditionalSpecFns;
use vstd::utf8::{encode_utf8, encode_utf8_decode_utf8, encode_utf8_valid_utf8};

verus! {

/// The texts of the per-entity record blobs among `queued`, in their order.
pub open spec fn components_of(queued: Seq<SerializedData>) -> Seq<Seq<char>>
    decreases queued.len(),
{
    if queued.len() == 0 {
        Seq::empty()
    } else {
        let before = components_of(queued.drop_last());
        match queued.last() {
            SerializedData::Component(text) => before.push(text@),
            _ => before,
        }
    }
}

/// The texts of the singleton record blobs among `queued`, in their order.
pub open spec fn resources_of(queued: Seq<SerializedData>) -> Seq<Seq<char>>
    decreases queued.len(),
{
    if queued.len() == 0 {
        Seq::empty()
    } else {
        let before = resources_of(queued.drop_last());
        match queued.last() {
            SerializedData::Resource(text) => before.push(text@),
            _ => before,
        }
    }
}

/// The texts of the events among `queued`, in their order.
pub open spec fn events_of(queued: Seq<SerializedData>) -> Seq<Seq<char>>
    decreases queued.len(),
{
    if queued.len() == 0 {
        Seq::empty()
    } else {
        let before = events_of(queued.drop_last());
        match queued.last() {
            SerializedData::Message(text) => before.push(text@),
            _ => before,
        }
    }
}

/// The envelope that carries the full state: the live entities, every record
/// blob, and the events.
pub open spec fn full_envelope(
    entities: Seq<SerializableEntity>,
    components: Seq<Seq<char>>,
    resources: Seq<Seq<char>>,
    events: Seq<Seq<char>>,
) -> Seq<char> {
    "{\"type\":\"message\",\"data\":{\"entities\":"@ + entities_json(entities)
        + ",\"components\":["@ + comma_separated(components) + "],\"resources\":["@
        + comma_separated(resources) + "],\"messages\":["@ + comma_separated(events) + "]}}"@
}

/// The envelope of a tick on which the full state is not due: the events
/// alone.
pub open spec fn events_envelope(events: Seq<Seq<char>>) -> Seq<char> {
    "{\"type\":\"message\",\"data\":{\"messages\":["@ + comma_separated(events) + "]}}"@
}

/// The envelope of one tick. What was queued for the full state on a tick on
/// which it is not due is left out, and is not kept for a later tick.
pub open spec fn envelope(
    send_this_frame: bool,
    entities: Seq<SerializableEntity>,
    queued: Seq<SerializedData>,
) -> Seq<char> {
    if send_this_frame {
        full_envelope(entities, components_of(queued), resources_of(queued), events_of(queued))
    } else {
        events_envelope(events_of(queued))
    }
}

/// The bytes that go on the wire for an envelope: its text in UTF-8, followed
/// by the delimiter.
pub open spec fn framed(text: Seq<char>) -> Seq<u8> {
    encode_utf8(text) + seq![DELIMITER]
}

/// What was published during a tick, sorted by kind.
pub struct Outbox {
    pub components: Vec<String>,
    pub resources: Vec<String>,
    pub messages: Vec<String>,
}

/// Sorts what was taken from the outbound queue by kind, keeping the order
/// within each kind.
pub fn sort_outbound(queued: Vec<SerializedData>) -> (outbox: Outbox)
    ensures
        texts(outbox.components@) == components_of(queued@),
        texts(outbox.resources@) == resources_of(queued@),
        texts(outbox.messages@) == events_of(queued@),
{
    let mut components: Vec<String> = Vec::new();
    let mut resources: Vec<String> = Vec::new();
    let mut messages: Vec<String> = Vec::new();
    let ghost all = queued@;
    proof {
        assert(all.take(0) =~= Seq::<SerializedData>::empty());
        assert(texts(components@) =~= components_of(all.take(0)));
        assert(texts(resources@) =~= resources_of(all.take(0)));
        assert(texts(messages@) =~= events_of(all.take(0)));
    }
    for item in it: queued
        invariant
            it.seq() == all,
            texts(components@) == components_of(all.take(it.index() as int)),
            texts(resources@) == resources_of(all.take(it.index() as int)),
            texts(messages@) == events_of(all.take(it.index() as int)),
    {
        let ghost done = all.take(it.index() as int);
        let ghost next = all.take(it.index() as int + 1);
        proof {
            assert(next.drop_last() =~= done);
            assert(next.last() == item);
        }
        let ghost old_components = texts(components@);
        let ghost old_resources = texts(resources@);
        let ghost old_messages = texts(messages@);
        match item {
            SerializedData::Component(text) => {
                components.push(text);
                proof {
                    assert(texts(components@) =~= old_components.push(text@));
                }
            },
            SerializedData::Resource(text) => {
                resources.push(text);
                proof {
                    assert(texts(resources@) =~= old_resources.push(text@));
                }
            },
            SerializedData::Message(text) => {
                messages.push(text);
                proof {
                    assert(texts(messages@) =~= old_messages.push(text@));
                }
            },
        }
    }
    proof {
        assert(all.take(all.len() as int) =~= all);
    }
    Outbox { components, resources, messages }
}

/// Writes the envelope of one tick.
pub fn build_envelope(
    send_this_frame: bool,
    entities: &Vec<SerializableEntity>,
    outbox: &Outbox,
) -> (text: String)
    ensures
        send_this_frame ==> text@ == full_envelope(
            entities@,
            texts(outbox.components@),
            texts(outbox.resources@),
            texts(outbox.messages@),
        ),
        !send_this_frame ==> text@ == events_envelope(texts(outbox.messages@)),
{
    let mut text = String::new();
    if send_this_frame {
        text.append("{\"type\":\"message\",\"data\":{\"entities\":");
        write_entities_json(&mut text, entities);
        text.append(",\"components\":[");
        push_comma_separated(&mut text, &outbox.components);
        text.append("],\"resources\":[");
        push_comma_separated(&mut text, &outbox.resources);
        text.append("],\"messages\":[");
        push_comma_separated(&mut text, &outbox.messages);
        text.append("]}}");
        proof {
            assert(text@ =~= full_envelope(
                entities@,
                texts(outbox.components@),
                texts(outbox.resources@),
                texts(outbox.messages@),
            ));
        }
    } else {
        text.append("{\"type\":\"message\",\"data\":{\"messages\":[");
        push_comma_separated(&mut text, &outbox.messages);
        text.append("]}}");
        proof {
            assert(text@ =~= events_envelope(texts(outbox.messages@)));
        }
    }
    text
}

/// Terminates an envelope with the delimiter and cuts it into the datagrams
/// to send, in order.
pub fn frame_datagrams(envelope: &str) -> (datagrams: Vec<Vec<u8>>)
    ensures
        contents(datagrams@) == datagrams_of(framed(envelope@)),
{
    let mut payload: Vec<u8> = vstd::slice::slice_to_vec(envelope.as_bytes());
    payload.push(DELIMITER);
    proof {
        assert(payload@ =~= framed(envelope@));
    }
    split_datagrams(payload.as_slice())
}

/// The datagrams that go out on a tick: the framed envelope, cut to size.
pub open spec fn outbound_datagrams(
    send_this_frame: bool,
    entities: Seq<SerializableEntity>,
    queued: Seq<SerializedData>,
) -> Seq<Seq<u8>> {
    datagrams_of(framed(envelope(send_this_frame, entities, queued)))
}

/// An envelope whose text holds no form feed, framed, cut into datagrams and
/// given in order to a receiver with an empty buffer, is read back as that one
/// text, and the receiver's buffer is empty again.
pub proof fn lemma_envelope_is_read_back(text: Seq<char>)
    requires
        !encode_utf8(text).contains(DELIMITER),
    ensures
        valid_texts(messages_received(Seq::empty(), datagrams_of(framed(text)))) == seq![text],
        buffer_after(Seq::empty(), datagrams_of(framed(text))) == Seq::<u8>::empty(),
{
    let bytes = encode_utf8(text);
    lemma_message_survives_transport(bytes);
    encode_utf8_valid_utf8(text);
    encode_utf8_decode_utf8(text);
    let received = seq![bytes];
    assert(received.drop_last() =~= Seq::<Seq<u8>>::empty());
    assert(valid_texts(received.drop_last()) =~= Seq::<Seq<char>>::empty());
    assert(valid_texts(received) =~= seq![text]);
}

/// The stage that sends to the inspector.
pub struct EditorSenderSystem {
    receiver: Receiver<SerializedData>,
    timer: SendTimer,
}

impl EditorSenderSystem {
    /// The end of the outbound queue from which the stage takes what was
    /// published.
    pub closed spec fn queue(&self) -> Receiver<SerializedData> {
        self.receiver
    }

    /// The time from which the next full state is due.
    pub closed spec fn deadline(&self) -> int {
        self.timer.deadline()
    }

    /// The time between two full states.
    pub closed spec fn interval(&self) -> int {
        self.timer.interval()
    }

    /// The sending stage that takes what is published from `receiver`. It is
    /// made at time `now`; the first full state is due one interval later.
    pub fn from_channel(receiver: Receiver<SerializedData>, send_interval: u64, now: u64) -> (system:
        Self)
        ensures
            system.queue() == receiver,
            system.interval() == send_interval,
            system.deadline() == now + send_interval,
    {
        EditorSenderSystem { receiver, timer: SendTimer::new(now, send_interval) }
    }

    /// The time between two full states.
    pub fn send_interval(&self) -> (interval: u64)
        ensures
            interval == self.interval(),
    {
        self.timer.send_interval()
    }

    /// The time from which the next full state is due.
    pub fn next_send(&self) -> (deadline: u128)
        ensures
            deadline == self.deadline(),
    {
        self.timer.next_send()
    }

    /// One tick at time `now` on which `queued` was found in the outbound
    /// queue and `entities` are alive. Returns the datagrams to send, in
    /// order. The full state goes out if the deadline has been reached;
    /// otherwise the events alone. Either way the deadline is moved past
    /// `now`.
    pub fn compose(
        &mut self,
        now: u64,
        queued: Vec<SerializedData>,
        entities: &Vec<SerializableEntity>,
    ) -> (datagrams: Vec<Vec<u8>>)
        ensures
            contents(datagrams@) == outbound_datagrams(
                now >= old(self).deadline(),
                entities@,
                queued@,
            ),
            final(self).queue() == old(self).queue(),
            final(self).interval() == old(self).interval(),
            final(self).deadline() == deadline_after(
                old(self).deadline(),
                old(self).interval(),
                now as int,
            ),
    {
        let send_this_frame = self.timer.tick(now);
        let outbox = sort_outbound(queued);
        let text = build_envelope(send_this_frame, entities, &outbox);
        frame_datagrams(text.as_str())
    }

    /// One tick at time `now`: takes everything out of the outbound queue and
    /// composes the datagrams to send from it, as `compose` does.
    pub fn run(&mut self, now: u64, entities: &Vec<SerializableEntity>) -> (datagrams: Vec<Vec<u8>>)
        ensures
            ({
                let due = now >= old(self).deadline();
                exists|queued: Seq<SerializedData>|
                    contents(datagrams@) == #[trigger] outbound_datagrams(due, entities@, queued)
            }),
            final(self).queue() == old(self).queue(),
            final(self).interval() == old(self).interval(),
            final(self).deadline() == deadline_after(
                old(self).deadline(),
                old(self).interval(),
                now as int,
            ),
    {
        let queued = drain(&self.receiver);
        let ghost taken = queued@;
        let datagrams = self.compose(now, queued, entities);
        proof {
            assert(contents(datagrams@) == outbound_datagrams(
                now >= old(self).deadline(),
                entities@,
                taken,
            ));
        }
        datagrams
    }
}

} // verus!
