//! The messages that travel between the stages, and the connection through
//! which a stage publishes.

use crate::channel::{another_sender, send};
use crate::serializable_entity::SerializableEntity;
use crate::text::{json_string, quote};
use crossbeam_channel::Sender;
use vstd::prelude::*;
use vstd::string::StringExecFns;

verus! {

/// A JSON value as `serde_json` holds it: the payload of an update, carried
/// from the wire to the stage that applies it. Its inside is not visible to
/// the verifier.
#[verifier::external_type_specification]
#[verifier::external_body]
pub struct ExValue(serde_json::Value);

/// A finished piece of JSON text on its way to the inspector.
#[derive(Debug, Clone)]
pub enum SerializedData {
    /// One singleton record.
    Resource(String),
    /// All records of one per-entity type.
    Component(String),
    /// An event, such as a line of the log.
    Message(String),
}

/// A request to create or to destroy entities.
#[derive(Debug, Clone)]
pub enum EntityMessage {
    /// Create this many entities.
    Create(usize),
    /// Destroy the entities in the slots with these numbers.
    Destroy(Vec<u32>),
}

/// A message from the inspector.
#[derive(Debug)]
pub enum IncomingMessage {
    /// Replace the record of type `id` that belongs to `entity`.
    ComponentUpdate { id: String, entity: SerializableEntity, data: serde_json::Value },
    /// Replace the singleton record of type `id`.
    ResourceUpdate { id: String, data: serde_json::Value },
    /// Create `amount` entities.
    CreateEntities { amount: usize },
    /// Destroy these entities.
    DestroyEntities { entities: Vec<SerializableEntity> },
}

/// An update for one per-entity record, as it waits for the stage that
/// applies it.
#[derive(Debug)]
pub struct IncomingComponent {
    pub entity: SerializableEntity,
    pub data: serde_json::Value,
}

/// What became of something that a stage wanted to publish.
#[derive(Debug, Clone, Copy, PartialEq, Eq, Structural)]
pub enum Published {
    /// It was put into the outbound queue.
    Sent,
    /// It could not be written as JSON and was dropped.
    NotSerialized,
    /// The outbound queue did not take it: its receiving end is gone.
    Disconnected,
}

/// The JSON text of an event of the kind `quoted_type`, a JSON string
/// literal, with the JSON text `data` as its content.
pub open spec fn message_json(quoted_type: Seq<char>, data: Seq<char>) -> Seq<char> {
    "{\"type\":"@ + quoted_type + ",\"data\":"@ + data + "}"@
}

/// The JSON text of an event of the kind `message_type` with the JSON text
/// `data` as its content; `None` if the kind cannot be written as a JSON
/// string.
pub open spec fn event_json(message_type: Seq<char>, data: Seq<char>) -> Option<Seq<char>> {
    match json_string(message_type) {
        Some(quoted_type) => Some(message_json(quoted_type, data)),
        None => None,
    }
}

/// Puts the JSON text of an event together from the literal of its kind and
/// the text of its content.
pub fn message_text(quoted_type: &str, data: &str) -> (text: String)
    ensures
        text@ == message_json(quoted_type@, data@),
{
    let mut text = String::new();
    text.append("{\"type\":");
    text.append(quoted_type);
    text.append(",\"data\":");
    text.append(data);
    text.append("}");
    proof {
        assert(text@ =~= message_json(quoted_type@, data@));
    }
    text
}

/// A connection to the stage that sends to the inspector. Whatever is handed
/// to it goes out with the next envelope.
pub struct EditorConnection {
    sender: Sender<SerializedData>,
}

impl EditorConnection {
    /// The end of the outbound queue that the connection holds.
    pub closed spec fn queue(&self) -> Sender<SerializedData> {
        self.sender
    }

    /// The connection that feeds the queue of which `sender` is an end.
    pub fn new(sender: Sender<SerializedData>) -> (connection: Self)
        ensures
            connection.queue() == sender,
    {
        EditorConnection { sender }
    }

    /// Hands finished data to the sending stage. Tells whether the queue took
    /// it, which it does as long as the sending stage exists.
    pub fn send_data(&self, data: SerializedData) -> (taken: bool) {
        send(&self.sender, data)
    }

    /// Sends an event of the kind `message_type` whose content is the JSON
    /// text `data`. What is queued is `event_json` of the two. Nothing is
    /// queued if the kind cannot be written as a JSON string.
    pub fn send_message(&self, message_type: &str, data: &str) -> (outcome: Published)
        ensures
            outcome == Published::NotSerialized <==> event_json(message_type@, data@) is None,
    {
        match quote(message_type) {
            None => Published::NotSerialized,
            Some(quoted) => {
                let text = message_text(quoted.as_str(), data);
                if self.send_data(SerializedData::Message(text)) {
                    Published::Sent
                } else {
                    Published::Disconnected
                }
            },
        }
    }
}

impl Clone for EditorConnection {
    /// One more connection to the same queue.
    fn clone(&self) -> (connection: Self) {
        EditorConnection { sender: another_sender(&self.sender) }
    }
}

} // verus!
