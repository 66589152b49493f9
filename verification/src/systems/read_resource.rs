//! The stage that publishes one singleton record.

use crate::text::{json_string, quote};
use crate::types::{EditorConnection, Published, SerializedData};
use vstd::prelude::*;
use vstd::string::StringExecFns;

verus! {

/// What the host found when it looked for the singleton record.
#[derive(Debug, Clone)]
pub enum ResourceState {
    /// No record of the type exists.
    Missing,
    /// The record exists and could not be written as JSON.
    NotSerializable,
    /// The record's JSON text.
    Serialized(String),
}

/// What the stage did on one tick.
#[derive(Debug, Clone, Copy, PartialEq, Eq, Structural)]
pub enum ResourceRead {
    /// There was no record. `warn` says whether that is to be reported: it
    /// is, the first time only.
    Missing { warn: bool },
    /// There was a record; this became of it.
    Found(Published),
}

/// The blob of one singleton type: the JSON string literal of its name and
/// the JSON text of its record.
pub open spec fn resource_json(quoted_name: Seq<char>, data: Seq<char>) -> Seq<char> {
    "{\"name\":"@ + quoted_name + ",\"data\":"@ + data + "}"@
}

/// What a stage publishes for the singleton type registered under `name`
/// when the host found `state`: the blob of the record, or nothing if there
/// is no record or the record or the name could not be written as JSON.
pub open spec fn published_resource_json(name: Seq<char>, state: ResourceState) -> Option<
    Seq<char>,
> {
    match state {
        ResourceState::Serialized(data) => match json_string(name) {
            Some(quoted_name) => Some(resource_json(quoted_name, data@)),
            None => None,
        },
        _ => None,
    }
}

/// Writes the blob of one singleton type.
pub fn resource_blob(quoted_name: &str, data: &str) -> (text: String)
    ensures
        text@ == resource_json(quoted_name@, data@),
{
    let mut text = String::new();
    text.append("{\"name\":");
    text.append(quoted_name);
    text.append(",\"data\":");
    text.append(data);
    text.append("}");
    proof {
        assert(text@ =~= resource_json(quoted_name@, data@));
    }
    text
}

/// The stage that publishes, tick by tick, the singleton record of the type
/// registered under `name`.
pub struct ReadResourceSystem {
    name: &'static str,
    connection: EditorConnection,
    warned: bool,
}

impl ReadResourceSystem {
    /// The name under which the type is registered.
    pub closed spec fn name_text(&self) -> Seq<char> {
        self.name@
    }

    /// The connection through which the stage publishes.
    pub closed spec fn connection(&self) -> EditorConnection {
        self.connection
    }

    /// Whether the absence of the record has been reported already.
    pub closed spec fn has_warned(&self) -> bool {
        self.warned
    }

    /// The stage for the type registered under `name`, which publishes
    /// through `connection`.
    pub fn new(name: &'static str, connection: EditorConnection) -> (system: Self)
        ensures
            system.name_text() == name@,
            system.connection() == connection,
            !system.has_warned(),
    {
        ReadResourceSystem { name, connection, warned: false }
    }

    /// The name under which the type is registered.
    pub fn name(&self) -> (name: &'static str)
        ensures
            name@ == self.name_text(),
    {
        self.name
    }

    /// One tick. A record that exists is published: what is queued is
    /// `published_resource_json` of the stage's name and `state`. A record
    /// that is missing is skipped, and the caller is told to report it the
    /// first time that happens, and never again.
    pub fn run(&mut self, state: ResourceState) -> (outcome: ResourceRead)
        ensures
            final(self).name_text() == old(self).name_text(),
            final(self).connection() == old(self).connection(),
            !(state is Missing) ==> (outcome == ResourceRead::Found(Published::NotSerialized)
                <==> published_resource_json(old(self).name_text(), state) is None),
            state is Missing ==> outcome == (ResourceRead::Missing { warn: !old(self).has_warned() })
                && final(self).has_warned(),
            !(state is Missing) ==> final(self).has_warned() == old(self).has_warned()
                && outcome is Found,
            state is NotSerializable ==> outcome == ResourceRead::Found(Published::NotSerialized),
    {
        match state {
            ResourceState::Missing => {
                let warn = !self.warned;
                self.warned = true;
                ResourceRead::Missing { warn }
            },
            ResourceState::NotSerializable => ResourceRead::Found(Published::NotSerialized),
            ResourceState::Serialized(data) => match quote(self.name) {
                None => ResourceRead::Found(Published::NotSerialized),
                Some(quoted) => {
                    let text = resource_blob(quoted.as_str(), data.as_str());
                    if self.connection.send_data(SerializedData::Resource(text)) {
                        ResourceRead::Found(Published::Sent)
                    } else {
                        ResourceRead::Found(Published::Disconnected)
                    }
                },
            },
        }
    }
}

} // verus!
