//! The stage that publishes all records of one per-entity type.

use crate::text::{comma_separated, decimal, json_string, push_decimal, quote};
use crate::types::{EditorConnection, Published, SerializedData};
use vstd::prelude::*;
use vstd::string::StringExecFns;

verus! {

/// One record as the host wrote it: the number of the entity that owns it,
/// and its JSON text, or `None` if the record could not be written as JSON.
#[derive(Debug, Clone)]
pub struct SerializedRecord {
    pub entity: u32,
    pub json: Option<String>,
}

/// Whether every record could be written as JSON.
pub open spec fn all_serialized(records: Seq<SerializedRecord>) -> bool {
    forall|i: int| 0 <= i < records.len() ==> (#[trigger] records[i]).json is Some
}

/// The member that stands for one record in the blob of its type: the number
/// of the owning entity as the key, the record's JSON text as the value.
pub open spec fn record_member(entity: u32, json: Seq<char>) -> Seq<char> {
    "\""@ + decimal(entity as nat) + "\":"@ + json
}

/// The members of all records, in their order.
pub open spec fn record_members(records: Seq<SerializedRecord>) -> Seq<Seq<char>> {
    Seq::new(records.len(), |i: int| record_member(records[i].entity, records[i].json->0@))
}

/// The blob of one per-entity type: the JSON string literal of its name, and
/// its records keyed by the number of the owning entity.
pub open spec fn component_json(quoted_name: Seq<char>, records: Seq<SerializedRecord>) -> Seq<
    char,
> {
    "{\"name\":"@ + quoted_name + ",\"data\":{"@ + comma_separated(record_members(records))
        + "}}"@
}

/// What a stage publishes for the per-entity type registered under `name`:
/// the blob of the records, or nothing if the name or one of the records
/// could not be written as JSON.
pub open spec fn published_json(name: Seq<char>, records: Seq<SerializedRecord>) -> Option<
    Seq<char>,
> {
    match json_string(name) {
        Some(quoted_name) => if all_serialized(records) {
            Some(component_json(quoted_name, records))
        } else {
            None
        },
        None => None,
    }
}

/// Writes the blob of one per-entity type from the JSON string literal of its
/// name and its records. If one record could not be written as JSON there is
/// no blob: the type is left out of this tick as a whole.
pub fn component_blob(quoted_name: &str, records: &Vec<SerializedRecord>) -> (blob: Option<String>)
    ensures
        blob is Some <==> all_serialized(records@),
        blob matches Some(text) ==> text@ == component_json(quoted_name@, records@),
{
    let mut text = String::new();
    text.append("{\"name\":");
    text.append(quoted_name);
    text.append(",\"data\":{");
    let ghost opened = text@;
    let mut i: usize = 0;
    proof {
        assert(record_members(records@).take(0) =~= Seq::<Seq<char>>::empty());
        assert(opened + Seq::<char>::empty() =~= opened);
        assert(opened =~= "{\"name\":"@ + quoted_name@ + ",\"data\":{"@);
    }
    while i < records.len()
        invariant
            i <= records.len(),
            forall|k: int| 0 <= k < i ==> (#[trigger] records@[k]).json is Some,
            text@ == opened + comma_separated(record_members(records@).take(i as int)),
        decreases records.len() - i,
    {
        let ghost before = text@;
        let ghost done = record_members(records@).take(i as int);
        match &records[i].json {
            None => {
                return None;
            },
            Some(json) => {
                if i > 0 {
                    text.append(",");
                }
                text.append("\"");
                push_decimal(&mut text, records[i].entity as u64);
                text.append("\":");
                text.append(json.as_str());
                proof {
                    let next = record_members(records@).take(i as int + 1);
                    let this = record_member(records@[i as int].entity, json@);
                    assert(next.drop_last() =~= done);
                    assert(next.last() == this);
                    reveal_strlit(",");
                    assert(","@ =~= seq![',']);
                    if i > 0 {
                        assert(text@ =~= opened + (comma_separated(done) + seq![','] + this));
                    } else {
                        assert(text@ =~= opened + this);
                        assert(next.len() == 1);
                        assert(next[0] == this);
                    }
                }
            },
        }
        i = i + 1;
    }
    text.append("}}");
    proof {
        assert(record_members(records@).take(records@.len() as int) =~= record_members(records@));
        assert(text@ =~= component_json(quoted_name@, records@));
    }
    Some(text)
}

/// The stage that publishes, tick by tick, all records of the per-entity
/// type registered under `name`.
pub struct ReadComponentSystem {
    name: &'static str,
    connection: EditorConnection,
}

impl ReadComponentSystem {
    /// The name under which the type is registered.
    pub closed spec fn name_text(&self) -> Seq<char> {
        self.name@
    }

    /// The connection through which the stage publishes.
    pub closed spec fn connection(&self) -> EditorConnection {
        self.connection
    }

    /// The stage for the type registered under `name`, which publishes
    /// through `connection`.
    pub fn new(name: &'static str, connection: EditorConnection) -> (system: Self)
        ensures
            system.name_text() == name@,
            system.connection() == connection,
    {
        ReadComponentSystem { name, connection }
    }

    /// The name under which the type is registered.
    pub fn name(&self) -> (name: &'static str)
        ensures
            name@ == self.name_text(),
    {
        self.name
    }

    /// One tick: publishes the blob of the live records, which is
    /// `published_json` of the stage's name and the records. If one of them
    /// could not be written as JSON, or the name cannot, nothing is published
    /// for this type.
    pub fn run(&self, records: &Vec<SerializedRecord>) -> (outcome: Published)
        ensures
            outcome == Published::NotSerialized <==> published_json(self.name_text(), records@)
                is None,
    {
        match quote(self.name) {
            None => Published::NotSerialized,
            Some(quoted) => match component_blob(quoted.as_str(), records) {
                None => Published::NotSerialized,
                Some(text) => {
                    if self.connection.send_data(SerializedData::Component(text)) {
                        Published::Sent
                    } else {
                        Published::Disconnected
                    }
                },
            },
        }
    }
}

} // verus!
