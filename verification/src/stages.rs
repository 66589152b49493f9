//! Making the stages from the registered names: one stage per name, in the
//! order of registration, and for every writing stage a queue of its own.

use crate::channel_map::ChannelMap;
use crate::systems::read_component::ReadComponentSystem;
use crate::systems::read_resource::ReadResourceSystem;
use crate::systems::write_component::WriteComponentSystem;
use crate::systems::write_resource::WriteResourceSystem;
use crate::type_set::{distinct, name_texts, NameSet, TypeSet};
use crate::types::{EditorConnection, IncomingComponent};
use vstd::prelude::*;

verus! {

/// The names under which a list of stages is registered.
pub open spec fn component_reader_names(systems: Seq<ReadComponentSystem>) -> Seq<Seq<char>> {
    Seq::new(systems.len(), |i: int| systems[i].name_text())
}

/// The names under which a list of stages is registered.
pub open spec fn resource_reader_names(systems: Seq<ReadResourceSystem>) -> Seq<Seq<char>> {
    Seq::new(systems.len(), |i: int| systems[i].name_text())
}

/// The names under which a list of stages is registered.
pub open spec fn component_writer_names(systems: Seq<WriteComponentSystem>) -> Seq<Seq<char>> {
    Seq::new(systems.len(), |i: int| systems[i].name_text())
}

/// The names under which a list of stages is registered.
pub open spec fn resource_writer_names(systems: Seq<WriteResourceSystem>) -> Seq<Seq<char>> {
    Seq::new(systems.len(), |i: int| systems[i].name_text())
}

/// Makes the stage that publishes the records of each per-entity type in
/// `names`. Stage and name stand at the same position.
pub fn create_component_read_systems(names: &NameSet, connection: &EditorConnection) -> (systems:
    Vec<ReadComponentSystem>)
    ensures
        component_reader_names(systems@) == names.texts(),
{
    let mut systems: Vec<ReadComponentSystem> = Vec::new();
    let names = names.names();
    let mut i: usize = 0;
    while i < names.len()
        invariant
            i <= names.len(),
            systems@.len() == i,
            forall|k: int| 0 <= k < i ==> (#[trigger] systems@[k]).name_text() == names@[k]@,
        decreases names.len() - i,
    {
        systems.push(ReadComponentSystem::new(names[i], connection.clone()));
        i = i + 1;
    }
    proof {
        assert(component_reader_names(systems@) =~= name_texts(names@));
    }
    systems
}

/// Makes the stage that publishes the record of each singleton type in
/// `names`. Stage and name stand at the same position. No stage has reported
/// a missing record yet.
pub fn create_resource_read_systems(names: &NameSet, connection: &EditorConnection) -> (systems:
    Vec<ReadResourceSystem>)
    ensures
        resource_reader_names(systems@) == names.texts(),
        forall|i: int| 0 <= i < systems@.len() ==> !(#[trigger] systems@[i]).has_warned(),
{
    let mut systems: Vec<ReadResourceSystem> = Vec::new();
    let names = names.names();
    let mut i: usize = 0;
    while i < names.len()
        invariant
            i <= names.len(),
            systems@.len() == i,
            forall|k: int|
                0 <= k < i ==> (#[trigger] systems@[k]).name_text() == names@[k]@
                    && !systems@[k].has_warned(),
        decreases names.len() - i,
    {
        systems.push(ReadResourceSystem::new(names[i], connection.clone()));
        i = i + 1;
    }
    proof {
        assert(resource_reader_names(systems@) =~= name_texts(names@));
    }
    systems
}

/// Makes, for each per-entity type in `names`, a queue and the stage that
/// applies the updates taken from it. The table leads from each name to the
/// queue of the stage of that name; table, stages and names are in the same
/// order.
pub fn create_component_write_systems(names: &NameSet) -> (made: (
    ChannelMap<IncomingComponent>,
    Vec<WriteComponentSystem>,
))
    ensures
        made.0.names() == names.texts(),
        component_writer_names(made.1@) == names.texts(),
{
    let mut map: ChannelMap<IncomingComponent> = ChannelMap::new();
    let mut systems: Vec<WriteComponentSystem> = Vec::new();
    let names = names.names();
    let mut i: usize = 0;
    proof {
        assert(name_texts(names@).take(0) =~= Seq::<Seq<char>>::empty());
        assert(component_writer_names(systems@) =~= Seq::<Seq<char>>::empty());
    }
    while i < names.len()
        invariant
            i <= names.len(),
            distinct(name_texts(names@)),
            map.names() == name_texts(names@).take(i as int),
            component_writer_names(systems@) == name_texts(names@).take(i as int),
        decreases names.len() - i,
    {
        let (sender, receiver) = crossbeam_channel::unbounded::<IncomingComponent>();
        proof {
            let done = name_texts(names@).take(i as int);
            if done.contains(names@[i as int]@) {
                let at = choose|at: int| 0 <= at < done.len() && done[at] == names@[i as int]@;
                assert(name_texts(names@)[at] == name_texts(names@)[i as int]);
            }
        }
        map.insert(names[i], sender);
        systems.push(WriteComponentSystem::new(names[i], receiver));
        proof {
            assert(name_texts(names@).take(i as int).push(names@[i as int]@) =~= name_texts(
                names@,
            ).take(i as int + 1));
            assert(component_writer_names(systems@) =~= name_texts(names@).take(i as int + 1));
        }
        i = i + 1;
    }
    proof {
        assert(name_texts(names@).take(names@.len() as int) =~= name_texts(names@));
    }
    (map, systems)
}

/// Makes, for each singleton type in `names`, a queue and the stage that
/// applies the updates taken from it. The table leads from each name to the
/// queue of the stage of that name; table, stages and names are in the same
/// order.
pub fn create_resource_write_systems(names: &NameSet) -> (made: (
    ChannelMap<serde_json::Value>,
    Vec<WriteResourceSystem>,
))
    ensures
        made.0.names() == names.texts(),
        resource_writer_names(made.1@) == names.texts(),
{
    let mut map: ChannelMap<serde_json::Value> = ChannelMap::new();
    let mut systems: Vec<WriteResourceSystem> = Vec::new();
    let names = names.names();
    let mut i: usize = 0;
    proof {
        assert(name_texts(names@).take(0) =~= Seq::<Seq<char>>::empty());
        assert(resource_writer_names(systems@) =~= Seq::<Seq<char>>::empty());
    }
    while i < names.len()
        invariant
            i <= names.len(),
            distinct(name_texts(names@)),
            map.names() == name_texts(names@).take(i as int),
            resource_writer_names(systems@) == name_texts(names@).take(i as int),
        decreases names.len() - i,
    {
        let (sender, receiver) = crossbeam_channel::unbounded::<serde_json::Value>();
        proof {
            let done = name_texts(names@).take(i as int);
            if done.contains(names@[i as int]@) {
                let at = choose|at: int| 0 <= at < done.len() && done[at] == names@[i as int]@;
                assert(name_texts(names@)[at] == name_texts(names@)[i as int]);
            }
        }
        map.insert(names[i], sender);
        systems.push(WriteResourceSystem::new(names[i], receiver));
        proof {
            assert(name_texts(names@).take(i as int).push(names@[i as int]@) =~= name_texts(
                names@,
            ).take(i as int + 1));
            assert(resource_writer_names(systems@) =~= name_texts(names@).take(i as int + 1));
        }
        i = i + 1;
    }
    proof {
        assert(name_texts(names@).take(names@.len() as int) =~= name_texts(names@));
    }
    (map, systems)
}

impl<T> TypeSet<T> {
    /// Makes the stage that publishes the records of each per-entity type in
    /// the set, in the order of the set.
    pub fn create_component_read_systems(&self, connection: &EditorConnection) -> (systems: Vec<
        ReadComponentSystem,
    >)
        ensures
            component_reader_names(systems@) == self.texts(),
    {
        create_component_read_systems(self.name_set(), connection)
    }

    /// Makes the queue and the stage that applies updates for each per-entity
    /// type in the set, in the order of the set.
    pub fn create_component_write_systems(&self) -> (made: (
        ChannelMap<IncomingComponent>,
        Vec<WriteComponentSystem>,
    ))
        ensures
            made.0.names() == self.texts(),
            component_writer_names(made.1@) == self.texts(),
    {
        create_component_write_systems(self.name_set())
    }

    /// Makes the stage that publishes the record of each singleton type in
    /// the set, in the order of the set.
    pub fn create_resource_read_systems(&self, connection: &EditorConnection) -> (systems: Vec<
        ReadResourceSystem,
    >)
        ensures
            resource_reader_names(systems@) == self.texts(),
            forall|i: int| 0 <= i < systems@.len() ==> !(#[trigger] systems@[i]).has_warned(),
    {
        create_resource_read_systems(self.name_set(), connection)
    }

    /// Makes the queue and the stage that applies updates for each singleton
    /// type in the set, in the order of the set.
    pub fn create_resource_write_systems(&self) -> (made: (
        ChannelMap<serde_json::Value>,
        Vec<WriteResourceSystem>,
    ))
        ensures
            made.0.names() == self.texts(),
            resource_writer_names(made.1@) == self.texts(),
    {
        create_resource_write_systems(self.name_set())
    }
}

} // verus!
