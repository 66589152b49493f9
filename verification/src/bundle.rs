//! Setting up: the record types to publish and to accept updates for are
//! registered by name, and the stages are then made from the registrations.

use crate::stages::{
    component_reader_names, component_writer_names, create_component_read_systems,
    create_component_write_systems, create_resource_read_systems, create_resource_write_systems,
    resource_reader_names, resource_writer_names,
};
use crate::systems::editor_input::EditorInputSystem;
use crate::systems::editor_sender::EditorSenderSystem;
use crate::systems::entity_handler::EntityHandlerSystem;
use crate::systems::read_component::ReadComponentSystem;
use crate::systems::read_resource::ReadResourceSystem;
use crate::systems::write_component::WriteComponentSystem;
use crate::systems::write_resource::WriteResourceSystem;
use crate::type_set::{distinct, name_texts, NameSet, RegistrationError};
use crate::types::{EditorConnection, EntityMessage, SerializedData};
use crossbeam_channel::Receiver;
use vstd::prelude::*;

verus! {

/// The time between two full states, in milliseconds, unless another is set.
pub const DEFAULT_SEND_INTERVAL: u64 = 200;

/// `names` with `name` added at the end, unless it is there already.
pub open spec fn added(names: Seq<Seq<char>>, name: Seq<char>) -> Seq<Seq<char>> {
    if names.contains(name) {
        names
    } else {
        names.push(name)
    }
}

/// `names` with each of `new` added in turn, unless it is there already.
pub open spec fn added_all(names: Seq<Seq<char>>, new: Seq<Seq<char>>) -> Seq<Seq<char>>
    decreases new.len(),
{
    if new.len() == 0 {
        names
    } else {
        added(added_all(names, new.drop_last()), new.last())
    }
}

/// The names registered for reading and for writing once `name` has been
/// registered for both, which is done only if it was registered for neither.
pub open spec fn synced(reads: Seq<Seq<char>>, writes: Seq<Seq<char>>, name: Seq<char>) -> (
    Seq<Seq<char>>,
    Seq<Seq<char>>,
) {
    if reads.contains(name) || writes.contains(name) {
        (reads, writes)
    } else {
        (reads.push(name), writes.push(name))
    }
}

/// The names registered for reading and for writing once each of `new` has
/// been registered for both in turn.
pub open spec fn synced_all(
    reads: Seq<Seq<char>>,
    writes: Seq<Seq<char>>,
    new: Seq<Seq<char>>,
) -> (Seq<Seq<char>>, Seq<Seq<char>>)
    decreases new.len(),
{
    if new.len() == 0 {
        (reads, writes)
    } else {
        let before = synced_all(reads, writes, new.drop_last());
        synced(before.0, before.1, new.last())
    }
}

/// The per-entity types of the engine that are registered for reading and
/// writing by default.
pub open spec fn default_sync_components() -> Seq<Seq<char>> {
    seq![
        "Camera"@,
        "CameraOrtho"@,
        "DestroyAtTime"@,
        "DestroyInTime"@,
        "FlyControlTag"@,
        "GlobalTransform"@,
        "Light"@,
        "MouseReactive"@,
        "Named"@,
        "Transform"@,
        "UiButton"@,
        "UiTransform"@,
    ]
}

/// The per-entity types of the engine that are registered for reading only
/// by default.
pub open spec fn default_read_components() -> Seq<Seq<char>> {
    seq!["UiText"@]
}

/// The singleton types of the engine that are registered for reading and
/// writing by default.
pub open spec fn default_sync_resources() -> Seq<Seq<char>> {
    seq!["AmbientColor"@, "HideCursor"@]
}

/// The singleton types of the engine that are registered for reading only by
/// default.
pub open spec fn default_read_resources() -> Seq<Seq<char>> {
    seq!["WindowFocus"@]
}

/// The stages made from a bundle, in the order in which they run on a tick.
pub struct SyncPipeline {
    /// Receives from the inspector and hands on what it receives.
    pub input: EditorInputSystem,
    /// One stage per per-entity type registered for writing, in the order of
    /// registration.
    pub component_writers: Vec<WriteComponentSystem>,
    /// One stage per singleton type registered for writing, in the order of
    /// registration.
    pub resource_writers: Vec<WriteResourceSystem>,
    /// Creates and destroys entities.
    pub entity_handler: EntityHandlerSystem,
    /// One stage per per-entity type registered for reading, in the order of
    /// registration.
    pub component_readers: Vec<ReadComponentSystem>,
    /// One stage per singleton type registered for reading, in the order of
    /// registration.
    pub resource_readers: Vec<ReadResourceSystem>,
    /// Sends to the inspector.
    pub sender: EditorSenderSystem,
}

/// The registrations from which the stages are made.
pub struct SyncEditorBundle {
    send_interval: u64,
    read_components: NameSet,
    write_components: NameSet,
    read_resources: NameSet,
    write_resources: NameSet,
    sender: EditorConnection,
    receiver: Receiver<SerializedData>,
}

fn register_both(reads: &mut NameSet, writes: &mut NameSet, name: &'static str) -> (result: Result<
    (),
    RegistrationError,
>)
    ensures
        (final(reads).texts(), final(writes).texts()) == synced(
            old(reads).texts(),
            old(writes).texts(),
            name@,
        ),
        result is Err <==> old(reads).texts().contains(name@) || old(writes).texts().contains(
            name@,
        ),
        result is Err ==> result == Err::<(), RegistrationError>(RegistrationError::DuplicateName),
        final(reads).wf(),
        final(writes).wf(),
{
    proof {
        use_type_invariant(&*reads);
        use_type_invariant(&*writes);
    }
    if reads.contains(name) || writes.contains(name) {
        return Err(RegistrationError::DuplicateName);
    }
    reads.insert(name);
    writes.insert(name);
    Ok(())
}

fn register_read(reads: &mut NameSet, name: &'static str) -> (result: Result<
    (),
    RegistrationError,
>)
    ensures
        final(reads).texts() == added(old(reads).texts(), name@),
        result is Err <==> old(reads).texts().contains(name@),
        result is Err ==> result == Err::<(), RegistrationError>(RegistrationError::DuplicateName),
        final(reads).wf(),
{
    if reads.insert(name) {
        Ok(())
    } else {
        Err(RegistrationError::DuplicateName)
    }
}

fn register_all_both(reads: &mut NameSet, writes: &mut NameSet, names: &Vec<&'static str>)
    ensures
        final(reads).wf(),
        final(writes).wf(),
        (final(reads).texts(), final(writes).texts()) == synced_all(
            old(reads).texts(),
            old(writes).texts(),
            name_texts(names@),
        ),
{
    let ghost new = name_texts(names@);
    let mut i: usize = 0;
    proof {
        use_type_invariant(&*reads);
        use_type_invariant(&*writes);
        assert(new.take(0) =~= Seq::<Seq<char>>::empty());
    }
    while i < names.len()
        invariant
            i <= names.len(),
            new == name_texts(names@),
            (reads.texts(), writes.texts()) == synced_all(
                old(reads).texts(),
                old(writes).texts(),
                new.take(i as int),
            ),
            reads.wf(),
            writes.wf(),
        decreases names.len() - i,
    {
        proof {
            assert(new.take(i as int + 1).drop_last() =~= new.take(i as int));
            assert(new.take(i as int + 1).last() == names@[i as int]@);
        }
        let _ = register_both(reads, writes, names[i]);
        i = i + 1;
    }
    proof {
        assert(new.take(new.len() as int) =~= new);
    }
}

fn register_all_read(reads: &mut NameSet, names: &Vec<&'static str>)
    ensures
        final(reads).wf(),
        final(reads).texts() == added_all(old(reads).texts(), name_texts(names@)),
{
    let ghost new = name_texts(names@);
    let mut i: usize = 0;
    proof {
        use_type_invariant(&*reads);
        assert(new.take(0) =~= Seq::<Seq<char>>::empty());
    }
    while i < names.len()
        invariant
            i <= names.len(),
            new == name_texts(names@),
            reads.texts() == added_all(old(reads).texts(), new.take(i as int)),
            reads.wf(),
        decreases names.len() - i,
    {
        proof {
            assert(new.take(i as int + 1).drop_last() =~= new.take(i as int));
            assert(new.take(i as int + 1).last() == names@[i as int]@);
        }
        let _ = register_read(reads, names[i]);
        i = i + 1;
    }
    proof {
        assert(new.take(new.len() as int) =~= new);
    }
}

impl SyncEditorBundle {
    /// The time between two full states, in milliseconds.
    pub closed spec fn interval(&self) -> int {
        self.send_interval as int
    }

    /// The receiving end of the outbound queue, which the sending stage gets.
    pub closed spec fn outbound(&self) -> Receiver<SerializedData> {
        self.receiver
    }

    /// The names of the per-entity types registered for reading.
    pub closed spec fn read_components(&self) -> Seq<Seq<char>> {
        self.read_components.texts()
    }

    /// The names of the per-entity types registered for writing.
    pub closed spec fn write_components(&self) -> Seq<Seq<char>> {
        self.write_components.texts()
    }

    /// The names of the singleton types registered for reading.
    pub closed spec fn read_resources(&self) -> Seq<Seq<char>> {
        self.read_resources.texts()
    }

    /// The names of the singleton types registered for writing.
    pub closed spec fn write_resources(&self) -> Seq<Seq<char>> {
        self.write_resources.texts()
    }

    /// Whether no name is registered twice for one kind of record and one
    /// direction. Every bundle that this module hands out is so.
    pub open spec fn unique(&self) -> bool {
        &&& distinct(self.read_components())
        &&& distinct(self.write_components())
        &&& distinct(self.read_resources())
        &&& distinct(self.write_resources())
    }

    /// A bundle without registrations, and with the default time between two
    /// full states.
    pub fn new() -> (bundle: Self)
        ensures
            bundle.unique(),
            bundle.interval() == DEFAULT_SEND_INTERVAL,
            bundle.read_components() == Seq::<Seq<char>>::empty(),
            bundle.write_components() == Seq::<Seq<char>>::empty(),
            bundle.read_resources() == Seq::<Seq<char>>::empty(),
            bundle.write_resources() == Seq::<Seq<char>>::empty(),
    {
        let (sender, receiver) = crossbeam_channel::unbounded::<SerializedData>();
        SyncEditorBundle {
            send_interval: DEFAULT_SEND_INTERVAL,
            read_components: NameSet::new(),
            write_components: NameSet::new(),
            read_resources: NameSet::new(),
            write_resources: NameSet::new(),
            sender: EditorConnection::new(sender),
            receiver,
        }
    }

    /// Registers the engine's own types: each of the default names that is
    /// not registered yet, in the order of the lists.
    pub fn sync_default_types(&mut self)
        ensures
            final(self).unique(),
            final(self).outbound() == old(self).outbound(),
            final(self).interval() == old(self).interval(),
            final(self).read_components() == added_all(
                synced_all(
                    old(self).read_components(),
                    old(self).write_components(),
                    default_sync_components(),
                ).0,
                default_read_components(),
            ),
            final(self).write_components() == synced_all(
                old(self).read_components(),
                old(self).write_components(),
                default_sync_components(),
            ).1,
            final(self).read_resources() == added_all(
                synced_all(
                    old(self).read_resources(),
                    old(self).write_resources(),
                    default_sync_resources(),
                ).0,
                default_read_resources(),
            ),
            final(self).write_resources() == synced_all(
                old(self).read_resources(),
                old(self).write_resources(),
                default_sync_resources(),
            ).1,
    {
        let mut sync_components: Vec<&'static str> = Vec::new();
        sync_components.push("Camera");
        sync_components.push("CameraOrtho");
        sync_components.push("DestroyAtTime");
        sync_components.push("DestroyInTime");
        sync_components.push("FlyControlTag");
        sync_components.push("GlobalTransform");
        sync_components.push("Light");
        sync_components.push("MouseReactive");
        sync_components.push("Named");
        sync_components.push("Transform");
        sync_components.push("UiButton");
        sync_components.push("UiTransform");
        let mut read_components: Vec<&'static str> = Vec::new();
        read_components.push("UiText");
        let mut sync_resources: Vec<&'static str> = Vec::new();
        sync_resources.push("AmbientColor");
        sync_resources.push("HideCursor");
        let mut read_resources: Vec<&'static str> = Vec::new();
        read_resources.push("WindowFocus");
        proof {
            assert(name_texts(sync_components@) =~= default_sync_components());
            assert(name_texts(read_components@) =~= default_read_components());
            assert(name_texts(sync_resources@) =~= default_sync_resources());
            assert(name_texts(read_resources@) =~= default_read_resources());
        }
        register_all_both(&mut self.read_components, &mut self.write_components, &sync_components);
        register_all_read(&mut self.read_components, &read_components);
        register_all_both(&mut self.read_resources, &mut self.write_resources, &sync_resources);
        register_all_read(&mut self.read_resources, &read_resources);
    }

    /// Registers a per-entity type for reading and writing under `name`. The
    /// name is refused, and nothing is registered, if a per-entity type is
    /// registered under it already, for reading or for writing.
    pub fn sync_component(&mut self, name: &'static str) -> (result: Result<(), RegistrationError>)
        ensures
            final(self).unique(),
            final(self).outbound() == old(self).outbound(),
            final(self).interval() == old(self).interval(),
            final(self).read_resources() == old(self).read_resources(),
            final(self).write_resources() == old(self).write_resources(),
            (final(self).read_components(), final(self).write_components()) == synced(
                old(self).read_components(),
                old(self).write_components(),
                name@,
            ),
            result is Err <==> old(self).read_components().contains(name@) || old(
                self,
            ).write_components().contains(name@),
            result is Err ==> result == Err::<(), RegistrationError>(
                RegistrationError::DuplicateName,
            ),
    {
        proof {
            use_type_invariant(&self.read_components);
            use_type_invariant(&self.write_components);
            use_type_invariant(&self.read_resources);
            use_type_invariant(&self.write_resources);
        }
        register_both(&mut self.read_components, &mut self.write_components, name)
    }

    /// Registers a per-entity type for reading only under `name`. The name is
    /// refused if a per-entity type is registered for reading under it
    /// already.
    pub fn read_component(&mut self, name: &'static str) -> (result: Result<(), RegistrationError>)
        ensures
            final(self).unique(),
            final(self).outbound() == old(self).outbound(),
            final(self).interval() == old(self).interval(),
            final(self).write_components() == old(self).write_components(),
            final(self).read_resources() == old(self).read_resources(),
            final(self).write_resources() == old(self).write_resources(),
            final(self).read_components() == added(old(self).read_components(), name@),
            result is Err <==> old(self).read_components().contains(name@),
            result is Err ==> result == Err::<(), RegistrationError>(
                RegistrationError::DuplicateName,
            ),
    {
        proof {
            use_type_invariant(&self.read_components);
            use_type_invariant(&self.write_components);
            use_type_invariant(&self.read_resources);
            use_type_invariant(&self.write_resources);
        }
        register_read(&mut self.read_components, name)
    }

    /// Registers a singleton type for reading and writing under `name`. The
    /// name is refused, and nothing is registered, if a singleton type is
    /// registered under it already, for reading or for writing. The type
    /// need not exist in the host: a registered singleton that is missing at
    /// run time is reported once and otherwise passed over.
    pub fn sync_resource(&mut self, name: &'static str) -> (result: Result<(), RegistrationError>)
        ensures
            final(self).unique(),
            final(self).outbound() == old(self).outbound(),
            final(self).interval() == old(self).interval(),
            final(self).read_components() == old(self).read_components(),
            final(self).write_components() == old(self).write_components(),
            (final(self).read_resources(), final(self).write_resources()) == synced(
                old(self).read_resources(),
                old(self).write_resources(),
                name@,
            ),
            result is Err <==> old(self).read_resources().contains(name@) || old(
                self,
            ).write_resources().contains(name@),
            result is Err ==> result == Err::<(), RegistrationError>(
                RegistrationError::DuplicateName,
            ),
    {
        proof {
            use_type_invariant(&self.read_components);
            use_type_invariant(&self.write_components);
            use_type_invariant(&self.read_resources);
            use_type_invariant(&self.write_resources);
        }
        register_both(&mut self.read_resources, &mut self.write_resources, name)
    }

    /// Registers a singleton type for reading only under `name`. The name is
    /// refused if a singleton type is registered for reading under it
    /// already.
    pub fn read_resource(&mut self, name: &'static str) -> (result: Result<(), RegistrationError>)
        ensures
            final(self).unique(),
            final(self).outbound() == old(self).outbound(),
            final(self).interval() == old(self).interval(),
            final(self).read_components() == old(self).read_components(),
            final(self).write_components() == old(self).write_components(),
            final(self).write_resources() == old(self).write_resources(),
            final(self).read_resources() == added(old(self).read_resources(), name@),
            result is Err <==> old(self).read_resources().contains(name@),
            result is Err ==> result == Err::<(), RegistrationError>(
                RegistrationError::DuplicateName,
            ),
    {
        proof {
            use_type_invariant(&self.read_components);
            use_type_invariant(&self.write_components);
            use_type_invariant(&self.read_resources);
            use_type_invariant(&self.write_resources);
        }
        register_read(&mut self.read_resources, name)
    }

    /// Sets the time between two full states, in milliseconds. With zero the
    /// full state is sent on every tick. Events are sent on every tick
    /// whatever the interval.
    pub fn send_interval(&mut self, send_interval: u64)
        ensures
            final(self).unique(),
            final(self).outbound() == old(self).outbound(),
            final(self).interval() == send_interval,
            final(self).read_components() == old(self).read_components(),
            final(self).write_components() == old(self).write_components(),
            final(self).read_resources() == old(self).read_resources(),
            final(self).write_resources() == old(self).write_resources(),
    {
        proof {
            use_type_invariant(&self.read_components);
            use_type_invariant(&self.write_components);
            use_type_invariant(&self.read_resources);
            use_type_invariant(&self.write_resources);
        }
        self.send_interval = send_interval;
    }

    /// A connection through which events can be sent to the inspector.
    pub fn connection(&self) -> (connection: EditorConnection) {
        self.sender.clone()
    }

    /// Makes the stages, at the time `now` in milliseconds: one reading stage
    /// for every name registered for reading and one writing stage, with a
    /// queue of its own, for every name registered for writing, each list in
    /// the order of registration. The receiving stage knows the queues of
    /// the writing stages by the same names.
    pub fn build(self, now: u64) -> (pipeline: SyncPipeline)
        ensures
            self.unique(),
            pipeline.input.component_names() == self.write_components(),
            pipeline.input.resource_names() == self.write_resources(),
            pipeline.input.buffered() == Seq::<u8>::empty(),
            component_writer_names(pipeline.component_writers@) == self.write_components(),
            resource_writer_names(pipeline.resource_writers@) == self.write_resources(),
            component_reader_names(pipeline.component_readers@) == self.read_components(),
            resource_reader_names(pipeline.resource_readers@) == self.read_resources(),
            forall|i: int|
                0 <= i < pipeline.resource_readers@.len()
                    ==> !(#[trigger] pipeline.resource_readers@[i]).has_warned(),
            pipeline.sender.queue() == self.outbound(),
            pipeline.sender.interval() == self.interval(),
            pipeline.sender.deadline() == now + self.interval(),
    {
        proof {
            use_type_invariant(&self.read_components);
            use_type_invariant(&self.write_components);
            use_type_invariant(&self.read_resources);
            use_type_invariant(&self.write_resources);
        }
        let (component_map, component_writers) = create_component_write_systems(
            &self.write_components,
        );
        let (resource_map, resource_writers) = create_resource_write_systems(&self.write_resources);
        let component_readers = create_component_read_systems(&self.read_components, &self.sender);
        let resource_readers = create_resource_read_systems(&self.read_resources, &self.sender);
        let (entity_sender, entity_receiver) = crossbeam_channel::unbounded::<EntityMessage>();
        SyncPipeline {
            input: EditorInputSystem::new(component_map, resource_map, entity_sender),
            component_writers,
            resource_writers,
            entity_handler: EntityHandlerSystem::new(entity_receiver),
            component_readers,
            resource_readers,
            sender: EditorSenderSystem::from_channel(self.receiver, self.send_interval, now),
        }
    }
}

impl Default for SyncEditorBundle {
    /// A bundle as `new` makes it.
    fn default() -> (bundle: Self)
        ensures
            bundle.unique(),
            bundle.interval() == DEFAULT_SEND_INTERVAL,
            bundle.read_components() == Seq::<Seq<char>>::empty(),
            bundle.write_components() == Seq::<Seq<char>>::empty(),
            bundle.read_resources() == Seq::<Seq<char>>::empty(),
            bundle.write_resources() == Seq::<Seq<char>>::empty(),
    {
        Self::new()
    }
}

} // verus!
