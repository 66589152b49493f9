use amethyst_editor_sync::systems::editor_input::{Route, Routed};
use amethyst_editor_sync::systems::entity_handler::{
    CreateEntitiesSystem, DestroyEntitiesSystem, EntityCommand, EntityHandlerSystem,
};
use amethyst_editor_sync::{EntityMessage, IncomingMessage, SerializableEntity, SyncEditorBundle};

/// A host that keeps entities in slots, as the stages expect of it.
struct World {
    generations: Vec<i32>,
    alive: Vec<bool>,
}

impl World {
    fn new() -> Self {
        World { generations: Vec::new(), alive: Vec::new() }
    }

    fn create(&mut self) {
        for slot in 0..self.alive.len() {
            if !self.alive[slot] {
                self.alive[slot] = true;
                self.generations[slot] += 1;
                return;
            }
        }
        self.alive.push(true);
        self.generations.push(1);
    }

    fn live(&self) -> Vec<SerializableEntity> {
        let mut live = Vec::new();
        for slot in 0..self.alive.len() {
            if self.alive[slot] {
                live.push(SerializableEntity::new(slot as u32, self.generations[slot]));
            }
        }
        live
    }

    fn apply(&mut self, commands: Vec<EntityCommand>) {
        for command in commands {
            match command {
                EntityCommand::Create(amount) => {
                    for _ in 0..amount {
                        self.create();
                    }
                }
                EntityCommand::Delete(entity) => {
                    let slot = entity.id() as usize;
                    if self.alive[slot] && self.generations[slot] == entity.gen() {
                        self.alive[slot] = false;
                    }
                }
            }
        }
    }
}

#[test]
fn create_five_then_destroy_one() {
    let pipeline = SyncEditorBundle::new().build(0);
    let mut world = World::new();

    // Tick 1: five entities are asked for.
    assert_eq!(
        pipeline.input.route(IncomingMessage::CreateEntities { amount: 5 }, &world.live()),
        Routed { route: Route::EntityHandler, delivered: true }
    );
    let commands = pipeline.entity_handler.run(&world.live());
    assert_eq!(commands, vec![EntityCommand::Create(5)]);
    world.apply(commands);
    assert_eq!(world.live().len(), 5);

    // Tick 2: one of them is destroyed.
    let victim = world.live()[2];
    let destroy = || IncomingMessage::DestroyEntities { entities: vec![victim] };
    assert_eq!(
        pipeline.input.route(destroy(), &world.live()),
        Routed { route: Route::EntityHandler, delivered: true }
    );
    let commands = pipeline.entity_handler.run(&world.live());
    assert_eq!(commands, vec![EntityCommand::Delete(victim)]);
    world.apply(commands);
    assert_eq!(world.live().len(), 4);
    assert!(!world.live().contains(&victim));

    // Tick 3: the same request again does nothing.
    pipeline.input.route(destroy(), &world.live());
    let commands = pipeline.entity_handler.run(&world.live());
    assert!(commands.is_empty());
    world.apply(commands);
    assert_eq!(world.live().len(), 4);

    // Nothing is waiting any more.
    assert!(pipeline.entity_handler.run(&world.live()).is_empty());
}

#[test]
fn requests_are_heeded_in_their_order() {
    let live = vec![
        SerializableEntity::new(0, 1),
        SerializableEntity::new(4, 2),
        SerializableEntity::new(7, 9),
    ];
    let messages = vec![
        EntityMessage::Destroy(vec![7, 3, 0]),
        EntityMessage::Create(2),
        EntityMessage::Destroy(vec![]),
        EntityMessage::Create(0),
        EntityMessage::Destroy(vec![4, 4]),
    ];
    assert_eq!(
        EntityHandlerSystem::plan(&messages, &live),
        vec![
            EntityCommand::Delete(SerializableEntity::new(7, 9)),
            EntityCommand::Delete(SerializableEntity::new(0, 1)),
            EntityCommand::Create(2),
            EntityCommand::Create(0),
            EntityCommand::Delete(SerializableEntity::new(4, 2)),
            EntityCommand::Delete(SerializableEntity::new(4, 2)),
        ]
    );
}

#[test]
fn a_very_large_request_to_create_is_one_command() {
    let messages = vec![EntityMessage::Create(usize::MAX), EntityMessage::Create(usize::MAX)];
    assert_eq!(
        EntityHandlerSystem::plan(&messages, &Vec::new()),
        vec![EntityCommand::Create(usize::MAX), EntityCommand::Create(usize::MAX)]
    );
}

#[test]
fn the_single_purpose_stages_pass_over_the_other_kind() {
    let live = vec![SerializableEntity::new(1, 1)];
    let (sender, receiver) = crossbeam_channel::unbounded();
    sender.send(EntityMessage::Create(3)).unwrap();
    sender.send(EntityMessage::Destroy(vec![1])).unwrap();
    let creator = CreateEntitiesSystem::new(receiver);
    assert_eq!(creator.run(), vec![EntityCommand::Create(3)]);
    assert!(creator.run().is_empty());

    let (sender, receiver) = crossbeam_channel::unbounded();
    sender.send(EntityMessage::Create(3)).unwrap();
    sender.send(EntityMessage::Destroy(vec![1, 2])).unwrap();
    let destroyer = DestroyEntitiesSystem::new(receiver);
    assert_eq!(destroyer.run(&live), vec![EntityCommand::Delete(SerializableEntity::new(1, 1))]);
    assert!(destroyer.run(&live).is_empty());
}

#[test]
fn a_destroy_with_a_stale_generation_deletes_nothing() {
    let pipeline = SyncEditorBundle::new().build(0);
    let mut world = World::new();
    world.apply(vec![EntityCommand::Create(3)]);
    let gone = world.live()[1];
    world.apply(vec![EntityCommand::Delete(gone)]);
    assert_eq!(world.live().len(), 2);
    // The slot is taken again, in the next generation.
    world.apply(vec![EntityCommand::Create(1)]);
    let successor = SerializableEntity::new(gone.id(), gone.gen() + 1);
    assert_eq!(world.live().len(), 3);
    assert!(world.live().contains(&successor));

    // The inspector still names the entity that is gone.
    assert_eq!(
        pipeline.input.route(IncomingMessage::DestroyEntities { entities: vec![gone] }, &world.live()),
        Routed { route: Route::EntityHandler, delivered: true }
    );
    let commands = pipeline.entity_handler.run(&world.live());
    assert!(commands.is_empty());
    world.apply(commands);
    assert_eq!(world.live().len(), 3);
    assert!(world.live().contains(&successor));

    // Of a request that names both, only the live one is deleted.
    let request = IncomingMessage::DestroyEntities { entities: vec![gone, successor] };
    pipeline.input.route(request, &world.live());
    let commands = pipeline.entity_handler.run(&world.live());
    assert_eq!(commands, vec![EntityCommand::Delete(successor)]);
    world.apply(commands);
    assert_eq!(world.live().len(), 2);
}
