use amethyst_editor_sync::systems::entity_handler::EntityCommand;
use amethyst_editor_sync::{SerializableEntity, SyncEditorBundle};

/// Runs the stages for eleven frames over a world of `num_entities` entities
/// and returns the number of entities listed in the last full state.
fn run_world(num_entities: usize) -> usize {
    let bundle = SyncEditorBundle::new();
    let mut pipeline = bundle.build(0);
    let mut live: Vec<SerializableEntity> = Vec::new();
    for id in 0..num_entities {
        live.push(SerializableEntity::new(id as u32, 1));
    }
    let mut frames = 0;
    let mut listed = 0;
    let mut full_states = 0;
    while frames <= 10 {
        let now = frames * 20;
        let commands: Vec<EntityCommand> = pipeline.entity_handler.run(&live);
        assert!(commands.is_empty());
        let datagrams = pipeline.sender.run(now, &live);
        for datagram in &datagrams {
            assert!(datagram.len() <= 32768);
        }
        let mut bytes = datagrams.concat();
        assert_eq!(bytes.pop(), Some(12));
        let envelope: serde_json::Value = serde_json::from_slice(&bytes).unwrap();
        assert_eq!(envelope["type"], "message");
        if let Some(entities) = envelope["data"].get("entities") {
            listed = entities.as_array().unwrap().len();
            full_states += 1;
        }
        frames += 1;
    }
    assert_eq!(full_states, 1);
    listed
}

#[test]
fn small_world() {
    assert_eq!(run_world(500), 500);
}

#[test]
fn med_world() {
    assert_eq!(run_world(2_500), 2_500);
}

#[test]
fn large_world() {
    assert_eq!(run_world(10_000), 10_000);
}

#[test]
fn huge_world() {
    assert_eq!(run_world(100_000), 100_000);
}
