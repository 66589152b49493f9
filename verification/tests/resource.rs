use amethyst_editor_sync::systems::editor_input::{
    ReceiveEvent, ReceivePoll, Route, Routed,
};
use amethyst_editor_sync::systems::read_resource::{ResourceRead, ResourceState};
use amethyst_editor_sync::systems::write_component::WriteOutcome;
use amethyst_editor_sync::systems::write_resource::{decide_resource_write, ResourceAttempt};
use amethyst_editor_sync::types::Published;
use amethyst_editor_sync::{IncomingMessage, SerializableEntity, SyncEditorBundle};

fn object_with_value(value: usize) -> serde_json::Value {
    let mut object = serde_json::Map::new();
    object.insert("value".to_string(), serde_json::Value::from(value));
    serde_json::Value::Object(object)
}

fn envelope_of(datagrams: Vec<Vec<u8>>) -> serde_json::Value {
    let mut bytes = datagrams.concat();
    assert_eq!(bytes.pop(), Some(12));
    serde_json::from_slice(&bytes).unwrap()
}

/// Reads an inbound message as the host's glue would.
fn decode(text: &str) -> Option<IncomingMessage> {
    let value: serde_json::Value = serde_json::from_str(text).ok()?;
    let entity = |v: &serde_json::Value| -> Option<SerializableEntity> {
        Some(SerializableEntity::new(
            v.get("id")?.as_u64()? as u32,
            v.get("generation")?.as_i64()? as i32,
        ))
    };
    match value.get("type")?.as_str()? {
        "ComponentUpdate" => Some(IncomingMessage::ComponentUpdate {
            id: value.get("id")?.as_str()?.to_string(),
            entity: entity(value.get("entity")?)?,
            data: value.get("data")?.clone(),
        }),
        "ResourceUpdate" => Some(IncomingMessage::ResourceUpdate {
            id: value.get("id")?.as_str()?.to_string(),
            data: value.get("data")?.clone(),
        }),
        "CreateEntities" => Some(IncomingMessage::CreateEntities {
            amount: value.get("amount")?.as_u64()? as usize,
        }),
        "DestroyEntities" => {
            let mut entities = Vec::new();
            for item in value.get("entities")?.as_array()? {
                entities.push(entity(item)?);
            }
            Some(IncomingMessage::DestroyEntities { entities })
        }
        _ => None,
    }
}

#[test]
fn serialize_resource() {
    let mut bundle = SyncEditorBundle::default();
    assert_eq!(bundle.sync_resource("SimpleResource"), Ok(()));
    let mut pipeline = bundle.build(0);
    let resource = object_with_value(123);
    let live: Vec<SerializableEntity> = Vec::new();
    let mut frames = 0;
    let mut seen = 0;
    while frames <= 10 {
        let state = ResourceState::Serialized(serde_json::to_string(&resource).unwrap());
        assert_eq!(
            pipeline.resource_readers[0].run(state),
            ResourceRead::Found(Published::Sent)
        );
        let envelope = envelope_of(pipeline.sender.run(frames * 20, &live));
        if let Some(resources) = envelope["data"].get("resources") {
            let resources = resources.as_array().unwrap();
            assert_eq!(resources.len(), 1);
            assert_eq!(resources[0]["name"], "SimpleResource");
            assert_eq!(resources[0]["data"], resource);
            seen += 1;
        }
        frames += 1;
    }
    assert_eq!(seen, 1);
}

#[test]
fn missing_resource() {
    let mut bundle = SyncEditorBundle::default();
    assert_eq!(bundle.sync_resource("SimpleResource"), Ok(()));
    let mut pipeline = bundle.build(0);
    let live: Vec<SerializableEntity> = Vec::new();
    let mut frames = 0;
    let mut warnings = 0;
    while frames <= 10 {
        match pipeline.resource_readers[0].run(ResourceState::Missing) {
            ResourceRead::Missing { warn } => {
                if warn {
                    warnings += 1;
                    assert_eq!(frames, 0);
                }
            }
            other => panic!("unexpected {:?}", other),
        }
        let envelope = envelope_of(pipeline.sender.run(frames * 20, &live));
        if let Some(resources) = envelope["data"].get("resources") {
            assert!(resources.as_array().unwrap().is_empty());
        }
        frames += 1;
    }
    assert_eq!(warnings, 1);
}

#[test]
fn unserializable_resource_is_left_out() {
    let mut bundle = SyncEditorBundle::new();
    assert_eq!(bundle.read_resource("Broken"), Ok(()));
    bundle.send_interval(0);
    let mut pipeline = bundle.build(0);
    assert_eq!(
        pipeline.resource_readers[0].run(ResourceState::NotSerializable),
        ResourceRead::Found(Published::NotSerialized)
    );
    let envelope = envelope_of(pipeline.sender.run(0, &Vec::new()));
    assert!(envelope["data"]["resources"].as_array().unwrap().is_empty());
}

/// A score is published, edited by the inspector, and the edit is applied.
#[test]
fn score_is_published_and_updated() {
    let mut bundle = SyncEditorBundle::new();
    assert_eq!(bundle.sync_resource("Score"), Ok(()));
    bundle.send_interval(0);
    let mut pipeline = bundle.build(0);
    let live: Vec<SerializableEntity> = Vec::new();

    // Tick 1: the host sets the score to 10 and the full state goes out.
    let mut score: usize = 10;
    let state = ResourceState::Serialized(serde_json::to_string(&object_with_value(score)).unwrap());
    assert_eq!(pipeline.resource_readers[0].run(state), ResourceRead::Found(Published::Sent));
    let datagrams = pipeline.sender.run(1, &live);
    let mut bytes = datagrams.concat();
    assert_eq!(bytes.pop(), Some(12));
    let text = String::from_utf8(bytes).unwrap();
    assert_eq!(
        text,
        "{\"type\":\"message\",\"data\":{\"entities\":[],\"components\":[],\"resources\":[{\"name\":\"Score\",\"data\":{\"value\":10}}],\"messages\":[]}}"
    );

    // Tick 2: an update arrives.
    let inbound = b"{\"type\":\"ResourceUpdate\",\"id\":\"Score\",\"data\":{\"value\":42}}\x0c";
    let mut poll = ReceivePoll { reads: 0, limit: 16 };
    let step = pipeline.input.receive(
        &mut poll,
        ReceiveEvent::Datagram { from_inspector: true },
        inbound,
    );
    assert!(step.again);
    assert!(!step.report);
    let step = pipeline.input.receive(&mut poll, ReceiveEvent::WouldBlock, &[]);
    assert!(!step.again);
    let messages = pipeline.input.take_messages();
    assert_eq!(messages.len(), 1);
    let message = decode(&messages[0]).unwrap();
    assert_eq!(
        pipeline.input.route(message, &live),
        Routed { route: Route::Resource, delivered: true }
    );

    // Tick 3: the writing stage applies it.
    let updates = pipeline.resource_writers[0].take_updates();
    assert_eq!(updates.len(), 1);
    for update in updates {
        let decoded = update.get("value").and_then(|v| v.as_u64());
        let attempt = ResourceAttempt { decoded: decoded.is_some(), present: true };
        if decide_resource_write(attempt) == WriteOutcome::Applied {
            score = decoded.unwrap() as usize;
        }
    }
    assert_eq!(score, 42);
    assert!(pipeline.resource_writers[0].take_updates().is_empty());
}

#[test]
fn update_for_unregistered_resource_is_dropped() {
    let mut bundle = SyncEditorBundle::new();
    assert_eq!(bundle.sync_resource("Score"), Ok(()));
    assert_eq!(bundle.read_resource("ReadOnly"), Ok(()));
    let pipeline = bundle.build(0);
    let live: Vec<SerializableEntity> = Vec::new();
    for name in ["Unknown", "ReadOnly", "score"] {
        let message = IncomingMessage::ResourceUpdate {
            id: name.to_string(),
            data: object_with_value(1),
        };
        assert_eq!(
            pipeline.input.route(message, &live),
            Routed { route: Route::Unregistered, delivered: false }
        );
    }
    assert!(pipeline.resource_writers[0].take_updates().is_empty());
}
