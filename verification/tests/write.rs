use amethyst_editor_sync::systems::editor_input::{Route, Routed};
use amethyst_editor_sync::systems::write_component::{
    decide_component_write, plan_component_writes, ComponentAttempt, WriteOutcome,
};
use amethyst_editor_sync::systems::write_resource::{plan_resource_writes, ResourceAttempt};
use amethyst_editor_sync::{IncomingMessage, SerializableEntity, SyncEditorBundle};

fn attempt(generation: i32, decoded: bool, target: Option<i32>) -> ComponentAttempt {
    ComponentAttempt { entity: SerializableEntity::new(3, generation), decoded, target }
}

#[test]
fn each_kind_of_failure_is_told_apart() {
    assert_eq!(decide_component_write(attempt(2, true, Some(2))), WriteOutcome::Applied);
    assert_eq!(decide_component_write(attempt(2, false, Some(2))), WriteOutcome::NotDecoded);
    assert_eq!(decide_component_write(attempt(2, false, None)), WriteOutcome::NotDecoded);
    assert_eq!(decide_component_write(attempt(2, true, None)), WriteOutcome::Missing);
    assert_eq!(decide_component_write(attempt(2, true, Some(3))), WriteOutcome::Stale);
}

#[test]
fn applied_updates_are_those_that_do_not_fail() {
    let attempts = vec![
        attempt(1, true, Some(1)),
        attempt(1, false, Some(1)),
        attempt(1, true, None),
        attempt(1, true, Some(2)),
        attempt(5, true, Some(5)),
    ];
    let plan = plan_component_writes(&attempts);
    assert_eq!(
        plan.outcomes,
        vec![
            WriteOutcome::Applied,
            WriteOutcome::NotDecoded,
            WriteOutcome::Missing,
            WriteOutcome::Stale,
            WriteOutcome::Applied
        ]
    );
    assert_eq!(plan.applied, 2);
    assert_eq!(plan_component_writes(&Vec::new()).applied, 0);
}

#[test]
fn resource_updates_are_applied_unless_they_fail() {
    let attempts = vec![
        ResourceAttempt { decoded: true, present: true },
        ResourceAttempt { decoded: false, present: true },
        ResourceAttempt { decoded: true, present: false },
    ];
    let plan = plan_resource_writes(&attempts);
    assert_eq!(
        plan.outcomes,
        vec![WriteOutcome::Applied, WriteOutcome::NotDecoded, WriteOutcome::Missing]
    );
    assert_eq!(plan.applied, 1);
}

#[test]
fn component_updates_reach_the_stage_of_their_type() {
    let mut bundle = SyncEditorBundle::new();
    assert_eq!(bundle.sync_component("Position"), Ok(()));
    assert_eq!(bundle.sync_component("Velocity"), Ok(()));
    let pipeline = bundle.build(0);
    let live = vec![SerializableEntity::new(0, 1), SerializableEntity::new(1, 4)];
    let update = |id: &str, entity: SerializableEntity| IncomingMessage::ComponentUpdate {
        id: id.to_string(),
        entity,
        data: serde_json::Value::from(7u32),
    };

    assert_eq!(
        pipeline.input.route(update("Velocity", SerializableEntity::new(1, 4)), &live),
        Routed { route: Route::Component, delivered: true }
    );
    // A generation that is not the live one.
    assert_eq!(
        pipeline.input.route(update("Velocity", SerializableEntity::new(1, 3)), &live),
        Routed { route: Route::Stale, delivered: false }
    );
    // An entity that is not alive.
    assert_eq!(
        pipeline.input.route(update("Velocity", SerializableEntity::new(9, 1)), &live),
        Routed { route: Route::Stale, delivered: false }
    );
    // A type that is not registered.
    assert_eq!(
        pipeline.input.route(update("Mass", SerializableEntity::new(1, 4)), &live),
        Routed { route: Route::Unregistered, delivered: false }
    );

    assert!(pipeline.component_writers[0].take_updates().is_empty());
    let updates = pipeline.component_writers[1].take_updates();
    assert_eq!(pipeline.component_writers[1].id(), "Velocity");
    assert_eq!(updates.len(), 1);
    assert_eq!(updates[0].entity, SerializableEntity::new(1, 4));
    assert_eq!(updates[0].data, serde_json::Value::from(7u32));
    assert!(pipeline.component_writers[1].take_updates().is_empty());
}
