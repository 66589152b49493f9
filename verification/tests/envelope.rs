use amethyst_editor_sync::editor_log::{
    record_text, EditorLogger, SerializableLevel, SerializableLogRecord,
};
use amethyst_editor_sync::serializable_entity::{find_live, resolve, write_entities_json};
use amethyst_editor_sync::systems::editor_input::{
    decode_messages, destroy_ids, ReceiveEvent, ReceivePoll,
};
use amethyst_editor_sync::systems::editor_sender::{
    build_envelope, frame_datagrams, sort_outbound, EditorSenderSystem,
};
use amethyst_editor_sync::systems::read_component::{
    component_blob, ReadComponentSystem, SerializedRecord,
};
use amethyst_editor_sync::systems::read_resource::resource_blob;
use amethyst_editor_sync::text::{push_comma_separated, push_decimal, push_signed_decimal};
use amethyst_editor_sync::types::{message_text, Published};
use amethyst_editor_sync::{EditorConnection, SerializableEntity, SerializedData, SyncEditorBundle};

fn text_of(datagrams: Vec<Vec<u8>>) -> String {
    let mut bytes = datagrams.concat();
    assert_eq!(bytes.pop(), Some(12));
    String::from_utf8(bytes).unwrap()
}

fn record(entity: u32, json: &str) -> SerializedRecord {
    SerializedRecord { entity, json: Some(json.to_string()) }
}

#[test]
fn numbers_are_written_in_decimal() {
    let mut out = String::from("x");
    push_decimal(&mut out, 0);
    out.push(' ');
    push_decimal(&mut out, 7);
    out.push(' ');
    push_decimal(&mut out, 10);
    out.push(' ');
    push_decimal(&mut out, 4294967295);
    out.push(' ');
    push_decimal(&mut out, u64::MAX);
    out.push(' ');
    push_signed_decimal(&mut out, 0);
    out.push(' ');
    push_signed_decimal(&mut out, -1);
    out.push(' ');
    push_signed_decimal(&mut out, -2147483648);
    out.push(' ');
    push_signed_decimal(&mut out, i64::MIN);
    out.push(' ');
    push_signed_decimal(&mut out, i64::MAX);
    assert_eq!(
        out,
        "x0 7 10 4294967295 18446744073709551615 0 -1 -2147483648 -9223372036854775808 9223372036854775807"
    );
}

#[test]
fn parts_are_separated_by_commas() {
    let mut out = String::from("[");
    push_comma_separated(&mut out, &vec![]);
    out.push_str("][");
    push_comma_separated(&mut out, &vec!["a".to_string()]);
    out.push_str("][");
    push_comma_separated(&mut out, &vec!["a".to_string(), "".to_string(), "c".to_string()]);
    out.push(']');
    assert_eq!(out, "[][a][a,,c]");
}

#[test]
fn entities_are_written_with_id_and_generation() {
    let mut out = String::new();
    SerializableEntity::new(5, 1).write_json(&mut out);
    assert_eq!(out, "{\"id\":5,\"generation\":1}");
    let mut out = String::new();
    write_entities_json(&mut out, &vec![]);
    assert_eq!(out, "[]");
    let mut out = String::new();
    write_entities_json(
        &mut out,
        &vec![SerializableEntity::new(0, 1), SerializableEntity::new(4294967295, -3)],
    );
    assert_eq!(out, "[{\"id\":0,\"generation\":1},{\"id\":4294967295,\"generation\":-3}]");
}

#[test]
fn live_entities_are_found_by_id_and_generation() {
    let live = vec![
        SerializableEntity::new(0, 1),
        SerializableEntity::new(2, 5),
        SerializableEntity::new(2, 6),
    ];
    assert!(find_live(&live, SerializableEntity::new(2, 5)));
    assert!(!find_live(&live, SerializableEntity::new(2, 4)));
    assert!(!find_live(&live, SerializableEntity::new(1, 1)));
    assert_eq!(resolve(&live, 2), Some(SerializableEntity::new(2, 5)));
    assert_eq!(resolve(&live, 1), None);
    assert_eq!(destroy_ids(&live, &live), vec![0, 2, 2]);
    let named = vec![
        SerializableEntity::new(2, 6),
        SerializableEntity::new(0, 2),
        SerializableEntity::new(7, 1),
        SerializableEntity::new(0, 1),
    ];
    assert_eq!(destroy_ids(&named, &live), vec![2, 0]);
    let entity = SerializableEntity::new(8, 3);
    assert_eq!(entity.id(), 8);
    assert_eq!(entity.gen(), 3);
}

#[test]
fn full_envelope_lists_everything_in_order() {
    let queued = vec![
        SerializedData::Message("{\"m\":1}".to_string()),
        SerializedData::Component("{\"c\":1}".to_string()),
        SerializedData::Resource("{\"r\":1}".to_string()),
        SerializedData::Component("{\"c\":2}".to_string()),
        SerializedData::Message("{\"m\":2}".to_string()),
    ];
    let outbox = sort_outbound(queued);
    assert_eq!(outbox.components, vec!["{\"c\":1}", "{\"c\":2}"]);
    assert_eq!(outbox.resources, vec!["{\"r\":1}"]);
    assert_eq!(outbox.messages, vec!["{\"m\":1}", "{\"m\":2}"]);
    let entities = vec![SerializableEntity::new(3, 2)];
    assert_eq!(
        build_envelope(true, &entities, &outbox),
        "{\"type\":\"message\",\"data\":{\"entities\":[{\"id\":3,\"generation\":2}],\"components\":[{\"c\":1},{\"c\":2}],\"resources\":[{\"r\":1}],\"messages\":[{\"m\":1},{\"m\":2}]}}"
    );
    assert_eq!(
        build_envelope(false, &entities, &outbox),
        "{\"type\":\"message\",\"data\":{\"messages\":[{\"m\":1},{\"m\":2}]}}"
    );
}

#[test]
fn envelope_is_framed_with_the_delimiter() {
    assert_eq!(frame_datagrams(""), vec![vec![12u8]]);
    assert_eq!(frame_datagrams("{}"), vec![vec![b'{', b'}', 12]]);
    // Text outside ASCII goes out as UTF-8.
    assert_eq!(frame_datagrams("é"), vec![vec![0xC3, 0xA9, 12]]);
    let long = "a".repeat(32768);
    let datagrams = frame_datagrams(&long);
    assert_eq!(datagrams.len(), 2);
    assert_eq!(datagrams[0], long.as_bytes());
    assert_eq!(datagrams[1], vec![12u8]);
}

#[test]
fn throttled_ticks_carry_the_events_only() {
    let (sender, receiver) = crossbeam_channel::unbounded();
    let connection = EditorConnection::new(sender);
    let mut system = EditorSenderSystem::from_channel(receiver, 200, 0);
    let entities = vec![SerializableEntity::new(1, 1)];

    assert!(connection.send_data(SerializedData::Component("{\"c\":1}".to_string())));
    assert_eq!(connection.send_message("log", "\"hello\""), Published::Sent);
    assert_eq!(
        text_of(system.run(100, &entities)),
        "{\"type\":\"message\",\"data\":{\"messages\":[{\"type\":\"log\",\"data\":\"hello\"}]}}"
    );
    // What was queued for the full state on that tick is not kept.
    assert_eq!(
        text_of(system.run(200, &entities)),
        "{\"type\":\"message\",\"data\":{\"entities\":[{\"id\":1,\"generation\":1}],\"components\":[],\"resources\":[],\"messages\":[]}}"
    );
    assert_eq!(
        text_of(system.run(201, &entities)),
        "{\"type\":\"message\",\"data\":{\"messages\":[]}}"
    );
    // compose does the same with what it is given.
    assert_eq!(
        text_of(system.compose(300, vec![SerializedData::Message("1".to_string())], &entities)),
        "{\"type\":\"message\",\"data\":{\"messages\":[1]}}"
    );
    assert_eq!(system.next_send(), 400);
}

#[test]
fn event_kinds_are_written_as_json_strings() {
    assert_eq!(message_text("\"log\"", "{}"), "{\"type\":\"log\",\"data\":{}}");
    let (sender, receiver) = crossbeam_channel::unbounded();
    let connection = EditorConnection::new(sender);
    let second = connection.clone();
    assert_eq!(second.send_message("a \"quoted\"\nkind\\", "null"), Published::Sent);
    match receiver.try_recv().unwrap() {
        SerializedData::Message(text) => {
            assert_eq!(text, "{\"type\":\"a \\\"quoted\\\"\\nkind\\\\\",\"data\":null}");
        }
        other => panic!("unexpected {:?}", other),
    }
    drop(receiver);
    assert_eq!(connection.send_message("log", "null"), Published::Disconnected);
    assert!(!connection.send_data(SerializedData::Message("1".to_string())));
}

#[test]
fn component_blob_is_keyed_by_entity() {
    assert_eq!(
        component_blob("\"Position\"", &vec![]),
        Some("{\"name\":\"Position\",\"data\":{}}".to_string())
    );
    assert_eq!(
        component_blob("\"Position\"", &vec![record(0, "{\"x\":1}"), record(12, "[2]")]),
        Some("{\"name\":\"Position\",\"data\":{\"0\":{\"x\":1},\"12\":[2]}}".to_string())
    );
    assert_eq!(
        component_blob(
            "\"Position\"",
            &vec![record(0, "1"), SerializedRecord { entity: 1, json: None }, record(2, "3")]
        ),
        None
    );
    assert_eq!(
        resource_blob("\"Score\"", "{\"value\":10}"),
        "{\"name\":\"Score\",\"data\":{\"value\":10}}"
    );
}

#[test]
fn a_type_that_fails_to_serialize_does_not_block_the_others() {
    let mut bundle = SyncEditorBundle::new();
    assert_eq!(bundle.read_component("Good \"one\""), Ok(()));
    assert_eq!(bundle.read_component("Bad"), Ok(()));
    bundle.send_interval(0);
    let mut pipeline = bundle.build(0);
    assert_eq!(pipeline.component_readers[0].name(), "Good \"one\"");
    assert_eq!(
        pipeline.component_readers[1].run(&vec![SerializedRecord { entity: 0, json: None }]),
        Published::NotSerialized
    );
    assert_eq!(pipeline.component_readers[0].run(&vec![record(4, "true")]), Published::Sent);
    assert_eq!(
        text_of(pipeline.sender.run(0, &vec![])),
        "{\"type\":\"message\",\"data\":{\"entities\":[],\"components\":[{\"name\":\"Good \\\"one\\\"\",\"data\":{\"4\":true}}],\"resources\":[],\"messages\":[]}}"
    );
    let (sender, receiver) = crossbeam_channel::unbounded();
    let lonely = ReadComponentSystem::new("Alone", EditorConnection::new(sender));
    drop(receiver);
    assert_eq!(lonely.run(&vec![]), Published::Disconnected);
}

#[test]
fn log_lines_are_sent_as_events() {
    let line = SerializableLogRecord {
        level: SerializableLevel::Warn,
        target: "game::physics".to_string(),
        module: Some("game::physics".to_string()),
        file: None,
        line: Some(42),
        message: "a \"b\"".to_string(),
    };
    assert_eq!(
        record_text(&line),
        Some(
            "{\"level\":\"Warn\",\"target\":\"game::physics\",\"module\":\"game::physics\",\"file\":null,\"line\":42,\"message\":\"a \\\"b\\\"\"}"
                .to_string()
        )
    );
    let mut bundle = SyncEditorBundle::new();
    bundle.send_interval(1000);
    let logger = EditorLogger::new(bundle.connection());
    let mut pipeline = bundle.build(0);
    assert!(logger.enabled());
    let quiet = SerializableLogRecord {
        level: SerializableLevel::Trace,
        target: "t".to_string(),
        module: None,
        file: Some("main.rs".to_string()),
        line: None,
        message: "".to_string(),
    };
    assert_eq!(logger.log(&quiet), Published::Sent);
    assert_eq!(
        text_of(pipeline.sender.run(1, &vec![])),
        "{\"type\":\"message\",\"data\":{\"messages\":[{\"type\":\"log\",\"data\":{\"level\":\"Trace\",\"target\":\"t\",\"module\":null,\"file\":\"main.rs\",\"line\":null,\"message\":\"\"}}]}}"
    );
    for (level, name) in [
        (SerializableLevel::Error, "Error"),
        (SerializableLevel::Info, "Info"),
        (SerializableLevel::Debug, "Debug"),
    ] {
        let line = SerializableLogRecord { level, ..quiet.clone() };
        let text = record_text(&line).unwrap();
        let value: serde_json::Value = serde_json::from_str(&text).unwrap();
        assert_eq!(value["level"], name);
    }
}

#[test]
fn inbound_bytes_are_cut_at_the_delimiter() {
    let mut pipeline = SyncEditorBundle::new().build(0);
    let mut poll = ReceivePoll { reads: 0, limit: 4 };
    let from_inspector = ReceiveEvent::Datagram { from_inspector: true };

    let step = pipeline.input.receive(&mut poll, from_inspector, b"{\"a\":");
    assert!(step.again && !step.report);
    assert!(pipeline.input.take_messages().is_empty());

    // A stranger's datagram is discarded.
    let stranger = ReceiveEvent::Datagram { from_inspector: false };
    let step = pipeline.input.receive(&mut poll, stranger, b"junk\x0c");
    assert!(step.again && !step.report);
    assert!(pipeline.input.take_messages().is_empty());

    let step = pipeline.input.receive(&mut poll, ReceiveEvent::ConnectionReset, &[]);
    assert!(step.again && !step.report);

    // The fourth read reaches the limit.
    let step = pipeline.input.receive(&mut poll, from_inspector, b"1}\x0c\xff\xfe\x0c\x0cnext");
    assert!(!step.again && !step.report);
    assert_eq!(poll.reads, 4);
    // The message that is not UTF-8 is dropped; the empty one is kept.
    assert_eq!(pipeline.input.take_messages(), vec!["{\"a\":1}".to_string(), "".to_string()]);

    let mut poll = ReceivePoll::new();
    assert_eq!(poll.reads, 0);
    assert_eq!(poll.limit, 1024);
    let step = pipeline.input.receive(&mut poll, ReceiveEvent::Failed, &[]);
    assert!(step.again && step.report);
    let step = pipeline.input.receive(&mut poll, ReceiveEvent::WouldBlock, &[]);
    assert!(!step.again && !step.report);
    let step = pipeline.input.receive(&mut poll, from_inspector, b"\x0c");
    assert!(step.again);
    assert_eq!(pipeline.input.take_messages(), vec!["next".to_string()]);

    assert_eq!(
        decode_messages(vec![vec![0xC3, 0xA9], vec![0xC3], vec![b'o', b'k']]),
        vec!["é".to_string(), "ok".to_string()]
    );
}
