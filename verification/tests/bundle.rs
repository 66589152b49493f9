use amethyst_editor_sync::type_set::{RegistrationError, TypeSet};
use amethyst_editor_sync::SyncEditorBundle;

fn reader_names(bundle: SyncEditorBundle) -> (Vec<&'static str>, Vec<&'static str>, Vec<&'static str>, Vec<&'static str>) {
    let pipeline = bundle.build(0);
    (
        pipeline.component_readers.iter().map(|s| s.name()).collect(),
        pipeline.component_writers.iter().map(|s| s.id()).collect(),
        pipeline.resource_readers.iter().map(|s| s.name()).collect(),
        pipeline.resource_writers.iter().map(|s| s.id()).collect(),
    )
}

/// The registration calls work one type after the other, for each direction.
#[test]
fn no_trailing_comma() {
    let mut bundle = SyncEditorBundle::new();
    assert_eq!(bundle.sync_component("Light"), Ok(()));
    assert_eq!(bundle.sync_component("Camera"), Ok(()));
    assert_eq!(bundle.read_component("Light"), Err(RegistrationError::DuplicateName));
    assert_eq!(bundle.read_component("Camera"), Err(RegistrationError::DuplicateName));
    assert_eq!(bundle.sync_resource("AmbientColor"), Ok(()));
    assert_eq!(bundle.read_resource("AmbientColor"), Err(RegistrationError::DuplicateName));
    let (rc, wc, rr, wr) = reader_names(bundle);
    assert_eq!(rc, vec!["Light", "Camera"]);
    assert_eq!(wc, vec!["Light", "Camera"]);
    assert_eq!(rr, vec!["AmbientColor"]);
    assert_eq!(wr, vec!["AmbientColor"]);
}

/// The same registration calls once more, in the same order.
#[test]
fn trailing_comma() {
    let mut bundle = SyncEditorBundle::new();
    assert_eq!(bundle.sync_component("Light"), Ok(()));
    assert_eq!(bundle.sync_component("Camera"), Ok(()));
    assert_eq!(bundle.read_component("Light"), Err(RegistrationError::DuplicateName));
    assert_eq!(bundle.read_component("Camera"), Err(RegistrationError::DuplicateName));
    assert_eq!(bundle.sync_resource("AmbientColor"), Ok(()));
    assert_eq!(bundle.read_resource("AmbientColor"), Err(RegistrationError::DuplicateName));
    let (rc, wc, rr, wr) = reader_names(bundle);
    assert_eq!(rc, vec!["Light", "Camera"]);
    assert_eq!(wc, vec!["Light", "Camera"]);
    assert_eq!(rr, vec!["AmbientColor"]);
    assert_eq!(wr, vec!["AmbientColor"]);
}

#[test]
fn a_name_registered_for_reading_is_not_registered_again_for_both() {
    let mut bundle = SyncEditorBundle::new();
    assert_eq!(bundle.read_component("Light"), Ok(()));
    assert_eq!(bundle.read_component("Camera"), Ok(()));
    assert_eq!(bundle.sync_component("Light"), Err(RegistrationError::DuplicateName));
    assert_eq!(bundle.sync_component("Camera"), Err(RegistrationError::DuplicateName));
    assert_eq!(bundle.read_resource("AmbientColor"), Ok(()));
    assert_eq!(bundle.sync_resource("AmbientColor"), Err(RegistrationError::DuplicateName));
    let (rc, wc, rr, wr) = reader_names(bundle);
    assert_eq!(rc, vec!["Light", "Camera"]);
    assert!(wc.is_empty());
    assert_eq!(rr, vec!["AmbientColor"]);
    assert!(wr.is_empty());
}

#[test]
fn empty() {
    let mut bundle = SyncEditorBundle::default();
    bundle.sync_default_types();
    let (rc, wc, rr, wr) = reader_names(bundle);
    assert_eq!(
        rc,
        vec![
            "Camera",
            "CameraOrtho",
            "DestroyAtTime",
            "DestroyInTime",
            "FlyControlTag",
            "GlobalTransform",
            "Light",
            "MouseReactive",
            "Named",
            "Transform",
            "UiButton",
            "UiTransform",
            "UiText"
        ]
    );
    assert_eq!(wc.len(), 12);
    assert_eq!(wc[0], "Camera");
    assert_eq!(wc[11], "UiTransform");
    assert_eq!(rr, vec!["AmbientColor", "HideCursor", "WindowFocus"]);
    assert_eq!(wr, vec!["AmbientColor", "HideCursor"]);
}

#[test]
fn register_component() {
    let mut bundle = SyncEditorBundle::default();
    bundle.sync_default_types();
    assert_eq!(bundle.sync_component("Foo"), Ok(()));
    let (rc, wc, _, _) = reader_names(bundle);
    assert_eq!(rc.len(), 14);
    assert_eq!(rc[13], "Foo");
    assert_eq!(wc.len(), 13);
    assert_eq!(wc[12], "Foo");
}

#[test]
fn default_types_skip_names_already_taken() {
    let mut bundle = SyncEditorBundle::new();
    assert_eq!(bundle.read_component("Light"), Ok(()));
    bundle.sync_default_types();
    let (rc, wc, _, _) = reader_names(bundle);
    assert_eq!(rc[0], "Light");
    assert_eq!(rc.len(), 13);
    assert_eq!(wc.len(), 11);
    assert!(!wc.contains(&"Light"));
}

#[test]
fn a_component_and_a_resource_may_share_a_name() {
    let mut bundle = SyncEditorBundle::new();
    assert_eq!(bundle.sync_component("Score"), Ok(()));
    assert_eq!(bundle.sync_resource("Score"), Ok(()));
    assert_eq!(bundle.sync_resource("Score"), Err(RegistrationError::DuplicateName));
}

#[test]
fn type_set_keeps_the_order_of_registration() {
    struct A;
    struct B;
    struct C;
    let left = TypeSet::new().with::<A>("A").unwrap().with::<B>("B").unwrap();
    let right = TypeSet::new().with::<C>("C").unwrap();
    let both = left.with_set(&right).unwrap();
    assert_eq!(both.names(), &vec!["A", "B", "C"]);
    assert_eq!(both.len(), 3);
    assert_eq!(both.position("A"), Some(0));
    assert_eq!(both.position("C"), Some(2));
    assert_eq!(both.position("D"), None);
    let (map, writers) = both.create_component_write_systems();
    assert_eq!(map.len(), 3);
    assert_eq!(map.position("B"), Some(1));
    assert_eq!(writers[1].id(), "B");
}

#[test]
fn type_set_refuses_a_name_twice() {
    struct A;
    let set = TypeSet::new().with::<A>("A").unwrap();
    assert!(matches!(set.with::<A>("A"), Err(RegistrationError::DuplicateName)));
    let one = TypeSet::new().with::<A>("A").unwrap().with::<A>("B").unwrap();
    let other = TypeSet::new().with::<A>("C").unwrap().with::<A>("B").unwrap();
    assert!(matches!(one.with_set(&other), Err(RegistrationError::DuplicateName)));
}

#[test]
fn send_interval_defaults_to_200_and_can_be_set() {
    let bundle = SyncEditorBundle::new();
    let pipeline = bundle.build(1000);
    assert_eq!(pipeline.sender.send_interval(), 200);
    assert_eq!(pipeline.sender.next_send(), 1200);
    let mut bundle = SyncEditorBundle::new();
    bundle.send_interval(0);
    let pipeline = bundle.build(1000);
    assert_eq!(pipeline.sender.send_interval(), 0);
    assert_eq!(pipeline.sender.next_send(), 1000);
}
