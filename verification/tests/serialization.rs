use uuid::Uuid;
use yew_wysiwyg::{Error, JsonValue, Layout, SerializedLayout, WidgetConfig, WidgetId};

fn new_id() -> WidgetId {
    Uuid::new_v4().as_u128()
}

#[test]
fn test_layout_serialization() {
    let mut layout = Layout::new();
    let id = new_id();
    let config = WidgetConfig::new("test");

    layout.add_root_widget(id, config);

    let json = layout.to_json().unwrap();
    let deserialized = Layout::from_json(&json).unwrap();

    assert_eq!(deserialized.root_widgets().len(), 1);
}

#[test]
fn empty_layout_prints_the_wire_format() {
    let layout = Layout::new();
    assert_eq!(
        layout.to_json().unwrap(),
        r#"{"metadata":{},"nodes":{},"root_nodes":[],"version":"1.0"}"#
    );
}

#[test]
fn ids_are_written_as_hyphenated_uuid_text() {
    let id: WidgetId = 0xa1a2a3a4_b1b2_c1c2_d1d2_d3d4d5d6d7d8;
    let mut layout = Layout::new();
    layout.add_root_widget(id, WidgetConfig::new("basic.button"));
    let json = layout.to_json().unwrap();
    assert!(json.contains(r#""root_nodes":["a1a2a3a4-b1b2-c1c2-d1d2-d3d4d5d6d7d8"]"#));
    assert!(json.contains(r#""a1a2a3a4-b1b2-c1c2-d1d2-d3d4d5d6d7d8":{"#));
    assert!(json.contains(r#""parent":null"#));
    assert!(json.contains(r#""widget_type":"basic.button""#));
}

#[test]
fn round_trip_keeps_roots_nodes_and_fields() {
    let root = new_id();
    let first = new_id();
    let second = new_id();
    let mut layout = Layout::new();
    layout.add_root_widget(
        root,
        WidgetConfig::new("container.row")
            .with_property("gap", JsonValue::String("8px".to_string()))
            .with_property("wrap", JsonValue::Bool(true))
            .with_class("row")
            .with_class("wide")
            .with_style("display", "flex"),
    );
    layout
        .add_child_widget(root, first, WidgetConfig::new("text"))
        .unwrap();
    layout
        .insert_child_widget(root, second, WidgetConfig::new("basic.button"), 0)
        .unwrap();

    let json = layout.to_json().unwrap();
    let loaded = Layout::from_json(&json).unwrap();

    assert_eq!(loaded.root_widgets(), &vec![root]);
    assert_eq!(loaded.to_serialized().version, "1.0");
    assert_eq!(loaded.to_serialized().nodes.len(), 3);
    let node = loaded.get_widget(&root).unwrap();
    assert_eq!(node.children, vec![second, first]);
    assert_eq!(node.parent, None);
    assert_eq!(node.config.widget_type, "container.row");
    assert_eq!(
        node.config.get_property("gap"),
        Some(&JsonValue::String("8px".to_string()))
    );
    assert_eq!(node.config.get_property("wrap"), Some(&JsonValue::Bool(true)));
    assert_eq!(
        node.config.css_classes,
        vec!["row".to_string(), "wide".to_string()]
    );
    assert_eq!(
        node.config.inline_styles.get("display").map(|s| s.as_str()),
        Some("flex")
    );
    assert_eq!(loaded.get_widget(&first).unwrap().parent, Some(root));
    assert_eq!(loaded.get_widget(&second).unwrap().parent, Some(root));
    assert_eq!(
        loaded.get_widget(&second).unwrap().config.widget_type,
        "basic.button"
    );

    let pretty = layout.to_json_pretty().unwrap();
    assert!(pretty.contains('\n'));
    let again = Layout::from_json(&pretty).unwrap();
    assert_eq!(again.to_serialized().nodes.len(), 3);
    assert_eq!(again.get_widget(&root).unwrap().children, vec![second, first]);
}

#[test]
fn import_with_missing_root_fails() {
    let json = r#"{"version":"1.0","root_nodes":["a"],"nodes":{},"metadata":{}}"#;
    assert!(matches!(
        Layout::from_json(json),
        Err(Error::DeserializationError(_))
    ));
    assert!(SerializedLayout::from_json(json).is_err());
}

#[test]
fn import_with_dangling_root_fails_validation() {
    let json = r#"{"version":"1.0","root_nodes":["67e55044-10b1-426f-9247-bb680e5fe0c8"],"nodes":{},"metadata":{}}"#;
    let serialized = SerializedLayout::from_json(json).unwrap();
    match serialized.validate() {
        Err(Error::InvalidOperation(detail)) => assert_eq!(
            detail,
            "Root node 67e55044-10b1-426f-9247-bb680e5fe0c8 not found in nodes"
        ),
        other => panic!("unexpected: {:?}", other),
    }
    match Layout::from_json(json) {
        Err(Error::DeserializationError(detail)) => assert_eq!(
            detail,
            "Root node 67e55044-10b1-426f-9247-bb680e5fe0c8 not found in nodes"
        ),
        other => panic!("unexpected: {:?}", other.map(|_| ())),
    }
}

#[test]
fn import_with_dangling_child_fails() {
    let json = r#"{
        "version": "1.0",
        "root_nodes": ["67e55044-10b1-426f-9247-bb680e5fe0c8"],
        "nodes": {
            "67e55044-10b1-426f-9247-bb680e5fe0c8": {
                "config": {"widget_type": "container.row", "properties": {}, "css_classes": [], "inline_styles": {}},
                "children": ["00000000-0000-0000-0000-000000000001"],
                "parent": null,
                "metadata": {}
            }
        },
        "metadata": {}
    }"#;
    match Layout::from_json(json) {
        Err(Error::DeserializationError(detail)) => assert_eq!(
            detail,
            "Node 67e55044-10b1-426f-9247-bb680e5fe0c8 references non-existent child 00000000-0000-0000-0000-000000000001"
        ),
        other => panic!("unexpected: {:?}", other.map(|_| ())),
    }
}

#[test]
fn import_of_text_that_is_not_json_fails() {
    match Layout::from_json("{not json") {
        Err(Error::DeserializationError(detail)) => assert!(!detail.is_empty()),
        other => panic!("unexpected: {:?}", other.map(|_| ())),
    }
}

#[test]
fn import_reports_the_missing_member() {
    match Layout::from_json(r#"{"root_nodes":[],"nodes":{},"metadata":{}}"#) {
        Err(Error::DeserializationError(detail)) => {
            assert_eq!(detail, "missing field `version`")
        }
        other => panic!("unexpected: {:?}", other.map(|_| ())),
    }
    match Layout::from_json(r#"{"version":1,"root_nodes":[],"nodes":{},"metadata":{}}"#) {
        Err(Error::DeserializationError(detail)) => {
            assert_eq!(detail, "invalid type for field `version`")
        }
        other => panic!("unexpected: {:?}", other.map(|_| ())),
    }
    match Layout::from_json(r#"[1, 2]"#) {
        Err(Error::DeserializationError(detail)) => {
            assert_eq!(detail, "expected a JSON object for layout")
        }
        other => panic!("unexpected: {:?}", other.map(|_| ())),
    }
}

#[test]
fn unknown_versions_and_members_are_accepted() {
    let json = r#"{"version":"7.3","root_nodes":[],"nodes":{},"metadata":{"author":"me"},"extra":true}"#;
    let layout = Layout::from_json(json).unwrap();
    assert_eq!(layout.to_serialized().version, "7.3");
    assert_eq!(
        layout.to_serialized().metadata.get("author"),
        Some(&JsonValue::String("me".to_string()))
    );
}

#[test]
fn import_of_a_cycle_fails() {
    let json = r#"{
        "version": "1.0",
        "root_nodes": [],
        "nodes": {
            "00000000-0000-0000-0000-000000000001": {
                "config": {"widget_type": "a", "properties": {}, "css_classes": [], "inline_styles": {}},
                "children": ["00000000-0000-0000-0000-000000000002"],
                "parent": "00000000-0000-0000-0000-000000000002",
                "metadata": {}
            },
            "00000000-0000-0000-0000-000000000002": {
                "config": {"widget_type": "b", "properties": {}, "css_classes": [], "inline_styles": {}},
                "children": ["00000000-0000-0000-0000-000000000001"],
                "parent": "00000000-0000-0000-0000-000000000001",
                "metadata": {}
            }
        },
        "metadata": {}
    }"#;
    match Layout::from_json(json) {
        Err(Error::DeserializationError(detail)) => {
            assert!(detail.ends_with("does not descend from a root"), "{}", detail)
        }
        other => panic!("unexpected: {:?}", other.map(|_| ())),
    }
}
