use std::collections::HashMap;
use yew_wysiwyg::registry::{build_breadcrumb_path, WidgetRegistry};
use yew_wysiwyg::{
    Error, Fault, JsonValue, Layout, LayoutNode, SerializedLayout, StrMap, WidgetConfig, WidgetId,
};

const A: WidgetId = 0x0000_0000_0000_0000_0000_0000_0000_000a;
const B: WidgetId = 0x0000_0000_0000_0000_0000_0000_0000_000b;
const C: WidgetId = 0x0000_0000_0000_0000_0000_0000_0000_000c;
const D: WidgetId = 0x0000_0000_0000_0000_0000_0000_0000_000d;
const E: WidgetId = 0x0000_0000_0000_0000_0000_0000_0000_000e;

fn text_of(id: WidgetId) -> String {
    uuid::Uuid::from_u128(id).to_string()
}

/// roots [A, E]; A has children [B, C]; B has child D.
fn sample() -> Layout {
    let mut layout = Layout::new();
    layout.add_root_widget(A, WidgetConfig::new("container.row"));
    layout.add_root_widget(E, WidgetConfig::new("text"));
    layout
        .add_child_widget(A, B, WidgetConfig::new("container.column"))
        .unwrap();
    layout
        .add_child_widget(A, C, WidgetConfig::new("basic.button"))
        .unwrap();
    layout
        .add_child_widget(B, D, WidgetConfig::new("text"))
        .unwrap();
    layout
}

#[test]
fn new_layout_is_empty_and_valid() {
    let layout = Layout::new();
    assert!(layout.root_widgets().is_empty());
    assert_eq!(layout.to_serialized().version, "1.0");
    assert_eq!(layout.to_serialized().nodes.len(), 0);
    assert!(layout.to_serialized().validate().is_ok());
    assert_eq!(layout.to_serialized().find_fault(), None);
    let plain = SerializedLayout::new();
    assert!(plain.root_nodes.is_empty());
    assert!(plain.metadata.is_empty());
}

#[test]
fn add_root_then_child_of_a_widget_that_is_no_container() {
    let mut layout = Layout::new();
    layout.add_root_widget(A, WidgetConfig::new("basic.button"));
    assert_eq!(layout.root_widgets(), &vec![A]);
    assert!(layout.get_widget(&A).unwrap().parent.is_none());

    let added = layout.add_child_widget(A, B, WidgetConfig::new("text"));
    assert!(added.is_ok());
    assert_eq!(layout.get_widget(&A).unwrap().children, vec![B]);
    assert_eq!(layout.get_widget(&B).unwrap().parent, Some(A));
    assert_eq!(layout.get_widget(&B).unwrap().config.widget_type, "text");
    assert!(layout.get_widget(&B).unwrap().children.is_empty());
    assert_eq!(layout.root_widgets(), &vec![A]);
    assert!(layout.to_serialized().validate().is_ok());
}

#[test]
fn insert_root_at_front() {
    let mut layout = Layout::new();
    layout.add_root_widget(A, WidgetConfig::new("text"));
    layout.insert_root_widget(B, WidgetConfig::new("text"), 0);
    assert_eq!(layout.root_widgets(), &vec![B, A]);
}

#[test]
fn insert_positions_are_clamped() {
    let mut layout = Layout::new();
    layout.insert_root_widget(A, WidgetConfig::new("text"), 7);
    layout.insert_root_widget(B, WidgetConfig::new("text"), usize::MAX);
    layout.insert_root_widget(C, WidgetConfig::new("text"), 1);
    assert_eq!(layout.root_widgets(), &vec![A, C, B]);

    layout
        .insert_child_widget(A, D, WidgetConfig::new("text"), 99)
        .unwrap();
    layout
        .insert_child_widget(A, E, WidgetConfig::new("text"), 0)
        .unwrap();
    assert_eq!(layout.get_widget(&A).unwrap().children, vec![E, D]);
    assert!(layout.to_serialized().validate().is_ok());
}

#[test]
fn child_of_a_missing_parent_is_refused() {
    let mut layout = sample();
    let before = layout.clone();
    let missing: WidgetId = 0x99;
    match layout.add_child_widget(missing, 0x100, WidgetConfig::new("text")) {
        Err(Error::WidgetNotFound(detail)) => assert_eq!(detail, text_of(missing)),
        other => panic!("unexpected: {:?}", other),
    }
    match layout.insert_child_widget(missing, 0x100, WidgetConfig::new("text"), 0) {
        Err(Error::WidgetNotFound(detail)) => {
            assert_eq!(detail, "00000000-0000-0000-0000-000000000099")
        }
        other => panic!("unexpected: {:?}", other),
    }
    assert_eq!(layout, before);
}

#[test]
fn a_child_is_listed_once() {
    let mut layout = sample();
    layout
        .add_child_widget(A, B, WidgetConfig::new("again"))
        .unwrap();
    assert_eq!(layout.get_widget(&A).unwrap().children, vec![B, C]);
    assert_eq!(layout.get_widget(&B).unwrap().config.widget_type, "again");
    layout
        .insert_child_widget(A, C, WidgetConfig::new("again"), 0)
        .unwrap();
    assert_eq!(layout.get_widget(&A).unwrap().children, vec![B, C]);

    let mut node = LayoutNode::new(WidgetConfig::new("x"));
    node.add_child(B);
    node.add_child(C);
    node.add_child(B);
    assert_eq!(node.children, vec![B, C]);
    assert!(node.remove_child(&B));
    assert!(!node.remove_child(&B));
    assert_eq!(node.children, vec![C]);
}

#[test]
fn remove_cascades_to_all_descendants() {
    let mut layout = sample();
    assert_eq!(layout.to_serialized().nodes.len(), 5);
    layout.remove_widget(&A).unwrap();
    assert_eq!(layout.to_serialized().nodes.len(), 1);
    assert_eq!(layout.root_widgets(), &vec![E]);
    assert!(layout.get_widget(&A).is_none());
    assert!(layout.get_widget(&B).is_none());
    assert!(layout.get_widget(&C).is_none());
    assert!(layout.get_widget(&D).is_none());
    assert!(layout.get_widget(&E).is_some());
    assert!(layout.to_serialized().validate().is_ok());
}

#[test]
fn remove_of_an_inner_widget_detaches_it_from_its_parent() {
    let mut layout = sample();
    layout.remove_widget(&B).unwrap();
    assert_eq!(layout.to_serialized().nodes.len(), 3);
    assert_eq!(layout.get_widget(&A).unwrap().children, vec![C]);
    assert_eq!(layout.root_widgets(), &vec![A, E]);
    assert!(layout.get_widget(&D).is_none());
    assert!(layout.to_serialized().validate().is_ok());
}

#[test]
fn remove_of_a_missing_widget_fails_and_changes_nothing() {
    let mut layout = sample();
    let before = layout.clone();
    match layout.remove_widget(&0x77) {
        Err(Error::WidgetNotFound(detail)) => assert_eq!(detail, text_of(0x77)),
        other => panic!("unexpected: {:?}", other),
    }
    assert_eq!(layout, before);
}

fn node(widget_type: &str, parent: Option<WidgetId>, children: Vec<WidgetId>) -> LayoutNode {
    let mut node = LayoutNode::new(WidgetConfig::new(widget_type));
    node.parent = parent;
    node.children = children;
    node
}

fn document(roots: Vec<WidgetId>, nodes: Vec<(WidgetId, LayoutNode)>) -> SerializedLayout {
    let mut map = HashMap::new();
    for (id, node) in nodes {
        map.insert(id, node);
    }
    SerializedLayout {
        version: "1.0".to_string(),
        root_nodes: roots,
        nodes: map,
        metadata: StrMap::new(),
    }
}

#[test]
fn remove_in_a_cycle_fails_fast_and_changes_nothing() {
    let mut layout = Layout::new();
    *layout.to_serialized_mut() = document(
        vec![],
        vec![
            (A, node("a", Some(B), vec![B])),
            (B, node("b", Some(A), vec![A])),
        ],
    );
    let before = layout.clone();
    match layout.remove_widget(&A) {
        Err(Error::InvalidOperation(detail)) => {
            assert_eq!(detail, "Cycle detected in widget hierarchy")
        }
        other => panic!("unexpected: {:?}", other),
    }
    assert_eq!(layout, before);
}

#[test]
fn remove_with_a_dangling_child_fails_and_changes_nothing() {
    let mut layout = Layout::new();
    *layout.to_serialized_mut() = document(vec![A], vec![(A, node("a", None, vec![B]))]);
    let before = layout.clone();
    match layout.remove_widget(&A) {
        Err(Error::WidgetNotFound(detail)) => assert_eq!(detail, text_of(B)),
        other => panic!("unexpected: {:?}", other),
    }
    assert_eq!(layout, before);
}

#[test]
fn move_up_and_down_swap_neighbours() {
    let mut layout = sample();
    layout.move_widget_up(&C).unwrap();
    assert_eq!(layout.get_widget(&A).unwrap().children, vec![C, B]);
    layout.move_widget_down(&C).unwrap();
    assert_eq!(layout.get_widget(&A).unwrap().children, vec![B, C]);
    layout.move_widget_down(&A).unwrap();
    assert_eq!(layout.root_widgets(), &vec![E, A]);
    layout.move_widget_up(&A).unwrap();
    assert_eq!(layout.root_widgets(), &vec![A, E]);
    assert!(layout.to_serialized().validate().is_ok());
}

#[test]
fn move_at_the_boundary_changes_nothing() {
    let mut layout = sample();
    let before = layout.clone();
    assert!(layout.move_widget_up(&A).is_ok());
    assert_eq!(layout, before);
    assert!(layout.move_widget_up(&B).is_ok());
    assert_eq!(layout, before);
    assert!(layout.move_widget_down(&E).is_ok());
    assert_eq!(layout, before);
    assert!(layout.move_widget_down(&C).is_ok());
    assert_eq!(layout, before);
    assert!(layout.move_widget_up(&D).is_ok());
    assert!(layout.move_widget_down(&D).is_ok());
    assert_eq!(layout, before);
}

#[test]
fn move_errors_name_what_is_missing() {
    let mut layout = sample();
    match layout.move_widget_up(&0x55) {
        Err(Error::WidgetNotFound(detail)) => assert_eq!(detail, text_of(0x55)),
        other => panic!("unexpected: {:?}", other),
    }
    match layout.move_widget_down(&0x55) {
        Err(Error::WidgetNotFound(detail)) => assert_eq!(detail, text_of(0x55)),
        other => panic!("unexpected: {:?}", other),
    }

    let mut broken = Layout::new();
    *broken.to_serialized_mut() = document(
        vec![],
        vec![
            (A, node("a", None, vec![])),
            (B, node("b", Some(A), vec![])),
            (C, node("c", Some(D), vec![])),
        ],
    );
    let before = broken.clone();
    match broken.move_widget_up(&A) {
        Err(Error::InvalidOperation(detail)) => assert_eq!(detail, "Widget not found in roots"),
        other => panic!("unexpected: {:?}", other),
    }
    match broken.move_widget_down(&A) {
        Err(Error::InvalidOperation(detail)) => assert_eq!(detail, "Widget not found in roots"),
        other => panic!("unexpected: {:?}", other),
    }
    match broken.move_widget_up(&B) {
        Err(Error::InvalidOperation(detail)) => assert_eq!(detail, "Widget not found in parent"),
        other => panic!("unexpected: {:?}", other),
    }
    match broken.move_widget_down(&B) {
        Err(Error::InvalidOperation(detail)) => assert_eq!(detail, "Widget not found in parent"),
        other => panic!("unexpected: {:?}", other),
    }
    match broken.move_widget_up(&C) {
        Err(Error::WidgetNotFound(detail)) => assert_eq!(detail, text_of(D)),
        other => panic!("unexpected: {:?}", other),
    }
    assert_eq!(broken, before);
}

#[test]
fn set_config_replaces_the_configuration() {
    let mut layout = sample();
    layout
        .set_config(&C, WidgetConfig::new("basic.link").with_class("wide"))
        .unwrap();
    let node = layout.get_widget(&C).unwrap();
    assert_eq!(node.config.widget_type, "basic.link");
    assert_eq!(node.config.css_classes, vec!["wide".to_string()]);
    assert_eq!(node.parent, Some(A));
    match layout.set_config(&0x42, WidgetConfig::new("x")) {
        Err(Error::WidgetNotFound(detail)) => assert_eq!(detail, text_of(0x42)),
        other => panic!("unexpected: {:?}", other),
    }
}

#[test]
fn nodes_can_be_changed_in_place() {
    let mut layout = sample();
    {
        let serialized = layout.to_serialized_mut();
        let node = serialized.get_node_mut(&D).unwrap();
        node.config.set_property("content", JsonValue::String("hello".to_string()));
        node.metadata.insert("note".to_string(), JsonValue::Bool(true));
        assert!(serialized.get_node_mut(&0x1234).is_none());
        serialized.set_metadata("title".to_string(), JsonValue::String("Home".to_string()));
    }
    let node = layout.get_widget(&D).unwrap();
    assert_eq!(
        node.config.get_property("content"),
        Some(&JsonValue::String("hello".to_string()))
    );
    assert_eq!(node.metadata.get("note"), Some(&JsonValue::Bool(true)));
    assert_eq!(
        layout.to_serialized().metadata.get("title"),
        Some(&JsonValue::String("Home".to_string()))
    );
    assert_eq!(layout.to_serialized().get_node(&D).unwrap().parent, Some(B));
}

#[test]
fn add_and_remove_node_touch_only_the_node_map() {
    let mut plain = SerializedLayout::new();
    plain.add_node(A, LayoutNode::new(WidgetConfig::new("a")));
    assert_eq!(plain.nodes.len(), 1);
    assert!(plain.root_nodes.is_empty());
    assert_eq!(plain.node_count(), 1);
    assert_eq!(plain.node_ids(), vec![A]);
    let taken = plain.remove_node(&A).unwrap();
    assert_eq!(taken.config.widget_type, "a");
    assert!(plain.remove_node(&A).is_none());
}

#[test]
fn from_serialized_accepts_exactly_the_valid() {
    let good = document(
        vec![A],
        vec![(A, node("a", None, vec![B])), (B, node("b", Some(A), vec![]))],
    );
    let layout = Layout::from_serialized(good).unwrap();
    assert_eq!(layout.root_widgets(), &vec![A]);

    let bad = document(vec![A], vec![]);
    match Layout::from_serialized(bad) {
        Err(Error::InvalidOperation(detail)) => assert_eq!(
            detail,
            "Root node 00000000-0000-0000-0000-00000000000a not found in nodes"
        ),
        other => panic!("unexpected: {:?}", other.map(|_| ())),
    }
}

#[test]
fn every_fault_is_found() {
    let cases: Vec<(SerializedLayout, Fault, &str)> = vec![
        (
            document(vec![A], vec![]),
            Fault::MissingRoot(A),
            "Root node 00000000-0000-0000-0000-00000000000a not found in nodes",
        ),
        (
            document(
                vec![B],
                vec![(B, node("b", Some(B), vec![]))],
            ),
            Fault::RootWithParent(B),
            "Root node 00000000-0000-0000-0000-00000000000b has a parent",
        ),
        (
            document(vec![A, A], vec![(A, node("a", None, vec![]))]),
            Fault::DuplicateRoot(A),
            "Root node 00000000-0000-0000-0000-00000000000a is listed twice",
        ),
        (
            document(vec![A], vec![(A, node("a", None, vec![B]))]),
            Fault::MissingChild(A, B),
            "Node 00000000-0000-0000-0000-00000000000a references non-existent child 00000000-0000-0000-0000-00000000000b",
        ),
        (
            document(
                vec![A],
                vec![(A, node("a", None, vec![B, B])), (B, node("b", Some(A), vec![]))],
            ),
            Fault::DuplicateChild(A, B),
            "Node 00000000-0000-0000-0000-00000000000a lists child 00000000-0000-0000-0000-00000000000b twice",
        ),
        (
            document(
                vec![A, B],
                vec![(A, node("a", None, vec![B])), (B, node("b", None, vec![]))],
            ),
            Fault::ChildOfOther(A, B),
            "Node 00000000-0000-0000-0000-00000000000a lists child 00000000-0000-0000-0000-00000000000b which has another parent",
        ),
        (
            document(vec![], vec![(A, node("a", None, vec![]))]),
            Fault::Unlisted(A),
            "Node 00000000-0000-0000-0000-00000000000a is not listed where its parent link says",
        ),
        (
            document(vec![], vec![(A, node("a", Some(A), vec![A]))]),
            Fault::Unrooted(A),
            "Node 00000000-0000-0000-0000-00000000000a does not descend from a root",
        ),
    ];
    for (doc, fault, text) in cases {
        assert_eq!(doc.find_fault(), Some(fault));
        assert_eq!(fault.message(), text);
        match doc.validate() {
            Err(Error::InvalidOperation(detail)) => assert_eq!(detail, text),
            other => panic!("unexpected: {:?}", other),
        }
    }
}

#[test]
fn breadcrumbs_run_from_the_root_to_the_widget() {
    let layout = sample();
    let registry = WidgetRegistry::with_standard_widgets();
    assert_eq!(layout.path_to(&D), vec![A, B, D]);
    assert_eq!(
        build_breadcrumb_path(&layout, &registry, &D),
        vec![
            (A, "Row Container".to_string()),
            (B, "Column Container".to_string()),
            (D, "Text".to_string()),
        ]
    );
    assert_eq!(
        build_breadcrumb_path(&layout, &WidgetRegistry::new(), &D),
        vec![
            (A, "container.row".to_string()),
            (B, "container.column".to_string()),
            (D, "text".to_string()),
        ]
    );
    assert_eq!(
        build_breadcrumb_path(&layout, &registry, &E),
        vec![(E, "Text".to_string())]
    );
    assert!(build_breadcrumb_path(&layout, &registry, &0x31).is_empty());

    let mut looped = Layout::new();
    *looped.to_serialized_mut() = document(
        vec![],
        vec![
            (A, node("a", Some(B), vec![B])),
            (B, node("b", Some(A), vec![A])),
        ],
    );
    assert_eq!(
        build_breadcrumb_path(&looped, &registry, &A),
        vec![(B, "b".to_string()), (A, "a".to_string())]
    );
}

#[test]
fn a_fault_of_the_roots_is_reported_before_a_fault_of_a_node() {
    let doc = document(
        vec![A, B, B, C],
        vec![
            (A, node("a", None, vec![D])),
            (B, node("b", None, vec![])),
            (E, node("e", None, vec![])),
        ],
    );
    assert_eq!(doc.find_fault(), Some(Fault::DuplicateRoot(B)));
    match doc.validate() {
        Err(Error::InvalidOperation(detail)) => {
            assert_eq!(detail, Fault::DuplicateRoot(B).message())
        }
        other => panic!("unexpected: {:?}", other),
    }
    let again = doc.clone();
    let first = doc.validate().unwrap_err();
    match Layout::from_serialized(again) {
        Err(error) => assert_eq!(error, first),
        Ok(_) => panic!("a broken document was taken"),
    }
}

#[test]
fn of_the_faulty_nodes_the_one_with_the_least_id_is_reported() {
    let doc = document(
        vec![A],
        vec![
            (A, node("a", None, vec![])),
            (E, node("e", None, vec![])),
            (C, node("c", Some(A), vec![])),
            (D, node("d", None, vec![B, B])),
        ],
    );
    assert_eq!(doc.find_fault(), Some(Fault::Unlisted(C)));
    for _ in 0..8 {
        assert_eq!(doc.clone().find_fault(), Some(Fault::Unlisted(C)));
    }
    let doc = document(
        vec![],
        vec![(D, node("d", None, vec![A, B, B]))],
    );
    assert_eq!(doc.find_fault(), Some(Fault::MissingChild(D, A)));
    let doc = document(
        vec![A],
        vec![
            (A, node("a", None, vec![B, B, C])),
            (B, node("b", Some(A), vec![])),
        ],
    );
    assert_eq!(doc.find_fault(), Some(Fault::DuplicateChild(A, B)));
}

#[test]
fn a_document_is_written_with_its_four_members() {
    let mut layout = Layout::new();
    layout.add_root_widget(A, WidgetConfig::new("text").with_style("color", "red"));
    layout.add_child_widget(A, B, WidgetConfig::new("text")).unwrap();
    let text_a = "00000000-0000-0000-0000-00000000000a".to_string();
    let text_b = "00000000-0000-0000-0000-00000000000b".to_string();
    let config = |styles: Vec<(String, JsonValue)>| {
        JsonValue::Object(vec![
            ("widget_type".to_string(), JsonValue::text("text")),
            ("properties".to_string(), JsonValue::Object(vec![])),
            ("css_classes".to_string(), JsonValue::Array(vec![])),
            ("inline_styles".to_string(), JsonValue::Object(styles)),
        ])
    };
    let node_a = JsonValue::Object(vec![
        (
            "config".to_string(),
            config(vec![("color".to_string(), JsonValue::text("red"))]),
        ),
        (
            "children".to_string(),
            JsonValue::Array(vec![JsonValue::text(&text_b)]),
        ),
        ("parent".to_string(), JsonValue::Null),
        ("metadata".to_string(), JsonValue::Object(vec![])),
    ]);
    let node_b = JsonValue::Object(vec![
        ("config".to_string(), config(vec![])),
        ("children".to_string(), JsonValue::Array(vec![])),
        ("parent".to_string(), JsonValue::text(&text_a)),
        ("metadata".to_string(), JsonValue::Object(vec![])),
    ]);
    assert_eq!(layout.get_widget(&A).unwrap().to_json_value(), node_a);
    assert_eq!(layout.get_widget(&B).unwrap().to_json_value(), node_b);
    let written = layout.to_json_value();
    let with_nodes = |nodes: Vec<(String, JsonValue)>| {
        JsonValue::Object(vec![
            ("version".to_string(), JsonValue::text("1.0")),
            (
                "root_nodes".to_string(),
                JsonValue::Array(vec![JsonValue::text(&text_a)]),
            ),
            ("nodes".to_string(), JsonValue::Object(nodes)),
            ("metadata".to_string(), JsonValue::Object(vec![])),
        ])
    };
    let one = with_nodes(vec![
        (text_a.clone(), node_a.clone()),
        (text_b.clone(), node_b.clone()),
    ]);
    let other = with_nodes(vec![(text_b.clone(), node_b), (text_a.clone(), node_a)]);
    assert!(written == one || written == other);
    assert!(layout.to_json().is_ok());
    assert!(layout.to_json_pretty().is_ok());
}
