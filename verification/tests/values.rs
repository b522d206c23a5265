use yew_wysiwyg::json::JsonValue;
use yew_wysiwyg::{Error, Layout, LayoutNode, StrMap, WidgetConfig, WidgetId};

#[test]
fn config_builders_set_each_field() {
    let config = WidgetConfig::new("basic.button")
        .with_property("text", JsonValue::String("Click me".to_string()))
        .with_property("text", JsonValue::String("Again".to_string()))
        .with_class("primary")
        .with_class("wide")
        .with_style("padding", "8px 16px")
        .with_style("padding", "4px");
    assert_eq!(config.widget_type, "basic.button");
    assert_eq!(config.properties.len(), 1);
    assert_eq!(
        config.get_property("text"),
        Some(&JsonValue::String("Again".to_string()))
    );
    assert_eq!(config.get_property("variant"), None);
    assert_eq!(
        config.css_classes,
        vec!["primary".to_string(), "wide".to_string()]
    );
    assert_eq!(config.inline_styles.len(), 1);
    assert_eq!(
        config.inline_styles.get("padding").map(|s| s.as_str()),
        Some("4px")
    );

    let mut config = WidgetConfig::new("text");
    assert!(config.properties.is_empty());
    assert!(config.css_classes.is_empty());
    assert!(config.inline_styles.is_empty());
    config.set_property("bold", JsonValue::Bool(true));
    assert_eq!(config.get_property("bold"), Some(&JsonValue::Bool(true)));
    let copy = config.clone();
    assert_eq!(copy, config);
}

#[test]
fn str_map_is_a_map_with_last_write_wins() {
    let mut map: StrMap<String> = StrMap::new();
    assert!(map.is_empty());
    assert_eq!(map.insert("a".to_string(), "1".to_string()), None);
    assert_eq!(map.insert("b".to_string(), "2".to_string()), None);
    assert_eq!(
        map.insert("a".to_string(), "3".to_string()),
        Some("1".to_string())
    );
    assert_eq!(map.len(), 2);
    assert!(map.contains_key("a"));
    assert!(!map.contains_key("c"));
    assert_eq!(map.get("a").map(|s| s.as_str()), Some("3"));
    assert_eq!(map.key_at(0), "a");
    assert_eq!(map.value_at(0), "3");
    assert_eq!(map.key_at(1), "b");
    assert_eq!(map.remove("a"), Some("3".to_string()));
    assert_eq!(map.remove("a"), None);
    assert_eq!(map.len(), 1);
    assert_eq!(map.key_at(0), "b");
    let copy = map.clone();
    assert_eq!(copy, map);
}

#[test]
fn error_messages_have_heading_and_detail() {
    let cases = vec![
        (
            Error::WidgetNotFound("abc".to_string()),
            "Widget not found: abc",
        ),
        (
            Error::SerializationError("abc".to_string()),
            "Serialization error: abc",
        ),
        (
            Error::DeserializationError("abc".to_string()),
            "Deserialization error: abc",
        ),
        (
            Error::InvalidConfig("abc".to_string()),
            "Invalid widget configuration: abc",
        ),
        (Error::ThemeError("abc".to_string()), "Theme error: abc"),
        (
            Error::InvalidOperation("abc".to_string()),
            "Invalid operation: abc",
        ),
    ];
    for (error, message) in cases {
        assert_eq!(error.message(), message);
        assert_eq!(error.detail(), "abc");
        assert_eq!(error.clone(), error);
    }
}

#[test]
fn json_values_of_every_kind_survive_a_round_trip() {
    let id: WidgetId = 7;
    let nested = JsonValue::Object(vec![
        ("a".to_string(), JsonValue::Null),
        ("b".to_string(), JsonValue::Bool(false)),
        (
            "c".to_string(),
            JsonValue::Number(serde_json::Number::from(42)),
        ),
        (
            "d".to_string(),
            JsonValue::Array(vec![
                JsonValue::String("x".to_string()),
                JsonValue::Number(serde_json::Number::from(-3)),
                JsonValue::Array(vec![]),
            ]),
        ),
    ]);
    assert_eq!(nested.clone(), nested);
    let mut layout = Layout::new();
    layout.add_root_widget(
        id,
        WidgetConfig::new("text").with_property("data", nested.clone()),
    );
    let json = layout.to_json().unwrap();
    assert!(json.contains(r#""data":{"a":null,"b":false,"c":42,"d":["x",-3,[]]}"#));
    let loaded = Layout::from_json(&json).unwrap();
    assert_eq!(
        loaded.get_widget(&id).unwrap().config.get_property("data"),
        Some(&nested)
    );
}

#[test]
fn ids_are_read_in_every_format_that_uuid_reads() {
    let body = r#"{"config":{"widget_type":"t","properties":{},"css_classes":[],"inline_styles":{}},"children":[],"metadata":{}}"#;
    let json = format!(
        r#"{{"version":"1.0","root_nodes":["A1A2A3A4B1B2C1C2D1D2D3D4D5D6D7D8"],"nodes":{{"a1a2a3a4-b1b2-c1c2-d1d2-d3d4d5d6d7d8":{}}},"metadata":{{}}}}"#,
        body
    );
    let layout = Layout::from_json(&json).unwrap();
    let id: WidgetId = 0xa1a2a3a4_b1b2_c1c2_d1d2_d3d4d5d6d7d8;
    assert_eq!(layout.root_widgets(), &vec![id]);
    assert_eq!(layout.get_widget(&id).unwrap().parent, None);

    let bad = r#"{"version":"1.0","root_nodes":["not-an-id"],"nodes":{},"metadata":{}}"#;
    match Layout::from_json(bad) {
        Err(Error::DeserializationError(detail)) => {
            assert_eq!(detail, "invalid widget id `not-an-id`")
        }
        other => panic!("unexpected: {:?}", other.map(|_| ())),
    }
}

#[test]
fn nodes_and_configs_are_read_from_json_values() {
    let value = JsonValue::Object(vec![
        (
            "config".to_string(),
            WidgetConfig::new("text")
                .with_style("color", "red")
                .to_json_value(),
        ),
        (
            "children".to_string(),
            JsonValue::Array(vec![JsonValue::String(
                "00000000-0000-0000-0000-000000000002".to_string(),
            )]),
        ),
        (
            "parent".to_string(),
            JsonValue::String("00000000-0000-0000-0000-000000000001".to_string()),
        ),
        ("metadata".to_string(), JsonValue::Object(vec![])),
    ]);
    let node = LayoutNode::from_json_value(&value).unwrap();
    assert_eq!(node.children, vec![2]);
    assert_eq!(node.parent, Some(1));
    assert_eq!(
        node.config.inline_styles.get("color").map(|s| s.as_str()),
        Some("red")
    );
    assert_eq!(LayoutNode::from_json_value(&node.to_json_value()).unwrap(), node);

    assert_eq!(
        LayoutNode::from_json_value(&JsonValue::Null),
        Err("expected a JSON object for node".to_string())
    );
    assert_eq!(
        LayoutNode::from_json_value(&JsonValue::Object(vec![])),
        Err("missing field `config`".to_string())
    );
    assert_eq!(
        WidgetConfig::from_json_value(&JsonValue::Bool(true)),
        Err("expected a JSON object for config".to_string())
    );
    assert_eq!(
        WidgetConfig::from_json_value(&JsonValue::Object(vec![(
            "widget_type".to_string(),
            JsonValue::String("t".to_string())
        )])),
        Err("missing field `properties`".to_string())
    );
    let styles = JsonValue::Object(vec![
        ("widget_type".to_string(), JsonValue::String("t".to_string())),
        ("properties".to_string(), JsonValue::Object(vec![])),
        (
            "css_classes".to_string(),
            JsonValue::Array(vec![JsonValue::Bool(true)]),
        ),
        ("inline_styles".to_string(), JsonValue::Object(vec![])),
    ]);
    assert_eq!(
        WidgetConfig::from_json_value(&styles),
        Err("invalid type for field `css_classes`".to_string())
    );
}

#[test]
fn the_last_of_two_members_of_one_name_counts() {
    let value = JsonValue::Object(vec![
        ("widget_type".to_string(), JsonValue::String("first".to_string())),
        ("properties".to_string(), JsonValue::Object(vec![])),
        ("css_classes".to_string(), JsonValue::Array(vec![])),
        ("inline_styles".to_string(), JsonValue::Object(vec![])),
        ("widget_type".to_string(), JsonValue::String("second".to_string())),
    ]);
    assert_eq!(
        WidgetConfig::from_json_value(&value).unwrap().widget_type,
        "second"
    );
}

#[test]
fn maps_are_equal_whatever_the_order_of_their_entries() {
    let mut one: StrMap<String> = StrMap::new();
    one.insert("a".to_string(), "1".to_string());
    one.insert("b".to_string(), "2".to_string());
    let mut other: StrMap<String> = StrMap::new();
    other.insert("b".to_string(), "2".to_string());
    other.insert("a".to_string(), "1".to_string());
    assert_eq!(one, other);
    other.insert("a".to_string(), "3".to_string());
    assert_ne!(one, other);
    other.insert("a".to_string(), "1".to_string());
    other.insert("c".to_string(), "1".to_string());
    assert_ne!(one, other);
    assert_ne!(other, one);

    let left = WidgetConfig::new("t")
        .with_style("color", "red")
        .with_style("margin", "0")
        .with_property("x", JsonValue::Bool(true))
        .with_property("y", JsonValue::Null);
    let right = WidgetConfig::new("t")
        .with_property("y", JsonValue::Null)
        .with_property("x", JsonValue::Bool(true))
        .with_style("margin", "0")
        .with_style("color", "red");
    assert_eq!(left, right);
    assert_ne!(left, right.clone().with_class("c"));
}

#[test]
fn a_layout_equals_what_is_loaded_from_its_text() {
    let mut layout = Layout::new();
    layout.add_root_widget(
        1,
        WidgetConfig::new("container.row")
            .with_style("gap", "8px")
            .with_style("display", "flex")
            .with_property("zeta", JsonValue::text("z"))
            .with_property("alpha", JsonValue::unsigned(7)),
    );
    layout
        .add_child_widget(1, 2, WidgetConfig::new("text"))
        .unwrap();
    let loaded = Layout::from_json(&layout.to_json().unwrap()).unwrap();
    assert_eq!(loaded, layout);
    let loaded = Layout::from_json(&layout.to_json_pretty().unwrap()).unwrap();
    assert_eq!(loaded, layout);
}
