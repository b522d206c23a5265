use yew_wysiwyg::registry::{WidgetInfo, WidgetRegistry};
use yew_wysiwyg::widget::Widget;
use yew_wysiwyg::widgets::basic::{
    Button, Checkbox, Divider, Image, Link, Spacer, TextArea, TextInput,
};
use yew_wysiwyg::widgets::container::{Card, ColumnContainer, GridContainer, RowContainer};
use yew_wysiwyg::widgets::text::{HeadingWidget, ParagraphWidget, TextWidget};
use yew_wysiwyg::{Error, JsonValue, WidgetConfig};

#[test]
fn registry_keeps_types_in_the_order_of_registration() {
    let mut registry = WidgetRegistry::new();
    assert!(registry.is_empty());
    assert_eq!(registry.len(), 0);
    registry.register(WidgetInfo::new("zebra")).unwrap();
    registry.register(Button::factory()).unwrap();
    registry.register(WidgetInfo::new("apple")).unwrap();
    assert_eq!(registry.len(), 3);
    assert!(!registry.is_empty());
    assert_eq!(
        registry.widget_types(),
        vec![
            "zebra".to_string(),
            "basic.button".to_string(),
            "apple".to_string()
        ]
    );
    assert!(registry.has_widget("apple"));
    assert!(!registry.has_widget("pear"));
}

#[test]
fn a_type_is_registered_once() {
    let mut registry = WidgetRegistry::new();
    registry.register(Button::factory()).unwrap();
    let mut other = WidgetInfo::new("basic.button");
    other.display_name = "Other".to_string();
    match registry.register(other) {
        Err(Error::InvalidOperation(detail)) => {
            assert_eq!(detail, "Widget type 'basic.button' is already registered")
        }
        other => panic!("unexpected: {:?}", other),
    }
    assert_eq!(registry.len(), 1);
    assert_eq!(
        registry.create_widget("basic.button").unwrap().display_name,
        "Button"
    );
}

#[test]
fn create_widget_finds_what_is_registered() {
    let registry = WidgetRegistry::with_standard_widgets();
    let info = registry.create_widget("container.card").unwrap();
    assert_eq!(info.widget_type, "container.card");
    assert_eq!(info.display_name, "Card");
    assert!(info.can_have_children);
    match registry.create_widget("no.such.type") {
        Err(Error::WidgetNotFound(detail)) => assert_eq!(detail, "no.such.type"),
        other => panic!("unexpected: {:?}", other.map(|_| ())),
    }
}

#[test]
fn the_standard_registry_offers_fifteen_types_in_palette_order() {
    let registry = WidgetRegistry::with_standard_widgets();
    assert_eq!(registry.len(), 15);
    assert_eq!(
        registry.widget_types(),
        vec![
            "container.row",
            "container.column",
            "container.grid",
            "container.card",
            "layout.spacer",
            "text.heading",
            "text.paragraph",
            "text",
            "basic.button",
            "basic.link",
            "basic.image",
            "form.textinput",
            "form.textarea",
            "form.checkbox",
            "basic.divider",
        ]
    );
    let copy = registry.clone();
    assert!(copy.same_types(&registry));
    assert!(!copy.same_types(&WidgetRegistry::new()));
    let mut other = WidgetRegistry::new();
    for widget_type in registry.widget_types().iter().rev() {
        other.register(WidgetInfo::new(widget_type)).unwrap();
    }
    assert!(other.same_types(&registry));
    assert!(WidgetRegistry::default().is_empty());
}

#[test]
fn only_containers_cards_and_links_take_children() {
    assert!(RowContainer.can_have_children());
    assert!(ColumnContainer.can_have_children());
    assert!(GridContainer.can_have_children());
    assert!(Card.can_have_children());
    assert!(Link.can_have_children());
    assert!(!Button.can_have_children());
    assert!(!Image.can_have_children());
    assert!(!Divider.can_have_children());
    assert!(!TextInput.can_have_children());
    assert!(!TextArea.can_have_children());
    assert!(!Checkbox.can_have_children());
    assert!(!Spacer.can_have_children());
    assert!(!TextWidget.can_have_children());
    assert!(!HeadingWidget.can_have_children());
    assert!(!ParagraphWidget.can_have_children());
}

#[test]
fn standard_widgets_describe_themselves() {
    assert_eq!(Button.widget_type(), "basic.button");
    assert_eq!(Button.display_name(), "Button");
    assert_eq!(Button.description(), "A clickable button");
    assert!(Button.validate_config(&WidgetConfig::new("anything")).is_ok());
    let info = TextInput::factory();
    assert_eq!(info.widget_type, "form.textinput");
    assert_eq!(info.display_name, "Text Input");
    assert_eq!(info.description, "Single-line text input field");
    assert!(!info.can_have_children);
    assert_eq!(info.clone(), info);
    let plain = WidgetInfo::new("custom");
    assert_eq!(plain.display_name, "custom");
    assert_eq!(plain.description, "");
    assert!(!plain.can_have_children);
    assert_eq!(plain.default_config, WidgetConfig::new("custom"));
}

#[test]
fn default_configs_hold_the_starting_values() {
    let button = Button.default_config();
    assert_eq!(button.widget_type, "basic.button");
    assert_eq!(
        button.get_property("text"),
        Some(&JsonValue::String("Click me".to_string()))
    );
    assert_eq!(
        button.get_property("variant"),
        Some(&JsonValue::String("primary".to_string()))
    );
    assert_eq!(button.inline_styles.len(), 6);
    assert_eq!(
        button.inline_styles.get("padding").map(|s| s.as_str()),
        Some("8px 16px")
    );
    assert_eq!(
        button.inline_styles.get("font-weight").map(|s| s.as_str()),
        Some("500")
    );

    let area = TextArea.default_config();
    assert_eq!(
        area.get_property("rows"),
        Some(&JsonValue::Number(serde_json::Number::from(4)))
    );
    assert_eq!(area.inline_styles.len(), 7);
    let spacer = Spacer.default_config();
    assert_eq!(
        spacer.get_property("height"),
        Some(&JsonValue::Number(serde_json::Number::from(20)))
    );
    let heading = HeadingWidget.default_config();
    assert_eq!(
        heading.get_property("level"),
        Some(&JsonValue::unsigned(1))
    );
    assert_eq!(
        heading.get_property("content").and_then(|v| v.as_str()),
        Some("Heading")
    );
    let checkbox = Checkbox.default_config();
    assert_eq!(
        checkbox.get_property("checked").and_then(|v| v.as_bool()),
        Some(false)
    );
    assert_eq!(checkbox.get_property("label").and_then(|v| v.as_bool()), None);
    let row = RowContainer.default_config();
    assert!(row.properties.is_empty());
    assert_eq!(
        row.inline_styles.get("gap").map(|s| s.as_str()),
        Some("var(--wysiwyg-spacing, 8px)")
    );
    assert_eq!(row.inline_styles.key_at(0), "display");
    assert_eq!(row.inline_styles.key_at(1), "flex-direction");
    let grid = GridContainer.default_config();
    assert_eq!(
        grid.inline_styles
            .get("grid-template-columns")
            .map(|s| s.as_str()),
        Some("repeat(auto-fit, minmax(200px, 1fr))")
    );
    let card = Card.default_config();
    assert_eq!(
        card.get_property("title"),
        Some(&JsonValue::text(""))
    );
    let paragraph = ParagraphWidget.default_config();
    assert_eq!(
        paragraph.get_property("content").and_then(|v| v.as_str()),
        Some("This is a paragraph of text. You can edit it in the configuration panel.")
    );
    assert_eq!(
        Image.default_config().get_property("alt"),
        Some(&JsonValue::text("Placeholder image"))
    );
    assert_eq!(
        Link.default_config().get_property("target"),
        Some(&JsonValue::text("_self"))
    );
    assert_eq!(
        Divider.default_config().get_property("thickness"),
        Some(&JsonValue::text("1"))
    );
    assert_eq!(
        TextInput.default_config().get_property("type"),
        Some(&JsonValue::text("text"))
    );
    assert_eq!(
        TextWidget.default_config().get_property("bold"),
        Some(&JsonValue::Bool(false))
    );
    assert_eq!(ColumnContainer.default_config().inline_styles.len(), 3);
}

struct Badge;

impl Widget for Badge {
    fn widget_type(&self) -> &'static str {
        "custom.badge"
    }
}

#[test]
fn a_widget_that_says_only_its_type_has_the_defaults() {
    assert_eq!(Badge.display_name(), "custom.badge");
    assert_eq!(Badge.description(), "");
    assert!(!Badge.can_have_children());
    assert_eq!(Badge.default_config(), WidgetConfig::new("custom.badge"));
    assert!(Badge.validate_config(&WidgetConfig::new("other")).is_ok());
}
