use yew_wysiwyg::theme::{DefaultTheme, Theme, ThemeConfig};
use yew_wysiwyg::widget::{class_text, style_text, Widget};
use yew_wysiwyg::widgets::basic::{Button, Divider, Spacer, TextArea};
use yew_wysiwyg::widgets::container::{ColumnContainer, RowContainer};
use yew_wysiwyg::widgets::text::{HeadingWidget, ParagraphBody, ParagraphWidget};
use yew_wysiwyg::{JsonValue, StrMap, WidgetConfig};

#[test]
fn styles_are_written_as_declarations() {
    let config = RowContainer.default_config();
    assert_eq!(
        config.style_text(),
        "display: flex; flex-direction: row; gap: var(--wysiwyg-spacing, 8px);"
    );
    assert_eq!(WidgetConfig::new("text").style_text(), "");
    assert_eq!(
        WidgetConfig::new("text")
            .with_style("color", "red")
            .style_text(),
        "color: red;"
    );
    let empty: StrMap<String> = StrMap::new();
    assert_eq!(style_text(&empty), "");
}

#[test]
fn classes_are_joined_by_spaces() {
    let config = WidgetConfig::new("text")
        .with_class("a")
        .with_class("b")
        .with_class("c");
    assert_eq!(config.class_text(), "a b c");
    assert_eq!(WidgetConfig::new("text").class_text(), "");
    assert_eq!(class_text(&vec!["only".to_string()]), "only");
}

#[test]
fn theme_variables_are_written_as_declarations() {
    let theme = ThemeConfig::new("t")
        .with_variable("--a", "1px")
        .with_variable("--b", "2px");
    assert_eq!(theme.variables_text(), "--a: 1px; --b: 2px;");
    assert_eq!(
        DefaultTheme::new().config().variables_text(),
        "--wysiwyg-primary: #3b82f6; --wysiwyg-secondary: #64748b; --wysiwyg-background: #ffffff; --wysiwyg-text: #1e293b; --wysiwyg-border: #e2e8f0; --wysiwyg-border-radius: 4px; --wysiwyg-spacing: 8px;"
    );
}

#[test]
fn properties_are_read_with_defaults() {
    let config = WidgetConfig::new("x")
        .with_property("text", JsonValue::text("hello"))
        .with_property("flag", JsonValue::Bool(true))
        .with_property("count", JsonValue::unsigned(3));
    assert_eq!(config.text_or("text", "none"), "hello");
    assert_eq!(config.text_or("flag", "none"), "none");
    assert_eq!(config.text_or("missing", "none"), "none");
    assert!(config.flag_or("flag", false));
    assert!(!config.flag_or("text", false));
    assert!(config.flag_or("missing", true));
    assert_eq!(JsonValue::unsigned(3).as_str(), None);
    assert_eq!(JsonValue::text("a").as_str(), Some("a"));
    assert_eq!(JsonValue::Bool(true).as_bool(), Some(true));
    assert_eq!(JsonValue::Null.as_bool(), None);
}

#[test]
fn a_paragraph_shows_text_or_markdown() {
    let plain = ParagraphWidget.default_config();
    assert_eq!(
        ParagraphWidget::body(&plain),
        ParagraphBody::Plain(
            "This is a paragraph of text. You can edit it in the configuration panel.".to_string()
        )
    );
    assert_eq!(
        ParagraphWidget::body(&WidgetConfig::new("text.paragraph")),
        ParagraphBody::Plain("Paragraph text".to_string())
    );
    let marked = WidgetConfig::new("text.paragraph")
        .with_property("content", JsonValue::text("some **bold** text"))
        .with_property("markdown", JsonValue::Bool(true));
    assert_eq!(
        ParagraphWidget::body(&marked),
        ParagraphBody::Markup("<p>some <strong>bold</strong> text</p>\n".to_string())
    );
}

#[test]
fn button_variants_have_their_colours() {
    let with = |variant: &str| {
        WidgetConfig::new("basic.button").with_property("variant", JsonValue::text(variant))
    };
    assert_eq!(Button::background(&with("primary")), "#3b82f6");
    assert_eq!(Button::background(&with("secondary")), "#6b7280");
    assert_eq!(Button::background(&with("success")), "#10b981");
    assert_eq!(Button::background(&with("danger")), "#ef4444");
    assert_eq!(Button::background(&with("other")), "#3b82f6");
    assert_eq!(
        Button::background(&WidgetConfig::new("basic.button")),
        "#3b82f6"
    );
}

#[test]
fn numbers_are_read_out_of_properties() {
    assert_eq!(JsonValue::unsigned(3).as_u64(), Some(3));
    assert_eq!(JsonValue::unsigned(3).as_i64(), Some(3));
    assert_eq!(JsonValue::unsigned(u64::MAX).as_u64(), Some(u64::MAX));
    assert_eq!(JsonValue::unsigned(u64::MAX).as_i64(), None);
    assert_eq!(
        JsonValue::Number(serde_json::Number::from(-4)).as_i64(),
        Some(-4)
    );
    assert_eq!(JsonValue::Number(serde_json::Number::from(-4)).as_u64(), None);
    assert_eq!(JsonValue::text("3").as_u64(), None);
    assert_eq!(JsonValue::Null.as_i64(), None);

    let config = WidgetConfig::new("x")
        .with_property("n", JsonValue::unsigned(9))
        .with_property("m", JsonValue::Number(serde_json::Number::from(-2)))
        .with_property("s", JsonValue::text("9"));
    assert_eq!(config.unsigned_or("n", 1), 9);
    assert_eq!(config.unsigned_or("m", 1), 1);
    assert_eq!(config.unsigned_or("s", 1), 1);
    assert_eq!(config.unsigned_or("none", 1), 1);
    assert_eq!(config.signed_or("n", 1), 9);
    assert_eq!(config.signed_or("m", 1), -2);
    assert_eq!(config.signed_or("none", 5), 5);
}

#[test]
fn heading_levels_stay_between_one_and_six() {
    let with = |level: i64| {
        WidgetConfig::new("text.heading").with_property(
            "level",
            JsonValue::Number(serde_json::Number::from(level)),
        )
    };
    assert_eq!(HeadingWidget::level(&WidgetConfig::new("text.heading")), 1);
    assert_eq!(HeadingWidget::level(&with(1)), 1);
    assert_eq!(HeadingWidget::level(&with(3)), 3);
    assert_eq!(HeadingWidget::level(&with(6)), 6);
    assert_eq!(HeadingWidget::level(&with(7)), 6);
    assert_eq!(HeadingWidget::level(&with(0)), 1);
    assert_eq!(HeadingWidget::level(&with(-9)), 1);
    assert_eq!(HeadingWidget::level(&HeadingWidget.default_config()), 1);
}

#[test]
fn spacer_height_and_text_area_rows_have_defaults() {
    assert_eq!(Spacer::height(&Spacer.default_config()), 20);
    assert_eq!(Spacer::height(&WidgetConfig::new("layout.spacer")), 20);
    assert_eq!(
        Spacer::height(
            &WidgetConfig::new("layout.spacer").with_property("height", JsonValue::unsigned(64))
        ),
        64
    );
    assert_eq!(TextArea::rows(&TextArea.default_config()), 4);
    assert_eq!(
        TextArea::rows(
            &WidgetConfig::new("form.textarea").with_property("rows", JsonValue::unsigned(9))
        ),
        9
    );
}

#[test]
fn pixels_are_read_from_styles() {
    let with = |gap: &str| WidgetConfig::new("container.row").with_style("gap", gap);
    assert_eq!(with("12px").pixels_or("gap", 8), 12);
    assert_eq!(with("0px").pixels_or("gap", 8), 0);
    assert_eq!(with("-3px").pixels_or("gap", 8), -3);
    assert_eq!(with("+4px").pixels_or("gap", 8), 4);
    assert_eq!(with("007px").pixels_or("gap", 8), 7);
    assert_eq!(with("2147483647px").pixels_or("gap", 8), 2147483647);
    assert_eq!(with("-2147483648px").pixels_or("gap", 8), -2147483648);
    assert_eq!(with("2147483648px").pixels_or("gap", 8), 8);
    assert_eq!(with("px").pixels_or("gap", 8), 8);
    assert_eq!(with("-px").pixels_or("gap", 8), 8);
    assert_eq!(with("12").pixels_or("gap", 8), 8);
    assert_eq!(with("12 px").pixels_or("gap", 8), 8);
    assert_eq!(with(" 12px").pixels_or("gap", 8), 8);
    assert_eq!(with("1_0px").pixels_or("gap", 8), 8);
    assert_eq!(with("12pxpx").pixels_or("gap", 8), 8);
    assert_eq!(with("1.5px").pixels_or("gap", 8), 8);
    assert_eq!(with("").pixels_or("gap", 8), 8);
    assert_eq!(WidgetConfig::new("x").pixels_or("gap", 8), 8);

    assert_eq!(RowContainer::gap(&RowContainer.default_config()), 8);
    assert_eq!(RowContainer::gap(&with("24px")), 24);
    assert_eq!(ColumnContainer::gap(&with("3px")), 3);
    assert_eq!(ColumnContainer::gap(&WidgetConfig::new("container.column")), 8);
}

#[test]
fn pixels_are_written_to_styles() {
    let config = WidgetConfig::new("container.row").with_style("gap", "8px");
    let changed = config.with_pixels("gap", "16");
    assert_eq!(
        changed.inline_styles.get("gap").map(|s| s.as_str()),
        Some("16px")
    );
    assert_eq!(changed.inline_styles.len(), 1);
    assert_eq!(RowContainer::gap(&changed), 16);
    assert_eq!(
        config
            .with_pixels("gap", "")
            .inline_styles
            .get("gap")
            .map(|s| s.as_str()),
        Some("px")
    );
    assert_eq!(
        config.inline_styles.get("gap").map(|s| s.as_str()),
        Some("8px")
    );
}

#[test]
fn integers_are_read_from_the_text_of_a_property() {
    let with = |text: &str| WidgetConfig::new("basic.divider").with_property("thickness", JsonValue::text(text));
    assert_eq!(Divider::thickness(&Divider.default_config()), 1);
    assert_eq!(Divider::thickness(&with("7")), 7);
    assert_eq!(Divider::thickness(&with("-7")), -7);
    assert_eq!(Divider::thickness(&with("seven")), 1);
    assert_eq!(Divider::thickness(&with("")), 1);
    assert_eq!(Divider::thickness(&WidgetConfig::new("basic.divider")), 1);
    assert_eq!(
        WidgetConfig::new("x")
            .with_property("n", JsonValue::unsigned(5))
            .integer_text_or("n", 2),
        2
    );
}

#[test]
fn numbers_typed_into_a_form_are_set_as_properties() {
    let config = WidgetConfig::new("form.textarea").with_property("rows", JsonValue::unsigned(4));
    let changed = config.with_unsigned("rows", "12").unwrap();
    assert_eq!(TextArea::rows(&changed), 12);
    assert_eq!(changed.get_property("rows"), Some(&JsonValue::unsigned(12)));
    assert_eq!(TextArea::rows(&config), 4);
    assert_eq!(
        config.with_unsigned("rows", "+3").unwrap().get_property("rows"),
        Some(&JsonValue::unsigned(3))
    );
    assert_eq!(
        config
            .with_unsigned("rows", "18446744073709551615")
            .unwrap()
            .get_property("rows"),
        Some(&JsonValue::unsigned(u64::MAX))
    );
    assert!(config.with_unsigned("rows", "18446744073709551616").is_none());
    assert!(config.with_unsigned("rows", "-1").is_none());
    assert!(config.with_unsigned("rows", "").is_none());
    assert!(config.with_unsigned("rows", "+").is_none());
    assert!(config.with_unsigned("rows", "1.0").is_none());
    assert!(config.with_unsigned("rows", " 1").is_none());

    let heading = WidgetConfig::new("text.heading");
    assert_eq!(
        HeadingWidget::level(&heading.with_signed("level", "3").unwrap()),
        3
    );
    assert_eq!(
        heading.with_signed("level", "-2").unwrap().get_property("level"),
        Some(&JsonValue::signed(-2))
    );
    assert_eq!(
        heading.with_signed("level", "4").unwrap().get_property("level"),
        Some(&JsonValue::unsigned(4))
    );
    assert_eq!(
        heading
            .with_signed("level", "-9223372036854775808")
            .unwrap()
            .signed_or("level", 0),
        i64::MIN
    );
    assert!(heading.with_signed("level", "9223372036854775808").is_none());
    assert!(heading.with_signed("level", "h1").is_none());
    assert_eq!(JsonValue::signed(-5).as_i64(), Some(-5));
    assert_eq!(JsonValue::signed(-5).as_u64(), None);
    assert_eq!(JsonValue::signed(5), JsonValue::unsigned(5));
}
