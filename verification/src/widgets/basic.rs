//! Interactive, form and spacing widgets.

use crate::error::Error;
use crate::json::{number_of, JsonValue, JsonView};
use crate::registry::{WidgetInfo, WidgetInfoView};
use crate::widget::{ConfigView, Widget, WidgetConfig};
use vstd::prelude::*;

verus! {

/// Button widget
#[derive(Debug, Default, Clone, Copy, PartialEq, Eq)]
pub struct Button;

impl Button {
    /// The configuration that a new widget of this type starts with.
    pub open spec fn starting_config() -> ConfigView {
        ConfigView::empty("basic.button"@)
            .property("text"@, JsonView::String("Click me"@))
            .property("variant"@, JsonView::String("primary"@))
            .style("padding"@, "8px 16px"@)
            .style("border"@, "none"@)
            .style("border-radius"@, "4px"@)
            .style("cursor"@, "pointer"@)
            .style("font-size"@, "14px"@)
            .style("font-weight"@, "500"@)
    }

    /// What the registry holds of this type.
    pub open spec fn info() -> WidgetInfoView {
        WidgetInfoView {
            widget_type: "basic.button"@,
            display_name: "Button"@,
            description: "A clickable button"@,
            can_have_children: false,
            default_config: Self::starting_config(),
        }
    }

    /// What the registry holds of this type.
    pub fn factory() -> (r: WidgetInfo)
        ensures
            r@ == Self::info(),
    {
        let widget = Button;
        WidgetInfo {
            widget_type: widget.widget_type().to_owned(),
            display_name: widget.display_name().to_owned(),
            description: widget.description().to_owned(),
            can_have_children: widget.can_have_children(),
            default_config: widget.default_config(),
        }
    }
}

impl Widget for Button {
    fn widget_type(&self) -> (r: &'static str)
        ensures
            r@ == "basic.button"@,
    {
        "basic.button"
    }

    fn display_name(&self) -> (r: &'static str)
        ensures
            r@ == "Button"@,
    {
        "Button"
    }

    fn description(&self) -> (r: &'static str)
        ensures
            r@ == "A clickable button"@,
    {
        "A clickable button"
    }

    fn validate_config(&self, config: &WidgetConfig) -> (r: Result<(), Error>)
        ensures
            r is Ok,
    {
        Ok(())
    }

    fn can_have_children(&self) -> (r: bool)
        ensures
            !r,
    {
        false
    }

    fn default_config(&self) -> (r: WidgetConfig)
        ensures
            r@ == Self::starting_config(),
    {
        WidgetConfig::new(self.widget_type())
            .with_property("text", JsonValue::text("Click me"))
            .with_property("variant", JsonValue::text("primary"))
            .with_style("padding", "8px 16px")
            .with_style("border", "none")
            .with_style("border-radius", "4px")
            .with_style("cursor", "pointer")
            .with_style("font-size", "14px")
            .with_style("font-weight", "500")
    }
}

/// Image widget
#[derive(Debug, Default, Clone, Copy, PartialEq, Eq)]
pub struct Image;

impl Image {
    /// The configuration that a new widget of this type starts with.
    pub open spec fn starting_config() -> ConfigView {
        ConfigView::empty("basic.image"@)
            .property("src"@, JsonView::String("https://via.placeholder.com/400x300"@))
            .property("alt"@, JsonView::String("Placeholder image"@))
            .style("max-width"@, "100%"@)
            .style("height"@, "auto"@)
            .style("display"@, "block"@)
    }

    /// What the registry holds of this type.
    pub open spec fn info() -> WidgetInfoView {
        WidgetInfoView {
            widget_type: "basic.image"@,
            display_name: "Image"@,
            description: "An image with configurable source and alt text"@,
            can_have_children: false,
            default_config: Self::starting_config(),
        }
    }

    /// What the registry holds of this type.
    pub fn factory() -> (r: WidgetInfo)
        ensures
            r@ == Self::info(),
    {
        let widget = Image;
        WidgetInfo {
            widget_type: widget.widget_type().to_owned(),
            display_name: widget.display_name().to_owned(),
            description: widget.description().to_owned(),
            can_have_children: widget.can_have_children(),
            default_config: widget.default_config(),
        }
    }
}

impl Widget for Image {
    fn widget_type(&self) -> (r: &'static str)
        ensures
            r@ == "basic.image"@,
    {
        "basic.image"
    }

    fn display_name(&self) -> (r: &'static str)
        ensures
            r@ == "Image"@,
    {
        "Image"
    }

    fn description(&self) -> (r: &'static str)
        ensures
            r@ == "An image with configurable source and alt text"@,
    {
        "An image with configurable source and alt text"
    }

    fn validate_config(&self, config: &WidgetConfig) -> (r: Result<(), Error>)
        ensures
            r is Ok,
    {
        Ok(())
    }

    fn can_have_children(&self) -> (r: bool)
        ensures
            !r,
    {
        false
    }

    fn default_config(&self) -> (r: WidgetConfig)
        ensures
            r@ == Self::starting_config(),
    {
        WidgetConfig::new(self.widget_type())
            .with_property("src", JsonValue::text("https://via.placeholder.com/400x300"))
            .with_property("alt", JsonValue::text("Placeholder image"))
            .with_style("max-width", "100%")
            .with_style("height", "auto")
            .with_style("display", "block")
    }
}

/// Link widget - a link that takes children
#[derive(Debug, Default, Clone, Copy, PartialEq, Eq)]
pub struct Link;

impl Link {
    /// The configuration that a new widget of this type starts with.
    pub open spec fn starting_config() -> ConfigView {
        ConfigView::empty("basic.link"@)
            .property("href"@, JsonView::String("https://example.com"@))
            .property("target"@, JsonView::String("_self"@))
            .style("color"@, "#3b82f6"@)
            .style("text-decoration"@, "none"@)
            .style("cursor"@, "pointer"@)
            .style("display"@, "inline-block"@)
    }

    /// What the registry holds of this type.
    pub open spec fn info() -> WidgetInfoView {
        WidgetInfoView {
            widget_type: "basic.link"@,
            display_name: "Link"@,
            description: "A clickable link container - put images, text, or any widget inside"@,
            can_have_children: true,
            default_config: Self::starting_config(),
        }
    }

    /// What the registry holds of this type.
    pub fn factory() -> (r: WidgetInfo)
        ensures
            r@ == Self::info(),
    {
        let widget = Link;
        WidgetInfo {
            widget_type: widget.widget_type().to_owned(),
            display_name: widget.display_name().to_owned(),
            description: widget.description().to_owned(),
            can_have_children: widget.can_have_children(),
            default_config: widget.default_config(),
        }
    }
}

impl Widget for Link {
    fn widget_type(&self) -> (r: &'static str)
        ensures
            r@ == "basic.link"@,
    {
        "basic.link"
    }

    fn display_name(&self) -> (r: &'static str)
        ensures
            r@ == "Link"@,
    {
        "Link"
    }

    fn description(&self) -> (r: &'static str)
        ensures
            r@ == "A clickable link container - put images, text, or any widget inside"@,
    {
        "A clickable link container - put images, text, or any widget inside"
    }

    fn validate_config(&self, config: &WidgetConfig) -> (r: Result<(), Error>)
        ensures
            r is Ok,
    {
        Ok(())
    }

    fn can_have_children(&self) -> (r: bool)
        ensures
            r,
    {
        true
    }

    fn default_config(&self) -> (r: WidgetConfig)
        ensures
            r@ == Self::starting_config(),
    {
        WidgetConfig::new(self.widget_type())
            .with_property("href", JsonValue::text("https://example.com"))
            .with_property("target", JsonValue::text("_self"))
            .with_style("color", "#3b82f6")
            .with_style("text-decoration", "none")
            .with_style("cursor", "pointer")
            .with_style("display", "inline-block")
    }
}

/// Divider widget
#[derive(Debug, Default, Clone, Copy, PartialEq, Eq)]
pub struct Divider;

impl Divider {
    /// The configuration that a new widget of this type starts with.
    pub open spec fn starting_config() -> ConfigView {
        ConfigView::empty("basic.divider"@)
            .property("thickness"@, JsonView::String("1"@))
            .property("color"@, JsonView::String("#e5e7eb"@))
            .style("margin"@, "16px 0"@)
    }

    /// What the registry holds of this type.
    pub open spec fn info() -> WidgetInfoView {
        WidgetInfoView {
            widget_type: "basic.divider"@,
            display_name: "Divider"@,
            description: "A horizontal line to separate content"@,
            can_have_children: false,
            default_config: Self::starting_config(),
        }
    }

    /// What the registry holds of this type.
    pub fn factory() -> (r: WidgetInfo)
        ensures
            r@ == Self::info(),
    {
        let widget = Divider;
        WidgetInfo {
            widget_type: widget.widget_type().to_owned(),
            display_name: widget.display_name().to_owned(),
            description: widget.description().to_owned(),
            can_have_children: widget.can_have_children(),
            default_config: widget.default_config(),
        }
    }
}

impl Widget for Divider {
    fn widget_type(&self) -> (r: &'static str)
        ensures
            r@ == "basic.divider"@,
    {
        "basic.divider"
    }

    fn display_name(&self) -> (r: &'static str)
        ensures
            r@ == "Divider"@,
    {
        "Divider"
    }

    fn description(&self) -> (r: &'static str)
        ensures
            r@ == "A horizontal line to separate content"@,
    {
        "A horizontal line to separate content"
    }

    fn validate_config(&self, config: &WidgetConfig) -> (r: Result<(), Error>)
        ensures
            r is Ok,
    {
        Ok(())
    }

    fn can_have_children(&self) -> (r: bool)
        ensures
            !r,
    {
        false
    }

    fn default_config(&self) -> (r: WidgetConfig)
        ensures
            r@ == Self::starting_config(),
    {
        WidgetConfig::new(self.widget_type())
            .with_property("thickness", JsonValue::text("1"))
            .with_property("color", JsonValue::text("#e5e7eb"))
            .with_style("margin", "16px 0")
    }
}

/// Text input widget
#[derive(Debug, Default, Clone, Copy, PartialEq, Eq)]
pub struct TextInput;

impl TextInput {
    /// The configuration that a new widget of this type starts with.
    pub open spec fn starting_config() -> ConfigView {
        ConfigView::empty("form.textinput"@)
            .property("placeholder"@, JsonView::String("Enter text..."@))
            .property("label"@, JsonView::String(""@))
            .property("type"@, JsonView::String("text"@))
            .style("width"@, "100%"@)
            .style("padding"@, "8px 12px"@)
            .style("border"@, "1px solid #d1d5db"@)
            .style("border-radius"@, "4px"@)
            .style("font-size"@, "14px"@)
    }

    /// What the registry holds of this type.
    pub open spec fn info() -> WidgetInfoView {
        WidgetInfoView {
            widget_type: "form.textinput"@,
            display_name: "Text Input"@,
            description: "Single-line text input field"@,
            can_have_children: false,
            default_config: Self::starting_config(),
        }
    }

    /// What the registry holds of this type.
    pub fn factory() -> (r: WidgetInfo)
        ensures
            r@ == Self::info(),
    {
        let widget = TextInput;
        WidgetInfo {
            widget_type: widget.widget_type().to_owned(),
            display_name: widget.display_name().to_owned(),
            description: widget.description().to_owned(),
            can_have_children: widget.can_have_children(),
            default_config: widget.default_config(),
        }
    }
}

impl Widget for TextInput {
    fn widget_type(&self) -> (r: &'static str)
        ensures
            r@ == "form.textinput"@,
    {
        "form.textinput"
    }

    fn display_name(&self) -> (r: &'static str)
        ensures
            r@ == "Text Input"@,
    {
        "Text Input"
    }

    fn description(&self) -> (r: &'static str)
        ensures
            r@ == "Single-line text input field"@,
    {
        "Single-line text input field"
    }

    fn validate_config(&self, config: &WidgetConfig) -> (r: Result<(), Error>)
        ensures
            r is Ok,
    {
        Ok(())
    }

    fn can_have_children(&self) -> (r: bool)
        ensures
            !r,
    {
        false
    }

    fn default_config(&self) -> (r: WidgetConfig)
        ensures
            r@ == Self::starting_config(),
    {
        WidgetConfig::new(self.widget_type())
            .with_property("placeholder", JsonValue::text("Enter text..."))
            .with_property("label", JsonValue::text(""))
            .with_property("type", JsonValue::text("text"))
            .with_style("width", "100%")
            .with_style("padding", "8px 12px")
            .with_style("border", "1px solid #d1d5db")
            .with_style("border-radius", "4px")
            .with_style("font-size", "14px")
    }
}

/// Text area widget
#[derive(Debug, Default, Clone, Copy, PartialEq, Eq)]
pub struct TextArea;

impl TextArea {
    /// The configuration that a new widget of this type starts with.
    pub open spec fn starting_config() -> ConfigView {
        ConfigView::empty("form.textarea"@)
            .property("placeholder"@, JsonView::String("Enter text..."@))
            .property("label"@, JsonView::String(""@))
            .property("rows"@, JsonView::Number(number_of(4)))
            .style("width"@, "100%"@)
            .style("padding"@, "8px 12px"@)
            .style("border"@, "1px solid #d1d5db"@)
            .style("border-radius"@, "4px"@)
            .style("font-size"@, "14px"@)
            .style("font-family"@, "inherit"@)
            .style("resize"@, "vertical"@)
    }

    /// What the registry holds of this type.
    pub open spec fn info() -> WidgetInfoView {
        WidgetInfoView {
            widget_type: "form.textarea"@,
            display_name: "Text Area"@,
            description: "Multi-line text input field"@,
            can_have_children: false,
            default_config: Self::starting_config(),
        }
    }

    /// What the registry holds of this type.
    pub fn factory() -> (r: WidgetInfo)
        ensures
            r@ == Self::info(),
    {
        let widget = TextArea;
        WidgetInfo {
            widget_type: widget.widget_type().to_owned(),
            display_name: widget.display_name().to_owned(),
            description: widget.description().to_owned(),
            can_have_children: widget.can_have_children(),
            default_config: widget.default_config(),
        }
    }
}

impl Widget for TextArea {
    fn widget_type(&self) -> (r: &'static str)
        ensures
            r@ == "form.textarea"@,
    {
        "form.textarea"
    }

    fn display_name(&self) -> (r: &'static str)
        ensures
            r@ == "Text Area"@,
    {
        "Text Area"
    }

    fn description(&self) -> (r: &'static str)
        ensures
            r@ == "Multi-line text input field"@,
    {
        "Multi-line text input field"
    }

    fn validate_config(&self, config: &WidgetConfig) -> (r: Result<(), Error>)
        ensures
            r is Ok,
    {
        Ok(())
    }

    fn can_have_children(&self) -> (r: bool)
        ensures
            !r,
    {
        false
    }

    fn default_config(&self) -> (r: WidgetConfig)
        ensures
            r@ == Self::starting_config(),
    {
        WidgetConfig::new(self.widget_type())
            .with_property("placeholder", JsonValue::text("Enter text..."))
            .with_property("label", JsonValue::text(""))
            .with_property("rows", JsonValue::unsigned(4))
            .with_style("width", "100%")
            .with_style("padding", "8px 12px")
            .with_style("border", "1px solid #d1d5db")
            .with_style("border-radius", "4px")
            .with_style("font-size", "14px")
            .with_style("font-family", "inherit")
            .with_style("resize", "vertical")
    }
}

/// Checkbox widget
#[derive(Debug, Default, Clone, Copy, PartialEq, Eq)]
pub struct Checkbox;

impl Checkbox {
    /// The configuration that a new widget of this type starts with.
    pub open spec fn starting_config() -> ConfigView {
        ConfigView::empty("form.checkbox"@)
            .property("label"@, JsonView::String("Check me"@))
            .property("checked"@, JsonView::Bool(false))
    }

    /// What the registry holds of this type.
    pub open spec fn info() -> WidgetInfoView {
        WidgetInfoView {
            widget_type: "form.checkbox"@,
            display_name: "Checkbox"@,
            description: "Checkbox input field"@,
            can_have_children: false,
            default_config: Self::starting_config(),
        }
    }

    /// What the registry holds of this type.
    pub fn factory() -> (r: WidgetInfo)
        ensures
            r@ == Self::info(),
    {
        let widget = Checkbox;
        WidgetInfo {
            widget_type: widget.widget_type().to_owned(),
            display_name: widget.display_name().to_owned(),
            description: widget.description().to_owned(),
            can_have_children: widget.can_have_children(),
            default_config: widget.default_config(),
        }
    }
}

impl Widget for Checkbox {
    fn widget_type(&self) -> (r: &'static str)
        ensures
            r@ == "form.checkbox"@,
    {
        "form.checkbox"
    }

    fn display_name(&self) -> (r: &'static str)
        ensures
            r@ == "Checkbox"@,
    {
        "Checkbox"
    }

    fn description(&self) -> (r: &'static str)
        ensures
            r@ == "Checkbox input field"@,
    {
        "Checkbox input field"
    }

    fn validate_config(&self, config: &WidgetConfig) -> (r: Result<(), Error>)
        ensures
            r is Ok,
    {
        Ok(())
    }

    fn can_have_children(&self) -> (r: bool)
        ensures
            !r,
    {
        false
    }

    fn default_config(&self) -> (r: WidgetConfig)
        ensures
            r@ == Self::starting_config(),
    {
        WidgetConfig::new(self.widget_type())
            .with_property("label", JsonValue::text("Check me"))
            .with_property("checked", JsonValue::Bool(false))
    }
}

/// Spacer widget
#[derive(Debug, Default, Clone, Copy, PartialEq, Eq)]
pub struct Spacer;

impl Spacer {
    /// The configuration that a new widget of this type starts with.
    pub open spec fn starting_config() -> ConfigView {
        ConfigView::empty("layout.spacer"@)
            .property("height"@, JsonView::Number(number_of(20)))
            .style("width"@, "100%"@)
    }

    /// What the registry holds of this type.
    pub open spec fn info() -> WidgetInfoView {
        WidgetInfoView {
            widget_type: "layout.spacer"@,
            display_name: "Spacer"@,
            description: "Empty space for layout control"@,
            can_have_children: false,
            default_config: Self::starting_config(),
        }
    }

    /// What the registry holds of this type.
    pub fn factory() -> (r: WidgetInfo)
        ensures
            r@ == Self::info(),
    {
        let widget = Spacer;
        WidgetInfo {
            widget_type: widget.widget_type().to_owned(),
            display_name: widget.display_name().to_owned(),
            description: widget.description().to_owned(),
            can_have_children: widget.can_have_children(),
            default_config: widget.default_config(),
        }
    }
}

impl Widget for Spacer {
    fn widget_type(&self) -> (r: &'static str)
        ensures
            r@ == "layout.spacer"@,
    {
        "layout.spacer"
    }

    fn display_name(&self) -> (r: &'static str)
        ensures
            r@ == "Spacer"@,
    {
        "Spacer"
    }

    fn description(&self) -> (r: &'static str)
        ensures
            r@ == "Empty space for layout control"@,
    {
        "Empty space for layout control"
    }

    fn validate_config(&self, config: &WidgetConfig) -> (r: Result<(), Error>)
        ensures
            r is Ok,
    {
        Ok(())
    }

    fn can_have_children(&self) -> (r: bool)
        ensures
            !r,
    {
        false
    }

    fn default_config(&self) -> (r: WidgetConfig)
        ensures
            r@ == Self::starting_config(),
    {
        WidgetConfig::new(self.widget_type())
            .with_property("height", JsonValue::unsigned(20))
            .with_style("width", "100%")
    }
}

impl Divider {
    /// The thickness in pixels that the form shows for a divider of this
    /// configuration: the integer that its `thickness` text stands for,
    /// else 1.
    pub fn thickness(config: &WidgetConfig) -> (r: i32)
        ensures
            r == config@.integer_text_or("thickness"@, 1),
    {
        config.integer_text_or("thickness", 1)
    }
}

impl Spacer {
    /// The height in pixels of a spacer of this configuration: its
    /// `height`, which is 20 where it is not set.
    pub fn height(config: &WidgetConfig) -> (r: u64)
        ensures
            r == config@.unsigned_or("height"@, 20),
    {
        config.unsigned_or("height", 20)
    }
}

impl TextArea {
    /// The number of rows of a text area of this configuration: its
    /// `rows`, which is 4 where it is not set.
    pub fn rows(config: &WidgetConfig) -> (r: u64)
        ensures
            r == config@.unsigned_or("rows"@, 4),
    {
        config.unsigned_or("rows", 4)
    }
}

impl Button {
    /// The background colour of a button variant; an unknown variant has
    /// the colour of the primary one.
    pub open spec fn variant_colour(variant: Seq<char>) -> Seq<char> {
        if variant == "secondary"@ {
            "#6b7280"@
        } else if variant == "success"@ {
            "#10b981"@
        } else if variant == "danger"@ {
            "#ef4444"@
        } else {
            "#3b82f6"@
        }
    }

    /// The background colour of a button of this configuration.
    pub fn background(config: &WidgetConfig) -> (r: &'static str)
        ensures
            r@ == Self::variant_colour(config@.text_or("variant"@, "primary"@)),
    {
        let variant = config.text_or("variant", "primary");
        if variant == "secondary".to_owned() {
            "#6b7280"
        } else if variant == "success".to_owned() {
            "#10b981"
        } else if variant == "danger".to_owned() {
            "#ef4444"
        } else {
            "#3b82f6"
        }
    }
}

} // verus!
