//! Widgets that take children and lay them out.

use crate::error::Error;
use crate::json::{JsonValue, JsonView};
use crate::registry::{WidgetInfo, WidgetInfoView};
use crate::widget::{ConfigView, Widget, WidgetConfig};
use vstd::prelude::*;

verus! {

/// Row container widget - arranges children horizontally
#[derive(Debug, Default, Clone, Copy, PartialEq, Eq)]
pub struct RowContainer;

impl RowContainer {
    /// The configuration that a new widget of this type starts with.
    pub open spec fn starting_config() -> ConfigView {
        ConfigView::empty("container.row"@)
            .style("display"@, "flex"@)
            .style("flex-direction"@, "row"@)
            .style("gap"@, "var(--wysiwyg-spacing, 8px)"@)
    }

    /// What the registry holds of this type.
    pub open spec fn info() -> WidgetInfoView {
        WidgetInfoView {
            widget_type: "container.row"@,
            display_name: "Row Container"@,
            description: "Arranges child widgets horizontally in a row"@,
            can_have_children: true,
            default_config: Self::starting_config(),
        }
    }

    /// What the registry holds of this type.
    pub fn factory() -> (r: WidgetInfo)
        ensures
            r@ == Self::info(),
    {
        let widget = RowContainer;
        WidgetInfo {
            widget_type: widget.widget_type().to_owned(),
            display_name: widget.display_name().to_owned(),
            description: widget.description().to_owned(),
            can_have_children: widget.can_have_children(),
            default_config: widget.default_config(),
        }
    }
}

impl Widget for RowContainer {
    fn widget_type(&self) -> (r: &'static str)
        ensures
            r@ == "container.row"@,
    {
        "container.row"
    }

    fn display_name(&self) -> (r: &'static str)
        ensures
            r@ == "Row Container"@,
    {
        "Row Container"
    }

    fn description(&self) -> (r: &'static str)
        ensures
            r@ == "Arranges child widgets horizontally in a row"@,
    {
        "Arranges child widgets horizontally in a row"
    }

    fn validate_config(&self, config: &WidgetConfig) -> (r: Result<(), Error>)
        ensures
            r is Ok,
    {
        Ok(())
    }

    fn can_have_children(&self) -> (r: bool)
        ensures
            r,
    {
        true
    }

    fn default_config(&self) -> (r: WidgetConfig)
        ensures
            r@ == Self::starting_config(),
    {
        WidgetConfig::new(self.widget_type())
            .with_style("display", "flex")
            .with_style("flex-direction", "row")
            .with_style("gap", "var(--wysiwyg-spacing, 8px)")
    }
}

/// Column container widget - arranges children vertically
#[derive(Debug, Default, Clone, Copy, PartialEq, Eq)]
pub struct ColumnContainer;

impl ColumnContainer {
    /// The configuration that a new widget of this type starts with.
    pub open spec fn starting_config() -> ConfigView {
        ConfigView::empty("container.column"@)
            .style("display"@, "flex"@)
            .style("flex-direction"@, "column"@)
            .style("gap"@, "var(--wysiwyg-spacing, 8px)"@)
    }

    /// What the registry holds of this type.
    pub open spec fn info() -> WidgetInfoView {
        WidgetInfoView {
            widget_type: "container.column"@,
            display_name: "Column Container"@,
            description: "Arranges child widgets vertically in a column"@,
            can_have_children: true,
            default_config: Self::starting_config(),
        }
    }

    /// What the registry holds of this type.
    pub fn factory() -> (r: WidgetInfo)
        ensures
            r@ == Self::info(),
    {
        let widget = ColumnContainer;
        WidgetInfo {
            widget_type: widget.widget_type().to_owned(),
            display_name: widget.display_name().to_owned(),
            description: widget.description().to_owned(),
            can_have_children: widget.can_have_children(),
            default_config: widget.default_config(),
        }
    }
}

impl Widget for ColumnContainer {
    fn widget_type(&self) -> (r: &'static str)
        ensures
            r@ == "container.column"@,
    {
        "container.column"
    }

    fn display_name(&self) -> (r: &'static str)
        ensures
            r@ == "Column Container"@,
    {
        "Column Container"
    }

    fn description(&self) -> (r: &'static str)
        ensures
            r@ == "Arranges child widgets vertically in a column"@,
    {
        "Arranges child widgets vertically in a column"
    }

    fn validate_config(&self, config: &WidgetConfig) -> (r: Result<(), Error>)
        ensures
            r is Ok,
    {
        Ok(())
    }

    fn can_have_children(&self) -> (r: bool)
        ensures
            r,
    {
        true
    }

    fn default_config(&self) -> (r: WidgetConfig)
        ensures
            r@ == Self::starting_config(),
    {
        WidgetConfig::new(self.widget_type())
            .with_style("display", "flex")
            .with_style("flex-direction", "column")
            .with_style("gap", "var(--wysiwyg-spacing, 8px)")
    }
}

/// Grid container widget - arranges children in a grid
#[derive(Debug, Default, Clone, Copy, PartialEq, Eq)]
pub struct GridContainer;

impl GridContainer {
    /// The configuration that a new widget of this type starts with.
    pub open spec fn starting_config() -> ConfigView {
        ConfigView::empty("container.grid"@)
            .style("display"@, "grid"@)
            .style("grid-template-columns"@, "repeat(auto-fit, minmax(200px, 1fr))"@)
            .style("gap"@, "var(--wysiwyg-spacing, 8px)"@)
    }

    /// What the registry holds of this type.
    pub open spec fn info() -> WidgetInfoView {
        WidgetInfoView {
            widget_type: "container.grid"@,
            display_name: "Grid Container"@,
            description: "Arranges child widgets in a responsive grid"@,
            can_have_children: true,
            default_config: Self::starting_config(),
        }
    }

    /// What the registry holds of this type.
    pub fn factory() -> (r: WidgetInfo)
        ensures
            r@ == Self::info(),
    {
        let widget = GridContainer;
        WidgetInfo {
            widget_type: widget.widget_type().to_owned(),
            display_name: widget.display_name().to_owned(),
            description: widget.description().to_owned(),
            can_have_children: widget.can_have_children(),
            default_config: widget.default_config(),
        }
    }
}

impl Widget for GridContainer {
    fn widget_type(&self) -> (r: &'static str)
        ensures
            r@ == "container.grid"@,
    {
        "container.grid"
    }

    fn display_name(&self) -> (r: &'static str)
        ensures
            r@ == "Grid Container"@,
    {
        "Grid Container"
    }

    fn description(&self) -> (r: &'static str)
        ensures
            r@ == "Arranges child widgets in a responsive grid"@,
    {
        "Arranges child widgets in a responsive grid"
    }

    fn validate_config(&self, config: &WidgetConfig) -> (r: Result<(), Error>)
        ensures
            r is Ok,
    {
        Ok(())
    }

    fn can_have_children(&self) -> (r: bool)
        ensures
            r,
    {
        true
    }

    fn default_config(&self) -> (r: WidgetConfig)
        ensures
            r@ == Self::starting_config(),
    {
        WidgetConfig::new(self.widget_type())
            .with_style("display", "grid")
            .with_style("grid-template-columns", "repeat(auto-fit, minmax(200px, 1fr))")
            .with_style("gap", "var(--wysiwyg-spacing, 8px)")
    }
}

/// Card widget - a styled panel that takes children
#[derive(Debug, Default, Clone, Copy, PartialEq, Eq)]
pub struct Card;

impl Card {
    /// The configuration that a new widget of this type starts with.
    pub open spec fn starting_config() -> ConfigView {
        ConfigView::empty("container.card"@)
            .property("title"@, JsonView::String(""@))
            .style("border"@, "1px solid #e5e7eb"@)
            .style("border-radius"@, "8px"@)
            .style("padding"@, "16px"@)
            .style("background"@, "#ffffff"@)
            .style("box-shadow"@, "0 1px 3px rgba(0,0,0,0.1)"@)
    }

    /// What the registry holds of this type.
    pub open spec fn info() -> WidgetInfoView {
        WidgetInfoView {
            widget_type: "container.card"@,
            display_name: "Card"@,
            description: "A styled card/panel that can contain other widgets"@,
            can_have_children: true,
            default_config: Self::starting_config(),
        }
    }

    /// What the registry holds of this type.
    pub fn factory() -> (r: WidgetInfo)
        ensures
            r@ == Self::info(),
    {
        let widget = Card;
        WidgetInfo {
            widget_type: widget.widget_type().to_owned(),
            display_name: widget.display_name().to_owned(),
            description: widget.description().to_owned(),
            can_have_children: widget.can_have_children(),
            default_config: widget.default_config(),
        }
    }
}

impl Widget for Card {
    fn widget_type(&self) -> (r: &'static str)
        ensures
            r@ == "container.card"@,
    {
        "container.card"
    }

    fn display_name(&self) -> (r: &'static str)
        ensures
            r@ == "Card"@,
    {
        "Card"
    }

    fn description(&self) -> (r: &'static str)
        ensures
            r@ == "A styled card/panel that can contain other widgets"@,
    {
        "A styled card/panel that can contain other widgets"
    }

    fn validate_config(&self, config: &WidgetConfig) -> (r: Result<(), Error>)
        ensures
            r is Ok,
    {
        Ok(())
    }

    fn can_have_children(&self) -> (r: bool)
        ensures
            r,
    {
        true
    }

    fn default_config(&self) -> (r: WidgetConfig)
        ensures
            r@ == Self::starting_config(),
    {
        WidgetConfig::new(self.widget_type())
            .with_property("title", JsonValue::text(""))
            .with_style("border", "1px solid #e5e7eb")
            .with_style("border-radius", "8px")
            .with_style("padding", "16px")
            .with_style("background", "#ffffff")
            .with_style("box-shadow", "0 1px 3px rgba(0,0,0,0.1)")
    }
}

impl RowContainer {
    /// The gap in pixels between the children of a row of this
    /// configuration: its `gap` style where that is an integer followed by
    /// `px`, else 8.
    pub fn gap(config: &WidgetConfig) -> (r: i32)
        ensures
            r == config@.pixels_or("gap"@, 8),
    {
        config.pixels_or("gap", 8)
    }
}

impl ColumnContainer {
    /// The gap in pixels between the children of a column of this
    /// configuration: its `gap` style where that is an integer followed by
    /// `px`, else 8.
    pub fn gap(config: &WidgetConfig) -> (r: i32)
        ensures
            r == config@.pixels_or("gap"@, 8),
    {
        config.pixels_or("gap", 8)
    }
}

} // verus!
