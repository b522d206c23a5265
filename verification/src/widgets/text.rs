//! Text widgets.

use crate::error::Error;
use crate::json::{number_of, JsonValue, JsonView};
use crate::registry::{WidgetInfo, WidgetInfoView};
use crate::widget::{ConfigView, Widget, WidgetConfig};
use vstd::prelude::*;

verus! {

/// Generic text widget with formatting flags
#[derive(Debug, Default, Clone, Copy, PartialEq, Eq)]
pub struct TextWidget;

impl TextWidget {
    /// The configuration that a new widget of this type starts with.
    pub open spec fn starting_config() -> ConfigView {
        ConfigView::empty("text"@)
            .property("content"@, JsonView::String("Enter text here..."@))
            .property("bold"@, JsonView::Bool(false))
            .property("italic"@, JsonView::Bool(false))
            .property("underline"@, JsonView::Bool(false))
    }

    /// What the registry holds of this type.
    pub open spec fn info() -> WidgetInfoView {
        WidgetInfoView {
            widget_type: "text"@,
            display_name: "Text"@,
            description: "Rich text with formatting support"@,
            can_have_children: false,
            default_config: Self::starting_config(),
        }
    }

    /// What the registry holds of this type.
    pub fn factory() -> (r: WidgetInfo)
        ensures
            r@ == Self::info(),
    {
        let widget = TextWidget;
        WidgetInfo {
            widget_type: widget.widget_type().to_owned(),
            display_name: widget.display_name().to_owned(),
            description: widget.description().to_owned(),
            can_have_children: widget.can_have_children(),
            default_config: widget.default_config(),
        }
    }
}

impl Widget for TextWidget {
    fn widget_type(&self) -> (r: &'static str)
        ensures
            r@ == "text"@,
    {
        "text"
    }

    fn display_name(&self) -> (r: &'static str)
        ensures
            r@ == "Text"@,
    {
        "Text"
    }

    fn description(&self) -> (r: &'static str)
        ensures
            r@ == "Rich text with formatting support"@,
    {
        "Rich text with formatting support"
    }

    fn validate_config(&self, config: &WidgetConfig) -> (r: Result<(), Error>)
        ensures
            r is Ok,
    {
        Ok(())
    }

    fn can_have_children(&self) -> (r: bool)
        ensures
            !r,
    {
        false
    }

    fn default_config(&self) -> (r: WidgetConfig)
        ensures
            r@ == Self::starting_config(),
    {
        WidgetConfig::new(self.widget_type())
            .with_property("content", JsonValue::text("Enter text here..."))
            .with_property("bold", JsonValue::Bool(false))
            .with_property("italic", JsonValue::Bool(false))
            .with_property("underline", JsonValue::Bool(false))
    }
}

/// Heading widget
#[derive(Debug, Default, Clone, Copy, PartialEq, Eq)]
pub struct HeadingWidget;

impl HeadingWidget {
    /// The configuration that a new widget of this type starts with.
    pub open spec fn starting_config() -> ConfigView {
        ConfigView::empty("text.heading"@)
            .property("content"@, JsonView::String("Heading"@))
            .property("level"@, JsonView::Number(number_of(1)))
    }

    /// What the registry holds of this type.
    pub open spec fn info() -> WidgetInfoView {
        WidgetInfoView {
            widget_type: "text.heading"@,
            display_name: "Heading"@,
            description: "Heading element (H1-H6)"@,
            can_have_children: false,
            default_config: Self::starting_config(),
        }
    }

    /// What the registry holds of this type.
    pub fn factory() -> (r: WidgetInfo)
        ensures
            r@ == Self::info(),
    {
        let widget = HeadingWidget;
        WidgetInfo {
            widget_type: widget.widget_type().to_owned(),
            display_name: widget.display_name().to_owned(),
            description: widget.description().to_owned(),
            can_have_children: widget.can_have_children(),
            default_config: widget.default_config(),
        }
    }
}

impl Widget for HeadingWidget {
    fn widget_type(&self) -> (r: &'static str)
        ensures
            r@ == "text.heading"@,
    {
        "text.heading"
    }

    fn display_name(&self) -> (r: &'static str)
        ensures
            r@ == "Heading"@,
    {
        "Heading"
    }

    fn description(&self) -> (r: &'static str)
        ensures
            r@ == "Heading element (H1-H6)"@,
    {
        "Heading element (H1-H6)"
    }

    fn validate_config(&self, config: &WidgetConfig) -> (r: Result<(), Error>)
        ensures
            r is Ok,
    {
        Ok(())
    }

    fn can_have_children(&self) -> (r: bool)
        ensures
            !r,
    {
        false
    }

    fn default_config(&self) -> (r: WidgetConfig)
        ensures
            r@ == Self::starting_config(),
    {
        WidgetConfig::new(self.widget_type())
            .with_property("content", JsonValue::text("Heading"))
            .with_property("level", JsonValue::unsigned(1))
    }
}

/// Paragraph widget
#[derive(Debug, Default, Clone, Copy, PartialEq, Eq)]
pub struct ParagraphWidget;

impl ParagraphWidget {
    /// The configuration that a new widget of this type starts with.
    pub open spec fn starting_config() -> ConfigView {
        ConfigView::empty("text.paragraph"@)
            .property(
                "content"@,
                JsonView::String("This is a paragraph of text. You can edit it in the configuration panel."@),
            )
            .property("markdown"@, JsonView::Bool(false))
    }

    /// What the registry holds of this type.
    pub open spec fn info() -> WidgetInfoView {
        WidgetInfoView {
            widget_type: "text.paragraph"@,
            display_name: "Paragraph"@,
            description: "Paragraph of text with optional Markdown support"@,
            can_have_children: false,
            default_config: Self::starting_config(),
        }
    }

    /// What the registry holds of this type.
    pub fn factory() -> (r: WidgetInfo)
        ensures
            r@ == Self::info(),
    {
        let widget = ParagraphWidget;
        WidgetInfo {
            widget_type: widget.widget_type().to_owned(),
            display_name: widget.display_name().to_owned(),
            description: widget.description().to_owned(),
            can_have_children: widget.can_have_children(),
            default_config: widget.default_config(),
        }
    }
}

impl Widget for ParagraphWidget {
    fn widget_type(&self) -> (r: &'static str)
        ensures
            r@ == "text.paragraph"@,
    {
        "text.paragraph"
    }

    fn display_name(&self) -> (r: &'static str)
        ensures
            r@ == "Paragraph"@,
    {
        "Paragraph"
    }

    fn description(&self) -> (r: &'static str)
        ensures
            r@ == "Paragraph of text with optional Markdown support"@,
    {
        "Paragraph of text with optional Markdown support"
    }

    fn validate_config(&self, config: &WidgetConfig) -> (r: Result<(), Error>)
        ensures
            r is Ok,
    {
        Ok(())
    }

    fn can_have_children(&self) -> (r: bool)
        ensures
            !r,
    {
        false
    }

    fn default_config(&self) -> (r: WidgetConfig)
        ensures
            r@ == Self::starting_config(),
    {
        WidgetConfig::new(self.widget_type())
            .with_property(
                "content",
                JsonValue::text("This is a paragraph of text. You can edit it in the configuration panel."),
            )
            .with_property("markdown", JsonValue::Bool(false))
    }
}

impl HeadingWidget {
    /// The heading level of a configuration: its `level`, which is 1 where
    /// it is not set, brought into the range from 1 to 6.
    pub open spec fn level_of(config: ConfigView) -> int {
        let level = config.signed_or("level"@, 1);
        if level < 1 {
            1
        } else if level > 6 {
            6
        } else {
            level as int
        }
    }

    /// The heading level, from 1 to 6, of a heading of this configuration.
    pub fn level(config: &WidgetConfig) -> (r: u8)
        ensures
            r == Self::level_of(config@),
            1 <= r <= 6,
    {
        let level = config.signed_or("level", 1);
        if level < 1 {
            1
        } else if level > 6 {
            6
        } else {
            level as u8
        }
    }
}

/// The HTML that `pulldown_cmark` makes of a Markdown text, with its
/// default options.
pub uninterp spec fn markdown_html(markdown: Seq<char>) -> Seq<char>;

/// `pulldown_cmark::Parser::new`, then `pulldown_cmark::html::push_html`
/// into an empty string.  The HTML is a function of the text.
#[verifier::external_body]
fn markdown_to_html(markdown: &str) -> (r: String)
    ensures
        r@ == markdown_html(markdown@),
{
    let parser = pulldown_cmark::Parser::new(markdown);
    let mut html_output = String::new();
    pulldown_cmark::html::push_html(&mut html_output, parser);
    html_output
}

/// What a paragraph shows.
#[derive(Debug, PartialEq, Eq)]
pub enum ParagraphBody {
    /// Text to be shown as it is.
    Plain(String),
    /// HTML made from Markdown, to be inserted as markup.
    Markup(String),
}

/// The content of a [`ParagraphBody`].
pub enum ParagraphBodyView {
    Plain(Seq<char>),
    Markup(Seq<char>),
}

impl View for ParagraphBody {
    type V = ParagraphBodyView;

    open spec fn view(&self) -> ParagraphBodyView {
        match self {
            ParagraphBody::Plain(text) => ParagraphBodyView::Plain(text@),
            ParagraphBody::Markup(html) => ParagraphBodyView::Markup(html@),
        }
    }
}

impl ParagraphWidget {
    /// What a paragraph of this configuration shows.
    pub open spec fn shown(config: ConfigView) -> ParagraphBodyView {
        let content = config.text_or("content"@, "Paragraph text"@);
        if config.flag_or("markdown"@, false) {
            ParagraphBodyView::Markup(markdown_html(content))
        } else {
            ParagraphBodyView::Plain(content)
        }
    }

    /// What a paragraph shows: its `content`, as text, or as the HTML of
    /// Markdown where the `markdown` property is set.
    pub fn body(config: &WidgetConfig) -> (r: ParagraphBody)
        ensures
            r@ == Self::shown(config@),
    {
        let content = config.text_or("content", "Paragraph text");
        if config.flag_or("markdown", false) {
            ParagraphBody::Markup(markdown_to_html(content.as_str()))
        } else {
            ParagraphBody::Plain(content)
        }
    }
}

} // verus!
