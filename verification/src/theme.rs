//! Themes: a named set of CSS variables, global classes and custom CSS.

use crate::strmap::StrMap;
use crate::widget::{clone_strings, declarations, joined, style_text, texts};
use vstd::prelude::*;

verus! {

/// Theme configuration for the editor and widgets.
#[derive(Debug, PartialEq)]
pub struct ThemeConfig {
    /// Theme name
    pub name: String,
    /// CSS variables to inject
    pub css_variables: StrMap<String>,
    /// Global CSS classes
    pub global_classes: Vec<String>,
    /// Custom CSS to inject
    pub custom_css: Option<String>,
}

/// The mathematical content of a [`ThemeConfig`].
pub struct ThemeView {
    pub name: Seq<char>,
    pub css_variables: Map<Seq<char>, Seq<char>>,
    pub global_classes: Seq<Seq<char>>,
    pub custom_css: Option<Seq<char>>,
}

impl ThemeView {
    /// The theme of the given name with nothing else set.
    pub open spec fn named(name: Seq<char>) -> ThemeView {
        ThemeView {
            name,
            css_variables: Map::empty(),
            global_classes: Seq::empty(),
            custom_css: None,
        }
    }

    /// The theme with one more variable set.
    pub open spec fn variable(self, name: Seq<char>, value: Seq<char>) -> ThemeView {
        ThemeView { css_variables: self.css_variables.insert(name, value), ..self }
    }

    /// The theme that the editor uses when it is given none.
    pub open spec fn standard() -> ThemeView {
        ThemeView::named("default"@).variable("--wysiwyg-primary"@, "#3b82f6"@).variable(
            "--wysiwyg-secondary"@,
            "#64748b"@,
        ).variable("--wysiwyg-background"@, "#ffffff"@).variable(
            "--wysiwyg-text"@,
            "#1e293b"@,
        ).variable("--wysiwyg-border"@, "#e2e8f0"@).variable(
            "--wysiwyg-border-radius"@,
            "4px"@,
        ).variable("--wysiwyg-spacing"@, "8px"@)
    }
}

impl View for ThemeConfig {
    type V = ThemeView;

    open spec fn view(&self) -> ThemeView {
        ThemeView {
            name: self.name@,
            css_variables: self.css_variables@,
            global_classes: texts(self.global_classes@),
            custom_css: match self.custom_css {
                Some(css) => Some(css@),
                None => None,
            },
        }
    }
}

impl Default for ThemeConfig {
    fn default() -> (r: Self)
        ensures
            r@ == ThemeView::named("default"@),
    {
        ThemeConfig::new("default")
    }
}

impl Clone for ThemeConfig {
    fn clone(&self) -> (r: Self)
        ensures
            r@ == self@,
    {
        ThemeConfig {
            name: self.name.clone(),
            css_variables: self.css_variables.clone(),
            global_classes: clone_strings(&self.global_classes),
            custom_css: match &self.custom_css {
                Some(css) => Some(css.clone()),
                None => None,
            },
        }
    }
}

impl ThemeConfig {
    /// A theme of the given name with no variables, classes or custom CSS.
    pub fn new(name: &str) -> (r: Self)
        ensures
            r@ == ThemeView::named(name@),
    {
        let r = ThemeConfig {
            name: name.to_owned(),
            css_variables: StrMap::new(),
            global_classes: Vec::new(),
            custom_css: None,
        };
        assert(texts(r.global_classes@) =~= Seq::empty());
        r
    }

    /// The same theme with the CSS variable set; a value already under the
    /// name is replaced.
    pub fn with_variable(self, name: &str, value: &str) -> (r: Self)
        ensures
            r@ == self@.variable(name@, value@),
    {
        let mut theme = self;
        theme.css_variables.insert(name.to_owned(), value.to_owned());
        theme
    }

    /// The same theme with one more global class at the end.
    pub fn with_class(self, class: &str) -> (r: Self)
        ensures
            r@ == (ThemeView { global_classes: self@.global_classes.push(class@), ..self@ }),
    {
        let mut theme = self;
        theme.global_classes.push(class.to_owned());
        assert(texts(theme.global_classes@) =~= texts(self.global_classes@).push(class@));
        theme
    }

    /// The CSS variables as declarations, in the order of their entries,
    /// with a space between each two.
    pub fn variables_text(&self) -> (r: String)
        ensures
            r@ == joined(declarations(self.css_variables.pairs()), " "@),
    {
        style_text(&self.css_variables)
    }

    /// The same theme with its custom CSS set to the given text.
    pub fn with_custom_css(self, css: &str) -> (r: Self)
        ensures
            r@ == (ThemeView { custom_css: Some(css@), ..self@ }),
    {
        let mut theme = self;
        theme.custom_css = Some(css.to_owned());
        theme
    }
}

/// A provider of a theme.
pub trait Theme {
    /// The theme configuration.
    fn config(&self) -> &ThemeConfig;

    /// CSS for a specific widget type, if the theme has any.  Unless a
    /// theme says otherwise, it has none.
    fn widget_css(&self, widget_type: &str) -> (r: Option<String>)
        default_ensures
            r is None,
    {
        None
    }

    /// The theme's name.  Unless a theme says otherwise, it is the name in
    /// its configuration.
    fn name(&self) -> (r: &str)
        default_ensures
            exists|config: &ThemeConfig| #[trigger]
                call_ensures(Self::config, (self,), config) && r@ == config@.name,
    {
        self.config().name.as_str()
    }
}

/// The theme that the editor uses when it is given none.
#[derive(Debug)]
pub struct DefaultTheme {
    config: ThemeConfig,
}

impl View for DefaultTheme {
    type V = ThemeView;

    closed spec fn view(&self) -> ThemeView {
        self.config@
    }
}

impl DefaultTheme {
    /// The standard theme: seven variables for colours, border and spacing.
    pub fn new() -> (r: Self)
        ensures
            r@ == ThemeView::standard(),
    {
        DefaultTheme {
            config: ThemeConfig::new("default").with_variable(
                "--wysiwyg-primary",
                "#3b82f6",
            ).with_variable("--wysiwyg-secondary", "#64748b").with_variable(
                "--wysiwyg-background",
                "#ffffff",
            ).with_variable("--wysiwyg-text", "#1e293b").with_variable(
                "--wysiwyg-border",
                "#e2e8f0",
            ).with_variable("--wysiwyg-border-radius", "4px").with_variable(
                "--wysiwyg-spacing",
                "8px",
            ),
        }
    }
}

impl Default for DefaultTheme {
    fn default() -> (r: Self)
        ensures
            r@ == ThemeView::named("default"@),
    {
        DefaultTheme { config: ThemeConfig::default() }
    }
}

impl Clone for DefaultTheme {
    fn clone(&self) -> (r: Self)
        ensures
            r@ == self@,
    {
        DefaultTheme { config: self.config.clone() }
    }
}

impl Theme for DefaultTheme {
    fn config(&self) -> (r: &ThemeConfig)
        ensures
            r@ == self@,
    {
        &self.config
    }

    fn widget_css(&self, widget_type: &str) -> (r: Option<String>)
        ensures
            r is None,
    {
        None
    }

    fn name(&self) -> (r: &str)
        ensures
            r@ == self@.name,
    {
        self.config.name.as_str()
    }
}

} // verus!
