use yew_wysiwyg::theme::{DefaultTheme, Theme, ThemeConfig};

#[test]
fn theme_builders_set_each_field() {
    let theme = ThemeConfig::new("dark")
        .with_variable("--bg", "#000")
        .with_variable("--bg", "#111")
        .with_class("dark-mode")
        .with_custom_css("body { margin: 0; }");
    assert_eq!(theme.name, "dark");
    assert_eq!(theme.css_variables.len(), 1);
    assert_eq!(theme.css_variables.get("--bg").map(|s| s.as_str()), Some("#111"));
    assert_eq!(theme.global_classes, vec!["dark-mode".to_string()]);
    assert_eq!(theme.custom_css.as_deref(), Some("body { margin: 0; }"));
}

#[test]
fn default_theme_has_seven_variables() {
    let theme = DefaultTheme::new();
    assert_eq!(theme.name(), "default");
    assert_eq!(theme.config().css_variables.len(), 7);
    assert_eq!(
        theme.config().css_variables.get("--wysiwyg-primary").map(|s| s.as_str()),
        Some("#3b82f6")
    );
    assert_eq!(
        theme.config().css_variables.get("--wysiwyg-spacing").map(|s| s.as_str()),
        Some("8px")
    );
    assert!(theme.widget_css("basic.button").is_none());
}

struct Plain {
    config: ThemeConfig,
}

impl Theme for Plain {
    fn config(&self) -> &ThemeConfig {
        &self.config
    }
}

#[test]
fn a_theme_that_gives_only_its_configuration_has_the_defaults() {
    let theme = Plain {
        config: ThemeConfig::new("plain").with_variable("--a", "1"),
    };
    assert_eq!(theme.name(), "plain");
    assert!(theme.widget_css("basic.button").is_none());
    assert!(theme.widget_css("").is_none());
}
