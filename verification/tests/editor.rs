use yew_wysiwyg::editor::{Command, EditorState, Effect};
use yew_wysiwyg::registry::WidgetRegistry;
use yew_wysiwyg::{Error, Layout, WidgetConfig, WidgetId};

const A: WidgetId = 1;
const B: WidgetId = 2;
const C: WidgetId = 3;

fn add(id: WidgetId, widget_type: &str) -> Command {
    Command::AddWidget {
        id,
        config: WidgetConfig::new(widget_type),
    }
}

fn drop_of(id: WidgetId, widget_type: &str, parent: Option<WidgetId>, position: usize) -> Command {
    Command::Drop {
        id,
        widget_type: widget_type.to_string(),
        parent,
        position,
    }
}

#[test]
fn editor_starts_on_the_given_then_the_saved_then_an_empty_layout() {
    let mut given = Layout::new();
    given.add_root_widget(A, WidgetConfig::new("text"));
    let mut saved = Layout::new();
    saved.add_root_widget(B, WidgetConfig::new("text"));

    let editor = EditorState::new(Some(given.clone()), Some(saved.clone()));
    assert_eq!(editor.layout().root_widgets(), &vec![A]);
    let editor = EditorState::new(None, Some(saved));
    assert_eq!(editor.layout().root_widgets(), &vec![B]);
    let editor = EditorState::new(None, None);
    assert!(editor.layout().root_widgets().is_empty());
    assert!(editor.edit_mode());
    assert_eq!(editor.selected(), None);
    assert!(!editor.can_undo());
    assert!(!editor.can_redo());
    assert_eq!(editor.history().len(), 1);
}

#[test]
fn an_added_widget_goes_into_the_selected_container_or_to_the_roots() {
    let registry = WidgetRegistry::with_standard_widgets();
    let mut editor = EditorState::new(None, None);
    assert!(!editor.adds_into_selected(&registry));
    assert!(matches!(
        editor.apply(add(A, "container.row"), &registry),
        Effect::Changed
    ));
    assert_eq!(editor.layout().root_widgets(), &vec![A]);

    assert!(matches!(
        editor.apply(Command::Select(Some(A)), &registry),
        Effect::Nothing
    ));
    assert_eq!(editor.selected(), Some(A));
    assert!(editor.adds_into_selected(&registry));
    assert!(matches!(
        editor.apply(add(B, "basic.button"), &registry),
        Effect::Changed
    ));
    assert_eq!(editor.layout().get_widget(&A).unwrap().children, vec![B]);

    editor.apply(Command::Select(Some(B)), &registry);
    assert!(!editor.adds_into_selected(&registry));
    assert!(matches!(
        editor.apply(add(C, "text"), &registry),
        Effect::Changed
    ));
    assert_eq!(editor.layout().root_widgets(), &vec![A, C]);
    assert_eq!(editor.history().len(), 4);

    editor.apply(Command::Select(Some(99)), &registry);
    assert!(matches!(
        editor.apply(add(4, "text"), &registry),
        Effect::Changed
    ));
    assert_eq!(editor.layout().root_widgets(), &vec![A, C, 4]);

    editor.apply(Command::Select(Some(A)), &registry);
    assert!(!editor.adds_into_selected(&WidgetRegistry::new()));
    assert!(matches!(
        editor.apply(add(5, "text"), &WidgetRegistry::new()),
        Effect::Changed
    ));
    assert_eq!(editor.layout().root_widgets(), &vec![A, C, 4, 5]);
}

#[test]
fn failed_edits_record_nothing() {
    let registry = WidgetRegistry::with_standard_widgets();
    let mut editor = EditorState::new(None, None);
    editor.apply(add(A, "text"), &registry);
    let snapshots = editor.history().len();
    assert!(matches!(
        editor.apply(Command::Delete(77), &registry),
        Effect::Nothing
    ));
    assert!(matches!(
        editor.apply(Command::MoveUp(77), &registry),
        Effect::Nothing
    ));
    assert!(matches!(
        editor.apply(Command::MoveDown(77), &registry),
        Effect::Nothing
    ));
    assert!(matches!(
        editor.apply(Command::Configure(77, WidgetConfig::new("x")), &registry),
        Effect::Nothing
    ));
    assert!(matches!(
        editor.apply(drop_of(B, "text", Some(77), 0), &registry),
        Effect::Nothing
    ));
    assert!(matches!(
        editor.apply(drop_of(B, "no.such.type", None, 0), &registry),
        Effect::Nothing
    ));
    match editor.apply(Command::Import("{".to_string()), &registry) {
        Effect::ImportFailed(Error::DeserializationError(detail)) => assert!(!detail.is_empty()),
        other => panic!("unexpected: {:?}", other),
    }
    assert_eq!(editor.history().len(), snapshots);
    assert_eq!(editor.layout().root_widgets(), &vec![A]);
}

#[test]
fn delete_and_import_drop_the_selection() {
    let registry = WidgetRegistry::with_standard_widgets();
    let mut editor = EditorState::new(None, None);
    editor.apply(add(A, "text"), &registry);
    editor.apply(Command::Select(Some(A)), &registry);
    assert!(matches!(
        editor.apply(Command::Delete(A), &registry),
        Effect::Changed
    ));
    assert_eq!(editor.selected(), None);
    assert!(editor.layout().root_widgets().is_empty());

    editor.apply(add(B, "text"), &registry);
    editor.apply(Command::Select(Some(B)), &registry);
    let json = Layout::new().to_json().unwrap();
    assert!(matches!(
        editor.apply(Command::Import(json), &registry),
        Effect::Changed
    ));
    assert_eq!(editor.selected(), None);
    assert!(editor.layout().root_widgets().is_empty());
    assert!(editor.can_undo());
}

#[test]
fn drop_move_and_configure_are_recorded() {
    let registry = WidgetRegistry::with_standard_widgets();
    let mut editor = EditorState::new(None, None);
    editor.apply(add(A, "text"), &registry);
    assert!(matches!(
        editor.apply(drop_of(B, "basic.button", None, 0), &registry),
        Effect::Changed
    ));
    assert_eq!(editor.layout().root_widgets(), &vec![B, A]);
    let dropped = editor.layout().get_widget(&B).unwrap();
    assert_eq!(dropped.config.widget_type, "basic.button");
    assert_eq!(
        dropped.config.get_property("text").and_then(|v| v.as_str()),
        Some("Click me")
    );
    assert!(matches!(
        editor.apply(drop_of(C, "text", Some(A), 5), &registry),
        Effect::Changed
    ));
    assert_eq!(editor.layout().get_widget(&A).unwrap().children, vec![C]);
    assert!(matches!(
        editor.apply(Command::MoveUp(A), &registry),
        Effect::Changed
    ));
    assert_eq!(editor.layout().root_widgets(), &vec![A, B]);
    assert!(matches!(
        editor.apply(Command::MoveDown(A), &registry),
        Effect::Changed
    ));
    assert_eq!(editor.layout().root_widgets(), &vec![B, A]);
    assert!(matches!(
        editor.apply(
            Command::Configure(A, WidgetConfig::new("container.row")),
            &registry
        ),
        Effect::Changed
    ));
    assert_eq!(
        editor.layout().get_widget(&A).unwrap().config.widget_type,
        "container.row"
    );
    assert_eq!(editor.history().len(), 7);
}

#[test]
fn undo_redo_and_clear() {
    let registry = WidgetRegistry::new();
    let mut editor = EditorState::new(None, None);
    assert!(matches!(
        editor.apply(Command::Undo, &registry),
        Effect::Nothing
    ));
    assert!(matches!(
        editor.apply(Command::Redo, &registry),
        Effect::Nothing
    ));
    editor.apply(add(A, "text"), &registry);
    editor.apply(add(B, "text"), &registry);
    assert!(matches!(
        editor.apply(Command::Undo, &registry),
        Effect::Restored
    ));
    assert_eq!(editor.layout().root_widgets(), &vec![A]);
    assert!(editor.can_redo());
    assert!(matches!(
        editor.apply(Command::Redo, &registry),
        Effect::Restored
    ));
    assert_eq!(editor.layout().root_widgets(), &vec![A, B]);

    editor.apply(Command::Select(Some(A)), &registry);
    assert!(matches!(
        editor.apply(Command::Clear, &registry),
        Effect::Cleared
    ));
    assert!(editor.layout().root_widgets().is_empty());
    assert_eq!(editor.history().len(), 1);
    assert_eq!(editor.selected(), None);
    assert!(!editor.can_undo());
}

#[test]
fn leaving_edit_mode_drops_the_selection() {
    let registry = WidgetRegistry::new();
    let mut editor = EditorState::new(None, None);
    editor.apply(add(A, "text"), &registry);
    editor.apply(Command::Select(Some(A)), &registry);
    assert!(matches!(
        editor.apply(Command::ToggleEditMode, &registry),
        Effect::Nothing
    ));
    assert!(!editor.edit_mode());
    assert_eq!(editor.selected(), None);
    editor.apply(Command::Select(Some(A)), &registry);
    editor.apply(Command::ToggleEditMode, &registry);
    assert!(editor.edit_mode());
    assert_eq!(editor.selected(), Some(A));
}

#[test]
fn shortcuts_stand_for_undo_and_redo() {
    let registry = WidgetRegistry::new();
    let mut editor = EditorState::new(None, None);
    assert!(editor.shortcut(true, false, "z").is_none());
    editor.apply(add(A, "text"), &registry);
    assert!(matches!(
        editor.shortcut(true, false, "z"),
        Some(Command::Undo)
    ));
    assert!(editor.shortcut(false, false, "z").is_none());
    assert!(editor.shortcut(true, true, "z").is_none());
    assert!(editor.shortcut(true, false, "y").is_none());
    editor.apply(Command::Undo, &registry);
    assert!(matches!(
        editor.shortcut(true, false, "y"),
        Some(Command::Redo)
    ));
    assert!(matches!(
        editor.shortcut(true, true, "Z"),
        Some(Command::Redo)
    ));
    assert!(matches!(
        editor.shortcut(true, true, "y"),
        Some(Command::Redo)
    ));
    assert!(editor.shortcut(true, false, "Z").is_none());
    assert!(editor.shortcut(true, false, "x").is_none());
    assert!(editor.shortcut(true, false, "z").is_none());
}
