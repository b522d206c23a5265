use yew_wysiwyg::{History, Layout, WidgetConfig, WidgetId, MAX_HISTORY};

fn layout_with_roots(count: u128) -> Layout {
    let mut layout = Layout::new();
    let mut id: WidgetId = 0;
    while id < count {
        layout.add_root_widget(id, WidgetConfig::new("text"));
        id += 1;
    }
    layout
}

#[test]
fn fresh_history_holds_the_initial_document() {
    let mut history = History::new(layout_with_roots(3));
    assert_eq!(MAX_HISTORY, 50);
    assert_eq!(history.len(), 1);
    assert_eq!(history.cursor(), 0);
    assert!(!history.can_undo());
    assert!(!history.can_redo());
    assert_eq!(history.current().root_widgets().len(), 3);
    assert!(history.undo().is_none());
    assert!(history.redo().is_none());
    assert_eq!(history.len(), 1);
    assert_eq!(history.cursor(), 0);
}

#[test]
fn sixty_pushes_keep_fifty_snapshots() {
    let mut history = History::new(layout_with_roots(0));
    for n in 1..=60u128 {
        history.push(layout_with_roots(n));
        assert!(history.len() <= 50);
        assert_eq!(history.cursor(), history.len() - 1);
        assert_eq!(history.current().root_widgets().len() as u128, n);
    }
    assert_eq!(history.len(), 50);
    let steps = history.len() - 1;
    for _ in 0..steps {
        assert!(history.undo().is_some());
    }
    assert_eq!(history.cursor(), 0);
    assert_eq!(history.current().root_widgets().len(), 11);
    assert!(!history.can_undo());
    assert!(history.undo().is_none());
    assert_eq!(history.current().root_widgets().len(), 11);
}

#[test]
fn undo_then_redo_restores() {
    let mut history = History::new(layout_with_roots(0));
    for n in 1..=5u128 {
        history.push(layout_with_roots(n));
    }
    assert_eq!(history.len(), 6);
    for n in (0..5usize).rev() {
        let layout = history.undo().unwrap();
        assert_eq!(layout.root_widgets().len(), n);
    }
    assert_eq!(history.current().root_widgets().len(), 0);
    assert!(history.can_redo());
    for n in 1..=5usize {
        let layout = history.redo().unwrap();
        assert_eq!(layout.root_widgets().len(), n);
    }
    assert_eq!(history.current().root_widgets().len(), 5);
    assert!(!history.can_redo());
}

#[test]
fn forty_nine_pushes_can_all_be_undone_but_not_fifty() {
    let mut history = History::new(layout_with_roots(100));
    for n in 1..=49u128 {
        history.push(layout_with_roots(n));
    }
    for _ in 0..49 {
        history.undo();
    }
    assert_eq!(history.current().root_widgets().len(), 100);

    let mut history = History::new(layout_with_roots(100));
    for n in 1..=50u128 {
        history.push(layout_with_roots(n));
    }
    for _ in 0..50 {
        history.undo();
    }
    assert_eq!(history.current().root_widgets().len(), 1);
    for _ in 0..50 {
        history.redo();
    }
    assert_eq!(history.current().root_widgets().len(), 50);
}

#[test]
fn push_after_undo_drops_the_redoable_future() {
    let mut history = History::new(layout_with_roots(0));
    history.push(layout_with_roots(1));
    history.push(layout_with_roots(2));
    history.push(layout_with_roots(3));
    history.undo();
    history.undo();
    assert_eq!(history.cursor(), 1);
    history.push(layout_with_roots(9));
    assert_eq!(history.len(), 3);
    assert_eq!(history.cursor(), 2);
    assert!(!history.can_redo());
    assert_eq!(history.current().root_widgets().len(), 9);
    assert_eq!(history.undo().unwrap().root_widgets().len(), 1);
    assert_eq!(history.undo().unwrap().root_widgets().len(), 0);
}

#[test]
fn reset_starts_again() {
    let mut history = History::new(layout_with_roots(2));
    history.push(layout_with_roots(3));
    history.reset(Layout::new());
    assert_eq!(history.len(), 1);
    assert_eq!(history.cursor(), 0);
    assert!(history.current().root_widgets().is_empty());
}
