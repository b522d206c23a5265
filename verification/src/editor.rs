//! The decisions of the editor: what each command makes of the edited
//! document, its history and the selection, and what the surrounding
//! program has to do afterwards.

use crate::codec::{loaded, parse_document};
use crate::error::{Error, ErrorView};
use crate::history::{History, HistoryView};
use crate::model::DocView;
use crate::registry::{lookup, Entries, WidgetRegistry};
use crate::serialization::Layout;
use crate::widget::{ConfigView, WidgetConfig, WidgetId};
use vstd::prelude::*;

verus! {

/// A request to the editor.  Ids of new widgets are made by the caller and
/// must be fresh.
#[derive(Debug)]
pub enum Command {
    /// Add a widget from the palette: as the last child of the selected
    /// widget where its type takes children, else as the last root.
    AddWidget { id: WidgetId, config: WidgetConfig },
    /// Select a widget, or nothing.
    Select(Option<WidgetId>),
    /// Remove a widget with everything below it.
    Delete(WidgetId),
    /// Replace the configuration of a widget.
    Configure(WidgetId, WidgetConfig),
    /// Move a widget one place towards the front of its list.
    MoveUp(WidgetId),
    /// Move a widget one place towards the back of its list.
    MoveDown(WidgetId),
    /// Drop a new widget of a registered type, with the configuration that
    /// the type starts with, at a position among the children of `parent`,
    /// or among the roots.
    Drop { id: WidgetId, widget_type: String, parent: Option<WidgetId>, position: usize },
    /// Replace the document by one read from JSON text.
    Import(String),
    /// Switch between editing and preview.
    ToggleEditMode,
    /// Start again from an empty document.
    Clear,
    /// Go back one snapshot.
    Undo,
    /// Go forward one snapshot.
    Redo,
}

/// The content of a [`Command`].
pub enum CommandView {
    AddWidget { id: u128, config: ConfigView },
    Select(Option<u128>),
    Delete(u128),
    Configure(u128, ConfigView),
    MoveUp(u128),
    MoveDown(u128),
    Drop { id: u128, widget_type: Seq<char>, parent: Option<u128>, position: nat },
    Import(Seq<char>),
    ToggleEditMode,
    Clear,
    Undo,
    Redo,
}

impl View for Command {
    type V = CommandView;

    open spec fn view(&self) -> CommandView {
        match self {
            Command::AddWidget { id, config } => CommandView::AddWidget {
                id: *id,
                config: config@,
            },
            Command::Select(selected) => CommandView::Select(*selected),
            Command::Delete(id) => CommandView::Delete(*id),
            Command::Configure(id, config) => CommandView::Configure(*id, config@),
            Command::MoveUp(id) => CommandView::MoveUp(*id),
            Command::MoveDown(id) => CommandView::MoveDown(*id),
            Command::Drop { id, widget_type, parent, position } => CommandView::Drop {
                id: *id,
                widget_type: widget_type@,
                parent: *parent,
                position: *position as nat,
            },
            Command::Import(json) => CommandView::Import(json@),
            Command::ToggleEditMode => CommandView::ToggleEditMode,
            Command::Clear => CommandView::Clear,
            Command::Undo => CommandView::Undo,
            Command::Redo => CommandView::Redo,
        }
    }
}

/// What the surrounding program has to do after a command.
#[derive(Debug)]
pub enum Effect {
    /// Nothing: the document is what it was.
    Nothing,
    /// The document was edited: announce it and save it.
    Changed,
    /// Another snapshot became current: save it.
    Restored,
    /// The editor started again: clear what was saved, then announce and
    /// save the empty document.
    Cleared,
    /// The text was not imported: report the error.
    ImportFailed(Error),
}

/// The content of an [`Effect`].
pub enum EffectView {
    Nothing,
    Changed,
    Restored,
    Cleared,
    ImportFailed(ErrorView),
}

impl View for Effect {
    type V = EffectView;

    open spec fn view(&self) -> EffectView {
        match self {
            Effect::Nothing => EffectView::Nothing,
            Effect::Changed => EffectView::Changed,
            Effect::Restored => EffectView::Restored,
            Effect::Cleared => EffectView::Cleared,
            Effect::ImportFailed(e) => EffectView::ImportFailed(e@),
        }
    }
}

/// The content of the editor's state.
pub struct EditorView {
    pub history: HistoryView,
    pub selected: Option<u128>,
    pub edit_mode: bool,
}

impl EditorView {
    /// The state in which the editor starts on a document.
    pub open spec fn start(doc: DocView) -> EditorView {
        EditorView { history: HistoryView::fresh(doc), selected: None, edit_mode: true }
    }

    /// The document that is edited: the current snapshot.
    pub open spec fn layout(self) -> DocView {
        self.history.current()
    }

    /// The state after the edit made `doc` of the document.
    pub open spec fn record(self, doc: DocView) -> EditorView {
        EditorView { history: self.history.push(doc), ..self }
    }

    /// The state after an edit that may have failed: only a successful
    /// edit is recorded.
    pub open spec fn attempt(self, outcome: Result<DocView, ErrorView>) -> EditorView {
        match outcome {
            Ok(doc) => self.record(doc),
            Err(_) => self,
        }
    }

    /// A new widget from the palette goes into the selected widget: one is
    /// selected, it is in the document, and its type is registered as one
    /// that takes children.
    pub open spec fn adds_into_selected(self, registry: Entries) -> bool {
        &&& self.selected is Some
        &&& self.layout().nodes.contains_key(self.selected->Some_0)
        &&& lookup(registry, self.layout().nodes[self.selected->Some_0].config.widget_type)
            matches Some(info) && info.can_have_children
    }

    /// What an edit command makes of the document, where the command is
    /// one.  A drop of a type that is not registered is none.
    pub open spec fn edit(self, command: CommandView, registry: Entries) -> Option<
        Result<DocView, ErrorView>,
    > {
        match command {
            CommandView::AddWidget { id, config } => Some(
                if self.adds_into_selected(registry) {
                    self.layout().add_child_widget(self.selected->Some_0, id, config)
                } else {
                    Ok(self.layout().add_root_widget(id, config))
                },
            ),
            CommandView::Delete(id) => Some(self.layout().remove_widget(id)),
            CommandView::Configure(id, config) => Some(self.layout().set_config(id, config)),
            CommandView::MoveUp(id) => Some(self.layout().move_widget_up(id)),
            CommandView::MoveDown(id) => Some(self.layout().move_widget_down(id)),
            CommandView::Drop { id, widget_type, parent, position } => match lookup(
                registry,
                widget_type,
            ) {
                Some(info) => Some(
                    match parent {
                        Some(parent_id) => self.layout().insert_child_widget(
                            parent_id,
                            id,
                            info.default_config,
                            position as int,
                        ),
                        None => Ok(
                            self.layout().insert_root_widget(
                                id,
                                info.default_config,
                                position as int,
                            ),
                        ),
                    },
                ),
                None => None,
            },
            _ => None,
        }
    }

    /// The valid document that a text describes, if it describes one.
    pub open spec fn imported(json: Seq<char>) -> Option<DocView> {
        match loaded(parse_document(json)) {
            Ok(doc) => Some(doc),
            Err(_) => None,
        }
    }

    /// The state after a command.  An edit that succeeds is recorded as a
    /// new snapshot; an edit that fails changes nothing.
    pub open spec fn step(self, command: CommandView, registry: Entries) -> EditorView {
        match command {
            CommandView::Select(selected) => EditorView { selected, ..self },
            CommandView::ToggleEditMode => EditorView {
                edit_mode: !self.edit_mode,
                selected: if self.edit_mode {
                    None
                } else {
                    self.selected
                },
                ..self
            },
            CommandView::Clear => EditorView {
                history: HistoryView::fresh(DocView::empty()),
                selected: None,
                ..self
            },
            CommandView::Undo => EditorView { history: self.history.undo(), ..self },
            CommandView::Redo => EditorView { history: self.history.redo(), ..self },
            CommandView::Import(json) => match Self::imported(json) {
                Some(doc) => EditorView { selected: None, ..self.record(doc) },
                None => self,
            },
            CommandView::Delete(id) => match self.layout().remove_widget(id) {
                Ok(doc) => EditorView { selected: None, ..self.record(doc) },
                Err(_) => self,
            },
            _ => match self.edit(command, registry) {
                Some(outcome) => self.attempt(outcome),
                None => self,
            },
        }
    }

    /// The command that a key press stands for.
    pub open spec fn shortcut(self, ctrl_or_meta: bool, shift: bool, key: Seq<char>) -> Option<
        CommandView,
    > {
        if ctrl_or_meta && !shift && key == "z"@ {
            if self.history.can_undo() {
                Some(CommandView::Undo)
            } else {
                None
            }
        } else if ctrl_or_meta && (key == "y"@ || (shift && key == "Z"@)) {
            if self.history.can_redo() {
                Some(CommandView::Redo)
            } else {
                None
            }
        } else {
            None
        }
    }

    /// The effect is the one that the command has in this state.
    pub open spec fn answers(self, command: CommandView, registry: Entries, effect: EffectView)
        -> bool {
        match command {
            CommandView::Select(_) => effect is Nothing,
            CommandView::ToggleEditMode => effect is Nothing,
            CommandView::Clear => effect is Cleared,
            CommandView::Undo => if self.history.can_undo() {
                effect is Restored
            } else {
                effect is Nothing
            },
            CommandView::Redo => if self.history.can_redo() {
                effect is Restored
            } else {
                effect is Nothing
            },
            CommandView::Import(json) => match loaded(parse_document(json)) {
                Ok(_) => effect is Changed,
                Err(e) => effect == EffectView::ImportFailed(e),
            },
            _ => if self.edit(command, registry) matches Some(Ok(_)) {
                effect is Changed
            } else {
                effect is Nothing
            },
        }
    }
}

/// The state of the editor: the history, whose current snapshot is the
/// edited document, the selection and the mode.
#[derive(Debug)]
pub struct EditorState {
    history: History,
    selected: Option<WidgetId>,
    edit_mode: bool,
}

impl View for EditorState {
    type V = EditorView;

    closed spec fn view(&self) -> EditorView {
        EditorView { history: self.history@, selected: self.selected, edit_mode: self.edit_mode }
    }
}

impl Clone for EditorState {
    fn clone(&self) -> (r: Self)
        ensures
            r@ == self@,
    {
        EditorState {
            history: self.history.clone(),
            selected: self.selected,
            edit_mode: self.edit_mode,
        }
    }
}

impl EditorState {
    /// The editor as it starts: on the layout that it is given, else on the
    /// layout that was saved, else on an empty layout; nothing selected,
    /// editing.
    pub fn new(initial: Option<Layout>, saved: Option<Layout>) -> (r: Self)
        ensures
            r@ == EditorView::start(
                match initial {
                    Some(layout) => layout@,
                    None => match saved {
                        Some(layout) => layout@,
                        None => DocView::empty(),
                    },
                },
            ),
    {
        let layout = match initial {
            Some(layout) => layout,
            None => match saved {
                Some(layout) => layout,
                None => Layout::new(),
            },
        };
        EditorState { history: History::new(layout), selected: None, edit_mode: true }
    }

    /// The edited document.
    pub fn layout(&self) -> (r: &Layout)
        ensures
            r@ == self@.layout(),
            self@.history.wf(),
    {
        self.history.current()
    }

    /// The history.
    pub fn history(&self) -> (r: &History)
        ensures
            r@ == self@.history,
    {
        &self.history
    }

    /// The selected widget, if one is selected.
    pub fn selected(&self) -> (r: Option<WidgetId>)
        ensures
            r == self@.selected,
    {
        self.selected
    }

    /// Whether the editor is editing rather than previewing.
    pub fn edit_mode(&self) -> (r: bool)
        ensures
            r == self@.edit_mode,
    {
        self.edit_mode
    }

    /// Whether there is a snapshot to go back to.
    pub fn can_undo(&self) -> (r: bool)
        ensures
            r == self@.history.can_undo(),
    {
        self.history.can_undo()
    }

    /// Whether there is a snapshot to go forward to.
    pub fn can_redo(&self) -> (r: bool)
        ensures
            r == self@.history.can_redo(),
    {
        self.history.can_redo()
    }

    /// The command that a key press stands for: undo for Ctrl or Cmd with
    /// `z`, redo for Ctrl or Cmd with `y` or with Shift and `Z`, each only
    /// where there is a snapshot to go to.
    pub fn shortcut(&self, ctrl_or_meta: bool, shift: bool, key: &str) -> (r: Option<Command>)
        ensures
            match self@.shortcut(ctrl_or_meta, shift, key@) {
                Some(command) => r is Some && r->Some_0@ == command,
                None => r is None,
            },
    {
        let pressed = key.to_owned();
        if ctrl_or_meta && !shift && pressed == "z".to_owned() {
            if self.history.can_undo() {
                Some(Command::Undo)
            } else {
                None
            }
        } else if ctrl_or_meta && (pressed == "y".to_owned() || (shift && pressed
            == "Z".to_owned())) {
            if self.history.can_redo() {
                Some(Command::Redo)
            } else {
                None
            }
        } else {
            None
        }
    }

    /// Records the outcome of an edit on a copy of the document: a new
    /// snapshot where it succeeded, nothing where it failed.
    fn settle(&mut self, layout: Layout, outcome: Result<(), Error>) -> (r: Effect)
        ensures
            final(self)@ == (match outcome {
                Ok(_) => old(self)@.record(layout@),
                Err(_) => old(self)@,
            }),
            r@ == (match outcome {
                Ok(_) => EffectView::Changed,
                Err(_) => EffectView::Nothing,
            }),
    {
        match outcome {
            Ok(_) => {
                self.history.push(layout);
                Effect::Changed
            },
            Err(_) => Effect::Nothing,
        }
    }

    /// Whether a new widget from the palette goes into the selected
    /// widget.
    pub fn adds_into_selected(&self, registry: &WidgetRegistry) -> (r: bool)
        ensures
            r == self@.adds_into_selected(registry@),
    {
        match self.selected {
            Some(parent_id) => match self.history.current().get_widget(&parent_id) {
                Some(node) => match registry.create_widget(node.config.widget_type.as_str()) {
                    Ok(info) => info.can_have_children,
                    Err(_) => false,
                },
                None => false,
            },
            None => false,
        }
    }

    /// Carries out a command and says what is left to do.
    pub fn apply(&mut self, command: Command, registry: &WidgetRegistry) -> (r: Effect)
        ensures
            final(self)@ == old(self)@.step(command@, registry@),
            old(self)@.answers(command@, registry@, r@),
            final(self)@.history.wf(),
    {
        let effect = match command {
            Command::Select(selected) => {
                self.selected = selected;
                Effect::Nothing
            },
            Command::ToggleEditMode => {
                if self.edit_mode {
                    self.selected = None;
                }
                self.edit_mode = !self.edit_mode;
                Effect::Nothing
            },
            Command::Clear => {
                self.history.reset(Layout::new());
                self.selected = None;
                Effect::Cleared
            },
            Command::Undo => match self.history.undo() {
                Some(_) => Effect::Restored,
                None => Effect::Nothing,
            },
            Command::Redo => match self.history.redo() {
                Some(_) => Effect::Restored,
                None => Effect::Nothing,
            },
            Command::AddWidget { id, config } => {
                let into_selected = self.adds_into_selected(registry);
                let mut layout = self.history.current().clone();
                let outcome = match self.selected {
                    Some(parent_id) if into_selected => layout.add_child_widget(
                        parent_id,
                        id,
                        config,
                    ),
                    _ => {
                        layout.add_root_widget(id, config);
                        Ok(())
                    },
                };
                self.settle(layout, outcome)
            },
            Command::Delete(id) => {
                let mut layout = self.history.current().clone();
                let outcome = layout.remove_widget(&id);
                let removed = outcome.is_ok();
                let effect = self.settle(layout, outcome);
                if removed {
                    self.selected = None;
                }
                effect
            },
            Command::Configure(id, config) => {
                let mut layout = self.history.current().clone();
                let outcome = layout.set_config(&id, config);
                self.settle(layout, outcome)
            },
            Command::MoveUp(id) => {
                let mut layout = self.history.current().clone();
                let outcome = layout.move_widget_up(&id);
                self.settle(layout, outcome)
            },
            Command::MoveDown(id) => {
                let mut layout = self.history.current().clone();
                let outcome = layout.move_widget_down(&id);
                self.settle(layout, outcome)
            },
            Command::Drop { id, widget_type, parent, position } => {
                match registry.create_widget(widget_type.as_str()) {
                    Ok(info) => {
                        let config = info.default_config.clone();
                        let mut layout = self.history.current().clone();
                        let outcome = match parent {
                            Some(parent_id) => layout.insert_child_widget(
                                parent_id,
                                id,
                                config,
                                position,
                            ),
                            None => {
                                layout.insert_root_widget(id, config, position);
                                Ok(())
                            },
                        };
                        self.settle(layout, outcome)
                    },
                    Err(_) => Effect::Nothing,
                }
            },
            Command::Import(json) => {
                match Layout::from_json(json.as_str()) {
                    Ok(layout) => {
                        self.history.push(layout);
                        self.selected = None;
                        Effect::Changed
                    },
                    Err(e) => Effect::ImportFailed(e),
                }
            },
        };
        let _ = self.history.cursor();
        effect
    }
}

impl EditorView {
    /// The history is well formed and every snapshot is a valid document.
    pub open spec fn sound(self) -> bool {
        &&& self.history.wf()
        &&& forall|i: int|
            0 <= i < self.history.entries.len() ==> (#[trigger] self.history.entries[i]).valid()
    }

    /// The command brings no id into the document that is in it already.
    pub open spec fn brings_fresh_id(self, command: CommandView) -> bool {
        match command {
            CommandView::AddWidget { id, .. } => !self.layout().nodes.contains_key(id),
            CommandView::Drop { id, .. } => !self.layout().nodes.contains_key(id),
            _ => true,
        }
    }
}

/// A command that leaves nothing to do but, at most, to report an error
/// has recorded no snapshot: the history is what it was.
pub proof fn lemma_failure_records_nothing(
    state: EditorView,
    command: CommandView,
    registry: Entries,
    effect: EffectView,
)
    requires
        state.answers(command, registry, effect),
        effect is Nothing || effect is ImportFailed,
        !(command is Undo) && !(command is Redo),
    ensures
        state.step(command, registry).history == state.history,
{
}

/// A command after which the document is to be announced has recorded
/// exactly one snapshot, which is now current.
pub proof fn lemma_change_records_once(
    state: EditorView,
    command: CommandView,
    registry: Entries,
    effect: EffectView,
)
    requires
        state.history.wf(),
        state.answers(command, registry, effect),
        effect is Changed,
    ensures
        state.step(command, registry).history == state.history.push(
            state.step(command, registry).layout(),
        ),
{
    let doc: DocView = match command {
        CommandView::Import(json) => EditorView::imported(json)->Some_0,
        _ => state.edit(command, registry)->Some_0->Ok_0,
    };
    crate::history::lemma_push(state.history, doc);
}

/// Where every snapshot is a valid document and new widgets come with
/// fresh ids, every snapshot is a valid document after any command.
pub proof fn lemma_step_sound(state: EditorView, command: CommandView, registry: Entries)
    requires
        state.sound(),
        state.brings_fresh_id(command),
    ensures
        state.step(command, registry).sound(),
{
    let doc = state.layout();
    let after = state.step(command, registry);
    match command {
        CommandView::Select(_) => {},
        CommandView::ToggleEditMode => {},
        CommandView::Clear => {
            crate::edits::lemma_empty_valid();
        },
        CommandView::Undo => {},
        CommandView::Redo => {},
        CommandView::Import(json) => {
            if EditorView::imported(json) is Some {
                lemma_recorded_sound(state, EditorView::imported(json)->Some_0);
            }
        },
        CommandView::AddWidget { id, config } => {
            if state.adds_into_selected(registry) {
                crate::edits::lemma_add_child_valid(doc, state.selected->Some_0, id, config, 0);
            } else {
                crate::edits::lemma_add_root_valid(doc, id, config, 0);
            }
            lemma_recorded_sound(state, state.edit(command, registry)->Some_0->Ok_0);
        },
        CommandView::Delete(id) => {
            if doc.nodes.contains_key(id) {
                crate::removal::lemma_remove_cascades(doc, id);
                lemma_recorded_sound(state, doc.pruned(id));
            }
        },
        CommandView::Configure(id, config) => {
            if doc.nodes.contains_key(id) {
                crate::edits::lemma_set_config_valid(doc, id, config);
                lemma_recorded_sound(state, doc.set_config(id, config)->Ok_0);
            }
        },
        CommandView::MoveUp(id) => {
            if doc.nodes.contains_key(id) {
                crate::edits::lemma_move_valid(doc, id);
                lemma_recorded_sound(state, doc.move_widget_up(id)->Ok_0);
            }
        },
        CommandView::MoveDown(id) => {
            if doc.nodes.contains_key(id) {
                crate::edits::lemma_move_valid(doc, id);
                lemma_recorded_sound(state, doc.move_widget_down(id)->Ok_0);
            }
        },
        CommandView::Drop { id, widget_type, parent, position } => if lookup(
            registry,
            widget_type,
        ) is Some {
            let config = lookup(registry, widget_type)->Some_0.default_config;
            match parent {
                Some(parent_id) => {
                    if doc.nodes.contains_key(parent_id) {
                        crate::edits::lemma_add_child_valid(
                            doc,
                            parent_id,
                            id,
                            config,
                            position as int,
                        );
                        lemma_recorded_sound(
                            state,
                            doc.insert_child_widget(parent_id, id, config, position as int)->Ok_0,
                        );
                    }
                },
                None => {
                    crate::edits::lemma_add_root_valid(doc, id, config, position as int);
                    lemma_recorded_sound(
                        state,
                        doc.insert_root_widget(id, config, position as int),
                    );
                },
            }
        },
    }
}

/// Recording a valid document keeps every snapshot valid.
pub proof fn lemma_recorded_sound(state: EditorView, doc: DocView)
    requires
        state.sound(),
        doc.valid(),
    ensures
        state.record(doc).sound(),
        (EditorView { selected: None, ..state.record(doc) }).sound(),
{
    crate::history::lemma_push(state.history, doc);
    let kept = state.history.entries.take(state.history.cursor + 1).push(doc);
    assert forall|i: int| 0 <= i < kept.len() implies (#[trigger] kept[i]).valid() by {
        if i < kept.len() - 1 {
            assert(kept[i] == state.history.entries[i]);
        }
    }
    let after = state.record(doc).history.entries;
    assert forall|i: int| 0 <= i < after.len() implies (#[trigger] after[i]).valid() by {
        if kept.len() > crate::history::MAX_HISTORY {
            assert(after[i] == kept[i + 1]);
        } else {
            assert(after[i] == kept[i]);
        }
    }
}

} // verus!
