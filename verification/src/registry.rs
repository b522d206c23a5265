//! The catalogue of widget types: what the editor has to know of each type,
//! kept in the order of registration.

use crate::error::{Error, ErrorView};
use crate::model::DocView;
use crate::serialization::Layout;
use crate::strmap::{distinct_keys, has_key};
use crate::widget::{texts, ConfigView, WidgetConfig, WidgetId};
use indexmap::IndexMap;
use vstd::prelude::*;
use vstd::string::StringExecFns;

verus! {

/// `indexmap::IndexMap`: a hash map that keeps its entries in the order in
/// which their keys were first inserted.
#[verifier::external_type_specification]
#[verifier::external_body]
#[verifier::reject_recursive_types(K)]
#[verifier::reject_recursive_types(V)]
#[verifier::reject_recursive_types(S)]
pub struct ExIndexMap<K, V, S>(IndexMap<K, V, S>);

/// What the editor has to know of a widget type.
#[derive(Debug, PartialEq)]
pub struct WidgetInfo {
    /// The type tag that documents carry.
    pub widget_type: String,
    /// A human-readable name.
    pub display_name: String,
    /// A description for the palette.
    pub description: String,
    /// Whether widgets of this type take children.
    pub can_have_children: bool,
    /// The configuration that a new widget of this type starts with.
    pub default_config: WidgetConfig,
}

/// The content of a [`WidgetInfo`].
pub struct WidgetInfoView {
    pub widget_type: Seq<char>,
    pub display_name: Seq<char>,
    pub description: Seq<char>,
    pub can_have_children: bool,
    pub default_config: ConfigView,
}

impl View for WidgetInfo {
    type V = WidgetInfoView;

    open spec fn view(&self) -> WidgetInfoView {
        WidgetInfoView {
            widget_type: self.widget_type@,
            display_name: self.display_name@,
            description: self.description@,
            can_have_children: self.can_have_children,
            default_config: self.default_config@,
        }
    }
}

impl Clone for WidgetInfo {
    fn clone(&self) -> (r: Self)
        ensures
            r@ == self@,
    {
        WidgetInfo {
            widget_type: self.widget_type.clone(),
            display_name: self.display_name.clone(),
            description: self.description.clone(),
            can_have_children: self.can_have_children,
            default_config: self.default_config.clone(),
        }
    }
}

impl WidgetInfo {
    /// The description of a type that takes no children, is named by its
    /// tag, and starts with an empty configuration.
    pub fn new(widget_type: &str) -> (r: Self)
        ensures
            r@ == (WidgetInfoView {
                widget_type: widget_type@,
                display_name: widget_type@,
                description: Seq::empty(),
                can_have_children: false,
                default_config: ConfigView::empty(widget_type@),
            }),
    {
        WidgetInfo {
            widget_type: widget_type.to_owned(),
            display_name: widget_type.to_owned(),
            description: String::new(),
            can_have_children: false,
            default_config: WidgetConfig::new(widget_type),
        }
    }
}

/// The entries of a catalogue.
pub type Entries = Seq<(Seq<char>, WidgetInfoView)>;

/// The entries that an `IndexMap` holds, in its order: each key's text with
/// the content of its value.
pub uninterp spec fn entries_of(map: IndexMap<String, WidgetInfo>) -> Entries;

/// `IndexMap::new`: a map without entries.
#[verifier::external_body]
fn map_new() -> (r: IndexMap<String, WidgetInfo>)
    ensures
        entries_of(r) == Seq::<(Seq<char>, WidgetInfoView)>::empty(),
{
    IndexMap::new()
}

/// `IndexMap::len`: the number of entries.
#[verifier::external_body]
fn map_len(map: &IndexMap<String, WidgetInfo>) -> (r: usize)
    ensures
        r == entries_of(*map).len(),
{
    map.len()
}

/// `IndexMap::contains_key`: whether an entry has the key.
#[verifier::external_body]
fn map_contains(map: &IndexMap<String, WidgetInfo>, key: &str) -> (r: bool)
    ensures
        r == has_key(entries_of(*map), key@),
{
    map.contains_key(key)
}

/// `IndexMap::get_index_of`: the place of the entry with the key, if there
/// is one.
#[verifier::external_body]
fn map_index_of(map: &IndexMap<String, WidgetInfo>, key: &str) -> (r: Option<usize>)
    ensures
        match r {
            Some(i) => i < entries_of(*map).len() && entries_of(*map)[i as int].0 == key@,
            None => !has_key(entries_of(*map), key@),
        },
{
    map.get_index_of(key)
}

/// `IndexMap::get_index`: the entry at a place.
#[verifier::external_body]
fn map_entry(map: &IndexMap<String, WidgetInfo>, index: usize) -> (r: Option<
    (&String, &WidgetInfo),
>)
    ensures
        match r {
            Some(entry) => index < entries_of(*map).len() && (entry.0@, entry.1@) == entries_of(
                *map,
            )[index as int],
            None => index >= entries_of(*map).len(),
        },
{
    map.get_index(index)
}

/// `IndexMap::insert`: a new key goes last with its value; a key that is
/// there keeps its place and has its value replaced.  The value that was
/// replaced comes back.
#[verifier::external_body]
fn map_insert(map: &mut IndexMap<String, WidgetInfo>, key: String, value: WidgetInfo) -> (r: Option<
    WidgetInfo,
>)
    ensures
        !has_key(entries_of(*old(map)), key@) ==> r is None && entries_of(*final(map))
            == entries_of(*old(map)).push((key@, value@)),
        has_key(entries_of(*old(map)), key@) ==> r is Some && exists|i: int|
            0 <= i < entries_of(*old(map)).len() && #[trigger] entries_of(*old(map))[i].0 == key@
                && r->Some_0@ == entries_of(*old(map))[i].1 && entries_of(*final(map))
                == entries_of(*old(map)).update(i, (key@, value@)),
{
    map.insert(key, value)
}

/// `Clone` of `IndexMap`: the same entries in the same order.
#[verifier::external_body]
fn map_clone(map: &IndexMap<String, WidgetInfo>) -> (r: IndexMap<String, WidgetInfo>)
    ensures
        entries_of(r) == entries_of(*map),
{
    map.clone()
}

/// The detail of the error for a type that is registered already.
pub open spec fn already_registered(widget_type: Seq<char>) -> Seq<char> {
    "Widget type '"@ + widget_type + "' is already registered"@
}

/// What registering a type makes of the entries.
pub open spec fn registered(entries: Entries, info: WidgetInfoView) -> Result<Entries, ErrorView> {
    if has_key(entries, info.widget_type) {
        Err(ErrorView::InvalidOperation(already_registered(info.widget_type)))
    } else {
        Ok(entries.push((info.widget_type, info)))
    }
}

/// The entry of a type, where the entries have no type twice.
pub open spec fn lookup(entries: Entries, widget_type: Seq<char>) -> Option<WidgetInfoView> {
    if has_key(entries, widget_type) {
        Some(
            entries[choose|i: int|
                0 <= i < entries.len() && #[trigger] entries[i].0 == widget_type].1,
        )
    } else {
        None
    }
}

/// The name under which a widget of a type is shown: the display name of
/// the type where it is registered, else the type tag.
pub open spec fn shown_name(entries: Entries, widget_type: Seq<char>) -> Seq<char> {
    match lookup(entries, widget_type) {
        Some(info) => info.display_name,
        None => widget_type,
    }
}

/// The path to a widget with the name under which each step is shown.
pub open spec fn breadcrumbs(doc: DocView, entries: Entries, id: u128) -> Seq<(u128, Seq<char>)> {
    doc.path_to(id, doc.nodes.len()).map_values(
        |step: u128| (step, shown_name(entries, doc.nodes[step].config.widget_type)),
    )
}

/// The content of a list of labelled steps.
pub open spec fn steps_view(steps: Seq<(WidgetId, String)>) -> Seq<(u128, Seq<char>)> {
    steps.map_values(|step: (WidgetId, String)| (step.0, step.1@))
}

/// The path from the topmost ancestor of a widget down to the widget, each
/// step with the name under which it is shown: the display name of its type
/// where that is registered, else its type tag.  The path is empty where
/// the widget is not in the layout.
pub fn build_breadcrumb_path(layout: &Layout, registry: &WidgetRegistry, widget_id: &WidgetId) -> (r:
    Vec<(WidgetId, String)>)
    ensures
        steps_view(r@) == breadcrumbs(layout@, registry@, *widget_id),
{
    let path = layout.path_to(widget_id);
    let mut crumbs: Vec<(WidgetId, String)> = Vec::new();
    let mut i: usize = 0;
    while i < path.len()
        invariant
            i <= path.len(),
            path@ == layout@.path_to(*widget_id, layout@.nodes.len()),
            crumbs.len() == i,
            forall|j: int|
                0 <= j < i ==> (#[trigger] crumbs@[j]).0 == path@[j] && crumbs@[j].1@ == shown_name(
                    registry@,
                    layout@.nodes[path@[j]].config.widget_type,
                ),
        decreases path.len() - i,
    {
        let id = path[i];
        let name = match layout.get_widget(&id) {
            Some(node) => match registry.create_widget(node.config.widget_type.as_str()) {
                Ok(info) => info.display_name.clone(),
                Err(_) => node.config.widget_type.clone(),
            },
            None => {
                proof {
                    lemma_path_nodes(layout@, *widget_id, layout@.nodes.len(), i as int);
                }
                String::new()
            },
        };
        crumbs.push((id, name));
        i += 1;
    }
    assert(steps_view(crumbs@) =~= breadcrumbs(layout@, registry@, *widget_id));
    crumbs
}

/// Every step of a path is a node of the document.
pub proof fn lemma_path_nodes(doc: DocView, id: u128, fuel: nat, i: int)
    requires
        0 <= i < doc.path_to(id, fuel).len(),
    ensures
        doc.nodes.contains_key(doc.path_to(id, fuel)[i]),
    decreases fuel,
{
    if doc.nodes[id].parent is Some {
        let above = doc.path_to(doc.nodes[id].parent->Some_0, (fuel - 1) as nat);
        if i < above.len() {
            lemma_path_nodes(doc, doc.nodes[id].parent->Some_0, (fuel - 1) as nat, i);
        }
    }
}

/// The registry of the widget types that the editor offers.
pub struct WidgetRegistry {
    factories: IndexMap<String, WidgetInfo>,
}

impl View for WidgetRegistry {
    type V = Entries;

    closed spec fn view(&self) -> Entries {
        entries_of(self.factories)
    }
}

impl Clone for WidgetRegistry {
    fn clone(&self) -> (r: Self)
        ensures
            r@ == self@,
    {
        proof {
            use_type_invariant(self);
        }
        WidgetRegistry { factories: map_clone(&self.factories) }
    }
}

impl Default for WidgetRegistry {
    fn default() -> (r: Self)
        ensures
            r@ == Seq::<(Seq<char>, WidgetInfoView)>::empty(),
    {
        WidgetRegistry::new()
    }
}

impl WidgetRegistry {
    #[verifier::type_invariant]
    spec fn inv(&self) -> bool {
        distinct_keys(entries_of(self.factories))
    }

    /// A registry without types.
    pub fn new() -> (r: Self)
        ensures
            r@ == Seq::<(Seq<char>, WidgetInfoView)>::empty(),
    {
        WidgetRegistry { factories: map_new() }
    }

    /// Registers a widget type after those that are there.  Fails, and
    /// changes nothing, where the type is registered already.
    pub fn register(&mut self, info: WidgetInfo) -> (r: Result<(), Error>)
        ensures
            match registered(old(self)@, info@) {
                Ok(entries) => r is Ok && final(self)@ == entries,
                Err(e) => r is Err && r->Err_0@ == e && final(self)@ == old(self)@,
            },
            distinct_keys(final(self)@),
    {
        proof {
            use_type_invariant(&*self);
        }
        if map_contains(&self.factories, info.widget_type.as_str()) {
            return Err(
                Error::InvalidOperation(
                    "Widget type '".to_owned().concat(info.widget_type.as_str()).concat(
                        "' is already registered",
                    ),
                ),
            );
        }
        let mut factories = map_new();
        std::mem::swap(&mut factories, &mut self.factories);
        proof {
            crate::strmap::lemma_pairs_push(entries_of(factories), info.widget_type@, info@);
        }
        let key = info.widget_type.clone();
        map_insert(&mut factories, key, info);
        self.factories = factories;
        Ok(())
    }

    /// What is registered for a type tag.  Fails where nothing is.
    pub fn create_widget(&self, widget_type: &str) -> (r: Result<&WidgetInfo, Error>)
        ensures
            match lookup(self@, widget_type@) {
                Some(info) => r is Ok && r->Ok_0@ == info,
                None => r is Err && r->Err_0@ == ErrorView::WidgetNotFound(widget_type@),
            },
            distinct_keys(self@),
    {
        proof {
            use_type_invariant(self);
        }
        let found = match map_index_of(&self.factories, widget_type) {
            Some(index) => map_entry(&self.factories, index),
            None => None,
        };
        match found {
            Some(entry) => Ok(entry.1),
            None => Err(Error::WidgetNotFound(widget_type.to_owned())),
        }
    }

    /// The registered type tags, in the order of registration.
    pub fn widget_types(&self) -> (r: Vec<String>)
        ensures
            texts(r@) == self@.map_values(|entry: (Seq<char>, WidgetInfoView)| entry.0),
    {
        let mut types: Vec<String> = Vec::new();
        let count = map_len(&self.factories);
        let mut i: usize = 0;
        while i < count
            invariant
                i <= count,
                count == self@.len(),
                types.len() == i,
                forall|j: int| 0 <= j < i ==> types@[j]@ == self@[j].0,
            decreases count - i,
        {
            match map_entry(&self.factories, i) {
                Some(entry) => {
                    types.push(entry.0.clone());
                },
                None => {},
            }
            i += 1;
        }
        assert(texts(types@) =~= self@.map_values(|entry: (Seq<char>, WidgetInfoView)| entry.0));
        types
    }

    /// Whether a type tag is registered.
    pub fn has_widget(&self, widget_type: &str) -> (r: bool)
        ensures
            r == has_key(self@, widget_type@),
    {
        map_contains(&self.factories, widget_type)
    }

    /// The number of registered types.
    pub fn len(&self) -> (r: usize)
        ensures
            r == self@.len(),
    {
        map_len(&self.factories)
    }

    /// Whether no type is registered.
    pub fn is_empty(&self) -> (r: bool)
        ensures
            r == (self@.len() == 0),
    {
        map_len(&self.factories) == 0
    }

    /// Whether two registries offer the same type tags, in whatever order.
    pub fn same_types(&self, other: &WidgetRegistry) -> (r: bool)
        ensures
            r == (self@.len() == other@.len() && forall|i: int|
                0 <= i < self@.len() ==> has_key(other@, #[trigger] self@[i].0)),
    {
        let count = map_len(&self.factories);
        if count != map_len(&other.factories) {
            return false;
        }
        let mut i: usize = 0;
        while i < count
            invariant
                i <= count,
                count == self@.len(),
                forall|j: int| 0 <= j < i ==> has_key(other@, #[trigger] self@[j].0),
            decreases count - i,
        {
            match map_entry(&self.factories, i) {
                Some(entry) => {
                    if !map_contains(&other.factories, entry.0.as_str()) {
                        assert(!has_key(other@, self@[i as int].0));
                        return false;
                    }
                },
                None => {},
            }
            i += 1;
        }
        true
    }
}

} // verus!
