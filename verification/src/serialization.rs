//! The layout document: its nodes, the plain serialized form, and the
//! `Layout` handle through which a document is edited.

use crate::error::{Error, ErrorView};
use crate::json::JsonValue;
use crate::model::{
    clamp, cycle_detected, moved_down, moved_up, not_in_parent, not_in_roots, swapped, with_member,
    with_member_at, without, DocView, NodeView,
};
use crate::strmap::StrMap;
use crate::widget::{id_text, id_to_string, WidgetConfig, WidgetId};
use std::collections::HashMap;
use vstd::prelude::*;
use vstd::std_specs::hash::group_hash_axioms;
use vstd::std_specs::iter::IteratorSpec;

verus! {

broadcast use group_hash_axioms;

/// The place of the first occurrence of `id` in the list.
pub fn position(list: &Vec<WidgetId>, id: WidgetId) -> (r: Option<usize>)
    ensures
        match r {
            Some(i) => list@.index_of_first(id) == Some(i as int) && i < list.len() && list@[i as int]
                == id,
            None => list@.index_of_first(id) is None && !list@.contains(id),
        },
{
    proof {
        list@.index_of_first_ensures(id);
    }
    let mut i: usize = 0;
    while i < list.len()
        invariant
            i <= list.len(),
            forall|j: int| 0 <= j < i ==> list@[j] != id,
        decreases list.len() - i,
    {
        if list[i] == id {
            proof {
                list@.index_of_first_ensures(id);
            }
            return Some(i);
        }
        i += 1;
    }
    None
}

/// Exchanges the items at `i` and `j`.
pub fn swap_items(list: &mut Vec<WidgetId>, i: usize, j: usize)
    requires
        i < old(list).len(),
        j < old(list).len(),
    ensures
        final(list)@ == swapped(old(list)@, i as int, j as int),
{
    let a = list[i];
    let b = list[j];
    list[i] = b;
    list[j] = a;
}

/// Takes every occurrence of `id` out of the list.
pub fn remove_all(list: &mut Vec<WidgetId>, id: WidgetId)
    ensures
        final(list)@ == without(old(list)@, id),
{
    let mut kept: Vec<WidgetId> = Vec::new();
    let mut i: usize = 0;
    while i < list.len()
        invariant
            i <= list.len(),
            kept@ == without(list@.take(i as int), id),
        decreases list.len() - i,
    {
        proof {
            reveal(Seq::filter);
            let next = list@.take(i + 1);
            assert(next.drop_last() =~= list@.take(i as int));
            assert(without(next, id) == if next.last() != id {
                without(next.drop_last(), id).push(next.last())
            } else {
                without(next.drop_last(), id)
            });
        }
        if list[i] != id {
            kept.push(list[i]);
        }
        i += 1;
    }
    proof {
        reveal(Seq::filter);
        assert(list@.take(i as int) =~= list@);
    }
    *list = kept;
}

/// A node of the layout tree.
#[derive(Debug, PartialEq)]
pub struct LayoutNode {
    /// Widget configuration
    pub config: WidgetConfig,
    /// Child widget IDs (for containers)
    pub children: Vec<WidgetId>,
    /// Parent widget ID (if any)
    pub parent: Option<WidgetId>,
    /// Custom metadata for this node
    pub metadata: StrMap<JsonValue>,
}

impl View for LayoutNode {
    type V = NodeView;

    open spec fn view(&self) -> NodeView {
        NodeView {
            config: self.config@,
            children: self.children@,
            parent: self.parent,
            metadata: self.metadata@,
        }
    }
}

impl Clone for LayoutNode {
    fn clone(&self) -> (r: Self)
        ensures
            r@ == self@,
    {
        let children = self.children.clone();
        assert(children@ =~= self.children@);
        LayoutNode {
            config: self.config.clone(),
            children,
            parent: self.parent,
            metadata: self.metadata.clone(),
        }
    }
}

impl LayoutNode {
    /// A node with the given configuration, no children and no parent.
    pub fn new(config: WidgetConfig) -> (r: Self)
        ensures
            r@ == NodeView::fresh(config@, None),
    {
        LayoutNode { config, children: Vec::new(), parent: None, metadata: StrMap::new() }
    }

    /// Adds a child at the end, unless the node lists it already.
    pub fn add_child(&mut self, child_id: WidgetId)
        ensures
            final(self)@ == old(self)@.with_children(with_member(old(self)@.children, child_id)),
    {
        proof {
            self.children@.index_of_first_ensures(child_id);
        }
        if position(&self.children, child_id).is_none() {
            self.children.push(child_id);
        }
    }

    /// Takes out the first occurrence of a child and says whether there was
    /// one.
    pub fn remove_child(&mut self, child_id: &WidgetId) -> (r: bool)
        ensures
            r == old(self)@.children.contains(*child_id),
            final(self)@ == old(self)@.with_children(old(self)@.children.remove_value(*child_id)),
    {
        proof {
            self.children@.index_of_first_ensures(*child_id);
        }
        match position(&self.children, *child_id) {
            Some(pos) => {
                self.children.remove(pos);
                true
            },
            None => false,
        }
    }
}

/// The contents of a map of nodes.
pub open spec fn contents(nodes: Map<u128, LayoutNode>) -> Map<u128, NodeView> {
    nodes.map_values(|node: LayoutNode| node@)
}

/// The contents of a map with a node put in are the contents of the map
/// with the content of the node put in.
pub broadcast proof fn lemma_contents_insert(nodes: Map<u128, LayoutNode>, id: u128, node: LayoutNode)
    ensures
        #[trigger] contents(nodes.insert(id, node)) == contents(nodes).insert(id, node@),
{
    assert(contents(nodes.insert(id, node)) =~= contents(nodes).insert(id, node@));
}

/// `HashMap::get_mut`: the value under a key, open to any change.
/// Whatever the value is changed to is what the map then holds under the
/// key; nothing else in the map changes.
#[verifier::external_body]
fn node_mut<'a>(nodes: &'a mut HashMap<WidgetId, LayoutNode>, id: &WidgetId) -> (r: Option<
    &'a mut LayoutNode,
>)
    ensures
        match r {
            Some(node) => old(nodes)@.contains_key(*id) && *node == old(nodes)@[*id]
                && final(nodes)@ == old(nodes)@.insert(*id, *final(node)),
            None => !old(nodes)@.contains_key(*id) && final(nodes)@ == old(nodes)@,
        },
{
    nodes.get_mut(id)
}

/// The plain, serializable form of a layout.
#[derive(Debug, PartialEq)]
pub struct SerializedLayout {
    /// Version of the serialization format
    pub version: String,
    /// Root node IDs
    pub root_nodes: Vec<WidgetId>,
    /// All nodes in the layout
    pub nodes: HashMap<WidgetId, LayoutNode>,
    /// Metadata about the layout
    pub metadata: StrMap<JsonValue>,
}

impl View for SerializedLayout {
    type V = DocView;

    open spec fn view(&self) -> DocView {
        DocView {
            version: self.version@,
            root_nodes: self.root_nodes@,
            nodes: contents(self.nodes@),
            metadata: self.metadata@,
        }
    }
}

impl Clone for SerializedLayout {
    fn clone(&self) -> (r: Self)
        ensures
            r@ == self@,
    {
        let root_nodes = self.root_nodes.clone();
        assert(root_nodes@ =~= self.root_nodes@);
        SerializedLayout {
            version: self.version.clone(),
            root_nodes,
            nodes: self.nodes.clone(),
            metadata: self.metadata.clone(),
        }
    }
}

impl Default for SerializedLayout {
    fn default() -> (r: Self)
        ensures
            r@ == DocView::empty(),
    {
        let r = SerializedLayout {
            version: "1.0".to_owned(),
            root_nodes: Vec::new(),
            nodes: HashMap::new(),
            metadata: StrMap::new(),
        };
        assert(r@.nodes =~= Map::empty());
        r
    }
}

impl SerializedLayout {
    /// A new empty layout.
    pub fn new() -> (r: Self)
        ensures
            r@ == DocView::empty(),
    {
        SerializedLayout::default()
    }

    /// Puts a node under an id, replacing the node that was there.
    pub fn add_node(&mut self, id: WidgetId, node: LayoutNode)
        ensures
            final(self)@ == old(self)@.with_nodes(old(self)@.nodes.insert(id, node@)),
    {
        self.nodes.insert(id, node);
        assert(self@.nodes =~= old(self)@.nodes.insert(id, node@));
    }

    /// Takes the node of an id out of the node map and gives it back.  No
    /// list that names the id is touched.
    pub fn remove_node(&mut self, id: &WidgetId) -> (r: Option<LayoutNode>)
        ensures
            final(self)@ == old(self)@.with_nodes(old(self)@.nodes.remove(*id)),
            match r {
                Some(node) => old(self)@.nodes.contains_key(*id) && node@ == old(self)@.nodes[*id],
                None => !old(self)@.nodes.contains_key(*id),
            },
    {
        let r = self.nodes.remove(id);
        assert(self@.nodes =~= old(self)@.nodes.remove(*id));
        r
    }

    /// The node of an id.
    pub fn get_node(&self, id: &WidgetId) -> (r: Option<&LayoutNode>)
        ensures
            match r {
                Some(node) => self@.nodes.contains_key(*id) && node@ == self@.nodes[*id] && *node
                    == self.nodes@[*id],
                None => !self@.nodes.contains_key(*id),
            },
    {
        self.nodes.get(id)
    }

    /// The node of an id, open to any change.  Whatever the node is
    /// changed to is what the document then holds under the id; nothing
    /// else in the document changes.
    pub fn get_node_mut(&mut self, id: &WidgetId) -> (r: Option<&mut LayoutNode>)
        ensures
            match r {
                Some(node) => old(self)@.nodes.contains_key(*id) && node@ == old(self)@.nodes[*id]
                    && final(self)@ == old(self)@.with_nodes(
                    old(self)@.nodes.insert(*id, final(node)@),
                ),
                None => !old(self)@.nodes.contains_key(*id) && final(self)@ == old(self)@,
            },
    {
        broadcast use lemma_contents_insert;

        node_mut(&mut self.nodes, id)
    }

    /// Sets a metadata entry; a value already under the key is replaced.
    pub fn set_metadata(&mut self, key: String, value: JsonValue)
        ensures
            final(self)@ == (DocView {
                metadata: old(self)@.metadata.insert(key@, value@),
                ..old(self)@
            }),
    {
        self.metadata.insert(key, value);
    }

    /// The ids of all nodes, each once, in no particular order.
    pub fn node_ids(&self) -> (r: Vec<WidgetId>)
        ensures
            r@.no_duplicates(),
            r@.to_set() == self@.nodes.dom(),
            r@.len() == self@.nodes.len(),
    {
        let mut ids: Vec<WidgetId> = Vec::new();
        let ghost all = self.nodes.keys().remaining();
        for key in it: self.nodes.keys()
            invariant
                it.seq() == all,
                ids@.len() == it.index(),
                forall|j: int| 0 <= j < ids@.len() ==> ids@[j] == *all[j],
        {
            ids.push(*key);
        }
        proof {
            assert(ids@ =~= all.unref());
            assert(self@.nodes.dom() =~= self.nodes@.dom());
        }
        ids
    }

    /// The number of nodes.
    pub fn node_count(&self) -> (r: usize)
        ensures
            r == self@.nodes.len(),
            self@.nodes.dom().finite(),
    {
        assert(self@.nodes.dom() =~= self.nodes@.dom());
        self.nodes.len()
    }

    /// Appends to `out` the ids of the subtree of `id`, every child's subtree
    /// before its parent, going no deeper than `fuel`.
    fn collect_subtree(&self, id: WidgetId, fuel: usize, out: &mut Vec<WidgetId>) -> (r: Result<
        (),
        Error,
    >)
        ensures
            match self@.subtree(id, fuel as nat) {
                Ok(ids) => r is Ok && final(out)@ == old(out)@ + ids,
                Err(e) => r is Err && r->Err_0@ == e,
            },
        decreases fuel,
    {
        let node = match self.get_node(&id) {
            Some(node) => node,
            None => {
                return Err(Error::WidgetNotFound(id_to_string(id)));
            },
        };
        if fuel == 0 {
            return Err(Error::InvalidOperation("Cycle detected in widget hierarchy".to_owned()));
        }
        let ghost start = out@;
        let ghost mut done: Seq<u128> = Seq::empty();
        let mut i: usize = 0;
        while i < node.children.len()
            invariant
                i <= node.children.len(),
                fuel > 0,
                self@.nodes.contains_key(id),
                node@ == self@.nodes[id],
                self@.subtrees(node.children@.take(i as int), (fuel - 1) as nat) == Ok::<
                    Seq<u128>,
                    ErrorView,
                >(done),
                out@ == start + done,
            decreases node.children.len() - i,
        {
            let ghost before = out@;
            proof {
                assert(node.children@.take(i + 1).drop_last() =~= node.children@.take(i as int));
            }
            match self.collect_subtree(node.children[i], fuel - 1, out) {
                Ok(()) => {
                    proof {
                        assert(node.children@.take(i + 1).last() == node.children@[i as int]);
                        let added = self@.subtree(node.children@[i as int], (fuel - 1) as nat)->Ok_0;
                        assert(out@ =~= start + (done + added));
                        done = done + added;
                    }
                },
                Err(e) => {
                    proof {
                        let upto = node.children@.take(i + 1);
                        assert(upto.last() == node.children@[i as int]);
                        assert(self@.subtrees(upto, (fuel - 1) as nat) is Err);
                        lemma_subtrees_failure(self@, node.children@, i + 1, (fuel - 1) as nat);
                    }
                    return Err(e);
                },
            }
            i += 1;
        }
        proof {
            assert(node.children@.take(i as int) =~= node.children@);
            assert(start + done.push(id) =~= (start + done).push(id));
        }
        out.push(id);
        Ok(())
    }

    /// Appends to `out` the path to `id`, topmost ancestor first, going no
    /// further up than `fuel` nodes.
    fn collect_path(&self, id: WidgetId, fuel: usize, out: &mut Vec<WidgetId>)
        ensures
            final(out)@ == old(out)@ + self@.path_to(id, fuel as nat),
        decreases fuel,
    {
        if fuel == 0 {
            assert(out@ + Seq::<u128>::empty() =~= out@);
            return ;
        }
        match self.get_node(&id) {
            Some(node) => {
                match node.parent {
                    Some(parent_id) => {
                        self.collect_path(parent_id, fuel - 1, out);
                        assert((old(out)@ + self@.path_to(parent_id, (fuel - 1) as nat)).push(id)
                            =~= old(out)@ + self@.path_to(parent_id, (fuel - 1) as nat).push(id));
                    },
                    None => {
                        assert(old(out)@.push(id) =~= old(out)@ + seq![id]);
                    },
                }
                out.push(id);
            },
            None => {
                assert(out@ + Seq::<u128>::empty() =~= out@);
            },
        }
    }

    /// Replaces the children list of a node that exists.
    fn set_children(&mut self, id: WidgetId, children: Vec<WidgetId>)
        requires
            old(self)@.nodes.contains_key(id),
        ensures
            final(self)@ == old(self)@.with_children_of(id, children@),
    {
        match self.nodes.remove(&id) {
            Some(node) => {
                let mut node = node;
                node.children = children;
                self.nodes.insert(id, node);
            },
            None => {},
        }
        assert(self@.nodes =~= old(self)@.with_children_of(id, children@).nodes);
    }
}

/// The first `i + 1` items are the first `i` items and the item at `i`.
pub proof fn lemma_take_set(ids: Seq<u128>, i: int)
    requires
        0 <= i < ids.len(),
    ensures
        ids.take(i + 1).to_set() == ids.take(i).to_set().insert(ids[i]),
{
    let shorter = ids.take(i);
    let longer = ids.take(i + 1);
    assert forall|k: u128| longer.to_set().contains(k) <==> shorter.to_set().insert(
        ids[i],
    ).contains(k) by {
        if longer.contains(k) {
            let j = choose|j: int| 0 <= j < longer.len() && longer[j] == k;
            if j < i {
                assert(shorter[j] == k);
            }
        }
        if shorter.contains(k) {
            let j = choose|j: int| 0 <= j < shorter.len() && shorter[j] == k;
            assert(longer[j] == k);
        }
        if k == ids[i] {
            assert(longer[i] == k);
        }
    }
    assert(longer.to_set() =~= shorter.to_set().insert(ids[i]));
}

/// A failure among the first `k` subtrees is the failure of them all.
pub proof fn lemma_subtrees_failure(doc: DocView, ids: Seq<u128>, k: int, fuel: nat)
    requires
        0 <= k <= ids.len(),
        doc.subtrees(ids.take(k), fuel) is Err,
    ensures
        doc.subtrees(ids, fuel) == doc.subtrees(ids.take(k), fuel),
    decreases ids.len(),
{
    if k == ids.len() {
        assert(ids.take(k) =~= ids);
    } else {
        assert(ids.drop_last().take(k) =~= ids.take(k));
        lemma_subtrees_failure(doc, ids.drop_last(), k, fuel);
    }
}

impl Layout {
    /// The ids from the topmost ancestor of a widget down to the widget.
    /// The walk up stops after as many steps as the layout has nodes; the
    /// path is empty where the widget is not in the layout.
    pub fn path_to(&self, id: &WidgetId) -> (r: Vec<WidgetId>)
        ensures
            r@ == self@.path_to(*id, self@.nodes.len()),
    {
        let mut path: Vec<WidgetId> = Vec::new();
        let fuel = self.serialized.node_count();
        self.serialized.collect_path(*id, fuel, &mut path);
        assert(Seq::<u128>::empty() + self@.path_to(*id, self@.nodes.len()) =~= self@.path_to(
            *id,
            self@.nodes.len(),
        ));
        path
    }
}

/// What holds after an operation that either changes the document as
/// `expected` says or fails and leaves it as it was.
pub open spec fn applied(
    before: DocView,
    after: DocView,
    outcome: Result<(), Error>,
    expected: Result<DocView, ErrorView>,
) -> bool {
    match expected {
        Ok(doc) => outcome is Ok && after == doc,
        Err(e) => outcome is Err && outcome->Err_0@ == e && after == before,
    }
}

/// A layout document, edited through operations that keep its links
/// consistent.
#[derive(Debug, PartialEq)]
pub struct Layout {
    serialized: SerializedLayout,
}

impl Layout {
    /// The serialized form that the layout holds.
    pub closed spec fn plain(&self) -> SerializedLayout {
        self.serialized
    }
}

impl View for Layout {
    type V = DocView;

    open spec fn view(&self) -> DocView {
        self.plain()@
    }
}

impl Clone for Layout {
    fn clone(&self) -> (r: Self)
        ensures
            r@ == self@,
    {
        Layout { serialized: self.serialized.clone() }
    }
}

impl Default for Layout {
    fn default() -> (r: Self)
        ensures
            r@ == DocView::empty(),
    {
        Layout::new()
    }
}

impl Layout {
    /// A new empty layout.
    pub fn new() -> (r: Self)
        ensures
            r@ == DocView::empty(),
            r@.valid(),
    {
        Layout { serialized: SerializedLayout::new() }
    }

    /// Takes a serialized layout as it is.
    pub(crate) fn wrap(serialized: SerializedLayout) -> (r: Self)
        ensures
            r.plain() == serialized,
            r@ == serialized@,
    {
        Layout { serialized }
    }

    /// The serialized form.
    pub fn to_serialized(&self) -> (r: &SerializedLayout)
        ensures
            *r == self.plain(),
            r@ == self@,
    {
        &self.serialized
    }

    /// The serialized form, open to any change.  Whatever it is changed to
    /// is what the layout then holds; nothing keeps it valid.
    pub fn to_serialized_mut(&mut self) -> (r: &mut SerializedLayout)
        ensures
            r@ == old(self)@,
            final(self)@ == final(r)@,
    {
        &mut self.serialized
    }

    /// Adds a widget at the end of the roots.  An id that is already in the
    /// document has its node replaced.
    pub fn add_root_widget(&mut self, id: WidgetId, config: WidgetConfig)
        ensures
            final(self)@ == old(self)@.add_root_widget(id, config@),
            old(self)@.valid() && !old(self)@.nodes.contains_key(id) ==> final(self)@.valid(),
    {
        proof {
            if self@.valid() && !self@.nodes.contains_key(id) {
                crate::edits::lemma_add_root_valid(self@, id, config@, 0);
            }
        }
        self.serialized.root_nodes.push(id);
        self.serialized.add_node(id, LayoutNode::new(config));
    }

    /// Adds a widget among the roots at a position, which is clamped to the
    /// length of the root list.
    pub fn insert_root_widget(&mut self, id: WidgetId, config: WidgetConfig, position: usize)
        ensures
            final(self)@ == old(self)@.insert_root_widget(id, config@, position as int),
            old(self)@.valid() && !old(self)@.nodes.contains_key(id) ==> final(self)@.valid(),
    {
        proof {
            if self@.valid() && !self@.nodes.contains_key(id) {
                crate::edits::lemma_add_root_valid(self@, id, config@, position as int);
            }
        }
        let len = self.serialized.root_nodes.len();
        let pos = if position < len {
            position
        } else {
            len
        };
        self.serialized.root_nodes.insert(pos, id);
        self.serialized.add_node(id, LayoutNode::new(config));
    }

    /// Adds a widget at the end of a parent's children.  Fails where the
    /// parent is not in the document.  A child that the parent lists already
    /// is not listed again.
    pub fn add_child_widget(&mut self, parent_id: WidgetId, child_id: WidgetId, config: WidgetConfig)
        -> (r: Result<(), Error>)
        ensures
            applied(
                old(self)@,
                final(self)@,
                r,
                old(self)@.add_child_widget(parent_id, child_id, config@),
            ),
            old(self)@.valid() && !old(self)@.nodes.contains_key(child_id) ==> final(self)@.valid(),
    {
        proof {
            if self@.valid() && self@.nodes.contains_key(parent_id) && !self@.nodes.contains_key(
                child_id,
            ) {
                crate::edits::lemma_add_child_valid(self@, parent_id, child_id, config@, 0);
            }
        }
        let children = match self.serialized.get_node(&parent_id) {
            Some(parent) => {
                let mut children = parent.children.clone();
                assert(children@ =~= parent.children@);
                proof {
                    children@.index_of_first_ensures(child_id);
                }
                if position(&children, child_id).is_none() {
                    children.push(child_id);
                }
                children
            },
            None => {
                return Err(Error::WidgetNotFound(id_to_string(parent_id)));
            },
        };
        self.serialized.set_children(parent_id, children);
        let mut child_node = LayoutNode::new(config);
        child_node.parent = Some(parent_id);
        self.serialized.add_node(child_id, child_node);
        Ok(())
    }

    /// Adds a widget among a parent's children at a position, which is
    /// clamped to the length of the list.  Fails where the parent is not in
    /// the document.  A child that the parent lists already is not listed
    /// again.
    pub fn insert_child_widget(
        &mut self,
        parent_id: WidgetId,
        child_id: WidgetId,
        config: WidgetConfig,
        position: usize,
    ) -> (r: Result<(), Error>)
        ensures
            applied(
                old(self)@,
                final(self)@,
                r,
                old(self)@.insert_child_widget(parent_id, child_id, config@, position as int),
            ),
            old(self)@.valid() && !old(self)@.nodes.contains_key(child_id) ==> final(self)@.valid(),
    {
        proof {
            if self@.valid() && self@.nodes.contains_key(parent_id) && !self@.nodes.contains_key(
                child_id,
            ) {
                crate::edits::lemma_add_child_valid(
                    self@,
                    parent_id,
                    child_id,
                    config@,
                    position as int,
                );
            }
        }
        let children = match self.serialized.get_node(&parent_id) {
            Some(parent) => {
                let mut children = parent.children.clone();
                assert(children@ =~= parent.children@);
                proof {
                    children@.index_of_first_ensures(child_id);
                }
                if self::position(&children, child_id).is_none() {
                    let len = children.len();
                    let pos = if position < len {
                        position
                    } else {
                        len
                    };
                    children.insert(pos, child_id);
                }
                children
            },
            None => {
                return Err(Error::WidgetNotFound(id_to_string(parent_id)));
            },
        };
        self.serialized.set_children(parent_id, children);
        let mut child_node = LayoutNode::new(config);
        child_node.parent = Some(parent_id);
        self.serialized.add_node(child_id, child_node);
        Ok(())
    }

    /// Removes a widget with all the widgets below it.  Fails, and changes
    /// nothing, where the widget is not in the document, where a widget
    /// below it names a child that is not in the document, and where the
    /// hierarchy below it is deeper than the document has nodes, as it is
    /// where it loops back on itself.
    pub fn remove_widget(&mut self, id: &WidgetId) -> (r: Result<(), Error>)
        ensures
            applied(old(self)@, final(self)@, r, old(self)@.remove_widget(*id)),
            old(self)@.valid() ==> final(self)@.valid() && (r is Ok <==> old(
                self,
            )@.nodes.contains_key(*id)),
    {
        proof {
            if self@.valid() && self@.nodes.contains_key(*id) {
                crate::removal::lemma_remove_cascades(self@, *id);
            }
        }
        let mut ids: Vec<WidgetId> = Vec::new();
        let fuel = self.serialized.node_count();
        match self.serialized.collect_subtree(*id, fuel, &mut ids) {
            Ok(()) => {},
            Err(e) => {
                return Err(e);
            },
        }
        assert(ids@ =~= old(self)@.subtree(*id, old(self)@.nodes.len())->Ok_0);
        let parent = match self.serialized.get_node(id) {
            Some(node) => node.parent,
            None => None,
        };
        match parent {
            Some(parent_id) => {
                let remaining = match self.serialized.get_node(&parent_id) {
                    Some(node) => {
                        let mut children = node.children.clone();
                        assert(children@ =~= node.children@);
                        proof {
                            children@.index_of_first_ensures(*id);
                        }
                        match position(&children, *id) {
                            Some(pos) => {
                                children.remove(pos);
                            },
                            None => {},
                        }
                        Some(children)
                    },
                    None => None,
                };
                match remaining {
                    Some(children) => {
                        self.serialized.set_children(parent_id, children);
                    },
                    None => {},
                }
            },
            None => {
                remove_all(&mut self.serialized.root_nodes, *id);
            },
        }
        let ghost detached = self@;
        assert(detached == old(self)@.detached(*id));
        assert(detached.nodes.remove_keys(ids@.take(0).to_set()) =~= detached.nodes);
        let mut i: usize = 0;
        while i < ids.len()
            invariant
                i <= ids.len(),
                self@ == detached.with_nodes(
                    detached.nodes.remove_keys(ids@.take(i as int).to_set()),
                ),
            decreases ids.len() - i,
        {
            let ghost gone = ids@.take(i as int).to_set();
            self.serialized.remove_node(&ids[i]);
            proof {
                let next = ids@.take(i + 1).to_set();
                lemma_take_set(ids@, i as int);
                assert(self@.nodes =~= detached.nodes.remove_keys(next));
            }
            i += 1;
        }
        proof {
            assert(ids@.take(i as int) =~= ids@);
        }
        Ok(())
    }

    /// Moves a widget one place towards the front of the list that holds
    /// it: its parent's children, or the roots where it has no parent.  The
    /// first of a list stays where it is.  Fails, and changes nothing, where
    /// the widget or its parent is not in the document, or the list does not
    /// hold the widget.
    pub fn move_widget_up(&mut self, id: &WidgetId) -> (r: Result<(), Error>)
        ensures
            applied(old(self)@, final(self)@, r, old(self)@.move_widget_up(*id)),
            old(self)@.valid() ==> final(self)@.valid() && (r is Ok <==> old(
                self,
            )@.nodes.contains_key(*id)),
    {
        proof {
            if self@.valid() && self@.nodes.contains_key(*id) {
                crate::edits::lemma_move_valid(self@, *id);
            }
        }
        let parent = match self.serialized.get_node(id) {
            Some(node) => node.parent,
            None => {
                return Err(Error::WidgetNotFound(id_to_string(*id)));
            },
        };
        match parent {
            Some(parent_id) => {
                let mut children = match self.serialized.get_node(&parent_id) {
                    Some(node) => {
                        let children = node.children.clone();
                        assert(children@ =~= node.children@);
                        children
                    },
                    None => {
                        return Err(Error::WidgetNotFound(id_to_string(parent_id)));
                    },
                };
                match position(&children, *id) {
                    Some(pos) => {
                        if pos > 0 {
                            swap_items(&mut children, pos - 1, pos);
                        }
                    },
                    None => {
                        return Err(Error::InvalidOperation("Widget not found in parent".to_owned()));
                    },
                }
                self.serialized.set_children(parent_id, children);
            },
            None => {
                match position(&self.serialized.root_nodes, *id) {
                    Some(pos) => {
                        if pos > 0 {
                            swap_items(&mut self.serialized.root_nodes, pos - 1, pos);
                        }
                    },
                    None => {
                        return Err(Error::InvalidOperation("Widget not found in roots".to_owned()));
                    },
                }
            },
        }
        Ok(())
    }

    /// Moves a widget one place towards the back of the list that holds it:
    /// its parent's children, or the roots where it has no parent.  The last
    /// of a list stays where it is.  Fails, and changes nothing, where the
    /// widget or its parent is not in the document, or the list does not
    /// hold the widget.
    pub fn move_widget_down(&mut self, id: &WidgetId) -> (r: Result<(), Error>)
        ensures
            applied(old(self)@, final(self)@, r, old(self)@.move_widget_down(*id)),
            old(self)@.valid() ==> final(self)@.valid() && (r is Ok <==> old(
                self,
            )@.nodes.contains_key(*id)),
    {
        proof {
            if self@.valid() && self@.nodes.contains_key(*id) {
                crate::edits::lemma_move_valid(self@, *id);
            }
        }
        let parent = match self.serialized.get_node(id) {
            Some(node) => node.parent,
            None => {
                return Err(Error::WidgetNotFound(id_to_string(*id)));
            },
        };
        match parent {
            Some(parent_id) => {
                let mut children = match self.serialized.get_node(&parent_id) {
                    Some(node) => {
                        let children = node.children.clone();
                        assert(children@ =~= node.children@);
                        children
                    },
                    None => {
                        return Err(Error::WidgetNotFound(id_to_string(parent_id)));
                    },
                };
                proof {
                    children@.index_of_first_ensures(*id);
                }
                match position(&children, *id) {
                    Some(pos) => {
                        if pos < children.len() - 1 {
                            swap_items(&mut children, pos, pos + 1);
                        }
                    },
                    None => {
                        return Err(Error::InvalidOperation("Widget not found in parent".to_owned()));
                    },
                }
                self.serialized.set_children(parent_id, children);
            },
            None => {
                proof {
                    self.serialized.root_nodes@.index_of_first_ensures(*id);
                }
                match position(&self.serialized.root_nodes, *id) {
                    Some(pos) => {
                        if pos < self.serialized.root_nodes.len() - 1 {
                            swap_items(&mut self.serialized.root_nodes, pos, pos + 1);
                        }
                    },
                    None => {
                        return Err(Error::InvalidOperation("Widget not found in roots".to_owned()));
                    },
                }
            },
        }
        Ok(())
    }

    /// Replaces the configuration of a widget.  Fails, and changes nothing,
    /// where the widget is not in the document.
    pub fn set_config(&mut self, id: &WidgetId, config: WidgetConfig) -> (r: Result<(), Error>)
        ensures
            applied(old(self)@, final(self)@, r, old(self)@.set_config(*id, config@)),
            old(self)@.valid() ==> final(self)@.valid(),
    {
        proof {
            if self@.valid() && self@.nodes.contains_key(*id) {
                crate::edits::lemma_set_config_valid(self@, *id, config@);
            }
        }
        match self.serialized.remove_node(id) {
            Some(node) => {
                let mut node = node;
                node.config = config;
                self.serialized.add_node(*id, node);
                assert(self@.nodes =~= old(self)@.set_config(*id, config@)->Ok_0.nodes);
                Ok(())
            },
            None => {
                assert(self@.nodes =~= old(self)@.nodes);
                Err(Error::WidgetNotFound(id_to_string(*id)))
            },
        }
    }

    /// The ids of the roots, in order.
    pub fn root_widgets(&self) -> (r: &Vec<WidgetId>)
        ensures
            r@ == self@.root_nodes,
    {
        &self.serialized.root_nodes
    }

    /// The node of a widget.
    pub fn get_widget(&self, id: &WidgetId) -> (r: Option<&LayoutNode>)
        ensures
            match r {
                Some(node) => self@.nodes.contains_key(*id) && node@ == self@.nodes[*id],
                None => !self@.nodes.contains_key(*id),
            },
    {
        self.serialized.get_node(id)
    }
}

} // verus!
