//! The mathematical model of a layout document: what a document is, what
//! each operation makes of it, and when it is structurally sound.

use crate::error::ErrorView;
use crate::json::JsonView;
use crate::widget::{id_text, ConfigView};
use vstd::prelude::*;

verus! {

/// The content of one node: its configuration and its links.
pub struct NodeView {
    pub config: ConfigView,
    pub children: Seq<u128>,
    pub parent: Option<u128>,
    pub metadata: Map<Seq<char>, JsonView>,
}

/// The content of a document: the ordered roots and the node of every id.
pub struct DocView {
    pub version: Seq<char>,
    pub root_nodes: Seq<u128>,
    pub nodes: Map<u128, NodeView>,
    pub metadata: Map<Seq<char>, JsonView>,
}

/// A position past the end of a list means its end.
pub open spec fn clamp(position: int, len: int) -> int {
    if position < len {
        position
    } else {
        len
    }
}

/// The list with the items at `i` and `j` exchanged.
pub open spec fn swapped(list: Seq<u128>, i: int, j: int) -> Seq<u128> {
    list.update(i, list[j]).update(j, list[i])
}

/// The list without any occurrence of `id`.
pub open spec fn without(list: Seq<u128>, id: u128) -> Seq<u128> {
    list.filter(|other: u128| other != id)
}

/// The list with `id` at its end, unless it is in the list already.
pub open spec fn with_member(list: Seq<u128>, id: u128) -> Seq<u128> {
    if list.contains(id) {
        list
    } else {
        list.push(id)
    }
}

/// The list with `id` at the clamped position, unless it is in the list
/// already.
pub open spec fn with_member_at(list: Seq<u128>, id: u128, position: int) -> Seq<u128> {
    if list.contains(id) {
        list
    } else {
        list.insert(clamp(position, list.len() as int), id)
    }
}

/// The list after moving `id` one place towards the front; `None` where the
/// list does not hold it.  The first element stays where it is.
pub open spec fn moved_up(list: Seq<u128>, id: u128) -> Option<Seq<u128>> {
    match list.index_of_first(id) {
        Some(pos) => Some(
            if pos > 0 {
                swapped(list, pos - 1, pos)
            } else {
                list
            },
        ),
        None => None,
    }
}

/// The list after moving `id` one place towards the back; `None` where the
/// list does not hold it.  The last element stays where it is.
pub open spec fn moved_down(list: Seq<u128>, id: u128) -> Option<Seq<u128>> {
    match list.index_of_first(id) {
        Some(pos) => Some(
            if pos < list.len() - 1 {
                swapped(list, pos, pos + 1)
            } else {
                list
            },
        ),
        None => None,
    }
}

/// The detail of the error for an id that is in neither list.
pub open spec fn not_in_parent() -> Seq<char> {
    "Widget not found in parent"@
}

/// The detail of the error for a parentless id that is not a root.
pub open spec fn not_in_roots() -> Seq<char> {
    "Widget not found in roots"@
}

/// The detail of the error for a hierarchy that loops back on itself.
pub open spec fn cycle_detected() -> Seq<char> {
    "Cycle detected in widget hierarchy"@
}

impl NodeView {
    /// A node as it is when first inserted: no children, no metadata.
    pub open spec fn fresh(config: ConfigView, parent: Option<u128>) -> NodeView {
        NodeView { config, children: Seq::empty(), parent, metadata: Map::empty() }
    }

    /// The node with another list of children.
    pub open spec fn with_children(self, children: Seq<u128>) -> NodeView {
        NodeView { children, ..self }
    }
}

impl DocView {
    /// The empty document of format version 1.0.
    pub open spec fn empty() -> DocView {
        DocView {
            version: "1.0"@,
            root_nodes: Seq::empty(),
            nodes: Map::empty(),
            metadata: Map::empty(),
        }
    }

    /// The document with another node map.
    pub open spec fn with_nodes(self, nodes: Map<u128, NodeView>) -> DocView {
        DocView { nodes, ..self }
    }

    /// The document with another root list.
    pub open spec fn with_roots(self, root_nodes: Seq<u128>) -> DocView {
        DocView { root_nodes, ..self }
    }

    /// The document with the children list of `id` replaced.
    pub open spec fn with_children_of(self, id: u128, children: Seq<u128>) -> DocView {
        self.with_nodes(self.nodes.insert(id, self.nodes[id].with_children(children)))
    }

    /// The widget with another configuration.
    pub open spec fn set_config(self, id: u128, config: ConfigView) -> Result<DocView, ErrorView> {
        if !self.nodes.contains_key(id) {
            Err(ErrorView::WidgetNotFound(id_text(id)))
        } else {
            Ok(self.with_nodes(self.nodes.insert(id, NodeView { config, ..self.nodes[id] })))
        }
    }

    /// A new root at the end of the root list.
    pub open spec fn add_root_widget(self, id: u128, config: ConfigView) -> DocView {
        DocView {
            root_nodes: self.root_nodes.push(id),
            nodes: self.nodes.insert(id, NodeView::fresh(config, None)),
            ..self
        }
    }

    /// A new root at the clamped position of the root list.
    pub open spec fn insert_root_widget(self, id: u128, config: ConfigView, position: int)
        -> DocView {
        DocView {
            root_nodes: self.root_nodes.insert(clamp(position, self.root_nodes.len() as int), id),
            nodes: self.nodes.insert(id, NodeView::fresh(config, None)),
            ..self
        }
    }

    /// A new child at the end of its parent's children.
    pub open spec fn add_child_widget(self, parent_id: u128, child_id: u128, config: ConfigView)
        -> Result<DocView, ErrorView> {
        if !self.nodes.contains_key(parent_id) {
            Err(ErrorView::WidgetNotFound(id_text(parent_id)))
        } else {
            Ok(
                self.with_children_of(
                    parent_id,
                    with_member(self.nodes[parent_id].children, child_id),
                ).with_child_node(parent_id, child_id, config),
            )
        }
    }

    /// A new child at the clamped position of its parent's children.
    pub open spec fn insert_child_widget(
        self,
        parent_id: u128,
        child_id: u128,
        config: ConfigView,
        position: int,
    ) -> Result<DocView, ErrorView> {
        if !self.nodes.contains_key(parent_id) {
            Err(ErrorView::WidgetNotFound(id_text(parent_id)))
        } else {
            Ok(
                self.with_children_of(
                    parent_id,
                    with_member_at(self.nodes[parent_id].children, child_id, position),
                ).with_child_node(parent_id, child_id, config),
            )
        }
    }

    /// The document with a fresh node for `child_id` under `parent_id`.
    pub open spec fn with_child_node(self, parent_id: u128, child_id: u128, config: ConfigView)
        -> DocView {
        self.with_nodes(self.nodes.insert(child_id, NodeView::fresh(config, Some(parent_id))))
    }

    /// The widget one place earlier in the list that holds it.
    pub open spec fn move_widget_up(self, id: u128) -> Result<DocView, ErrorView> {
        if !self.nodes.contains_key(id) {
            Err(ErrorView::WidgetNotFound(id_text(id)))
        } else {
            match self.nodes[id].parent {
                Some(parent_id) => if !self.nodes.contains_key(parent_id) {
                    Err(ErrorView::WidgetNotFound(id_text(parent_id)))
                } else {
                    match moved_up(self.nodes[parent_id].children, id) {
                        Some(children) => Ok(self.with_children_of(parent_id, children)),
                        None => Err(ErrorView::InvalidOperation(not_in_parent())),
                    }
                },
                None => match moved_up(self.root_nodes, id) {
                    Some(roots) => Ok(self.with_roots(roots)),
                    None => Err(ErrorView::InvalidOperation(not_in_roots())),
                },
            }
        }
    }

    /// The widget one place later in the list that holds it.
    pub open spec fn move_widget_down(self, id: u128) -> Result<DocView, ErrorView> {
        if !self.nodes.contains_key(id) {
            Err(ErrorView::WidgetNotFound(id_text(id)))
        } else {
            match self.nodes[id].parent {
                Some(parent_id) => if !self.nodes.contains_key(parent_id) {
                    Err(ErrorView::WidgetNotFound(id_text(parent_id)))
                } else {
                    match moved_down(self.nodes[parent_id].children, id) {
                        Some(children) => Ok(self.with_children_of(parent_id, children)),
                        None => Err(ErrorView::InvalidOperation(not_in_parent())),
                    }
                },
                None => match moved_down(self.root_nodes, id) {
                    Some(roots) => Ok(self.with_roots(roots)),
                    None => Err(ErrorView::InvalidOperation(not_in_roots())),
                },
            }
        }
    }

    /// The ids of the subtree of `id`, every child's subtree before its
    /// parent, found by following children lists no deeper than `fuel`.
    /// Fails on a child that is not in the document, and on a hierarchy
    /// deeper than `fuel`, as every hierarchy with a cycle is.
    pub open spec fn subtree(self, id: u128, fuel: nat) -> Result<Seq<u128>, ErrorView>
        decreases fuel, 0nat,
    {
        if !self.nodes.contains_key(id) {
            Err(ErrorView::WidgetNotFound(id_text(id)))
        } else if fuel == 0 {
            Err(ErrorView::InvalidOperation(cycle_detected()))
        } else {
            match self.subtrees(self.nodes[id].children, (fuel - 1) as nat) {
                Ok(below) => Ok(below.push(id)),
                Err(e) => Err(e),
            }
        }
    }

    /// The subtrees of the listed ids, one after the other.
    pub open spec fn subtrees(self, ids: Seq<u128>, fuel: nat) -> Result<Seq<u128>, ErrorView>
        decreases fuel, 1 + ids.len(),
    {
        if ids.len() == 0 {
            Ok(Seq::empty())
        } else {
            match self.subtrees(ids.drop_last(), fuel) {
                Ok(front) => match self.subtree(ids.last(), fuel) {
                    Ok(last) => Ok(front + last),
                    Err(e) => Err(e),
                },
                Err(e) => Err(e),
            }
        }
    }

    /// The document with `id` taken out of the list that its parent link
    /// names: its parent's children (the first occurrence), or the roots
    /// (every occurrence) where it has no parent.
    pub open spec fn detached(self, id: u128) -> DocView {
        match self.nodes[id].parent {
            Some(parent_id) => if self.nodes.contains_key(parent_id) {
                self.with_children_of(
                    parent_id,
                    self.nodes[parent_id].children.remove_value(id),
                )
            } else {
                self
            },
            None => self.with_roots(without(self.root_nodes, id)),
        }
    }

    /// The widget and its whole subtree taken out.
    pub open spec fn remove_widget(self, id: u128) -> Result<DocView, ErrorView> {
        match self.subtree(id, self.nodes.len()) {
            Ok(ids) => {
                let detached = self.detached(id);
                Ok(detached.with_nodes(detached.nodes.remove_keys(ids.to_set())))
            },
            Err(e) => Err(e),
        }
    }

    /// The ids from the topmost ancestor of `id` that is reached within
    /// `fuel` nodes down to `id` itself; empty where `id` is not a node.
    pub open spec fn path_to(self, id: u128, fuel: nat) -> Seq<u128>
        decreases fuel,
    {
        if fuel == 0 || !self.nodes.contains_key(id) {
            Seq::empty()
        } else {
            match self.nodes[id].parent {
                Some(parent_id) => self.path_to(parent_id, (fuel - 1) as nat).push(id),
                None => seq![id],
            }
        }
    }


    /// Following parent links from `id` ends at a node without parent
    /// after at most `fuel` steps, and every node on the way exists.
    pub open spec fn walks_out(self, id: u128, fuel: nat) -> bool
        decreases fuel,
    {
        self.nodes.contains_key(id) && match self.nodes[id].parent {
            None => true,
            Some(parent_id) => fuel > 0 && self.walks_out(parent_id, (fuel - 1) as nat),
        }
    }

    /// `id` is `ancestor`, or has it among its ancestors no more than `fuel`
    /// parent links up.
    pub open spec fn is_under(self, id: u128, ancestor: u128, fuel: nat) -> bool
        decreases fuel,
    {
        id == ancestor || (fuel > 0 && self.nodes.contains_key(id) && match self.nodes[id].parent {
            Some(parent_id) => self.is_under(parent_id, ancestor, (fuel - 1) as nat),
            None => false,
        })
    }

    /// The nodes that have `id` among their ancestors.
    pub open spec fn descendants(self, id: u128) -> Set<u128> {
        Set::new(
            |other: u128|
                other != id && self.nodes.contains_key(other) && self.is_under(
                    other,
                    id,
                    self.nodes.len(),
                ),
        )
    }

    /// Every root is a node without parent, and no root is listed twice.
    pub open spec fn roots_sound(self) -> bool {
        &&& self.root_nodes.no_duplicates()
        &&& forall|i: int|
            0 <= i < self.root_nodes.len() ==> self.nodes.contains_key(
                #[trigger] self.root_nodes[i],
            ) && self.nodes[self.root_nodes[i]].parent is None
    }

    /// Every child that the node lists is a node whose parent link names
    /// the lister, and the node lists no child twice.
    pub open spec fn children_sound(self, id: u128) -> bool {
        &&& self.nodes[id].children.no_duplicates()
        &&& forall|j: int|
            0 <= j < self.nodes[id].children.len() ==> self.nodes.contains_key(
                #[trigger] self.nodes[id].children[j],
            ) && self.nodes[self.nodes[id].children[j]].parent == Some(id)
    }

    /// The node is listed where its parent link says: among the roots where
    /// it has no parent, else among the children of its parent, which exists.
    pub open spec fn parent_sound(self, id: u128) -> bool {
        match self.nodes[id].parent {
            None => self.root_nodes.contains(id),
            Some(parent_id) => self.nodes.contains_key(parent_id)
                && self.nodes[parent_id].children.contains(id),
        }
    }

    /// The node is not its own ancestor: its parent links lead out of the
    /// document in no more steps than there are nodes.
    pub open spec fn rooted(self, id: u128) -> bool {
        self.walks_out(id, self.nodes.len())
    }

    /// All that is asked of one node.
    pub open spec fn node_sound(self, id: u128) -> bool {
        &&& self.children_sound(id)
        &&& self.parent_sound(id)
        &&& self.rooted(id)
    }

    /// The document is a forest whose links agree: what a loaded document
    /// is checked for.
    pub open spec fn valid(self) -> bool {
        &&& self.nodes.dom().finite()
        &&& self.roots_sound()
        &&& forall|id: u128| #[trigger] self.nodes.contains_key(id) ==> self.node_sound(id)
    }
}

/// The id stands at two places of the list.
pub open spec fn twice(list: Seq<u128>, id: u128) -> bool {
    exists|i: int, j: int| 0 <= i < j < list.len() && list[i] == id && list[j] == id
}

/// One way in which a document can fail to be valid.
#[derive(Debug, PartialEq, Eq, Clone, Copy)]
pub enum Fault {
    /// The root list names an id that has no node.
    MissingRoot(u128),
    /// The root list names a node that has a parent.
    RootWithParent(u128),
    /// The root list names an id twice.
    DuplicateRoot(u128),
    /// The first node lists the second id as a child, and it has no node.
    MissingChild(u128, u128),
    /// The first node lists the second twice.
    DuplicateChild(u128, u128),
    /// The first node lists the second, whose parent link names another.
    ChildOfOther(u128, u128),
    /// The node is not listed where its parent link says.
    Unlisted(u128),
    /// The parent links of the node do not lead to a root.
    Unrooted(u128),
}

impl Fault {
    /// The document has this fault.
    pub open spec fn occurs(self, doc: DocView) -> bool {
        match self {
            Fault::MissingRoot(id) => doc.root_nodes.contains(id) && !doc.nodes.contains_key(id),
            Fault::RootWithParent(id) => doc.root_nodes.contains(id) && doc.nodes.contains_key(id)
                && doc.nodes[id].parent is Some,
            Fault::DuplicateRoot(id) => twice(doc.root_nodes, id),
            Fault::MissingChild(parent_id, id) => doc.nodes.contains_key(parent_id)
                && doc.nodes[parent_id].children.contains(id) && !doc.nodes.contains_key(id),
            Fault::DuplicateChild(parent_id, id) => doc.nodes.contains_key(parent_id) && twice(
                doc.nodes[parent_id].children,
                id,
            ),
            Fault::ChildOfOther(parent_id, id) => doc.nodes.contains_key(parent_id)
                && doc.nodes[parent_id].children.contains(id) && doc.nodes.contains_key(id)
                && doc.nodes[id].parent != Some(parent_id),
            Fault::Unlisted(id) => doc.nodes.contains_key(id) && !doc.parent_sound(id),
            Fault::Unrooted(id) => doc.nodes.contains_key(id) && !doc.rooted(id),
        }
    }

    /// The words in which the fault is reported.
    pub open spec fn text(self) -> Seq<char> {
        match self {
            Fault::MissingRoot(id) => "Root node "@ + id_text(id) + " not found in nodes"@,
            Fault::RootWithParent(id) => "Root node "@ + id_text(id) + " has a parent"@,
            Fault::DuplicateRoot(id) => "Root node "@ + id_text(id) + " is listed twice"@,
            Fault::MissingChild(parent_id, id) => "Node "@ + id_text(parent_id)
                + " references non-existent child "@ + id_text(id),
            Fault::DuplicateChild(parent_id, id) => "Node "@ + id_text(parent_id)
                + " lists child "@ + id_text(id) + " twice"@,
            Fault::ChildOfOther(parent_id, id) => "Node "@ + id_text(parent_id) + " lists child "@
                + id_text(id) + " which has another parent"@,
            Fault::Unlisted(id) => "Node "@ + id_text(id)
                + " is not listed where its parent link says"@,
            Fault::Unrooted(id) => "Node "@ + id_text(id) + " does not descend from a root"@,
        }
    }
}

/// A document with a fault is not valid.
pub proof fn lemma_fault_invalid(doc: DocView, fault: Fault)
    requires
        fault.occurs(doc),
    ensures
        !doc.valid(),
{
    if doc.valid() {
        match fault {
            Fault::MissingRoot(id) => {
                let i = choose|i: int| 0 <= i < doc.root_nodes.len() && doc.root_nodes[i] == id;
                assert(doc.nodes.contains_key(doc.root_nodes[i]));
            },
            Fault::RootWithParent(id) => {
                let i = choose|i: int| 0 <= i < doc.root_nodes.len() && doc.root_nodes[i] == id;
                assert(doc.nodes.contains_key(doc.root_nodes[i]));
            },
            Fault::DuplicateRoot(id) => {},
            Fault::MissingChild(parent_id, id) => {
                assert(doc.node_sound(parent_id));
                let list = doc.nodes[parent_id].children;
                let j = choose|j: int| 0 <= j < list.len() && list[j] == id;
                assert(doc.nodes.contains_key(list[j]));
            },
            Fault::DuplicateChild(parent_id, id) => {
                assert(doc.node_sound(parent_id));
            },
            Fault::ChildOfOther(parent_id, id) => {
                assert(doc.node_sound(parent_id));
                let list = doc.nodes[parent_id].children;
                let j = choose|j: int| 0 <= j < list.len() && list[j] == id;
                assert(doc.nodes.contains_key(list[j]));
            },
            Fault::Unlisted(id) => {
                assert(doc.node_sound(id));
            },
            Fault::Unrooted(id) => {
                assert(doc.node_sound(id));
            },
        }
    }
}

impl DocView {
    /// The fault at place `i` of the root list, if that place has one: the
    /// id has no node, or its node has a parent, or the id stands earlier
    /// in the list already.
    pub open spec fn root_fault_at(self, i: int) -> Option<Fault> {
        let id = self.root_nodes[i];
        if !self.nodes.contains_key(id) {
            Some(Fault::MissingRoot(id))
        } else if self.nodes[id].parent is Some {
            Some(Fault::RootWithParent(id))
        } else if self.root_nodes.index_of_first(id) != Some(i) {
            Some(Fault::DuplicateRoot(id))
        } else {
            None
        }
    }

    /// The fault of the first place of the root list, from `from` on, that
    /// has one.
    pub open spec fn root_fault_from(self, from: int) -> Option<Fault>
        decreases self.root_nodes.len() - from,
    {
        if from < 0 || from >= self.root_nodes.len() {
            None
        } else {
            match self.root_fault_at(from) {
                Some(fault) => Some(fault),
                None => self.root_fault_from(from + 1),
            }
        }
    }

    /// The fault at place `j` of the children of `id`, if that place has
    /// one: the child has no node, or its parent link names another, or the
    /// child stands earlier in the list already.
    pub open spec fn child_fault_at(self, id: u128, j: int) -> Option<Fault> {
        let child = self.nodes[id].children[j];
        if !self.nodes.contains_key(child) {
            Some(Fault::MissingChild(id, child))
        } else if self.nodes[child].parent != Some(id) {
            Some(Fault::ChildOfOther(id, child))
        } else if self.nodes[id].children.index_of_first(child) != Some(j) {
            Some(Fault::DuplicateChild(id, child))
        } else {
            None
        }
    }

    /// The fault of the first place of the children of `id`, from `from`
    /// on, that has one.
    pub open spec fn child_fault_from(self, id: u128, from: int) -> Option<Fault>
        decreases self.nodes[id].children.len() - from,
    {
        if from < 0 || from >= self.nodes[id].children.len() {
            None
        } else {
            match self.child_fault_at(id, from) {
                Some(fault) => Some(fault),
                None => self.child_fault_from(id, from + 1),
            }
        }
    }

    /// The fault that is reported of a node, if it has one: the first
    /// fault of its children list; else that it is not listed where its
    /// parent link says; else that its parent links do not lead to a root.
    pub open spec fn node_fault(self, id: u128) -> Option<Fault> {
        match self.child_fault_from(id, 0) {
            Some(fault) => Some(fault),
            None => if !self.parent_sound(id) {
                Some(Fault::Unlisted(id))
            } else if !self.rooted(id) {
                Some(Fault::Unrooted(id))
            } else {
                None
            },
        }
    }

    /// `id` is a node with a fault.
    pub open spec fn faulty(self, id: u128) -> bool {
        self.nodes.contains_key(id) && self.node_fault(id) is Some
    }

    /// `id` is the node with a fault whose id is the least.
    pub open spec fn least_faulty(self, id: u128) -> bool {
        self.faulty(id) && forall|other: u128| #[trigger] self.faulty(other) ==> id <= other
    }

    /// The fault that is reported of a document, if it has one: the first
    /// fault of the root list; else the fault of the node with the least id
    /// among the nodes that have one.
    pub open spec fn first_fault(self) -> Option<Fault> {
        match self.root_fault_from(0) {
            Some(fault) => Some(fault),
            None => if exists|id: u128| self.least_faulty(id) {
                self.node_fault(choose|id: u128| self.least_faulty(id))
            } else {
                None
            },
        }
    }
}

/// The first fault of the root list is a fault of the document; where
/// there is none, every place of the list from `from` on is sound.
pub proof fn lemma_root_fault(doc: DocView, from: int)
    requires
        0 <= from <= doc.root_nodes.len(),
    ensures
        doc.root_fault_from(from) matches Some(fault) ==> fault.occurs(doc),
        doc.root_fault_from(from) is None ==> forall|k: int|
            from <= k < doc.root_nodes.len() ==> (#[trigger] doc.root_fault_at(k)) is None,
    decreases doc.root_nodes.len() - from,
{
    if from < doc.root_nodes.len() {
        let id = doc.root_nodes[from];
        assert(doc.root_nodes.contains(id));
        doc.root_nodes.index_of_first_ensures(id);
        lemma_root_fault(doc, from + 1);
    }
}

/// The first fault of a children list is a fault of the document; where
/// there is none, every place of the list from `from` on is sound.
pub proof fn lemma_child_fault(doc: DocView, id: u128, from: int)
    requires
        doc.nodes.contains_key(id),
        0 <= from <= doc.nodes[id].children.len(),
    ensures
        doc.child_fault_from(id, from) matches Some(fault) ==> fault.occurs(doc),
        doc.child_fault_from(id, from) is None ==> forall|k: int|
            from <= k < doc.nodes[id].children.len() ==> (#[trigger] doc.child_fault_at(id, k))
                is None,
    decreases doc.nodes[id].children.len() - from,
{
    let list = doc.nodes[id].children;
    if from < list.len() {
        assert(list.contains(list[from]));
        list.index_of_first_ensures(list[from]);
        lemma_child_fault(doc, id, from + 1);
    }
}

/// A list in which every item stands at the place of its first occurrence
/// holds nothing twice.
pub proof fn lemma_first_places(list: Seq<u128>)
    requires
        forall|k: int| 0 <= k < list.len() ==> list.index_of_first(#[trigger] list[k]) == Some(k),
    ensures
        list.no_duplicates(),
{
    assert forall|a: int, b: int| 0 <= a < list.len() && 0 <= b < list.len() && a != b implies list[a]
        != list[b] by {
        assert(list.index_of_first(list[a]) == Some(a));
        assert(list.index_of_first(list[b]) == Some(b));
    }
}

/// The fault that is reported of a node is a fault of the document; a
/// node of which none is reported is sound.
pub proof fn lemma_node_fault(doc: DocView, id: u128)
    requires
        doc.nodes.contains_key(id),
    ensures
        doc.node_fault(id) matches Some(fault) ==> fault.occurs(doc),
        doc.node_fault(id) is None ==> doc.node_sound(id),
{
    lemma_child_fault(doc, id, 0);
    if doc.child_fault_from(id, 0) is None {
        let list = doc.nodes[id].children;
        assert forall|k: int| 0 <= k < list.len() implies list.index_of_first(#[trigger] list[k])
            == Some(k) && doc.nodes.contains_key(list[k]) && doc.nodes[list[k]].parent == Some(
            id,
        ) by {
            assert(doc.child_fault_at(id, k) is None);
        }
        lemma_first_places(list);
    }
}

/// The fault that is reported of a document is a fault that it has, and
/// none is reported of exactly the valid documents.
pub proof fn lemma_first_fault(doc: DocView)
    requires
        doc.nodes.dom().finite(),
    ensures
        doc.first_fault() matches Some(fault) ==> fault.occurs(doc) && !doc.valid(),
        doc.first_fault() is None <==> doc.valid(),
{
    lemma_root_fault(doc, 0);
    match doc.root_fault_from(0) {
        Some(fault) => {
            lemma_fault_invalid(doc, fault);
        },
        None => {
            let list = doc.root_nodes;
            assert forall|k: int| 0 <= k < list.len() implies list.index_of_first(
                #[trigger] list[k],
            ) == Some(k) && doc.nodes.contains_key(list[k]) && doc.nodes[list[k]].parent
                is None by {
                assert(doc.root_fault_at(k) is None);
            }
            lemma_first_places(list);
            assert(doc.roots_sound());
            if exists|id: u128| doc.least_faulty(id) {
                let id = choose|id: u128| doc.least_faulty(id);
                lemma_node_fault(doc, id);
                lemma_fault_invalid(doc, doc.node_fault(id)->Some_0);
            } else if !doc.valid() {
                let bad = choose|id: u128|
                    #[trigger] doc.nodes.contains_key(id) && !doc.node_sound(id);
                lemma_node_fault(doc, bad);
                lemma_least_faulty(doc, bad);
            }
        },
    }
}

/// Where a node has a fault, some node with a fault has the least id.
pub proof fn lemma_least_faulty(doc: DocView, id: u128)
    requires
        doc.faulty(id),
    ensures
        exists|least: u128| doc.least_faulty(least),
    decreases id,
{
    if exists|other: u128| doc.faulty(other) && other < id {
        let other = choose|other: u128| doc.faulty(other) && other < id;
        lemma_least_faulty(doc, other);
    } else {
        assert(doc.least_faulty(id));
    }
}

} // verus!
