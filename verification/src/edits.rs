//! What adding and moving widgets does to a document.

use crate::error::ErrorView;
use crate::forest::lemma_walk_longer;
use crate::model::{clamp, swapped, DocView};
use crate::widget::ConfigView;
use vstd::prelude::*;

verus! {

impl DocView {
    /// `id` stands first in the list that its parent link names, and that
    /// list exists.
    pub open spec fn is_first(self, id: u128) -> bool {
        match self.nodes[id].parent {
            None => self.root_nodes.len() > 0 && self.root_nodes[0] == id,
            Some(parent_id) => self.nodes.contains_key(parent_id)
                && self.nodes[parent_id].children.len() > 0 && self.nodes[parent_id].children[0]
                == id,
        }
    }

    /// `id` stands last, and nowhere else, in the list that its parent link
    /// names, and that list exists.
    pub open spec fn is_last(self, id: u128) -> bool {
        match self.nodes[id].parent {
            None => self.root_nodes.index_of_first(id) == Some(self.root_nodes.len() - 1),
            Some(parent_id) => self.nodes.contains_key(parent_id)
                && self.nodes[parent_id].children.index_of_first(id) == Some(
                self.nodes[parent_id].children.len() - 1,
            ),
        }
    }

    /// Two documents have the same nodes with the same parent links.
    pub open spec fn same_links(self, other: DocView) -> bool {
        &&& self.nodes.dom() == other.nodes.dom()
        &&& forall|id: u128| #[trigger]
            self.nodes.contains_key(id) ==> self.nodes[id].parent == other.nodes[id].parent
    }

    /// The other document has every node of this one, with the same parent
    /// link.
    pub open spec fn links_kept(self, other: DocView) -> bool {
        forall|id: u128| #[trigger]
            self.nodes.contains_key(id) ==> other.nodes.contains_key(id) && self.nodes[id].parent
                == other.nodes[id].parent
    }
}

/// Replacing a node's children by the same children changes nothing.
pub proof fn lemma_same_children(doc: DocView, id: u128)
    requires
        doc.nodes.contains_key(id),
    ensures
        doc.with_children_of(id, doc.nodes[id].children) == doc,
{
    assert(doc.nodes.insert(id, doc.nodes[id].with_children(doc.nodes[id].children))
        =~= doc.nodes);
}

/// Moving up the widget that stands first in its list succeeds and leaves
/// the document as it was.
pub proof fn lemma_move_up_first(doc: DocView, id: u128)
    requires
        doc.nodes.contains_key(id),
        doc.is_first(id),
    ensures
        doc.move_widget_up(id) == Ok::<DocView, ErrorView>(doc),
{
    match doc.nodes[id].parent {
        None => {
            doc.root_nodes.index_of_first_ensures(id);
        },
        Some(parent_id) => {
            doc.nodes[parent_id].children.index_of_first_ensures(id);
            lemma_same_children(doc, parent_id);
        },
    }
}

/// Moving down the widget that stands last in its list succeeds and leaves
/// the document as it was.
pub proof fn lemma_move_down_last(doc: DocView, id: u128)
    requires
        doc.nodes.contains_key(id),
        doc.is_last(id),
    ensures
        doc.move_widget_down(id) == Ok::<DocView, ErrorView>(doc),
{
    match doc.nodes[id].parent {
        None => {},
        Some(parent_id) => {
            lemma_same_children(doc, parent_id);
        },
    }
}

/// A list with two of its items exchanged holds the same items, and none
/// twice if it held none twice.
pub proof fn lemma_swapped(list: Seq<u128>, i: int, j: int)
    requires
        0 <= i < list.len(),
        0 <= j < list.len(),
    ensures
        swapped(list, i, j).len() == list.len(),
        forall|id: u128| #[trigger] swapped(list, i, j).contains(id) <==> list.contains(id),
        list.no_duplicates() ==> swapped(list, i, j).no_duplicates(),
{
    let after = swapped(list, i, j);
    let place = |k: int|
        if k == i {
            j
        } else if k == j {
            i
        } else {
            k
        };
    assert forall|k: int| 0 <= k < list.len() implies after[k] == list[place(k)] by {}
    assert forall|id: u128| #[trigger] after.contains(id) <==> list.contains(id) by {
        if after.contains(id) {
            let k = choose|k: int| 0 <= k < after.len() && after[k] == id;
            assert(list[place(k)] == id);
        }
        if list.contains(id) {
            let k = choose|k: int| 0 <= k < list.len() && list[k] == id;
            assert(after[place(k)] == id);
        }
    }
    if list.no_duplicates() {
        assert forall|a: int, b: int|
            0 <= a < after.len() && 0 <= b < after.len() && a != b implies after[a] != after[b] by {
            assert(after[a] == list[place(a)] && after[b] == list[place(b)]);
        }
    }
}

/// A walk in a document is the same walk in a document that kept its
/// nodes and their parent links.
pub proof fn lemma_walk_kept(doc: DocView, other: DocView, id: u128, fuel: nat)
    requires
        doc.links_kept(other),
        doc.walks_out(id, fuel),
    ensures
        other.walks_out(id, fuel),
    decreases fuel,
{
    if doc.nodes[id].parent is Some {
        lemma_walk_kept(doc, other, doc.nodes[id].parent->Some_0, (fuel - 1) as nat);
    }
}

/// A valid document stays valid when the items of one list change places.
pub proof fn lemma_reordered_valid(doc: DocView, after: DocView)
    requires
        doc.valid(),
        doc.same_links(after),
        after.root_nodes.no_duplicates(),
        forall|id: u128| #[trigger] after.root_nodes.contains(id) <==> doc.root_nodes.contains(id),
        forall|id: u128| #[trigger]
            doc.nodes.contains_key(id) ==> after.nodes[id].children.no_duplicates() && forall|
                child: u128,
            | #[trigger]
                after.nodes[id].children.contains(child) <==> doc.nodes[id].children.contains(
                    child,
                ),
    ensures
        after.valid(),
{
    assert(after.roots_sound()) by {
        assert forall|i: int| 0 <= i < after.root_nodes.len() implies after.nodes.contains_key(
            #[trigger] after.root_nodes[i],
        ) && after.nodes[after.root_nodes[i]].parent is None by {
            let root = after.root_nodes[i];
            assert(after.root_nodes.contains(root));
            assert(doc.root_nodes.contains(root));
            let k = choose|k: int| 0 <= k < doc.root_nodes.len() && doc.root_nodes[k] == root;
            assert(doc.nodes.contains_key(doc.root_nodes[k]));
        }
    }
    assert forall|id: u128| #[trigger] after.nodes.contains_key(id) implies after.node_sound(
        id,
    ) by {
        assert(doc.nodes.contains_key(id));
        assert(doc.node_sound(id));
        let list = after.nodes[id].children;
        assert forall|j: int| 0 <= j < list.len() implies after.nodes.contains_key(
            #[trigger] list[j],
        ) && after.nodes[list[j]].parent == Some(id) by {
            assert(list.contains(list[j]));
            let old_list = doc.nodes[id].children;
            assert(old_list.contains(list[j]));
            let k = choose|k: int| 0 <= k < old_list.len() && old_list[k] == list[j];
            assert(doc.nodes.contains_key(old_list[k]));
        }
        match doc.nodes[id].parent {
            None => {},
            Some(parent_id) => {
                assert(doc.nodes.contains_key(parent_id));
            },
        }
        assert(doc.links_kept(after));
        lemma_walk_kept(doc, after, id, doc.nodes.len());
    }
}

/// Moving a widget of a valid document up or down succeeds and leaves a
/// valid document with the same nodes.
pub proof fn lemma_move_valid(doc: DocView, id: u128)
    requires
        doc.valid(),
        doc.nodes.contains_key(id),
    ensures
        doc.move_widget_up(id) is Ok,
        doc.move_widget_up(id)->Ok_0.valid(),
        doc.move_widget_up(id)->Ok_0.nodes.dom() == doc.nodes.dom(),
        doc.move_widget_down(id) is Ok,
        doc.move_widget_down(id)->Ok_0.valid(),
        doc.move_widget_down(id)->Ok_0.nodes.dom() == doc.nodes.dom(),
{
    assert(doc.node_sound(id));
    match doc.nodes[id].parent {
        None => {
            let list = doc.root_nodes;
            list.index_of_first_ensures(id);
            let pos = list.index_of_first(id)->Some_0;
            if pos > 0 {
                lemma_swapped(list, pos - 1, pos);
            }
            if pos < list.len() - 1 {
                lemma_swapped(list, pos, pos + 1);
            }
            lemma_reordered_valid(doc, doc.move_widget_up(id)->Ok_0);
            lemma_reordered_valid(doc, doc.move_widget_down(id)->Ok_0);
        },
        Some(parent_id) => {
            let list = doc.nodes[parent_id].children;
            list.index_of_first_ensures(id);
            let pos = list.index_of_first(id)->Some_0;
            assert(doc.node_sound(parent_id));
            if pos > 0 {
                lemma_swapped(list, pos - 1, pos);
            }
            if pos < list.len() - 1 {
                lemma_swapped(list, pos, pos + 1);
            }
            let up = doc.move_widget_up(id)->Ok_0;
            let down = doc.move_widget_down(id)->Ok_0;
            assert(up.nodes.dom() =~= doc.nodes.dom());
            assert(down.nodes.dom() =~= doc.nodes.dom());
            lemma_reordered_valid(doc, up);
            lemma_reordered_valid(doc, down);
        },
    }
}

/// A list with a new item put in holds the old items and the new one, and
/// none twice if it held none twice.
pub proof fn lemma_inserted(list: Seq<u128>, position: int, id: u128)
    requires
        0 <= position <= list.len(),
        !list.contains(id),
    ensures
        forall|other: u128| #[trigger]
            list.insert(position, id).contains(other) <==> list.contains(other) || other == id,
        list.no_duplicates() ==> list.insert(position, id).no_duplicates(),
{
    let after = list.insert(position, id);
    let back = |k: int|
        if k < position {
            k
        } else {
            k - 1
        };
    assert forall|other: u128| #[trigger]
        after.contains(other) <==> list.contains(other) || other == id by {
        if after.contains(other) {
            let k = choose|k: int| 0 <= k < after.len() && after[k] == other;
            if k != position {
                assert(list[back(k)] == other);
            }
        }
        if list.contains(other) {
            let k = choose|k: int| 0 <= k < list.len() && list[k] == other;
            if k < position {
                assert(after[k] == other);
            } else {
                assert(after[k + 1] == other);
            }
        }
        if other == id {
            assert(after[position] == id);
        }
    }
    if list.no_duplicates() {
        assert forall|a: int, b: int|
            0 <= a < after.len() && 0 <= b < after.len() && a != b implies after[a] != after[b] by {
            if a != position {
                assert(after[a] == list[back(a)]);
                assert(list.contains(after[a]));
            }
            if b != position {
                assert(after[b] == list[back(b)]);
                assert(list.contains(after[b]));
            }
        }
    }
}

/// A valid document stays valid when a new node is put in where its
/// parent link says: among the roots, or among the children of a node that
/// exists.
pub proof fn lemma_grown_valid(doc: DocView, after: DocView, id: u128)
    requires
        doc.valid(),
        !doc.nodes.contains_key(id),
        after.nodes.dom() == doc.nodes.dom().insert(id),
        after.nodes[id].children.len() == 0,
        doc.links_kept(after),
        match after.nodes[id].parent {
            None => {
                &&& after.root_nodes.no_duplicates()
                &&& forall|other: u128| #[trigger]
                    after.root_nodes.contains(other) <==> doc.root_nodes.contains(other) || other
                        == id
                &&& forall|other: u128| #[trigger]
                    doc.nodes.contains_key(other) ==> after.nodes[other].children
                        == doc.nodes[other].children
            },
            Some(parent_id) => {
                &&& doc.nodes.contains_key(parent_id)
                &&& after.root_nodes == doc.root_nodes
                &&& after.nodes[parent_id].children.no_duplicates()
                &&& forall|other: u128| #[trigger]
                    after.nodes[parent_id].children.contains(other)
                        <==> doc.nodes[parent_id].children.contains(other) || other == id
                &&& forall|other: u128| #[trigger]
                    doc.nodes.contains_key(other) && other != parent_id
                        ==> after.nodes[other].children == doc.nodes[other].children
            },
        },
    ensures
        after.valid(),
        after.nodes.len() == doc.nodes.len() + 1,
{
    let n = doc.nodes.len();
    assert(after.roots_sound()) by {
        assert forall|i: int| 0 <= i < after.root_nodes.len() implies after.nodes.contains_key(
            #[trigger] after.root_nodes[i],
        ) && after.nodes[after.root_nodes[i]].parent is None by {
            let root = after.root_nodes[i];
            assert(after.root_nodes.contains(root));
            if root != id {
                assert(doc.root_nodes.contains(root));
                let k = choose|k: int| 0 <= k < doc.root_nodes.len() && doc.root_nodes[k] == root;
                assert(doc.nodes.contains_key(doc.root_nodes[k]));
            } else if after.nodes[id].parent is Some {
                assert(doc.root_nodes.contains(root));
                let k = choose|k: int| 0 <= k < doc.root_nodes.len() && doc.root_nodes[k] == root;
                assert(doc.nodes.contains_key(doc.root_nodes[k]));
            }
        }
    }
    assert forall|other: u128| #[trigger] after.nodes.contains_key(other) implies after.node_sound(
        other,
    ) by {
        let list = after.nodes[other].children;
        if other == id {
            match after.nodes[id].parent {
                None => {},
                Some(parent_id) => {
                    assert(doc.node_sound(parent_id));
                    lemma_walk_kept(doc, after, parent_id, n);
                },
            }
        } else {
            assert(doc.nodes.contains_key(other));
            assert(doc.node_sound(other));
            let old_list = doc.nodes[other].children;
            assert forall|j: int| 0 <= j < list.len() implies after.nodes.contains_key(
                #[trigger] list[j],
            ) && after.nodes[list[j]].parent == Some(other) by {
                assert(list.contains(list[j]));
                if list[j] != id {
                    assert(old_list.contains(list[j]));
                    let k = choose|k: int| 0 <= k < old_list.len() && old_list[k] == list[j];
                    assert(doc.nodes.contains_key(old_list[k]));
                } else {
                    assert(!old_list.contains(id)) by {
                        if old_list.contains(id) {
                            let k = choose|k: int| 0 <= k < old_list.len() && old_list[k] == id;
                            assert(doc.nodes.contains_key(old_list[k]));
                        }
                    }
                }
            }
            match doc.nodes[other].parent {
                None => {},
                Some(parent_id) => {
                    assert(doc.nodes.contains_key(parent_id));
                },
            }
            lemma_walk_kept(doc, after, other, n);
            lemma_walk_longer(after, other, n, n + 1);
        }
    }
}

/// Adding a root with a fresh id to a valid document leaves a valid
/// document with one node more.
pub proof fn lemma_add_root_valid(doc: DocView, id: u128, config: ConfigView, position: int)
    requires
        doc.valid(),
        !doc.nodes.contains_key(id),
        0 <= position,
    ensures
        doc.add_root_widget(id, config).valid(),
        doc.add_root_widget(id, config).nodes.len() == doc.nodes.len() + 1,
        doc.insert_root_widget(id, config, position).valid(),
        doc.insert_root_widget(id, config, position).nodes.len() == doc.nodes.len() + 1,
{
    assert(!doc.root_nodes.contains(id)) by {
        if doc.root_nodes.contains(id) {
            let k = choose|k: int| 0 <= k < doc.root_nodes.len() && doc.root_nodes[k] == id;
            assert(doc.nodes.contains_key(doc.root_nodes[k]));
        }
    }
    let len = doc.root_nodes.len() as int;
    assert(doc.root_nodes.push(id) =~= doc.root_nodes.insert(len, id));
    lemma_inserted(doc.root_nodes, len, id);
    lemma_inserted(doc.root_nodes, clamp(position, len), id);
    lemma_grown_valid(doc, doc.add_root_widget(id, config), id);
    lemma_grown_valid(doc, doc.insert_root_widget(id, config, position), id);
}

/// Adding a child with a fresh id under a node of a valid document
/// succeeds and leaves a valid document with one node more.
pub proof fn lemma_add_child_valid(
    doc: DocView,
    parent_id: u128,
    id: u128,
    config: ConfigView,
    position: int,
)
    requires
        doc.valid(),
        doc.nodes.contains_key(parent_id),
        !doc.nodes.contains_key(id),
        0 <= position,
    ensures
        doc.add_child_widget(parent_id, id, config) is Ok,
        doc.add_child_widget(parent_id, id, config)->Ok_0.valid(),
        doc.add_child_widget(parent_id, id, config)->Ok_0.nodes.len() == doc.nodes.len() + 1,
        doc.insert_child_widget(parent_id, id, config, position) is Ok,
        doc.insert_child_widget(parent_id, id, config, position)->Ok_0.valid(),
        doc.insert_child_widget(parent_id, id, config, position)->Ok_0.nodes.len()
            == doc.nodes.len() + 1,
{
    let list = doc.nodes[parent_id].children;
    assert(doc.node_sound(parent_id));
    assert(!list.contains(id)) by {
        if list.contains(id) {
            let k = choose|k: int| 0 <= k < list.len() && list[k] == id;
            assert(doc.nodes.contains_key(list[k]));
        }
    }
    let len = list.len() as int;
    assert(list.push(id) =~= list.insert(len, id));
    lemma_inserted(list, len, id);
    lemma_inserted(list, clamp(position, len), id);
    let added = doc.add_child_widget(parent_id, id, config)->Ok_0;
    let inserted = doc.insert_child_widget(parent_id, id, config, position)->Ok_0;
    assert(added.nodes.dom() =~= doc.nodes.dom().insert(id));
    assert(inserted.nodes.dom() =~= doc.nodes.dom().insert(id));
    lemma_grown_valid(doc, added, id);
    lemma_grown_valid(doc, inserted, id);
}

/// Replacing a configuration in a valid document leaves a valid document.
pub proof fn lemma_set_config_valid(doc: DocView, id: u128, config: ConfigView)
    requires
        doc.valid(),
        doc.nodes.contains_key(id),
    ensures
        doc.set_config(id, config) is Ok,
        doc.set_config(id, config)->Ok_0.valid(),
{
    let after = doc.set_config(id, config)->Ok_0;
    assert(after.nodes.dom() =~= doc.nodes.dom());
    assert forall|other: u128| #[trigger] doc.nodes.contains_key(other) implies after.nodes[other].children
        == doc.nodes[other].children by {}
    assert forall|other: u128| #[trigger]
        doc.nodes.contains_key(other) implies after.nodes[other].children.no_duplicates() by {
        assert(doc.node_sound(other));
    }
    lemma_reordered_valid(doc, after);
}

/// The empty document is valid.
pub proof fn lemma_empty_valid()
    ensures
        DocView::empty().valid(),
{
}

} // verus!
