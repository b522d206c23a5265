//! What removing a widget does to a valid document.

use crate::forest::{
    lemma_steps, lemma_under_chain, lemma_under_depth, lemma_under_unique, lemma_walk_longer,
    lemma_walk_short,
};
use crate::model::{without, DocView};
use vstd::prelude::*;

verus! {

impl DocView {
    /// `id` is a node that is `top` or has it among its ancestors.
    pub open spec fn below(self, id: u128, top: u128) -> bool {
        self.nodes.contains_key(id) && self.is_under(id, top, self.nodes.len())
    }

    /// `id` is below one of the first `k` children of `top`.
    pub open spec fn below_child(self, id: u128, top: u128, k: int) -> bool {
        exists|j: int| 0 <= j < k && self.below(id, #[trigger] self.nodes[top].children[j])
    }
}

/// A list made of two holds what either holds.
pub proof fn lemma_joined(front: Seq<u128>, back: Seq<u128>, id: u128)
    ensures
        (front + back).contains(id) <==> front.contains(id) || back.contains(id),
{
    let all = front + back;
    if all.contains(id) {
        let i = choose|i: int| 0 <= i < all.len() && all[i] == id;
        if i < front.len() {
            assert(front[i] == id);
        } else {
            assert(back[i - front.len()] == id);
        }
    }
    if front.contains(id) {
        let i = choose|i: int| 0 <= i < front.len() && front[i] == id;
        assert(all[i] == id);
    }
    if back.contains(id) {
        let i = choose|i: int| 0 <= i < back.len() && back[i] == id;
        assert(all[front.len() + i] == id);
    }
}

/// A child listed by a node of a valid document is one step deeper than
/// the node, and is below it.
pub proof fn lemma_child(doc: DocView, top: u128, j: int)
    requires
        doc.valid(),
        doc.nodes.contains_key(top),
        0 <= j < doc.nodes[top].children.len(),
    ensures
        doc.nodes.contains_key(doc.nodes[top].children[j]),
        doc.nodes[doc.nodes[top].children[j]].parent == Some(top),
        doc.steps(doc.nodes[top].children[j], doc.nodes.len()) == doc.steps(top, doc.nodes.len())
            + 1,
        doc.is_under(doc.nodes[top].children[j], top, 1),
{
    let n = doc.nodes.len();
    let child = doc.nodes[top].children[j];
    assert(doc.node_sound(top));
    assert(doc.nodes.contains_key(child));
    assert(doc.node_sound(child));
    lemma_walk_short(doc, top, n);
    lemma_steps(doc, top, (n - 1) as nat, n);
    assert(doc.is_under(top, top, 0));
}

/// A node strictly below `top` in a valid document is below one of the
/// children that `top` lists.
pub proof fn lemma_through_child(doc: DocView, id: u128, top: u128, fuel: nat)
    requires
        doc.valid(),
        doc.nodes.contains_key(id),
        doc.nodes.contains_key(top),
        doc.is_under(id, top, fuel),
        id != top,
    ensures
        exists|j: int|
            0 <= j < doc.nodes[top].children.len() && doc.is_under(
                id,
                #[trigger] doc.nodes[top].children[j],
                fuel,
            ),
    decreases fuel,
{
    let parent_id = doc.nodes[id].parent->Some_0;
    assert(doc.node_sound(id));
    if parent_id == top {
        let list = doc.nodes[top].children;
        let j = choose|j: int| 0 <= j < list.len() && list[j] == id;
        assert(doc.is_under(id, list[j], fuel));
    } else {
        lemma_through_child(doc, parent_id, top, (fuel - 1) as nat);
        let j = choose|j: int|
            0 <= j < doc.nodes[top].children.len() && doc.is_under(
                parent_id,
                #[trigger] doc.nodes[top].children[j],
                (fuel - 1) as nat,
            );
        assert(doc.is_under(id, doc.nodes[top].children[j], fuel));
    }
}

/// In a valid document, with fuel enough for what lies under `top`, the
/// subtree of `top` is collected without failure, holds no id twice, and
/// holds exactly the nodes below `top`.
pub proof fn lemma_subtree(doc: DocView, top: u128, fuel: nat)
    requires
        doc.valid(),
        doc.nodes.contains_key(top),
        fuel + doc.steps(top, doc.nodes.len()) >= doc.nodes.len(),
    ensures
        doc.subtree(top, fuel) is Ok,
        doc.subtree(top, fuel)->Ok_0.no_duplicates(),
        forall|id: u128| #[trigger]
            doc.subtree(top, fuel)->Ok_0.contains(id) <==> doc.below(id, top),
    decreases fuel, 0nat,
{
    let n = doc.nodes.len();
    let kids = doc.nodes[top].children;
    assert(doc.node_sound(top));
    lemma_walk_short(doc, top, n);
    lemma_steps(doc, top, n, n);
    lemma_subtrees(doc, top, kids.len() as int, (fuel - 1) as nat);
    assert(kids.take(kids.len() as int) =~= kids);
    let under = doc.subtrees(kids, (fuel - 1) as nat)->Ok_0;
    let all = under.push(top);
    assert(doc.subtree(top, fuel) == Ok::<Seq<u128>, crate::error::ErrorView>(all));
    if under.contains(top) {
        let j = choose|j: int| 0 <= j < kids.len() && doc.below(top, #[trigger] kids[j]);
        lemma_child(doc, top, j);
        lemma_under_depth(doc, top, kids[j], n, n);
        assert(false);
    }
    assert forall|id: u128| #[trigger] all.contains(id) <==> doc.below(id, top) by {
        lemma_joined(under, seq![top], id);
        assert(all =~= under + seq![top]);
        assert(seq![top].contains(id) <==> id == top) by {
            if id == top {
                assert(seq![top][0] == id);
            }
        }
        if under.contains(id) {
            let j = choose|j: int| 0 <= j < kids.len() && doc.below(id, #[trigger] kids[j]);
            lemma_child(doc, top, j);
            lemma_under_chain(doc, id, kids[j], top, n, 1);
            assert(doc.node_sound(id));
            lemma_under_depth(doc, id, top, n + 1, n);
        }
        if doc.below(id, top) && id != top {
            lemma_through_child(doc, id, top, n);
        }
    }
}

/// The same of the subtrees of the first `k` children of `top`.
pub proof fn lemma_subtrees(doc: DocView, top: u128, k: int, fuel: nat)
    requires
        doc.valid(),
        doc.nodes.contains_key(top),
        0 <= k <= doc.nodes[top].children.len(),
        fuel + doc.steps(top, doc.nodes.len()) + 1 >= doc.nodes.len(),
    ensures
        doc.subtrees(doc.nodes[top].children.take(k), fuel) is Ok,
        doc.subtrees(doc.nodes[top].children.take(k), fuel)->Ok_0.no_duplicates(),
        forall|id: u128| #[trigger]
            doc.subtrees(doc.nodes[top].children.take(k), fuel)->Ok_0.contains(id)
                <==> doc.below_child(id, top, k),
    decreases fuel, 1 + k,
{
    let n = doc.nodes.len();
    let kids = doc.nodes[top].children;
    if k > 0 {
        let child = kids[k - 1];
        assert(kids.take(k).drop_last() =~= kids.take(k - 1));
        assert(kids.take(k).last() == child);
        lemma_subtrees(doc, top, k - 1, fuel);
        lemma_child(doc, top, k - 1);
        lemma_subtree(doc, child, fuel);
        let front = doc.subtrees(kids.take(k - 1), fuel)->Ok_0;
        let back = doc.subtree(child, fuel)->Ok_0;
        let all = front + back;
        assert forall|id: u128| #[trigger] all.contains(id) <==> doc.below_child(id, top, k) by {
            lemma_joined(front, back, id);
            if doc.below_child(id, top, k) {
                let j = choose|j: int| 0 <= j < k && doc.below(id, #[trigger] kids[j]);
                if j < k - 1 {
                    assert(doc.below_child(id, top, k - 1));
                }
            }
            if front.contains(id) {
                let j = choose|j: int| 0 <= j < k - 1 && doc.below(id, #[trigger] kids[j]);
                assert(doc.below(id, kids[j]));
            }
            if back.contains(id) {
                assert(doc.below(id, kids[k - 1]));
            }
        }
        assert forall|a: int, b: int| 0 <= a < all.len() && 0 <= b < all.len() && a != b implies all[a]
            != all[b] by {
            if a < front.len() && b >= front.len() {
                lemma_apart(doc, top, k, front, back, a, b - front.len());
            } else if b < front.len() && a >= front.len() {
                lemma_apart(doc, top, k, front, back, b, a - front.len());
            }
        }
    }
}

/// No node is below two children of one node.
proof fn lemma_apart(
    doc: DocView,
    top: u128,
    k: int,
    front: Seq<u128>,
    back: Seq<u128>,
    a: int,
    b: int,
)
    requires
        doc.valid(),
        doc.nodes.contains_key(top),
        0 < k <= doc.nodes[top].children.len(),
        0 <= a < front.len(),
        0 <= b < back.len(),
        forall|id: u128| #[trigger] front.contains(id) ==> doc.below_child(id, top, k - 1),
        forall|id: u128| #[trigger]
            back.contains(id) ==> doc.below(id, doc.nodes[top].children[k - 1]),
    ensures
        front[a] != back[b],
{
    let n = doc.nodes.len();
    let kids = doc.nodes[top].children;
    let id = front[a];
    if id == back[b] {
        assert(front.contains(id));
        assert(back.contains(id));
        let j = choose|j: int| 0 <= j < k - 1 && doc.below(id, #[trigger] kids[j]);
        lemma_child(doc, top, j);
        lemma_child(doc, top, k - 1);
        assert(doc.node_sound(id));
        assert(doc.node_sound(top));
        lemma_under_unique(doc, id, kids[j], kids[k - 1], n, n);
        assert(false);
    }
}

/// What is left of a list after every occurrence of `id` is taken out.
pub proof fn lemma_without(list: Seq<u128>, id: u128)
    ensures
        forall|other: u128| #[trigger]
            without(list, id).contains(other) <==> list.contains(other) && other != id,
        list.no_duplicates() ==> without(list, id).no_duplicates(),
    decreases list.len(),
{
    reveal(Seq::filter);
    if list.len() > 0 {
        let front = list.drop_last();
        let last = list.last();
        lemma_without(front, id);
        let kept = without(front, id);
        assert(list =~= front.push(last));
        assert forall|other: u128| #[trigger]
            without(list, id).contains(other) <==> list.contains(other) && other != id by {
            lemma_joined(front, seq![last], other);
            lemma_joined(kept, seq![last], other);
            assert(front + seq![last] =~= list);
            assert(kept + seq![last] =~= kept.push(last));
            assert(seq![last].contains(other) <==> other == last) by {
                if other == last {
                    assert(seq![last][0] == other);
                }
            }
        }
        if list.no_duplicates() {
            assert(front.no_duplicates());
            if last != id {
                assert(!front.contains(last)) by {
                    if front.contains(last) {
                        let i = choose|i: int| 0 <= i < front.len() && front[i] == last;
                        assert(list[i] == list[list.len() - 1]);
                    }
                }
                assert(!kept.contains(last));
                assert(kept.push(last).no_duplicates());
            }
        }
    }
}

/// What is left of a list without repetition after `id` is taken out of
/// it once.
pub proof fn lemma_remove_value(list: Seq<u128>, id: u128)
    requires
        list.no_duplicates(),
    ensures
        list.remove_value(id).no_duplicates(),
        forall|other: u128| #[trigger]
            list.remove_value(id).contains(other) <==> list.contains(other) && other != id,
{
    list.index_of_first_ensures(id);
    match list.index_of_first(id) {
        Some(i) => {
            let rest = list.remove(i);
            assert forall|other: u128| #[trigger]
                rest.contains(other) <==> list.contains(other) && other != id by {
                if rest.contains(other) {
                    let j = choose|j: int| 0 <= j < rest.len() && rest[j] == other;
                    let j0 = if j < i {
                        j
                    } else {
                        j + 1
                    };
                    assert(list[j0] == other);
                }
                if list.contains(other) && other != id {
                    let j = choose|j: int| 0 <= j < list.len() && list[j] == other;
                    let j1 = if j < i {
                        j
                    } else {
                        j - 1
                    };
                    assert(rest[j1] == other);
                }
            }
            assert forall|a: int, b: int|
                0 <= a < rest.len() && 0 <= b < rest.len() && a != b implies rest[a] != rest[b] by {
                let a0 = if a < i {
                    a
                } else {
                    a + 1
                };
                let b0 = if b < i {
                    b
                } else {
                    b + 1
                };
                assert(rest[a] == list[a0] && rest[b] == list[b0]);
            }
        },
        None => {},
    }
}

impl DocView {
    /// The nodes that removing `id` takes out: `id` and what is below it.
    pub open spec fn removed(self, id: u128) -> Set<u128> {
        Set::new(|other: u128| self.below(other, id))
    }

    /// The children that a node lists once `id` is removed.
    pub open spec fn children_after(self, id: u128, of: u128) -> Seq<u128> {
        if self.nodes[id].parent == Some(of) {
            self.nodes[of].children.remove_value(id)
        } else {
            self.nodes[of].children
        }
    }

    /// The roots once `id` is removed.
    pub open spec fn roots_after(self, id: u128) -> Seq<u128> {
        if self.nodes[id].parent is None {
            without(self.root_nodes, id)
        } else {
            self.root_nodes
        }
    }

    /// The document without `id` and what is below it: every other node as
    /// it was, but that the parent of `id` no longer lists it, nor do the
    /// roots.
    pub open spec fn pruned(self, id: u128) -> DocView {
        DocView {
            root_nodes: self.roots_after(id),
            nodes: Map::new(
                |other: u128| self.nodes.contains_key(other) && !self.below(other, id),
                |other: u128| self.nodes[other].with_children(self.children_after(id, other)),
            ),
            ..self
        }
    }
}

/// In a valid document, removing a widget succeeds and leaves the document
/// pruned of it.
pub proof fn lemma_remove_prunes(doc: DocView, id: u128)
    requires
        doc.valid(),
        doc.nodes.contains_key(id),
    ensures
        doc.remove_widget(id) == Ok::<DocView, crate::error::ErrorView>(doc.pruned(id)),
        doc.subtree(id, doc.nodes.len()) is Ok,
        doc.subtree(id, doc.nodes.len())->Ok_0.no_duplicates(),
        doc.subtree(id, doc.nodes.len())->Ok_0.to_set() == doc.removed(id),
{
    let n = doc.nodes.len();
    lemma_subtree(doc, id, n);
    let ids = doc.subtree(id, n)->Ok_0;
    assert(ids.to_set() =~= doc.removed(id));
    assert(doc.node_sound(id));
    let detached = doc.detached(id);
    let after = detached.with_nodes(detached.nodes.remove_keys(ids.to_set()));
    assert(after.nodes =~= doc.pruned(id).nodes) by {
        assert forall|other: u128| #[trigger] after.nodes.contains_key(other) implies after.nodes[other]
            == doc.pruned(id).nodes[other] by {
            if doc.nodes[id].parent == Some(other) {
            } else {
                assert(doc.nodes[other].with_children(doc.nodes[other].children)
                    == doc.nodes[other]);
            }
        }
    }
    assert(after.root_nodes == doc.pruned(id).root_nodes);
}

/// A node that stays when `id` is removed has a parent that stays.
proof fn lemma_parent_stays(doc: DocView, id: u128, other: u128)
    requires
        doc.valid(),
        doc.nodes.contains_key(id),
        doc.nodes.contains_key(other),
        !doc.below(other, id),
        doc.nodes[other].parent is Some,
    ensures
        doc.nodes.contains_key(doc.nodes[other].parent->Some_0),
        !doc.below(doc.nodes[other].parent->Some_0, id),
{
    let n = doc.nodes.len();
    let parent_id = doc.nodes[other].parent->Some_0;
    assert(doc.node_sound(other));
    if doc.below(parent_id, id) {
        assert(doc.is_under(other, id, n + 1));
        lemma_under_depth(doc, other, id, n + 1, n);
    }
}

/// A walk from a node that stays is the same walk once `id` is removed.
proof fn lemma_walk_stays(doc: DocView, id: u128, other: u128, fuel: nat)
    requires
        doc.valid(),
        doc.nodes.contains_key(id),
        doc.nodes.contains_key(other),
        !doc.below(other, id),
        doc.walks_out(other, fuel),
    ensures
        doc.pruned(id).walks_out(other, fuel),
    decreases fuel,
{
    if doc.nodes[other].parent is Some {
        lemma_parent_stays(doc, id, other);
        lemma_walk_stays(doc, id, doc.nodes[other].parent->Some_0, (fuel - 1) as nat);
    }
}

/// What is left of a valid document after a removal is valid.
pub proof fn lemma_pruned_valid(doc: DocView, id: u128)
    requires
        doc.valid(),
        doc.nodes.contains_key(id),
    ensures
        doc.pruned(id).valid(),
{
    let n = doc.nodes.len();
    let after = doc.pruned(id);
    assert(doc.node_sound(id));
    assert(doc.is_under(id, id, n));
    assert(after.nodes.dom().subset_of(doc.nodes.dom()));
    vstd::set_lib::lemma_len_subset(after.nodes.dom(), doc.nodes.dom());
    lemma_without(doc.root_nodes, id);
    assert(after.roots_sound()) by {
        assert forall|i: int| 0 <= i < after.root_nodes.len() implies after.nodes.contains_key(
            #[trigger] after.root_nodes[i],
        ) && after.nodes[after.root_nodes[i]].parent is None by {
            let root = after.root_nodes[i];
            assert(after.root_nodes.contains(root));
            assert(doc.root_nodes.contains(root));
            let k = choose|k: int| 0 <= k < doc.root_nodes.len() && doc.root_nodes[k] == root;
            assert(doc.nodes.contains_key(doc.root_nodes[k]));
            assert(root != id) by {
                if doc.nodes[id].parent is None {
                } else {
                }
            }
        }
    }
    assert forall|other: u128| #[trigger] after.nodes.contains_key(other) implies after.node_sound(
        other,
    ) by {
        assert(doc.node_sound(other));
        let list = doc.nodes[other].children;
        let kept = after.nodes[other].children;
        lemma_remove_value(list, id);
        assert(after.children_sound(other)) by {
            assert forall|j: int| 0 <= j < kept.len() implies after.nodes.contains_key(
                #[trigger] kept[j],
            ) && after.nodes[kept[j]].parent == Some(other) by {
                let child = kept[j];
                assert(kept.contains(child));
                assert(list.contains(child));
                let k = choose|k: int| 0 <= k < list.len() && list[k] == child;
                assert(doc.nodes.contains_key(list[k]));
                assert(doc.nodes[child].parent == Some(other));
                if doc.below(child, id) {
                    if child == id {
                        assert(false);
                    } else {
                        assert(doc.is_under(other, id, (n - 1) as nat));
                        lemma_under_depth(doc, other, id, (n - 1) as nat, n);
                        assert(false);
                    }
                }
            }
        }
        assert(after.parent_sound(other)) by {
            match doc.nodes[other].parent {
                None => {
                    assert(after.root_nodes.contains(other));
                },
                Some(parent_id) => {
                    lemma_parent_stays(doc, id, other);
                    lemma_remove_value(doc.nodes[parent_id].children, id);
                    assert(after.nodes[parent_id].children.contains(other));
                },
            }
        }
        assert(after.rooted(other)) by {
            lemma_walk_stays(doc, id, other, n);
            lemma_walk_short(after, other, n);
            lemma_walk_longer(after, other, (after.nodes.len() - 1) as nat, after.nodes.len());
        }
    }
}

/// Removing a widget of a valid document removes it and all the widgets
/// below it, as many nodes as it has descendants and one more, and leaves a
/// valid document in which every other node is what it was, unlisted only
/// the removed widget.
pub proof fn lemma_remove_cascades(doc: DocView, id: u128)
    requires
        doc.valid(),
        doc.nodes.contains_key(id),
    ensures
        doc.remove_widget(id) == Ok::<DocView, crate::error::ErrorView>(doc.pruned(id)),
        doc.pruned(id).valid(),
        doc.descendants(id).finite(),
        doc.pruned(id).nodes.dom() == doc.nodes.dom().difference(doc.descendants(id).insert(id)),
        doc.pruned(id).nodes.len() + doc.descendants(id).len() + 1 == doc.nodes.len(),
{
    let n = doc.nodes.len();
    lemma_remove_prunes(doc, id);
    lemma_pruned_valid(doc, id);
    let gone = doc.removed(id);
    let below = doc.descendants(id);
    assert(doc.is_under(id, id, n));
    assert(gone =~= below.insert(id));
    assert(below.subset_of(doc.nodes.dom()));
    vstd::set_lib::lemma_len_subset(below, doc.nodes.dom());
    assert(gone.subset_of(doc.nodes.dom()));
    vstd::set_lib::lemma_len_subset(gone, doc.nodes.dom());
    assert(doc.pruned(id).nodes.dom() =~= doc.nodes.dom().difference(gone));
    vstd::set_lib::lemma_set_difference_len(doc.nodes.dom(), gone);
    assert(doc.nodes.dom().intersect(gone) =~= gone);
}

} // verus!
