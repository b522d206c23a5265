//! Facts about parent links in a document: how far a node is from its root,
//! and what it means to be under another node.

use crate::model::DocView;
use vstd::prelude::*;
use vstd::set_lib::lemma_len_subset;

verus! {

impl DocView {
    /// The number of parent links from `id` up to the first node without
    /// parent, counted no further than `fuel`.
    pub open spec fn steps(self, id: u128, fuel: nat) -> nat
        decreases fuel,
    {
        match self.nodes[id].parent {
            None => 0,
            Some(parent_id) => if fuel == 0 {
                0
            } else {
                1 + self.steps(parent_id, (fuel - 1) as nat)
            },
        }
    }

    /// The nodes met when walking from `id` up its parent links, `id`
    /// among them, no further than `fuel` steps.
    pub open spec fn lineage(self, id: u128, fuel: nat) -> Set<u128>
        decreases fuel,
    {
        match self.nodes[id].parent {
            None => set![id],
            Some(parent_id) => if fuel == 0 {
                set![id]
            } else {
                self.lineage(parent_id, (fuel - 1) as nat).insert(id)
            },
        }
    }
}

/// A walk that ends within some number of steps ends within any larger
/// number.
pub proof fn lemma_walk_longer(doc: DocView, id: u128, fuel: nat, more: nat)
    requires
        doc.walks_out(id, fuel),
        fuel <= more,
    ensures
        doc.walks_out(id, more),
    decreases fuel,
{
    if doc.nodes[id].parent is Some {
        lemma_walk_longer(doc, doc.nodes[id].parent->Some_0, (fuel - 1) as nat, (more - 1) as nat);
    }
}

/// A walk that ends takes a number of steps that does not depend on how
/// many were allowed, and ends within that number.
pub proof fn lemma_steps(doc: DocView, id: u128, fuel: nat, other: nat)
    requires
        doc.walks_out(id, fuel),
        doc.walks_out(id, other),
    ensures
        doc.steps(id, fuel) == doc.steps(id, other),
        doc.steps(id, fuel) <= fuel,
        doc.walks_out(id, doc.steps(id, fuel)),
    decreases fuel,
{
    if doc.nodes[id].parent is Some {
        lemma_steps(
            doc,
            doc.nodes[id].parent->Some_0,
            (fuel - 1) as nat,
            (other - 1) as nat,
        );
    }
}

/// The nodes on a walk that ends are nodes of the document, each no
/// further from its root than the start, and there is one more of them than
/// the walk has steps.
pub proof fn lemma_lineage(doc: DocView, id: u128, fuel: nat)
    requires
        doc.nodes.dom().finite(),
        doc.walks_out(id, fuel),
    ensures
        doc.lineage(id, fuel).finite(),
        doc.lineage(id, fuel).subset_of(doc.nodes.dom()),
        doc.lineage(id, fuel).len() == doc.steps(id, fuel) + 1,
        forall|a: u128| #[trigger]
            doc.lineage(id, fuel).contains(a) ==> doc.walks_out(a, fuel) && doc.steps(a, fuel)
                <= doc.steps(id, fuel),
    decreases fuel,
{
    match doc.nodes[id].parent {
        None => {},
        Some(parent_id) => {
            let up = doc.lineage(parent_id, (fuel - 1) as nat);
            lemma_lineage(doc, parent_id, (fuel - 1) as nat);
            lemma_walk_longer(doc, parent_id, (fuel - 1) as nat, fuel);
            lemma_steps(doc, parent_id, (fuel - 1) as nat, fuel);
            assert forall|a: u128| #[trigger] up.contains(a) implies doc.walks_out(a, fuel)
                && doc.steps(a, fuel) <= doc.steps(parent_id, (fuel - 1) as nat) by {
                lemma_walk_longer(doc, a, (fuel - 1) as nat, fuel);
                lemma_steps(doc, a, (fuel - 1) as nat, fuel);
            }
            if up.contains(id) {
                lemma_steps(doc, id, fuel, (fuel - 1) as nat);
                assert(false);
            }
        },
    }
}

/// In a document with `n` nodes, a walk that ends at all ends within
/// `n - 1` steps: it never meets a node twice.
pub proof fn lemma_walk_short(doc: DocView, id: u128, fuel: nat)
    requires
        doc.nodes.dom().finite(),
        doc.walks_out(id, fuel),
    ensures
        doc.nodes.len() >= 1,
        doc.steps(id, fuel) <= doc.nodes.len() - 1,
        doc.walks_out(id, (doc.nodes.len() - 1) as nat),
{
    lemma_lineage(doc, id, fuel);
    lemma_len_subset(doc.lineage(id, fuel), doc.nodes.dom());
    lemma_steps(doc, id, fuel, fuel);
    lemma_walk_longer(doc, id, doc.steps(id, fuel), (doc.nodes.len() - 1) as nat);
}

/// Being under a node within some number of links is being under it
/// within any larger number.
pub proof fn lemma_under_longer(doc: DocView, id: u128, ancestor: u128, fuel: nat, more: nat)
    requires
        doc.is_under(id, ancestor, fuel),
        fuel <= more,
    ensures
        doc.is_under(id, ancestor, more),
    decreases fuel,
{
    if id != ancestor {
        lemma_under_longer(
            doc,
            doc.nodes[id].parent->Some_0,
            ancestor,
            (fuel - 1) as nat,
            (more - 1) as nat,
        );
    }
}

/// A node under another is under it within as many links as its own walk
/// takes, and is at least as deep; strictly deeper unless it is that node.
pub proof fn lemma_under_depth(doc: DocView, id: u128, ancestor: u128, fuel: nat, walk: nat)
    requires
        doc.is_under(id, ancestor, fuel),
        doc.walks_out(id, walk),
    ensures
        doc.is_under(id, ancestor, walk),
        doc.walks_out(ancestor, walk),
        doc.steps(ancestor, walk) <= doc.steps(id, walk),
        id != ancestor ==> doc.steps(ancestor, walk) < doc.steps(id, walk),
    decreases fuel,
{
    if id != ancestor {
        let parent_id = doc.nodes[id].parent->Some_0;
        lemma_under_depth(doc, parent_id, ancestor, (fuel - 1) as nat, (walk - 1) as nat);
        lemma_walk_longer(doc, ancestor, (walk - 1) as nat, walk);
        lemma_steps(doc, ancestor, (walk - 1) as nat, walk);
    }
}

/// Under is transitive.
pub proof fn lemma_under_chain(
    doc: DocView,
    id: u128,
    middle: u128,
    ancestor: u128,
    low: nat,
    high: nat,
)
    requires
        doc.is_under(id, middle, low),
        doc.is_under(middle, ancestor, high),
    ensures
        doc.is_under(id, ancestor, low + high),
    decreases low,
{
    if id == middle {
        lemma_under_longer(doc, middle, ancestor, high, low + high);
    } else {
        lemma_under_chain(
            doc,
            doc.nodes[id].parent->Some_0,
            middle,
            ancestor,
            (low - 1) as nat,
            high,
        );
    }
}

/// Two nodes that a node is under, and that are equally deep, are one.
pub proof fn lemma_under_unique(doc: DocView, id: u128, a: u128, b: u128, fuel: nat, walk: nat)
    requires
        doc.is_under(id, a, fuel),
        doc.is_under(id, b, fuel),
        doc.walks_out(id, walk),
        doc.steps(a, walk) == doc.steps(b, walk),
    ensures
        a == b,
    decreases fuel,
{
    if id == a {
        lemma_under_depth(doc, id, b, fuel, walk);
    } else if id == b {
        lemma_under_depth(doc, id, a, fuel, walk);
    } else {
        let parent_id = doc.nodes[id].parent->Some_0;
        lemma_under_depth(doc, parent_id, a, (fuel - 1) as nat, (walk - 1) as nat);
        lemma_under_depth(doc, parent_id, b, (fuel - 1) as nat, (walk - 1) as nat);
        lemma_walk_longer(doc, a, (walk - 1) as nat, walk);
        lemma_walk_longer(doc, b, (walk - 1) as nat, walk);
        lemma_steps(doc, a, (walk - 1) as nat, walk);
        lemma_steps(doc, b, (walk - 1) as nat, walk);
        lemma_under_unique(doc, parent_id, a, b, (fuel - 1) as nat, (walk - 1) as nat);
    }
}

} // verus!
