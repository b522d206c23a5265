//! Checking that a document is a forest whose links agree.

use crate::error::{Error, ErrorView};
use crate::model::{lemma_first_fault, DocView, Fault};
use crate::serialization::{position, Layout, LayoutNode, SerializedLayout};
use crate::widget::{id_to_string, WidgetId};
use vstd::prelude::*;
use vstd::string::StringExecFns;

verus! {

impl Fault {
    /// The words in which the fault is reported.
    pub fn message(&self) -> (r: String)
        ensures
            r@ == self.text(),
    {
        match self {
            Fault::MissingRoot(id) => "Root node ".to_owned().concat(
                id_to_string(*id).as_str(),
            ).concat(" not found in nodes"),
            Fault::RootWithParent(id) => "Root node ".to_owned().concat(
                id_to_string(*id).as_str(),
            ).concat(" has a parent"),
            Fault::DuplicateRoot(id) => "Root node ".to_owned().concat(
                id_to_string(*id).as_str(),
            ).concat(" is listed twice"),
            Fault::MissingChild(parent_id, id) => "Node ".to_owned().concat(
                id_to_string(*parent_id).as_str(),
            ).concat(" references non-existent child ").concat(id_to_string(*id).as_str()),
            Fault::DuplicateChild(parent_id, id) => "Node ".to_owned().concat(
                id_to_string(*parent_id).as_str(),
            ).concat(" lists child ").concat(id_to_string(*id).as_str()).concat(" twice"),
            Fault::ChildOfOther(parent_id, id) => "Node ".to_owned().concat(
                id_to_string(*parent_id).as_str(),
            ).concat(" lists child ").concat(id_to_string(*id).as_str()).concat(
                " which has another parent",
            ),
            Fault::Unlisted(id) => "Node ".to_owned().concat(id_to_string(*id).as_str()).concat(
                " is not listed where its parent link says",
            ),
            Fault::Unrooted(id) => "Node ".to_owned().concat(id_to_string(*id).as_str()).concat(
                " does not descend from a root",
            ),
        }
    }
}

impl DocView {
    /// The words in which the fault of the document is reported; empty
    /// where none is.
    pub open spec fn fault_text(self) -> Seq<char> {
        match self.first_fault() {
            Some(fault) => fault.text(),
            None => Seq::empty(),
        }
    }

    /// What `validate` gives for the document: nothing for a valid one,
    /// else the text of the fault that is reported of it.
    pub open spec fn validated(self) -> Result<(), ErrorView> {
        match self.first_fault() {
            Some(fault) => Err(ErrorView::InvalidOperation(fault.text())),
            None => Ok(()),
        }
    }
}

/// The content of the outcome of a check.
pub open spec fn check_view(outcome: Result<(), Error>) -> Result<(), ErrorView> {
    match outcome {
        Ok(_) => Ok(()),
        Err(e) => Err(e@),
    }
}

impl SerializedLayout {
    /// The first fault of the root list, if it has one.
    fn check_roots(&self) -> (r: Option<Fault>)
        ensures
            r == self@.root_fault_from(0),
    {
        let mut i: usize = 0;
        while i < self.root_nodes.len()
            invariant
                i <= self.root_nodes.len(),
                self@.root_fault_from(0) == self@.root_fault_from(i as int),
            decreases self.root_nodes.len() - i,
        {
            let id = self.root_nodes[i];
            match self.get_node(&id) {
                Some(node) => {
                    if node.parent.is_some() {
                        return Some(Fault::RootWithParent(id));
                    }
                },
                None => {
                    return Some(Fault::MissingRoot(id));
                },
            }
            match position(&self.root_nodes, id) {
                Some(first) => {
                    if first != i {
                        return Some(Fault::DuplicateRoot(id));
                    }
                },
                None => {
                    assert(self.root_nodes@.contains(id));
                },
            }
            i += 1;
        }
        None
    }

    /// Whether the parent links of `id` lead to a node without parent in at
    /// most `fuel` steps.
    fn reaches_root(&self, id: WidgetId, fuel: usize) -> (r: bool)
        ensures
            r == self@.walks_out(id, fuel as nat),
    {
        let mut current = id;
        let mut left = fuel;
        loop
            invariant
                self@.walks_out(id, fuel as nat) == self@.walks_out(current, left as nat),
            decreases left,
        {
            match self.get_node(&current) {
                Some(node) => {
                    match node.parent {
                        Some(parent_id) => {
                            if left == 0 {
                                return false;
                            }
                            current = parent_id;
                            left -= 1;
                        },
                        None => {
                            return true;
                        },
                    }
                },
                None => {
                    return false;
                },
            }
        }
    }

    /// The first fault of the children list of a node, if it has one.
    fn check_children(&self, id: WidgetId, node: &LayoutNode) -> (r: Option<Fault>)
        requires
            self@.nodes.contains_key(id),
            node@ == self@.nodes[id],
        ensures
            r == self@.child_fault_from(id, 0),
    {
        let mut j: usize = 0;
        while j < node.children.len()
            invariant
                j <= node.children.len(),
                self@.nodes.contains_key(id),
                node@ == self@.nodes[id],
                self@.child_fault_from(id, 0) == self@.child_fault_from(id, j as int),
            decreases node.children.len() - j,
        {
            let child = node.children[j];
            match self.get_node(&child) {
                Some(child_node) => {
                    let linked = match child_node.parent {
                        Some(parent_id) => parent_id == id,
                        None => false,
                    };
                    if !linked {
                        return Some(Fault::ChildOfOther(id, child));
                    }
                },
                None => {
                    return Some(Fault::MissingChild(id, child));
                },
            }
            match position(&node.children, child) {
                Some(first) => {
                    if first != j {
                        return Some(Fault::DuplicateChild(id, child));
                    }
                },
                None => {
                    assert(node.children@.contains(child));
                },
            }
            j += 1;
        }
        None
    }

    /// The fault that is reported of one node, if it has one.
    fn check_node(&self, id: WidgetId, count: usize) -> (r: Option<Fault>)
        requires
            self@.nodes.contains_key(id),
            count == self@.nodes.len(),
        ensures
            r == self@.node_fault(id),
    {
        let node = match self.get_node(&id) {
            Some(node) => node,
            None => {
                return None;
            },
        };
        match self.check_children(id, node) {
            Some(fault) => {
                return Some(fault);
            },
            None => {},
        }
        let listed = match node.parent {
            Some(parent_id) => match self.get_node(&parent_id) {
                Some(parent) => position(&parent.children, id).is_some(),
                None => false,
            },
            None => position(&self.root_nodes, id).is_some(),
        };
        if !listed {
            return Some(Fault::Unlisted(id));
        }
        if !self.reaches_root(id, count) {
            return Some(Fault::Unrooted(id));
        }
        None
    }

    /// The fault that is reported of the document, if it has one: the
    /// first fault of the root list, else the fault of the faulty node with
    /// the least id.  None is reported of exactly the valid documents.
    pub fn find_fault(&self) -> (r: Option<Fault>)
        ensures
            r == self@.first_fault(),
            r matches Some(fault) ==> fault.occurs(self@),
            r is None <==> self@.valid(),
    {
        let count = self.node_count();
        proof {
            lemma_first_fault(self@);
        }
        match self.check_roots() {
            Some(fault) => {
                return Some(fault);
            },
            None => {},
        }
        let ids = self.node_ids();
        let mut least: WidgetId = 0;
        let mut found: Option<Fault> = None;
        let mut i: usize = 0;
        while i < ids.len()
            invariant
                i <= ids.len(),
                count == self@.nodes.len(),
                ids@.to_set() == self@.nodes.dom(),
                forall|k: int|
                    0 <= k < i && self@.faulty(#[trigger] ids@[k]) ==> found is Some && least
                        <= ids@[k],
                found is Some ==> self@.faulty(least) && self@.node_fault(least) == found,
            decreases ids.len() - i,
        {
            let id = ids[i];
            assert(ids@.to_set().contains(id));
            match self.check_node(id, count) {
                Some(fault) => {
                    let better = match found {
                        Some(_) => id < least,
                        None => true,
                    };
                    if better {
                        least = id;
                        found = Some(fault);
                    }
                },
                None => {},
            }
            i += 1;
        }
        proof {
            assert forall|other: u128| #[trigger] self@.faulty(other) implies found is Some && least
                <= other by {
                assert(ids@.to_set().contains(other));
                let k = choose|k: int| 0 <= k < ids@.len() && ids@[k] == other;
                assert(self@.faulty(ids@[k]));
            }
            if found is Some {
                assert(self@.least_faulty(least));
                let chosen = choose|id: u128| self@.least_faulty(id);
                assert(self@.faulty(chosen) && self@.faulty(least));
                assert(chosen == least);
            }
        }
        found
    }

    /// Checks the structure of the document: every root and every listed
    /// child exists, nothing is listed twice, parent and children links
    /// agree, and no node is its own ancestor.  The error names the fault
    /// that is reported of the document.
    pub fn validate(&self) -> (r: Result<(), Error>)
        ensures
            check_view(r) == self@.validated(),
            r is Ok <==> self@.valid(),
    {
        match self.find_fault() {
            Some(fault) => Err(Error::InvalidOperation(fault.message())),
            None => Ok(()),
        }
    }
}

impl Layout {
    /// Takes a serialized layout as a layout, if it is valid; else gives the
    /// error of `validate`.
    pub fn from_serialized(serialized: SerializedLayout) -> (r: Result<Layout, Error>)
        ensures
            r is Ok <==> serialized@.valid(),
            r matches Ok(layout) ==> layout.plain() == serialized && layout@ == serialized@,
            r matches Err(e) ==> Err::<(), ErrorView>(e@) == serialized@.validated(),
    {
        match serialized.validate() {
            Ok(()) => Ok(Layout::wrap(serialized)),
            Err(e) => Err(e),
        }
    }
}

} // verus!
