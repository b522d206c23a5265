//! Linear undo and redo over whole-document snapshots, in a window of at
//! most [`MAX_HISTORY`] snapshots.

use crate::model::DocView;
use crate::serialization::Layout;
use vstd::prelude::*;

verus! {

/// The most snapshots that a history keeps.
pub const MAX_HISTORY: usize = 50;

/// The content of a history: the snapshots, oldest first, and the place of
/// the current one.
pub struct HistoryView {
    pub entries: Seq<DocView>,
    pub cursor: int,
}

impl HistoryView {
    /// The cursor points at a snapshot, and the window is not overfull.
    pub open spec fn wf(self) -> bool {
        &&& 0 <= self.cursor < self.entries.len()
        &&& self.entries.len() <= MAX_HISTORY
    }

    /// The history of a document that was just opened.
    pub open spec fn fresh(initial: DocView) -> HistoryView {
        HistoryView { entries: seq![initial], cursor: 0 }
    }

    /// The snapshot that the cursor points at.
    pub open spec fn current(self) -> DocView {
        self.entries[self.cursor]
    }

    /// There is an older snapshot to go back to.
    pub open spec fn can_undo(self) -> bool {
        self.cursor > 0
    }

    /// There is a newer snapshot to go forward to.
    pub open spec fn can_redo(self) -> bool {
        self.cursor < self.entries.len() - 1
    }

    /// The history after a new snapshot: what lay after the cursor is
    /// dropped, the snapshot is appended and becomes current, and the oldest
    /// snapshot leaves where the window would be overfull.
    pub open spec fn push(self, doc: DocView) -> HistoryView {
        let kept = self.entries.take(self.cursor + 1).push(doc);
        if kept.len() > MAX_HISTORY {
            HistoryView { entries: kept.drop_first(), cursor: self.cursor }
        } else {
            HistoryView { entries: kept, cursor: self.cursor + 1 }
        }
    }

    /// One step back, where there is one.
    pub open spec fn undo(self) -> HistoryView {
        if self.can_undo() {
            HistoryView { cursor: self.cursor - 1, ..self }
        } else {
            self
        }
    }

    /// One step forward, where there is one.
    pub open spec fn redo(self) -> HistoryView {
        if self.can_redo() {
            HistoryView { cursor: self.cursor + 1, ..self }
        } else {
            self
        }
    }

    /// The history after the snapshots are pushed one after the other.
    pub open spec fn push_all(self, docs: Seq<DocView>) -> HistoryView
        decreases docs.len(),
    {
        if docs.len() == 0 {
            self
        } else {
            self.push_all(docs.drop_last()).push(docs.last())
        }
    }

    /// The history after `times` steps back.
    pub open spec fn undo_times(self, times: nat) -> HistoryView
        decreases times,
    {
        if times == 0 {
            self
        } else {
            self.undo().undo_times((times - 1) as nat)
        }
    }

    /// The history after `times` steps forward.
    pub open spec fn redo_times(self, times: nat) -> HistoryView
        decreases times,
    {
        if times == 0 {
            self
        } else {
            self.redo().redo_times((times - 1) as nat)
        }
    }
}

/// The snapshots that a history holds after pushes: the last
/// [`MAX_HISTORY`] of those that it kept and those that were pushed.
pub open spec fn window(all: Seq<DocView>) -> Seq<DocView> {
    if all.len() > MAX_HISTORY {
        all.skip(all.len() - MAX_HISTORY)
    } else {
        all
    }
}

/// A push keeps the history well formed and leaves the cursor at the
/// newest snapshot, which is the one pushed.
pub proof fn lemma_push(history: HistoryView, doc: DocView)
    requires
        history.wf(),
    ensures
        history.push(doc).wf(),
        history.push(doc).entries == window(history.entries.take(history.cursor + 1).push(doc)),
        history.push(doc).cursor == history.push(doc).entries.len() - 1,
        history.push(doc).current() == doc,
        !history.push(doc).can_redo(),
{
    let kept = history.entries.take(history.cursor + 1).push(doc);
    if kept.len() > MAX_HISTORY {
        assert(kept.drop_first() =~= kept.skip(1));
    }
}

/// Steps back move the cursor down as far as the oldest snapshot, and
/// change nothing else.
pub proof fn lemma_undo_times(history: HistoryView, times: nat)
    requires
        history.wf(),
    ensures
        history.undo_times(times).wf(),
        history.undo_times(times).entries == history.entries,
        history.undo_times(times).cursor == if history.cursor >= times {
            history.cursor - times
        } else {
            0
        },
    decreases times,
{
    if times > 0 {
        lemma_undo_times(history.undo(), (times - 1) as nat);
    }
}

/// Steps forward move the cursor up as far as the newest snapshot, and
/// change nothing else.
pub proof fn lemma_redo_times(history: HistoryView, times: nat)
    requires
        history.wf(),
    ensures
        history.redo_times(times).wf(),
        history.redo_times(times).entries == history.entries,
        history.redo_times(times).cursor == if history.cursor + times <= history.entries.len()
            - 1 {
            history.cursor + times
        } else {
            history.entries.len() - 1
        },
    decreases times,
{
    if times > 0 {
        lemma_redo_times(history.redo(), (times - 1) as nat);
    }
}

/// After one push or more, the history holds the last [`MAX_HISTORY`] of
/// the snapshots up to the old cursor followed by the pushed ones, and its
/// cursor is at the newest.
pub proof fn lemma_push_all(history: HistoryView, docs: Seq<DocView>)
    requires
        history.wf(),
        docs.len() >= 1,
    ensures
        history.push_all(docs).wf(),
        history.push_all(docs).entries == window(
            history.entries.take(history.cursor + 1) + docs,
        ),
        history.push_all(docs).cursor == history.push_all(docs).entries.len() - 1,
    decreases docs.len(),
{
    let kept = history.entries.take(history.cursor + 1);
    let all = kept + docs;
    if docs.len() == 1 {
        assert(docs.drop_last() =~= Seq::empty());
        assert(history.push_all(docs.drop_last()) == history);
        lemma_push(history, docs.last());
        assert(kept.push(docs.last()) =~= all);
    } else {
        let before = history.push_all(docs.drop_last());
        lemma_push_all(history, docs.drop_last());
        lemma_push(before, docs.last());
        let earlier = kept + docs.drop_last();
        assert(earlier.push(docs.last()) =~= all);
        assert(before.entries.take(before.cursor + 1) =~= before.entries);
        assert(window(window(earlier).push(docs.last())) =~= window(all));
    }
}

/// However many documents are pushed onto a fresh history, it holds no
/// more than [`MAX_HISTORY`] snapshots: the newest of the initial document
/// and the pushed ones.  Stepping back once for every snapshot but one
/// arrives at the oldest that is kept, and a further step back stays there.
pub proof fn lemma_history_capacity(initial: DocView, docs: Seq<DocView>)
    ensures
        ({
            let history = HistoryView::fresh(initial).push_all(docs);
            let oldest = history.undo_times((history.entries.len() - 1) as nat);
            &&& history.wf()
            &&& history.entries.len() <= MAX_HISTORY
            &&& history.entries == window(seq![initial] + docs)
            &&& history.cursor == history.entries.len() - 1
            &&& oldest.current() == history.entries[0]
            &&& oldest.undo() == oldest
        }),
{
    let start = HistoryView::fresh(initial);
    let history = start.push_all(docs);
    if docs.len() == 0 {
        assert(seq![initial] + docs =~= seq![initial]);
    } else {
        lemma_push_all(start, docs);
        assert(start.entries.take(1) =~= seq![initial]);
    }
    lemma_undo_times(history, (history.entries.len() - 1) as nat);
}

/// After fewer pushes than [`MAX_HISTORY`], as many steps back arrive at
/// the document that was current before the pushes.
pub proof fn lemma_undo_restores(history: HistoryView, docs: Seq<DocView>)
    requires
        history.wf(),
        docs.len() < MAX_HISTORY,
    ensures
        history.push_all(docs).undo_times(docs.len()).current() == history.current(),
{
    if docs.len() > 0 {
        lemma_push_all(history, docs);
        lemma_undo_times(history.push_all(docs), docs.len());
    }
}

/// After pushes and as many steps back, as many steps forward arrive at
/// the document that was pushed last.
pub proof fn lemma_redo_restores(history: HistoryView, docs: Seq<DocView>)
    requires
        history.wf(),
        docs.len() >= 1,
    ensures
        history.push_all(docs).undo_times(docs.len()).redo_times(docs.len()).current()
            == docs.last(),
{
    let pushed = history.push_all(docs);
    lemma_push_all(history, docs);
    lemma_undo_times(pushed, docs.len());
    lemma_redo_times(pushed.undo_times(docs.len()), docs.len());
    if docs.len() == 1 {
        assert(docs.drop_last() =~= Seq::empty());
        assert(history.push_all(docs.drop_last()) == history);
        lemma_push(history, docs.last());
    } else {
        lemma_push_all(history, docs.drop_last());
        lemma_push(history.push_all(docs.drop_last()), docs.last());
    }
}

/// The contents of a list of layouts.
pub open spec fn snapshots(layouts: Seq<Layout>) -> Seq<DocView> {
    layouts.map_values(|layout: Layout| layout@)
}

/// The undo and redo history of one edited document.
#[derive(Debug)]
pub struct History {
    entries: Vec<Layout>,
    cursor: usize,
}

impl View for History {
    type V = HistoryView;

    closed spec fn view(&self) -> HistoryView {
        HistoryView { entries: snapshots(self.entries@), cursor: self.cursor as int }
    }
}

impl Clone for History {
    fn clone(&self) -> (r: Self)
        ensures
            r@ == self@,
    {
        proof {
            use_type_invariant(self);
        }
        let mut entries: Vec<Layout> = Vec::new();
        let mut i: usize = 0;
        while i < self.entries.len()
            invariant
                i <= self.entries.len(),
                entries.len() == i,
                forall|j: int| 0 <= j < i ==> entries@[j]@ == self.entries@[j]@,
            decreases self.entries.len() - i,
        {
            entries.push(self.entries[i].clone());
            i += 1;
        }
        assert(snapshots(entries@) =~= snapshots(self.entries@));
        History { entries, cursor: self.cursor }
    }
}

impl History {
    #[verifier::type_invariant]
    spec fn inv(&self) -> bool {
        self@.wf()
    }

    /// The history of a document that was just opened: that document alone.
    pub fn new(initial: Layout) -> (r: Self)
        ensures
            r@ == HistoryView::fresh(initial@),
            r@.wf(),
    {
        let mut entries: Vec<Layout> = Vec::new();
        entries.push(initial);
        assert(snapshots(entries@) =~= seq![initial@]);
        History { entries, cursor: 0 }
    }

    /// Forgets everything and starts again from one document.
    pub fn reset(&mut self, initial: Layout)
        ensures
            final(self)@ == HistoryView::fresh(initial@),
    {
        *self = History::new(initial);
    }

    /// Records a new snapshot and makes it current.  Snapshots after the
    /// cursor are dropped; the oldest snapshot is dropped where there would
    /// be more than [`MAX_HISTORY`].
    pub fn push(&mut self, layout: Layout)
        ensures
            final(self)@ == old(self)@.push(layout@),
            final(self)@.wf(),
    {
        proof {
            use_type_invariant(&*self);
        }
        let ghost before = self@;
        let ghost doc = layout@;
        let cursor = self.cursor;
        self.cursor = 0;
        let mut entries: Vec<Layout> = Vec::new();
        entries.push(Layout::new());
        std::mem::swap(&mut entries, &mut self.entries);
        entries.truncate(cursor + 1);
        entries.push(layout);
        assert(snapshots(entries@) =~= before.entries.take(cursor + 1).push(doc));
        let next = if entries.len() > MAX_HISTORY {
            let ghost full = entries@;
            entries.remove(0);
            assert(snapshots(entries@) =~= snapshots(full).drop_first());
            cursor
        } else {
            cursor + 1
        };
        *self = History { entries, cursor: next };
    }

    /// Whether there is an older snapshot to go back to.
    pub fn can_undo(&self) -> (r: bool)
        ensures
            r == self@.can_undo(),
    {
        self.cursor > 0
    }

    /// Whether there is a newer snapshot to go forward to.
    pub fn can_redo(&self) -> (r: bool)
        ensures
            r == self@.can_redo(),
    {
        proof {
            use_type_invariant(self);
        }
        self.cursor < self.entries.len() - 1
    }

    /// Goes one snapshot back and gives it, or does nothing where the
    /// cursor is at the oldest snapshot.
    pub fn undo(&mut self) -> (r: Option<&Layout>)
        ensures
            final(self)@ == old(self)@.undo(),
            final(self)@.wf(),
            match r {
                Some(layout) => old(self)@.can_undo() && layout@ == final(self)@.current(),
                None => !old(self)@.can_undo(),
            },
    {
        proof {
            use_type_invariant(&*self);
        }
        if self.cursor > 0 {
            self.cursor = self.cursor - 1;
            Some(&self.entries[self.cursor])
        } else {
            None
        }
    }

    /// Goes one snapshot forward and gives it, or does nothing where the
    /// cursor is at the newest snapshot.
    pub fn redo(&mut self) -> (r: Option<&Layout>)
        ensures
            final(self)@ == old(self)@.redo(),
            final(self)@.wf(),
            match r {
                Some(layout) => old(self)@.can_redo() && layout@ == final(self)@.current(),
                None => !old(self)@.can_redo(),
            },
    {
        proof {
            use_type_invariant(&*self);
        }
        if self.cursor < self.entries.len() - 1 {
            self.cursor = self.cursor + 1;
            Some(&self.entries[self.cursor])
        } else {
            None
        }
    }

    /// The current snapshot.
    pub fn current(&self) -> (r: &Layout)
        ensures
            r@ == self@.current(),
            self@.wf(),
    {
        proof {
            use_type_invariant(self);
        }
        &self.entries[self.cursor]
    }

    /// The number of snapshots kept.
    pub fn len(&self) -> (r: usize)
        ensures
            r == self@.entries.len(),
            1 <= r <= MAX_HISTORY,
    {
        proof {
            use_type_invariant(self);
        }
        self.entries.len()
    }

    /// The place of the current snapshot, counted from the oldest.
    pub fn cursor(&self) -> (r: usize)
        ensures
            r == self@.cursor,
            self@.wf(),
    {
        proof {
            use_type_invariant(self);
        }
        self.cursor
    }
}

} // verus!
