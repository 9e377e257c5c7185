//! Backend-owned undo/redo history for design documents.
//!
//! History is kept apart from the document itself: it is a value that command
//! clients carry between commands.  Each entry holds complete snapshots of the
//! document before and after one change.  Undo and redo first check that the
//! current document is the expected snapshot; the check itself (comparison of
//! the documents' canonical source files) is supplied by the caller.

use vstd::prelude::*;

use crate::error::OpenCadError;

verus! {

/// One atomic document change represented by complete snapshots.
#[derive(Debug, Clone)]
pub struct DocumentHistoryEntry<D> {
    /// Document state before the command was applied.
    pub before: D,
    /// Document state after the command was applied.
    pub after: D,
    /// Human-readable command description.
    pub description: String,
}

/// Undo/redo state carried independently of a document.
#[derive(Debug, Clone)]
pub struct DocumentHistory<D> {
    undo: Vec<DocumentHistoryEntry<D>>,
    redo: Vec<DocumentHistoryEntry<D>>,
}

/// Result returned by a history command: the history and whether undo and
/// redo are available.
#[derive(Debug, Clone)]
pub struct DocumentHistoryState<D> {
    pub history: DocumentHistory<D>,
    pub can_undo: bool,
    pub can_redo: bool,
}

/// The abstract content of a history entry.
pub struct EntryView<D> {
    pub before: D,
    pub after: D,
    pub description: Seq<char>,
}

/// The abstract content of a history: the undo stack and the redo stack, each
/// with its most recent entry last.
pub struct HistoryView<D> {
    pub undo: Seq<EntryView<D>>,
    pub redo: Seq<EntryView<D>>,
}

/// The view of one entry.
pub open spec fn entry_view<D>(e: DocumentHistoryEntry<D>) -> EntryView<D> {
    EntryView { before: e.before, after: e.after, description: e.description@ }
}

/// Recording a change pushes it on the undo stack and clears the redo stack.
pub open spec fn record_spec<D>(h: HistoryView<D>, e: EntryView<D>) -> HistoryView<D> {
    HistoryView { undo: h.undo.push(e), redo: Seq::empty() }
}

/// Undoing moves the latest undo entry to the redo stack.
pub open spec fn undo_spec<D>(h: HistoryView<D>) -> HistoryView<D> {
    HistoryView { undo: h.undo.drop_last(), redo: h.redo.push(h.undo.last()) }
}

/// Redoing moves the latest redo entry back to the undo stack.
pub open spec fn redo_spec<D>(h: HistoryView<D>) -> HistoryView<D> {
    HistoryView { undo: h.undo.push(h.redo.last()), redo: h.redo.drop_last() }
}

/// The outcome of an undo or redo whose snapshot check against `expected`
/// returned `check`: on a match the document becomes a copy of `target` and the
/// history moves to `next`; otherwise neither the document nor the history
/// changes and the error says why.
pub open spec fn step_outcome<D: Clone>(
    h: HistoryView<D>,
    next: HistoryView<D>,
    current: D,
    target: D,
    check: Result<bool, OpenCadError>,
    mismatch: Seq<char>,
    h2: HistoryView<D>,
    current2: D,
    r: Result<(), OpenCadError>,
) -> bool {
    match check {
        Ok(true) => r is Ok && h2 == next && cloned(target, current2),
        Ok(false) => h2 == h && current2 == current && (r matches Err(
            OpenCadError::Validation(m),
        ) && m@ == mismatch),
        Err(e) => h2 == h && current2 == current && r == Err::<(), OpenCadError>(e),
    }
}

/// Undo followed by redo returns the history to where it was.
pub proof fn lemma_redo_undoes_undo<D>(h: HistoryView<D>)
    requires
        h.undo.len() > 0,
    ensures
        redo_spec(undo_spec(h)) == h,
{
    assert(redo_spec(undo_spec(h)).undo =~= h.undo);
    assert(redo_spec(undo_spec(h)).redo =~= h.redo);
}

/// Redo followed by undo returns the history to where it was.
pub proof fn lemma_undo_undoes_redo<D>(h: HistoryView<D>)
    requires
        h.redo.len() > 0,
    ensures
        undo_spec(redo_spec(h)) == h,
{
    assert(undo_spec(redo_spec(h)).undo =~= h.undo);
    assert(undo_spec(redo_spec(h)).redo =~= h.redo);
}

/// Undoing a freshly recorded change leaves the earlier undo stack and a redo
/// stack holding just that change, whose `before` snapshot is what undo
/// restores; recording always clears the redo stack.
pub proof fn lemma_undo_after_record<D>(h: HistoryView<D>, e: EntryView<D>)
    ensures
        record_spec(h, e).redo.len() == 0,
        record_spec(h, e).undo.last() == e,
        undo_spec(record_spec(h, e)).undo == h.undo,
        undo_spec(record_spec(h, e)).redo == seq![e],
{
    assert(undo_spec(record_spec(h, e)).undo =~= h.undo);
    assert(undo_spec(record_spec(h, e)).redo =~= seq![e]);
}

impl<D> DocumentHistory<D> {
    /// The abstract content of the history.
    pub closed spec fn view(&self) -> HistoryView<D> {
        HistoryView {
            undo: self.undo@.map_values(|e: DocumentHistoryEntry<D>| entry_view(e)),
            redo: self.redo@.map_values(|e: DocumentHistoryEntry<D>| entry_view(e)),
        }
    }

    /// An empty history.
    pub fn new() -> (h: Self)
        ensures
            h.view() == (HistoryView::<D> { undo: Seq::empty(), redo: Seq::empty() }),
    {
        let h = DocumentHistory { undo: Vec::new(), redo: Vec::new() };
        assert(h.view().undo =~= Seq::<EntryView<D>>::empty());
        assert(h.view().redo =~= Seq::<EntryView<D>>::empty());
        h
    }

    /// Record a successful document change and clear any redo branch.
    pub fn record(&mut self, before: D, after: D, description: &str)
        ensures
            final(self).view() == record_spec(
                old(self).view(),
                EntryView { before, after, description: description@ },
            ),
    {
        let entry = DocumentHistoryEntry { before, after, description: description.to_owned() };
        self.undo.push(entry);
        self.redo.clear();
        assert(self.view().undo =~= old(self).view().undo.push(
            EntryView { before, after, description: description@ },
        ));
        assert(self.view().redo =~= Seq::<EntryView<D>>::empty());
    }

    /// Whether an undo operation is currently available.
    pub fn can_undo(&self) -> (b: bool)
        ensures
            b == (self.view().undo.len() > 0),
    {
        self.undo.len() > 0
    }

    /// Whether a redo operation is currently available.
    pub fn can_redo(&self) -> (b: bool)
        ensures
            b == (self.view().redo.len() > 0),
    {
        self.redo.len() > 0
    }

    /// Number of undo entries.
    pub fn undo_len(&self) -> (n: usize)
        ensures
            n == self.view().undo.len(),
    {
        self.undo.len()
    }

    /// Number of redo entries.
    pub fn redo_len(&self) -> (n: usize)
        ensures
            n == self.view().redo.len(),
    {
        self.redo.len()
    }
}
/// What `undo` does, with `same_source` as the snapshot check: with no undo
/// entry it refuses and changes nothing; otherwise the check compares the
/// current document with the latest entry's `after` snapshot and
/// `step_outcome` says what follows from its answer.
pub open spec fn undo_outcome<D: Clone, F: Fn(&D, &D) -> Result<bool, OpenCadError>>(
    same_source: F,
    h: HistoryView<D>,
    current: D,
    h2: HistoryView<D>,
    current2: D,
    r: Result<(), OpenCadError>,
) -> bool {
    if h.undo.len() == 0 {
        &&& h2 == h
        &&& current2 == current
        &&& r matches Err(OpenCadError::Validation(m)) && m@ == "document history has no undo entry"@
    } else {
        exists|check: Result<bool, OpenCadError>|
            {
                &&& #[trigger] same_source.ensures((&current, &h.undo.last().after), check)
                &&& step_outcome(
                    h,
                    undo_spec(h),
                    current,
                    h.undo.last().before,
                    check,
                    "document does not match the expected undo snapshot"@,
                    h2,
                    current2,
                    r,
                )
            }
    }
}

/// What `redo` does, with `same_source` as the snapshot check: with no redo
/// entry it refuses and changes nothing; otherwise the check compares the
/// current document with the latest entry's `before` snapshot and
/// `step_outcome` says what follows from its answer.
pub open spec fn redo_outcome<D: Clone, F: Fn(&D, &D) -> Result<bool, OpenCadError>>(
    same_source: F,
    h: HistoryView<D>,
    current: D,
    h2: HistoryView<D>,
    current2: D,
    r: Result<(), OpenCadError>,
) -> bool {
    if h.redo.len() == 0 {
        &&& h2 == h
        &&& current2 == current
        &&& r matches Err(OpenCadError::Validation(m)) && m@ == "document history has no redo entry"@
    } else {
        exists|check: Result<bool, OpenCadError>|
            {
                &&& #[trigger] same_source.ensures((&current, &h.redo.last().before), check)
                &&& step_outcome(
                    h,
                    redo_spec(h),
                    current,
                    h.redo.last().after,
                    check,
                    "document does not match the expected redo snapshot"@,
                    h2,
                    current2,
                    r,
                )
            }
    }
}

/// Undo then redo of a recorded change restore its snapshots exactly: for
/// documents whose clones equal the original, and a snapshot check that
/// finds every document the same as itself, undoing a change just recorded
/// while the document is its `after` snapshot succeeds and leaves exactly
/// `before`, and redoing then succeeds and leaves exactly `after`; redo is
/// then no longer available and undo is, as right after recording.
pub proof fn lemma_undo_redo_round_trip<D: Clone, F: Fn(&D, &D) -> Result<bool, OpenCadError>>(
    same_source: F,
    h0: HistoryView<D>,
    e: EntryView<D>,
    h1: HistoryView<D>,
    c1: D,
    r1: Result<(), OpenCadError>,
    h2: HistoryView<D>,
    c2: D,
    r2: Result<(), OpenCadError>,
)
    requires
        forall|a: D, b: D| #[trigger] cloned(a, b) ==> a == b,
        forall|a: D, check: Result<bool, OpenCadError>|
            #[trigger] same_source.ensures((&a, &a), check) ==> check == Ok::<bool, OpenCadError>(true),
        undo_outcome(same_source, record_spec(h0, e), e.after, h1, c1, r1),
        redo_outcome(same_source, h1, c1, h2, c2, r2),
    ensures
        r1 is Ok,
        c1 == e.before,
        h1.undo == h0.undo,
        h1.redo == seq![e],
        r2 is Ok,
        c2 == e.after,
        h2 == record_spec(h0, e),
        h2.undo.len() > 0,
        h2.redo.len() == 0,
{
    lemma_undo_after_record(h0, e);
    lemma_redo_undoes_undo(record_spec(h0, e));
    let h = record_spec(h0, e);
    let check1 = choose|check: Result<bool, OpenCadError>|
        {
            &&& #[trigger] same_source.ensures((&e.after, &h.undo.last().after), check)
            &&& step_outcome(
                h,
                undo_spec(h),
                e.after,
                h.undo.last().before,
                check,
                "document does not match the expected undo snapshot"@,
                h1,
                c1,
                r1,
            )
        };
    assert(check1 == Ok::<bool, OpenCadError>(true));
    let check2 = choose|check: Result<bool, OpenCadError>|
        {
            &&& #[trigger] same_source.ensures((&c1, &h1.redo.last().before), check)
            &&& step_outcome(
                h1,
                redo_spec(h1),
                c1,
                h1.redo.last().after,
                check,
                "document does not match the expected redo snapshot"@,
                h2,
                c2,
                r2,
            )
        };
    assert(check2 == Ok::<bool, OpenCadError>(true));
}

impl<D: Clone> DocumentHistory<D> {
    /// Apply the latest undo entry after checking, with `same_source`, that
    /// the current document is the entry's `after` snapshot.
    pub fn undo<F: Fn(&D, &D) -> Result<bool, OpenCadError>>(
        &mut self,
        current: &mut D,
        same_source: F,
    ) -> (r: Result<(), OpenCadError>)
        requires
            forall|a: &D, b: &D| #[trigger] same_source.requires((a, b)),
        ensures
            undo_outcome(same_source, old(self).view(), *old(current), final(self).view(), *final(current), r),
    {
        let n = self.undo.len();
        if n == 0 {
            return Err(OpenCadError::validation("document history has no undo entry"));
        }
        let ghost h = self.view();
        let check = same_source(&*current, &self.undo[n - 1].after);
        match check {
            Ok(true) => {
                let entry = self.undo.pop().unwrap();
                *current = entry.before.clone();
                self.redo.push(entry);
                assert(self.view().undo =~= undo_spec(h).undo);
                assert(self.view().redo =~= undo_spec(h).redo);
                Ok(())
            },
            Ok(false) => Err(
                OpenCadError::validation("document does not match the expected undo snapshot"),
            ),
            Err(e) => Err(e),
        }
    }

    /// Apply the latest redo entry after checking, with `same_source`, that
    /// the current document is the entry's `before` snapshot.
    pub fn redo<F: Fn(&D, &D) -> Result<bool, OpenCadError>>(
        &mut self,
        current: &mut D,
        same_source: F,
    ) -> (r: Result<(), OpenCadError>)
        requires
            forall|a: &D, b: &D| #[trigger] same_source.requires((a, b)),
        ensures
            redo_outcome(same_source, old(self).view(), *old(current), final(self).view(), *final(current), r),
    {
        let n = self.redo.len();
        if n == 0 {
            return Err(OpenCadError::validation("document history has no redo entry"));
        }
        let ghost h = self.view();
        let check = same_source(&*current, &self.redo[n - 1].before);
        match check {
            Ok(true) => {
                let entry = self.redo.pop().unwrap();
                *current = entry.after.clone();
                self.undo.push(entry);
                assert(self.view().undo =~= redo_spec(h).undo);
                assert(self.view().redo =~= redo_spec(h).redo);
                Ok(())
            },
            Ok(false) => Err(
                OpenCadError::validation("document does not match the expected redo snapshot"),
            ),
            Err(e) => Err(e),
        }
    }
}

impl<D> DocumentHistoryState<D> {
    /// The state of `history` with its capability flags.
    pub fn new(history: DocumentHistory<D>) -> (s: Self)
        ensures
            s.history.view() == history.view(),
            s.can_undo == (history.view().undo.len() > 0),
            s.can_redo == (history.view().redo.len() > 0),
    {
        let can_undo = history.can_undo();
        let can_redo = history.can_redo();
        DocumentHistoryState { history, can_undo, can_redo }
    }
}

} // verus!
