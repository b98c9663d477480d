//! Registering documents and bringing them into view.

use crate::document::{Document, DocumentId, DocumentModel};
use crate::editor::{Action, Editor};
use crate::error::StdinError;
use crate::pane::{Layout, Pane, ViewId};
use crate::selection::Selection;
use crate::tree::pane_models;
use vstd::prelude::*;

verus! {

impl Editor {
    /// True if a pane other than `except` shows document `doc`.
    pub fn shown_elsewhere(&self, doc: DocumentId, except: ViewId) -> (b: bool)
        ensures
            b == self@.shown_elsewhere(doc, except),
    {
        let panes = self.tree.views();
        let mut i: usize = 0;
        while i < panes.len()
            invariant
                i <= panes.len(),
                pane_models(panes@) == self@.tree.panes,
                forall|j: int|
                    0 <= j < i ==> !((#[trigger] self@.tree.panes[j]).doc == doc
                        && self@.tree.panes[j].id != except),
            decreases panes.len() - i,
        {
            if panes[i].doc == doc && panes[i].id != except {
                assert(self@.tree.panes[i as int].doc == doc);
                return true;
            }
            i += 1;
        }
        false
    }

    /// Registers `doc` under the next identifier, which it returns.
    pub fn new_document(&mut self, doc: Document) -> (id: DocumentId)
        requires
            old(self)@.registry_wf(),
            old(self)@.next_document_id.0 < usize::MAX,
        ensures
            final(self)@ == old(self)@.register(doc@),
            id == old(self)@.next_document_id,
            final(self)@.registry_wf(),
            old(self)@.wf() ==> final(self)@.wf(),
    {
        let id = self.next_document_id;
        let mut doc = doc;
        doc.id = id;
        self.documents.push(doc);
        self.next_document_id = DocumentId(id.0 + 1);
        proof {
            assert(self@.documents =~= old(self)@.register(doc@).documents);
            old(self)@.lemma_register(doc@);
            if old(self)@.wf() {
                assert forall|i: int| 0 <= i < self@.tree.panes.len() implies self@.bound(
                    #[trigger] self@.tree.panes[i],
                ) by {
                    assert(old(self)@.bound(old(self)@.tree.panes[i]));
                }
            }
        }
        id
    }

    /// Makes pane `current_view` show document `doc_id`, with the cursor's
    /// line in the middle. The document gets a selection for the pane, at
    /// the start of the buffer, if it had none.
    pub fn replace_document_in_view(&mut self, current_view: ViewId, doc_id: DocumentId)
        requires
            old(self)@.wf_except(current_view),
            old(self)@.tree.contains(current_view),
            old(self)@.has_document(doc_id),
        ensures
            final(self)@ == old(self)@.bind(current_view, doc_id),
            final(self)@.wf(),
    {
        let d = self.doc_index(doc_id).unwrap();
        self.documents[d].seed_selection(current_view);
        let line = self.documents[d].selection(current_view).cursor.row;
        let pane = self.tree.get_mut(current_view);
        pane.bind(doc_id, line);
        proof {
            assert(self@.documents =~= old(self)@.bind(current_view, doc_id).documents);
            old(self)@.lemma_bind(current_view, doc_id);
        }
    }

    /// Brings document `id` into view as `action` says. Nothing happens if no
    /// document is registered under `id`.
    pub fn switch(&mut self, id: DocumentId, action: Action)
        requires
            old(self)@.wf(),
            old(self)@.has_document(id) ==> old(self)@.admits(action),
        ensures
            final(self)@ == old(self)@.switch(id, action),
            final(self)@.wf(),
    {
        proof {
            old(self)@.lemma_switch_wf(id, action);
        }
        let d = match self.doc_index(id) {
            Some(d) => d,
            None => {
                return ;
            },
        };
        match action {
            Action::Replace => {
                let view = self.tree.focus();
                let fi = self.tree.index_of(view).unwrap();
                let outgoing = self.tree.pane(fi).doc;
                assert(old(self)@.bound(old(self)@.tree.panes[fi as int]));
                let od = self.doc_index(outgoing).unwrap();
                let discard = !self.documents[od].modified && self.documents[od].path.is_none()
                    && id != outgoing && !self.shown_elsewhere(outgoing, view);
                if discard {
                    let _ = self.documents.remove(od);
                    assert(self@.documents =~= old(self)@.leave(id).documents);
                } else {
                    let selection = self.documents[od].selection(view);
                    let pane = self.tree.pane_mut(fi);
                    pane.push_jump(outgoing, selection);
                }
                assert(self@ == old(self)@.leave(id));
                proof {
                    old(self)@.lemma_leave(id);
                }
                self.replace_document_in_view(view, id);
                self._refresh();
            },
            Action::Load => {
                let view = self.tree.focus();
                if self.documents[d].selections.is_empty() {
                    self.documents[d].set_selection(view, Selection::start());
                }
                assert(self@.documents =~= old(self)@.load(id).documents);
            },
            Action::HorizontalSplit | Action::VerticalSplit => {
                let layout = match action {
                    Action::HorizontalSplit => Layout::Horizontal,
                    _ => Layout::Vertical,
                };
                let view = self.tree.split(Pane::new(id), layout);
                self.documents[d].set_selection(view, Selection::start());
                proof {
                    assert(self@.documents =~= old(self)@.split(id, layout).documents);
                    old(self)@.lemma_split_wf(id, layout);
                }
                self._refresh();
            },
        }
    }

    /// Registers `doc` and brings it into view as `action` says.
    pub fn new_file_from_document(&mut self, action: Action, doc: Document) -> (id: DocumentId)
        requires
            old(self)@.wf(),
            old(self)@.next_document_id.0 < usize::MAX,
            old(self)@.admits(action),
        ensures
            final(self)@ == old(self)@.new_file_from_document(action, doc@),
            id == old(self)@.next_document_id,
            final(self)@.wf(),
    {
        let id = self.new_document(doc);
        self.switch(id, action);
        id
    }

    /// Registers a document that holds `input`, the text that was read from
    /// the standard input, and brings it into view as `action` says. Fails,
    /// and changes nothing, if `input` is `None`: the input could not be read.
    pub fn new_file_from_stdin(&mut self, action: Action, input: Option<String>) -> (r: Result<
        DocumentId,
        StdinError,
    >)
        requires
            old(self)@.wf(),
            old(self)@.next_document_id.0 < usize::MAX,
            old(self)@.admits(action),
        ensures
            match input {
                Some(text) => r == Ok::<DocumentId, StdinError>(old(self)@.next_document_id)
                    && final(self)@ == old(self)@.new_file_from_document(
                    action,
                    DocumentModel { text: text@, ..DocumentModel::scratch() },
                ),
                None => r == Err::<DocumentId, StdinError>(StdinError::Unreadable) && final(self)@
                    == old(self)@,
            },
            final(self)@.wf(),
    {
        match input {
            Some(text) => Ok(self.new_file_from_document(action, Document::from_text(text))),
            None => Err(StdinError::Unreadable),
        }
    }

    /// Registers an empty scratch document and brings it into view as
    /// `action` says.
    pub fn new_file(&mut self, action: Action) -> (id: DocumentId)
        requires
            old(self)@.wf(),
            old(self)@.next_document_id.0 < usize::MAX,
            old(self)@.admits(action),
        ensures
            final(self)@ == old(self)@.new_file_from_document(action, DocumentModel::scratch()),
            id == old(self)@.next_document_id,
            final(self)@.wf(),
    {
        self.new_file_from_document(action, Document::default())
    }
}

} // verus!
