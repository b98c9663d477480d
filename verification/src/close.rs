//! Closing panes and documents.

use crate::document::{Document, DocumentId};
use crate::editor::Editor;
use crate::error::CloseError;
use crate::language::Notification;
use crate::pane::{Pane, ViewId};
use crate::selection::Selection;
use crate::tree::pane_models;
use vstd::prelude::*;

verus! {

impl Editor {
    /// The first pane that shows document `doc`, if any does.
    pub fn first_viewer(&self, doc: DocumentId) -> (r: Option<ViewId>)
        ensures
            r is Some <==> self@.has_viewer(doc),
            r is Some ==> r->0 == self@.first_viewer(doc) && self@.tree.contains(r->0),
    {
        let panes = self.tree.views();
        let mut i: usize = 0;
        while i < panes.len()
            invariant
                i <= panes.len(),
                pane_models(panes@) == self@.tree.panes,
                forall|j: int| 0 <= j < i ==> (#[trigger] self@.tree.panes[j]).doc != doc,
            decreases panes.len() - i,
        {
            if panes[i].doc == doc {
                proof {
                    let e = self@;
                    assert(e.tree.panes[i as int].doc == doc);
                    assert(e.is_viewer_index(doc, i as int));
                    e.lemma_first_viewer(doc);
                    let k = e.viewer_index(doc);
                    if k < i {
                        assert(e.tree.panes[k].doc != doc);
                    } else if i < k {
                        assert(e.tree.panes[i as int].doc != doc);
                    }
                }
                return Some(panes[i].id);
            }
            i += 1;
        }
        None
    }

    /// Closes pane `id`: its selection in the document it shows is forgotten,
    /// the pane leaves the tree, and the panes that are left scroll to their
    /// cursors.
    pub fn close(&mut self, id: ViewId)
        requires
            old(self)@.wf(),
            old(self)@.tree.contains(id),
        ensures
            final(self)@ == old(self)@.close(id),
            final(self)@.wf(),
    {
        let vi = self.tree.index_of(id).unwrap();
        let doc = self.tree.pane(vi).doc;
        assert(old(self)@.bound(old(self)@.tree.panes[vi as int]));
        let d = self.doc_index(doc).unwrap();
        self.documents[d].remove_selection(id);
        self.tree.remove(id);
        proof {
            assert(self@.documents =~= old(self)@.unbind(id).documents);
            old(self)@.lemma_unbind_wf(id);
        }
        self._refresh();
    }

    /// Tells the language server of document `doc_id`, if it has one, that
    /// the document is gone.
    pub fn notify_close(&mut self, doc_id: DocumentId)
        requires
            old(self)@.wf(),
            old(self)@.has_document(doc_id),
        ensures
            final(self)@ == old(self)@.notify_close(doc_id),
            final(self)@.wf(),
    {
        let d = self.doc_index(doc_id).unwrap();
        if let Some(server) = self.documents[d].language_server {
            let path = self.documents[d].path.clone();
            self.outbox.push(Notification::DidClose { server, path });
            assert(self@.outbox =~= old(self)@.notify_close(doc_id).outbox);
        }
        proof {
            assert forall|i: int| 0 <= i < self@.tree.panes.len() implies self@.bound(
                #[trigger] self@.tree.panes[i],
            ) by {
                assert(old(self)@.bound(old(self)@.tree.panes[i]));
            }
        }
    }

    /// Closes every pane that shows document `doc_id`, the first such pane first.
    pub fn close_viewers(&mut self, doc_id: DocumentId)
        requires
            old(self)@.wf(),
        ensures
            final(self)@ == old(self)@.close_viewers(doc_id),
            final(self)@.wf(),
    {
        let mut next = self.first_viewer(doc_id);
        while next.is_some()
            invariant
                self@.wf(),
                self@.close_viewers(doc_id) == old(self)@.close_viewers(doc_id),
                next is Some <==> self@.has_viewer(doc_id),
                next is Some ==> next->0 == self@.first_viewer(doc_id) && self@.tree.contains(
                    next->0,
                ),
            decreases self@.tree.panes.len(),
        {
            let view = next.unwrap();
            proof {
                self@.lemma_close_wf(view);
            }
            self.close(view);
            next = self.first_viewer(doc_id);
        }
    }

    /// Takes document `doc_id` out of the registry.
    pub fn unregister(&mut self, doc_id: DocumentId)
        requires
            old(self)@.wf(),
            !old(self)@.has_viewer(doc_id),
        ensures
            final(self)@ == old(self)@.unregister(doc_id),
            final(self)@.wf(),
    {
        match self.doc_index(doc_id) {
            None => {},
            Some(d) => {
                let _ = self.documents.remove(d);
                proof {
                    assert(self@.documents =~= old(self)@.unregister(doc_id).documents);
                    old(self)@.lemma_unregister_wf(doc_id);
                }
            },
        }
    }

    /// Makes a pane if the editor has none: for the oldest document, or for
    /// a new scratch document if none is registered.
    pub fn ensure_view(&mut self)
        requires
            old(self)@.wf(),
            old(self)@.can_mint(),
        ensures
            final(self)@ == old(self)@.with_fallback_view(),
            final(self)@.wf(),
            !final(self)@.tree.is_empty(),
    {
        proof {
            old(self)@.lemma_fallback_wf();
        }
        if self.tree.is_empty() {
            let target = if self.documents.len() > 0 {
                self.documents[0].id
            } else {
                self.new_document(Document::default())
            };
            let ghost e = self@;
            assert(e.documents[0].id == target);
            assert(e.has_document(target));
            let view = self.tree.insert(Pane::new(target));
            let t = self.doc_index(target).unwrap();
            self.documents[t].set_selection(view, Selection::start());
            assert(self@.documents =~= old(self)@.with_fallback_view().documents);
        }
    }

    /// Closes document `doc_id` and every pane that shows it.
    ///
    /// Fails, and changes nothing, if no such document is registered, or if
    /// it has unsaved changes and `force` is not set. Otherwise the
    /// document's language server is told, the panes are closed, the
    /// document leaves the registry, and if no pane is left one is made for
    /// the oldest document that is, or for a new scratch document.
    pub fn close_document(&mut self, doc_id: DocumentId, force: bool) -> (r: Result<(), CloseError>)
        requires
            old(self)@.wf(),
            old(self)@.can_mint(),
        ensures
            match old(self)@.close_error(doc_id, force) {
                Some(e) => r is Err && r->Err_0@ == e && final(self)@ == old(self)@,
                None => r is Ok && final(self)@ == old(self)@.close_document(doc_id),
            },
            final(self)@.wf(),
    {
        let d = match self.doc_index(doc_id) {
            Some(d) => d,
            None => {
                return Err(CloseError::NotFound);
            },
        };
        if !force && self.documents[d].modified {
            return Err(CloseError::Modified(self.documents[d].display_name()));
        }
        self.notify_close(doc_id);
        proof {
            self@.lemma_close_viewers_wf(doc_id);
        }
        self.close_viewers(doc_id);
        self.unregister(doc_id);
        self.ensure_view();
        self._refresh();
        Ok(())
    }
}

} // verus!
