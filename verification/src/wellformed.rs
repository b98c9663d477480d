//! Why every operation keeps the editor well-formed.

use crate::document::{DocumentId, DocumentModel};
use crate::editor::{Action, Motion};
use crate::language::launched;
use crate::model::EditorModel;
use crate::pane::{Layout, PaneModel, ViewId};
use crate::selection::Selection;
use crate::tree::TreeModel;
use vstd::prelude::*;

verus! {

/// Two trees with the same pane identifiers at the same places, the same
/// focus and the same next identifier are well-formed together, hold the same
/// panes and find them at the same places.
pub proof fn lemma_same_ids(a: TreeModel, b: TreeModel)
    requires
        a.wf(),
        a.panes.len() == b.panes.len(),
        a.focus == b.focus,
        a.next_view == b.next_view,
        forall|i: int| 0 <= i < a.panes.len() ==> (#[trigger] a.panes[i]).id == b.panes[i].id,
    ensures
        b.wf(),
        forall|id: ViewId| a.contains(id) <==> b.contains(id),
        forall|id: ViewId| a.contains(id) ==> a.index_of(id) == b.index_of(id),
{
    assert forall|i: int| 0 <= i < b.panes.len() implies 1 <= (#[trigger] b.panes[i]).id.0
        < b.next_view by {
        assert(b.panes[i].id == a.panes[i].id);
    }
    assert forall|i: int, j: int| 0 <= i < j < b.panes.len() implies (#[trigger] b.panes[i]).id != (
    #[trigger] b.panes[j]).id by {
        assert(a.panes[i].id != a.panes[j].id);
    }
    assert forall|id: ViewId| a.contains(id) implies b.contains(id) && a.index_of(id)
        == b.index_of(id) by {
        let i = a.index_of(id);
        assert(b.panes[i].id == id);
        b.lemma_index_of_distinct(id, i);
    }
    assert forall|id: ViewId| b.contains(id) implies a.contains(id) by {
        let i = b.index_of(id);
        assert(a.panes[i].id == id);
    }
}

/// Two registries with the same identifiers at the same places and the same
/// next identifier are well-formed together, hold the same documents and find
/// them at the same places.
pub proof fn lemma_same_doc_ids(a: EditorModel, b: EditorModel)
    requires
        a.registry_wf(),
        a.documents.len() == b.documents.len(),
        a.next_document_id == b.next_document_id,
        forall|i: int|
            0 <= i < a.documents.len() ==> (#[trigger] a.documents[i]).id == b.documents[i].id,
    ensures
        b.registry_wf(),
        forall|id: DocumentId| a.has_document(id) <==> b.has_document(id),
        forall|id: DocumentId| a.has_document(id) ==> a.doc_index(id) == b.doc_index(id),
{
    assert forall|i: int| 0 <= i < b.documents.len() implies 1 <= (#[trigger] b.documents[i]).id.0
        < b.next_document_id.0 by {
        assert(b.documents[i].id == a.documents[i].id);
    }
    assert forall|i: int, j: int| 0 <= i < j < b.documents.len() implies (
    #[trigger] b.documents[i]).id.0 < (#[trigger] b.documents[j]).id.0 by {
        assert(a.documents[i].id.0 < a.documents[j].id.0);
    }
    assert forall|id: DocumentId| a.has_document(id) implies b.has_document(id) && a.doc_index(id)
        == b.doc_index(id) by {
        let i = a.doc_index(id);
        assert(b.documents[i].id == id);
        b.lemma_doc_index(id, i);
    }
    assert forall|id: DocumentId| b.has_document(id) implies a.has_document(id) by {
        let i = b.doc_index(id);
        assert(a.documents[i].id == id);
    }
}

impl EditorModel {
    /// In a well-formed registry a document is found at one place only.
    pub proof fn lemma_doc_index(self, id: DocumentId, i: int)
        requires
            self.registry_wf(),
            0 <= i < self.documents.len(),
            self.documents[i].id == id,
        ensures
            self.has_document(id),
            self.doc_index(id) == i,
            self.document(id) == self.documents[i],
    {
        let j = self.doc_index(id);
        assert(0 <= j < self.documents.len() && self.documents[j].id == id);
        if i < j {
            assert(self.documents[i].id.0 < self.documents[j].id.0);
        } else if j < i {
            assert(self.documents[j].id.0 < self.documents[i].id.0);
        }
    }

    /// Scrolling keeps the editor well-formed and changes nothing but the
    /// offsets of the panes.
    pub proof fn lemma_refresh_wf(self)
        requires
            self.wf(),
        ensures
            self.refresh().wf(),
            self.refresh().documents == self.documents,
            self.refresh().tree.panes.len() == self.tree.panes.len(),
            forall|i: int|
                0 <= i < self.tree.panes.len() ==> (#[trigger] self.refresh().tree.panes[i]).id
                    == self.tree.panes[i].id && self.refresh().tree.panes[i].doc
                    == self.tree.panes[i].doc,
    {
        let r = self.refresh();
        lemma_same_ids(self.tree, r.tree);
        assert forall|i: int| 0 <= i < r.tree.panes.len() implies r.bound(
            #[trigger] r.tree.panes[i],
        ) by {
            assert(self.bound(self.tree.panes[i]));
        }
    }

    /// Registering a document keeps the registry well-formed, adds the
    /// document under an identifier that was not in use, and keeps the rest.
    pub proof fn lemma_register(self, doc: DocumentModel)
        requires
            self.registry_wf(),
            self.next_document_id.0 < usize::MAX,
        ensures
            self.register(doc).registry_wf(),
            !self.has_document(self.next_document_id),
            self.register(doc).has_document(self.next_document_id),
            self.register(doc).doc_index(self.next_document_id) == self.documents.len(),
            self.register(doc).document(self.next_document_id) == (DocumentModel {
                id: self.next_document_id,
                ..doc
            }),
            forall|id: DocumentId|
                self.has_document(id) ==> self.register(doc).has_document(id)
                    && self.register(doc).doc_index(id) == self.doc_index(id)
                    && self.register(doc).document(id) == self.document(id),
            forall|id: DocumentId|
                self.register(doc).has_document(id) ==> id == self.next_document_id
                    || self.has_document(id),
    {
        let r = self.register(doc);
        let n = self.documents.len() as int;
        assert(r.documents[n].id == self.next_document_id);
        assert forall|i: int| 0 <= i < r.documents.len() implies 1 <= (#[trigger] r.documents[i]).id.0
            < r.next_document_id.0 by {
            if i < n {
                assert(r.documents[i] == self.documents[i]);
            }
        }
        assert forall|i: int, j: int| 0 <= i < j < r.documents.len() implies (
        #[trigger] r.documents[i]).id.0 < (#[trigger] r.documents[j]).id.0 by {
            assert(r.documents[i] == self.documents[i]);
            if j < n {
                assert(r.documents[j] == self.documents[j]);
            }
        }
        r.lemma_doc_index(self.next_document_id, n);
        if self.has_document(self.next_document_id) {
            let i = self.doc_index(self.next_document_id);
            assert(self.documents[i].id.0 < self.next_document_id.0);
        }
        assert forall|id: DocumentId| self.has_document(id) implies r.has_document(id)
            && r.doc_index(id) == self.doc_index(id) && r.document(id) == self.document(id) by {
            let i = self.doc_index(id);
            assert(r.documents[i] == self.documents[i]);
            r.lemma_doc_index(id, i);
        }
        assert forall|id: DocumentId| r.has_document(id) implies id == self.next_document_id
            || self.has_document(id) by {
            let i = r.doc_index(id);
            if i < n {
                assert(r.documents[i] == self.documents[i]);
            }
        }
    }

    /// Taking a document out keeps the registry well-formed and keeps the rest.
    pub proof fn lemma_unregister(self, id: DocumentId)
        requires
            self.registry_wf(),
            self.has_document(id),
        ensures
            self.unregister(id).registry_wf(),
            self.unregister(id).documents.len() == self.documents.len() - 1,
            !self.unregister(id).has_document(id),
            forall|x: DocumentId|
                x != id && self.has_document(x) ==> self.unregister(id).has_document(x)
                    && self.unregister(id).document(x) == self.document(x),
            forall|x: DocumentId| self.unregister(id).has_document(x) ==> self.has_document(x),
    {
        let r = self.unregister(id);
        let at = self.doc_index(id);
        assert forall|i: int| 0 <= i < r.documents.len() implies #[trigger] r.documents[i]
            == self.documents[if i < at { i } else { i + 1 }] by {}
        assert forall|i: int| 0 <= i < r.documents.len() implies 1 <= (#[trigger] r.documents[i]).id.0
            < r.next_document_id.0 by {
            assert(r.documents[i] == self.documents[if i < at { i } else { i + 1 }]);
        }
        assert forall|i: int, j: int| 0 <= i < j < r.documents.len() implies (
        #[trigger] r.documents[i]).id.0 < (#[trigger] r.documents[j]).id.0 by {
            assert(r.documents[i] == self.documents[if i < at { i } else { i + 1 }]);
            assert(r.documents[j] == self.documents[if j < at { j } else { j + 1 }]);
        }
        assert forall|x: DocumentId| r.has_document(x) implies self.has_document(x) && x != id by {
            let k = r.doc_index(x);
            let i = if k < at { k } else { k + 1 };
            assert(r.documents[k] == self.documents[i]);
            if x == id {
                self.lemma_doc_index(id, i);
            }
        }
        assert forall|x: DocumentId| x != id && self.has_document(x) implies r.has_document(x)
            && r.document(x) == self.document(x) by {
            let i = self.doc_index(x);
            let k = if i < at { i } else { i - 1 };
            assert(r.documents[k] == self.documents[i]);
            r.lemma_doc_index(x, k);
        }
    }

    /// Changing a document in place, without touching its identifier, keeps
    /// the registry well-formed and every other document as it was.
    pub proof fn lemma_with_document(self, d: int, doc: DocumentModel)
        requires
            self.registry_wf(),
            0 <= d < self.documents.len(),
            doc.id == self.documents[d].id,
        ensures
            self.with_document(d, doc).registry_wf(),
            forall|id: DocumentId| self.has_document(id) <==> self.with_document(d, doc).has_document(id),
            self.with_document(d, doc).document(doc.id) == doc,
            forall|id: DocumentId|
                self.has_document(id) ==> self.with_document(d, doc).doc_index(id)
                    == self.doc_index(id),
            forall|id: DocumentId|
                self.has_document(id) && id != doc.id ==> self.with_document(d, doc).document(id)
                    == self.document(id),
    {
        let r = self.with_document(d, doc);
        lemma_same_doc_ids(self, r);
        r.lemma_doc_index(doc.id, d);
        assert forall|id: DocumentId| self.has_document(id) && id != doc.id implies r.document(id)
            == self.document(id) by {
            let i = self.doc_index(id);
            assert(i != d);
        }
    }

    /// Loading a document in the background keeps the editor well-formed.
    pub proof fn lemma_load_wf(self, id: DocumentId)
        requires
            self.wf(),
            self.has_document(id),
        ensures
            self.load(id).wf(),
            self.load(id).tree == self.tree,
            self.load(id).next_document_id == self.next_document_id,
            forall|x: DocumentId| self.has_document(x) <==> self.load(id).has_document(x),
    {
        let d = self.doc_index(id);
        let r = self.load(id);
        if self.documents[d].selections.is_empty() {
            let doc = self.documents[d].with_selection(self.tree.focus, Selection::spec_start());
            self.lemma_with_document(d, doc);
            assert forall|i: int| 0 <= i < r.tree.panes.len() implies r.bound(
                #[trigger] r.tree.panes[i],
            ) by {
                assert(self.bound(self.tree.panes[i]));
            }
        }
    }

    /// Attaching a pane for a registered document keeps the editor well-formed.
    pub proof fn lemma_split_wf(self, id: DocumentId, layout: Layout)
        requires
            self.tree.wf(),
            self.registry_wf(),
            forall|i: int|
                0 <= i < self.tree.panes.len() ==> self.bound(#[trigger] self.tree.panes[i]),
            self.has_document(id),
            self.tree.can_mint(),
        ensures
            self.split(id, layout).wf(),
            !self.split(id, layout).tree.is_empty(),
            self.split(id, layout).next_document_id == self.next_document_id,
            forall|x: DocumentId| self.has_document(x) <==> self.split(id, layout).has_document(x),
    {
        let r = self.split(id, layout);
        let d = self.doc_index(id);
        let view = ViewId(self.tree.next_view);
        let doc = self.documents[d].with_selection(view, Selection::spec_start());
        self.lemma_with_document(d, doc);
        self.tree.lemma_attach_wf(PaneModel::fresh(id), layout);
        let at = if self.tree.is_empty() { 0 } else { self.tree.index_of(self.tree.focus) + 1 };
        assert forall|i: int| 0 <= i < r.tree.panes.len() implies r.bound(
            #[trigger] r.tree.panes[i],
        ) by {
            if i < at {
                assert(r.tree.panes[i] == self.tree.panes[i]);
                assert(self.bound(self.tree.panes[i]));
            } else if i > at {
                assert(r.tree.panes[i] == self.tree.panes[i - 1]);
                assert(self.bound(self.tree.panes[i - 1]));
            } else {
                assert(r.tree.panes[i].doc == id);
                assert(r.tree.panes[i].id == view);
            }
        }
    }

    /// Letting go of the focused pane's document leaves every other pane as
    /// it was, and the incoming document registered.
    pub proof fn lemma_leave(self, incoming: DocumentId)
        requires
            self.wf(),
            !self.tree.is_empty(),
            self.has_document(incoming),
        ensures
            self.leave(incoming).wf_except(self.tree.focus),
            self.leave(incoming).has_document(incoming),
            self.leave(incoming).tree.contains(self.tree.focus),
            self.leave(incoming).tree.focus == self.tree.focus,
            self.leave(incoming).next_document_id == self.next_document_id,
            forall|x: DocumentId| self.leave(incoming).has_document(x) ==> self.has_document(x),
    {
        let r = self.leave(incoming);
        let fi = self.tree.index_of(self.tree.focus);
        let pane = self.tree.focused();
        assert(self.bound(self.tree.panes[fi]));
        if self.discards_on_replace(incoming) {
            self.lemma_unregister(pane.doc);
            assert forall|i: int| 0 <= i < r.tree.panes.len() implies (
            #[trigger] r.tree.panes[i]).id == self.tree.focus || r.bound(r.tree.panes[i]) by {
                let p = self.tree.panes[i];
                if p.id != self.tree.focus {
                    assert(self.bound(p));
                    assert(p.doc != pane.doc);
                }
            }
        } else {
            lemma_same_ids(self.tree, r.tree);
            assert forall|i: int| 0 <= i < r.tree.panes.len() implies (
            #[trigger] r.tree.panes[i]).id == self.tree.focus || r.bound(r.tree.panes[i]) by {
                assert(self.bound(self.tree.panes[i]));
            }
        }
    }

    /// Making a pane show a registered document restores the invariant.
    pub proof fn lemma_bind(self, view: ViewId, doc: DocumentId)
        requires
            self.wf_except(view),
            self.tree.contains(view),
            self.has_document(doc),
        ensures
            self.bind(view, doc).wf(),
            self.bind(view, doc).tree.focus == self.tree.focus,
            self.bind(view, doc).tree.panes.len() == self.tree.panes.len(),
            self.bind(view, doc).next_document_id == self.next_document_id,
            forall|x: DocumentId| self.has_document(x) <==> self.bind(view, doc).has_document(x),
    {
        let r = self.bind(view, doc);
        let d = self.doc_index(doc);
        let target = self.documents[d].seeded(view);
        let vi = self.tree.index_of(view);
        self.lemma_with_document(d, target);
        lemma_same_doc_ids(self, r);
        lemma_same_ids(self.tree, r.tree);
        assert forall|i: int| 0 <= i < r.tree.panes.len() implies r.bound(
            #[trigger] r.tree.panes[i],
        ) by {
            if i == vi {
                assert(r.tree.panes[i].doc == doc);
                assert(r.document(doc) == target);
            } else {
                let p = self.tree.panes[i];
                assert(r.tree.panes[i] == p);
                if p.id == view {
                    self.tree.lemma_index_of(view, i);
                }
                assert(self.bound(p));
                if p.doc == doc {
                    assert(r.document(doc) == target);
                } else {
                    assert(r.document(p.doc) == self.document(p.doc));
                }
            }
        }
    }

    /// Bringing a document into view keeps the editor well-formed, registers
    /// no document and hands out no document identifier.
    pub proof fn lemma_switch_wf(self, id: DocumentId, action: Action)
        requires
            self.wf(),
            self.has_document(id) ==> self.admits(action),
        ensures
            self.switch(id, action).wf(),
            self.switch(id, action).next_document_id == self.next_document_id,
            self.has_document(id) ==> self.switch(id, action).has_document(id),
            forall|x: DocumentId| self.switch(id, action).has_document(x) ==> self.has_document(x),
            !self.tree.is_empty() ==> !self.switch(id, action).tree.is_empty(),
            self.has_document(id) ==> !self.switch(id, action).tree.is_empty(),
    {
        if self.has_document(id) {
            match action {
                Action::Load => {
                    self.lemma_load_wf(id);
                },
                Action::Replace => {
                    self.lemma_leave(id);
                    self.leave(id).lemma_bind(self.tree.focus, id);
                    self.replace(id).lemma_refresh_wf();
                },
                Action::HorizontalSplit => {
                    self.lemma_split_wf(id, Layout::Horizontal);
                    self.split(id, Layout::Horizontal).lemma_refresh_wf();
                },
                Action::VerticalSplit => {
                    self.lemma_split_wf(id, Layout::Vertical);
                    self.split(id, Layout::Vertical).lemma_refresh_wf();
                },
            }
        }
    }

    /// Closing a pane keeps the editor well-formed. One pane less is left,
    /// and the registry holds the documents it held.
    pub proof fn lemma_close_wf(self, view: ViewId)
        requires
            self.wf(),
            self.tree.contains(view),
        ensures
            self.close(view).wf(),
            self.close(view).tree.panes.len() == self.tree.panes.len() - 1,
            self.close(view).tree.next_view == self.tree.next_view,
            self.close(view).next_document_id == self.next_document_id,
            self.close(view).outbox == self.outbox,
            forall|x: DocumentId| self.has_document(x) <==> self.close(view).has_document(x),
    {
        self.lemma_unbind_wf(view);
        self.unbind(view).lemma_refresh_wf();
    }

    /// Taking a pane out, with its selection, keeps the editor well-formed.
    pub proof fn lemma_unbind_wf(self, view: ViewId)
        requires
            self.wf(),
            self.tree.contains(view),
        ensures
            self.unbind(view).wf(),
            self.unbind(view).tree.panes.len() == self.tree.panes.len() - 1,
            forall|x: DocumentId| self.has_document(x) <==> self.unbind(view).has_document(x),
    {
        let vi = self.tree.index_of(view);
        let pane = self.tree.panes[vi];
        assert(self.bound(pane));
        let d = self.doc_index(pane.doc);
        let doc = self.documents[d].without_selection(view);
        let mid = self.unbind(view);
        self.lemma_with_document(d, doc);
        lemma_same_doc_ids(self, mid);
        self.tree.lemma_remove_wf(view);
        assert forall|k: int| 0 <= k < mid.tree.panes.len() implies mid.bound(
            #[trigger] mid.tree.panes[k],
        ) by {
            let i = if k < vi { k } else { k + 1 };
            let q = self.tree.panes[i];
            assert(mid.tree.panes[k] == q);
            assert(self.bound(q));
            if q.id == view {
                self.tree.lemma_index_of(view, i);
            }
            if q.doc == pane.doc {
                assert(mid.document(q.doc) == doc);
            } else {
                assert(mid.document(q.doc) == self.document(q.doc));
            }
        }
    }

    /// Closing the panes that show a document keeps the editor well-formed
    /// and leaves no pane that shows the document.
    pub proof fn lemma_close_viewers_wf(self, doc: DocumentId)
        requires
            self.wf(),
        ensures
            self.close_viewers(doc).wf(),
            !self.close_viewers(doc).has_viewer(doc),
            self.close_viewers(doc).tree.next_view == self.tree.next_view,
            self.close_viewers(doc).next_document_id == self.next_document_id,
            self.close_viewers(doc).outbox == self.outbox,
            forall|x: DocumentId| self.has_document(x) <==> self.close_viewers(doc).has_document(x),
        decreases self.tree.panes.len(),
    {
        if self.has_viewer(doc) {
            self.lemma_first_viewer(doc);
            let v = self.first_viewer(doc);
            self.lemma_close_wf(v);
            self.close(v).lemma_close_viewers_wf(doc);
        }
    }

    /// A document that no pane shows can leave the registry.
    pub proof fn lemma_unregister_wf(self, id: DocumentId)
        requires
            self.wf(),
            self.has_document(id),
            !self.has_viewer(id),
        ensures
            self.unregister(id).wf(),
    {
        let r = self.unregister(id);
        self.lemma_unregister(id);
        assert forall|i: int| 0 <= i < r.tree.panes.len() implies r.bound(
            #[trigger] r.tree.panes[i],
        ) by {
            let p = self.tree.panes[i];
            assert(self.bound(p));
            assert(p.doc != id);
        }
    }

    /// After the fallback the editor has a pane, is well-formed, and has
    /// registered at most the one scratch document that the pane needed.
    pub proof fn lemma_fallback_wf(self)
        requires
            self.wf(),
            self.can_mint(),
        ensures
            self.with_fallback_view().wf(),
            !self.with_fallback_view().tree.is_empty(),
            self.with_fallback_view().next_document_id.0 >= self.next_document_id.0,
            forall|x: DocumentId| self.has_document(x) ==> self.with_fallback_view().has_document(x),
            forall|x: DocumentId|
                self.with_fallback_view().has_document(x) ==> self.has_document(x) || x
                    == self.next_document_id,
    {
        if self.tree.is_empty() {
            let e = if self.documents.len() > 0 {
                self
            } else {
                self.register(DocumentModel::scratch())
            };
            if self.documents.len() == 0 {
                self.lemma_register(DocumentModel::scratch());
            }
            assert(e.has_document(e.documents[0].id));
            e.lemma_split_wf(e.documents[0].id, Layout::Vertical);
        }
    }

    /// Closing a document keeps the editor well-formed and leaves it with a
    /// pane. The document is gone from the registry, and at most the one
    /// scratch document that the last pane needed has been registered.
    pub proof fn lemma_close_document_wf(self, id: DocumentId)
        requires
            self.wf(),
            self.can_mint(),
            self.has_document(id),
        ensures
            self.close_document(id).wf(),
            !self.close_document(id).tree.is_empty(),
            !self.close_document(id).has_document(id),
            self.close_document(id).next_document_id.0 >= self.next_document_id.0,
            forall|x: DocumentId|
                x != id && self.has_document(x) ==> self.close_document(id).has_document(x),
            forall|x: DocumentId|
                self.close_document(id).has_document(x) ==> self.has_document(x) || x
                    == self.next_document_id,
    {
        let a = self.notify_close(id);
        assert(a.wf()) by {
            assert forall|i: int| 0 <= i < a.tree.panes.len() implies a.bound(
                #[trigger] a.tree.panes[i],
            ) by {
                assert(self.bound(self.tree.panes[i]));
            }
        }
        a.lemma_close_viewers_wf(id);
        let b = a.close_viewers(id);
        assert(b.has_document(id)) by {
            assert(a.has_document(id));
        }
        b.lemma_unregister_wf(id);
        b.lemma_unregister(id);
        let c = b.unregister(id);
        c.lemma_fallback_wf();
        let d = c.with_fallback_view();
        d.lemma_refresh_wf();
        assert(!d.has_document(id)) by {
            if d.has_document(id) {
                assert(c.has_document(id) || id == c.next_document_id);
                let i = self.doc_index(id);
                assert(self.documents[i].id.0 < self.next_document_id.0);
            }
        }
        assert forall|x: DocumentId| x != id && self.has_document(x) implies d.has_document(x) by {
            assert(a.has_document(x));
            assert(b.has_document(x));
            assert(c.has_document(x));
        }
        assert forall|x: DocumentId| d.has_document(x) implies self.has_document(x) || x
            == self.next_document_id by {
            if x != c.next_document_id {
                assert(c.has_document(x));
                assert(b.has_document(x));
                assert(a.has_document(x));
            }
        }
    }

    /// Changing a document in place keeps the editor well-formed if the
    /// document keeps its identifier and its selections.
    pub proof fn lemma_with_document_wf(self, d: int, doc: DocumentModel)
        requires
            self.wf(),
            0 <= d < self.documents.len(),
            doc.id == self.documents[d].id,
            forall|k: usize|
                self.documents[d].selections.contains_key(k) ==> doc.selections.contains_key(k),
        ensures
            self.with_document(d, doc).wf(),
    {
        let r = self.with_document(d, doc);
        self.lemma_with_document(d, doc);
        assert forall|i: int| 0 <= i < r.tree.panes.len() implies r.bound(
            #[trigger] r.tree.panes[i],
        ) by {
            let p = self.tree.panes[i];
            assert(self.bound(p));
            if p.doc == doc.id {
                self.lemma_doc_index(doc.id, d);
            }
        }
    }

    /// Changing nothing but outbox, status, theme, timer and the like keeps
    /// the editor well-formed.
    pub proof fn lemma_same_state_wf(self, other: EditorModel)
        requires
            self.wf(),
            other.tree == self.tree,
            other.documents == self.documents,
            other.next_document_id == self.next_document_id,
        ensures
            other.wf(),
    {
        assert forall|i: int| 0 <= i < other.tree.panes.len() implies other.bound(
            #[trigger] other.tree.panes[i],
        ) by {
            assert(self.bound(self.tree.panes[i]));
        }
    }

    /// Changing panes without touching what they show or how they are named
    /// keeps the editor well-formed.
    pub proof fn lemma_same_panes_wf(self, tree: TreeModel)
        requires
            self.wf(),
            tree.panes.len() == self.tree.panes.len(),
            tree.next_view == self.tree.next_view,
            forall|i: int|
                0 <= i < tree.panes.len() ==> (#[trigger] tree.panes[i]).id == self.tree.panes[i].id
                    && tree.panes[i].doc == self.tree.panes[i].doc,
            tree.focus == self.tree.focus || tree.contains(tree.focus),
        ensures
            self.with_tree(tree).wf(),
    {
        let r = self.with_tree(tree);
        let same = TreeModel { focus: self.tree.focus, ..tree };
        lemma_same_ids(self.tree, same);
        if tree.panes.len() > 0 && tree.focus == self.tree.focus {
            assert(tree.panes[same.index_of(tree.focus)].id == tree.focus);
        }
        assert forall|i: int| 0 <= i < r.tree.panes.len() implies r.bound(
            #[trigger] r.tree.panes[i],
        ) by {
            assert(self.bound(self.tree.panes[i]));
        }
    }

    /// Binding a registered document to a language server keeps the editor
    /// well-formed and the registry as it was but for the binding.
    pub proof fn lemma_launch_wf(self, id: DocumentId, found: Option<usize>)
        requires
            self.wf(),
            self.has_document(id),
        ensures
            self.launch(id, found).wf(),
            self.launch(id, found).tree == self.tree,
            self.launch(id, found).next_document_id == self.next_document_id,
            forall|x: DocumentId| self.has_document(x) <==> self.launch(id, found).has_document(x),
    {
        let d = self.doc_index(id);
        let (doc, sent) = launched(self.documents[d], found);
        self.lemma_with_document_wf(d, doc);
        self.lemma_with_document(d, doc);
        self.with_document(d, doc).lemma_same_state_wf(self.launch(id, found));
    }

    /// Two places that both are the first with a path are one place.
    pub proof fn lemma_path_index(self, path: Seq<char>, i: int)
        requires
            self.is_path_index(path, i),
        ensures
            self.has_path(path),
            self.path_index(path) == i,
    {
        let j = self.path_index(path);
        assert(self.is_path_index(path, j));
        if i < j {
            assert(self.documents[i].path != Some(path));
        } else if j < i {
            assert(self.documents[j].path != Some(path));
        }
    }

    /// If the document at place `k` has the path, some document at or
    /// before `k` is the first to have it.
    pub proof fn lemma_path_index_upto(self, path: Seq<char>, k: int)
        requires
            0 <= k < self.documents.len(),
            self.documents[k].path == Some(path),
        ensures
            exists|i: int| 0 <= i <= k && self.is_path_index(path, i),
        decreases k,
    {
        if forall|j: int| 0 <= j < k ==> (#[trigger] self.documents[j]).path != Some(path) {
            assert(self.is_path_index(path, k));
        } else {
            let j = choose|j: int| 0 <= j < k && (#[trigger] self.documents[j]).path == Some(path);
            self.lemma_path_index_upto(path, j);
        }
    }

    /// A path that some document has is found at a first place, under a
    /// registered identifier.
    pub proof fn lemma_has_path(self, path: Seq<char>)
        requires
            self.has_path(path),
        ensures
            self.is_path_index(path, self.path_index(path)),
            self.has_document(self.opened_id(path)),
            self.document_by_path(path) is Some,
    {
        let k = choose|i: int|
            0 <= i < self.documents.len() && (#[trigger] self.documents[i]).path == Some(path);
        self.lemma_path_index_upto(path, k);
        let i = self.path_index(path);
        assert(self.documents[i].id == self.opened_id(path));
    }

    /// Opening a path keeps the editor well-formed.
    pub proof fn lemma_open_wf(
        self,
        path: Seq<char>,
        action: Action,
        loaded: Option<DocumentModel>,
        found: Option<usize>,
    )
        requires
            self.wf(),
            self.can_mint(),
            self.admits(action),
        ensures
            self.open(path, action, loaded, found).wf(),
            self.open(path, action, loaded, found).next_document_id.0 >= self.next_document_id.0,
            self.open_error(path, loaded) is None ==> self.open(
                path,
                action,
                loaded,
                found,
            ).has_document(self.opened_id(path)),
    {
        if self.has_path(path) {
            self.lemma_has_path(path);
            self.lemma_switch_wf(self.opened_id(path), action);
        } else {
            match loaded {
                None => {},
                Some(doc) => {
                    let (doc, sent) = launched(DocumentModel { path: Some(path), ..doc }, found);
                    let a = self.with_sent(sent);
                    self.lemma_same_state_wf(a);
                    a.lemma_register(doc);
                    let b = a.register(doc);
                    assert(b.wf()) by {
                        assert forall|i: int| 0 <= i < b.tree.panes.len() implies b.bound(
                            #[trigger] b.tree.panes[i],
                        ) by {
                            assert(a.bound(a.tree.panes[i]));
                        }
                    }
                    b.lemma_switch_wf(self.next_document_id, action);
                },
            }
        }
    }

    /// Moving the focus keeps the editor well-formed.
    pub proof fn lemma_moved_wf(self, motion: Motion)
        requires
            self.wf(),
        ensures
            self.moved(motion).wf(),
            self.moved(motion).tree.panes == self.tree.panes,
            self.moved(motion).documents == self.documents,
    {
        let r = self.moved(motion);
        if !self.tree.is_empty() {
            let i = self.tree.index_of(self.tree.focus);
            let n = self.tree.panes.len() as int;
            // wherever the focus goes, it goes to a pane of the tree
            assert(self.tree.contains(self.tree.panes[if i + 1 == n { 0 } else { i + 1 }].id));
            if i >= 1 {
                assert(self.tree.contains(self.tree.panes[i - 1].id));
            }
        }
        self.lemma_same_panes_wf(r.tree);
    }

    /// Registering a document keeps the editor well-formed.
    pub proof fn lemma_register_wf(self, doc: DocumentModel)
        requires
            self.wf(),
            self.next_document_id.0 < usize::MAX,
        ensures
            self.register(doc).wf(),
    {
        let r = self.register(doc);
        self.lemma_register(doc);
        assert forall|i: int| 0 <= i < r.tree.panes.len() implies r.bound(
            #[trigger] r.tree.panes[i],
        ) by {
            assert(self.bound(self.tree.panes[i]));
        }
    }

    /// The document that opening a path shows is the oldest that has the path.
    pub proof fn lemma_opened_id_is_least(self, path: Seq<char>)
        requires
            self.registry_wf(),
            self.has_path(path),
        ensures
            self.has_document(self.opened_id(path)),
            self.document(self.opened_id(path)).path == Some(path),
            forall|y: DocumentId|
                self.has_document(y) && self.document(y).path == Some(path) ==> self.opened_id(
                    path,
                ).0 <= y.0,
    {
        self.lemma_has_path(path);
        let i = self.path_index(path);
        self.lemma_doc_index(self.documents[i].id, i);
        assert forall|y: DocumentId|
            self.has_document(y) && self.document(y).path == Some(path) implies self.opened_id(
            path,
        ).0 <= y.0 by {
            let j = self.doc_index(y);
            if j < i {
                assert(self.documents[j].path != Some(path));
            }
        }
    }

    /// The oldest document that has a path is the one that opening the path shows.
    pub proof fn lemma_least_is_opened_id(self, path: Seq<char>, x: DocumentId)
        requires
            self.registry_wf(),
            self.has_document(x),
            self.document(x).path == Some(path),
            forall|y: DocumentId|
                self.has_document(y) && self.document(y).path == Some(path) ==> x.0 <= y.0,
        ensures
            self.has_path(path),
            self.opened_id(path) == x,
    {
        let i = self.doc_index(x);
        assert forall|j: int| 0 <= j < i implies (#[trigger] self.documents[j]).path != Some(
            path,
        ) by {
            if self.documents[j].path == Some(path) {
                self.lemma_doc_index(self.documents[j].id, j);
                assert(self.documents[j].id.0 < self.documents[i].id.0);
            }
        }
        assert(self.is_path_index(path, i));
        self.lemma_path_index(path, i);
    }

    /// Bringing a document into view changes no document's path, and drops
    /// no document that has one.
    pub proof fn lemma_switch_paths(self, id: DocumentId, action: Action)
        requires
            self.wf(),
            self.has_document(id) ==> self.admits(action),
        ensures
            forall|x: DocumentId|
                self.switch(id, action).has_document(x) ==> self.has_document(x) && self.switch(
                    id,
                    action,
                ).document(x).path == self.document(x).path,
            forall|x: DocumentId|
                self.has_document(x) && self.document(x).path is Some ==> self.switch(
                    id,
                    action,
                ).has_document(x),
    {
        if self.has_document(id) {
            let d = self.doc_index(id);
            match action {
                Action::Load => {
                    let doc = self.documents[d].with_selection(
                        self.tree.focus,
                        Selection::spec_start(),
                    );
                    self.lemma_with_document(d, doc);
                },
                Action::Replace => {
                    let a = self.leave(id);
                    let pane = self.tree.focused();
                    let fi = self.tree.index_of(self.tree.focus);
                    assert(self.bound(self.tree.panes[fi]));
                    self.lemma_leave(id);
                    if self.discards_on_replace(id) {
                        self.lemma_unregister(pane.doc);
                    }
                    let b = a.bind(self.tree.focus, id);
                    let ad = a.doc_index(id);
                    a.lemma_with_document(ad, a.documents[ad].seeded(self.tree.focus));
                    a.lemma_bind(self.tree.focus, id);
                    b.lemma_refresh_wf();
                    let r = b.refresh();
                    assert forall|x: DocumentId| r.has_document(x) implies self.has_document(x)
                        && r.document(x).path == self.document(x).path by {
                        assert(b.has_document(x));
                        assert(a.has_document(x));
                        if x == id {
                            assert(b.document(x) == a.documents[ad].seeded(self.tree.focus));
                        } else {
                            assert(b.document(x) == a.document(x));
                        }
                    }
                    assert forall|x: DocumentId|
                        self.has_document(x) && self.document(x).path is Some implies r.has_document(
                        x,
                    ) by {
                        assert(a.has_document(x));
                        assert(b.has_document(x));
                    }
                },
                Action::HorizontalSplit => {
                    self.lemma_split_paths(id, Layout::Horizontal);
                },
                Action::VerticalSplit => {
                    self.lemma_split_paths(id, Layout::Vertical);
                },
            }
        }
    }

    /// Attaching a pane changes no document's path and drops no document.
    pub proof fn lemma_split_paths(self, id: DocumentId, layout: Layout)
        requires
            self.wf(),
            self.has_document(id),
            self.tree.can_mint(),
        ensures
            forall|x: DocumentId|
                self.split(id, layout).refresh().has_document(x) ==> self.has_document(x)
                    && self.split(id, layout).refresh().document(x).path == self.document(x).path,
            forall|x: DocumentId|
                self.has_document(x) ==> self.split(id, layout).refresh().has_document(x),
    {
        let d = self.doc_index(id);
        let doc = self.documents[d].with_selection(
            ViewId(self.tree.next_view),
            Selection::spec_start(),
        );
        self.lemma_with_document(d, doc);
        self.lemma_split_wf(id, layout);
        let s = self.split(id, layout);
        s.lemma_refresh_wf();
        lemma_same_doc_ids(self.with_document(d, doc), s);
        assert forall|x: DocumentId| s.refresh().has_document(x) implies self.has_document(x)
            && s.refresh().document(x).path == self.document(x).path by {
            assert(s.has_document(x));
            assert(s.refresh().document(x) == s.document(x));
            assert(s.document(x) == self.with_document(d, doc).document(x));
        }
    }
}

} // verus!
