//! Opening paths, and keeping documents bound to their language servers.

use crate::document::{opt_chars, opt_model, Document, DocumentId, DocumentModel};
use crate::editor::{Action, Editor};
use crate::error::OpenError;
use crate::language::{launch, launched, notification_models, Notification};
use vstd::prelude::*;

verus! {

impl Editor {
    /// Binds `doc` to the server `found` for its language. Returns what the
    /// servers have to be told: nothing if no server was found or the
    /// document is bound to it already.
    pub fn launch_language_server(doc: &mut Document, found: Option<usize>) -> (sent: Vec<
        Notification,
    >)
        ensures
            (final(doc)@, notification_models(sent@)) == launched(old(doc)@, found),
    {
        launch(doc, found)
    }

    /// Takes note that the language of document `doc_id` was detected anew as
    /// `language`, with `found` the server that is kept for it, and binds the
    /// document to that server. Returns `None`, and changes nothing, if no
    /// document is registered under `doc_id`.
    pub fn refresh_language_server(
        &mut self,
        doc_id: DocumentId,
        language: Option<String>,
        found: Option<usize>,
    ) -> (r: Option<()>)
        requires
            old(self)@.wf(),
        ensures
            r is Some <==> old(self)@.has_document(doc_id),
            final(self)@ == old(self)@.refresh_language_server(doc_id, opt_chars(language), found),
            final(self)@.wf(),
    {
        let d = match self.doc_index(doc_id) {
            Some(d) => d,
            None => {
                return None;
            },
        };
        self.documents[d].language = language;
        let mut sent = launch(&mut self.documents[d], found);
        self.outbox.append(&mut sent);
        proof {
            let e = old(self)@;
            let detected = DocumentModel { language: opt_chars(language), ..e.documents[d as int] };
            let a = e.with_document(d as int, detected);
            e.lemma_with_document_wf(d as int, detected);
            e.lemma_with_document(d as int, detected);
            a.lemma_doc_index(doc_id, d as int);
            a.lemma_launch_wf(doc_id, found);
            assert(self@.documents =~= a.launch(doc_id, found).documents);
            assert(self@.outbox =~= a.launch(doc_id, found).outbox);
        }
        Some(())
    }

    /// The place of the first document whose path is `path`, if there is one.
    pub fn path_index(&self, path: &str) -> (r: Option<usize>)
        ensures
            r is Some <==> self@.has_path(path@),
            r is Some ==> r->0 < self.documents@.len() && self@.path_index(path@) == r->0
                && self@.is_path_index(path@, r->0 as int),
    {
        let mut i: usize = 0;
        while i < self.documents.len()
            invariant
                i <= self.documents.len(),
                forall|j: int| 0 <= j < i ==> (#[trigger] self@.documents[j]).path != Some(path@),
            decreases self.documents.len() - i,
        {
            if self.documents[i].has_path(path) {
                proof {
                    assert(self@.documents[i as int].path == Some(path@));
                    assert(self@.is_path_index(path@, i as int));
                    self@.lemma_path_index(path@, i as int);
                }
                return Some(i);
            }
            i += 1;
        }
        None
    }

    /// The first document whose path is `path`, if there is one.
    pub fn document_by_path(&self, path: &str) -> (r: Option<&Document>)
        ensures
            match r {
                Some(d) => self@.document_by_path(path@) == Some(d@),
                None => self@.document_by_path(path@) is None,
            },
    {
        match self.path_index(path) {
            Some(i) => Some(&self.documents[i]),
            None => None,
        }
    }

    /// The first document whose path is `path`, to be changed, if there is one.
    pub fn document_by_path_mut(&mut self, path: &str) -> (r: Option<&mut Document>)
        ensures
            r is Some <==> old(self)@.has_path(path@),
            r is Some ==> {
                let i = old(self)@.path_index(path@);
                &&& 0 <= i < old(self).documents@.len()
                &&& *r->0 == old(self).documents@[i]
                &&& *final(self) == (Editor {
                    documents: final(self).documents,
                    ..*old(self)
                })
                &&& final(self).documents@ == old(self).documents@.update(i, *final(r->0))
            },
            r is None ==> *final(self) == *old(self),
    {
        match self.path_index(path) {
            Some(i) => Some(&mut self.documents[i]),
            None => None,
        }
    }

    /// Opens `path`, which its caller has made canonical, as `action` says.
    ///
    /// If a document holds the path already, it is brought into view and
    /// `loaded` is dropped. Otherwise `loaded`, the document that was made of
    /// the file, is given the path, bound to `found`, the server kept for its
    /// language, registered and brought into view. Fails, and changes
    /// nothing, if no document holds the path and `loaded` is `None`.
    pub fn open(
        &mut self,
        path: String,
        action: Action,
        loaded: Option<Document>,
        found: Option<usize>,
    ) -> (r: Result<DocumentId, OpenError>)
        requires
            old(self)@.wf(),
            old(self)@.can_mint(),
            old(self)@.admits(action),
        ensures
            match old(self)@.open_error(path@, opt_model(loaded)) {
                Some(e) => r == Err::<DocumentId, OpenError>(e) && final(self)@ == old(self)@,
                None => r == Ok::<DocumentId, OpenError>(old(self)@.opened_id(path@)),
            },
            final(self)@ == old(self)@.open(path@, action, opt_model(loaded), found),
            final(self)@.wf(),
    {
        proof {
            old(self)@.lemma_open_wf(path@, action, opt_model(loaded), found);
        }
        if let Some(i) = self.path_index(path.as_str()) {
            let id = self.documents[i].id;
            proof {
                old(self)@.lemma_has_path(path@);
            }
            self.switch(id, action);
            return Ok(id);
        }
        let mut doc = match loaded {
            Some(doc) => doc,
            None => {
                return Err(OpenError::Unreadable);
            },
        };
        doc.path = Some(path);
        let mut sent = launch(&mut doc, found);
        self.outbox.append(&mut sent);
        proof {
            let e = old(self)@;
            let given = DocumentModel { path: Some(path@), ..loaded->0@ };
            let a = e.with_sent(launched(given, found).1);
            assert(self@.outbox =~= a.outbox);
            assert(self@ == a);
            e.lemma_same_state_wf(a);
        }
        let id = self.new_document(doc);
        self.switch(id, action);
        Ok(id)
    }
}

} // verus!
