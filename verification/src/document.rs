//! Open documents and the identifiers they are registered under.

use crate::pane::ViewId;
use crate::selection::Selection;
use std::collections::HashMap;
use vstd::prelude::*;

verus! {

broadcast use vstd::std_specs::hash::group_hash_axioms;

/// The name shown for a document that has no path.
pub const SCRATCH_BUFFER_NAME: &'static str = "[scratch]";

/// The handle of a registered document: a positive number, handed out once.
#[derive(Clone, Copy, Debug, PartialEq, Eq, Structural, Hash)]
pub struct DocumentId(pub usize);

impl Default for DocumentId {
    /// The first identifier an editor hands out.
    fn default() -> (id: DocumentId)
        ensures
            id == DocumentId(1),
    {
        DocumentId(1)
    }
}

/// An open unit of text with what the editor needs to know about it.
///
/// `selections` is keyed by the number of the pane's `ViewId`. `language` is the
/// scope name of the detected language, `language_server` the number of the
/// server the document is bound to.
#[derive(Debug)]
pub struct Document {
    pub id: DocumentId,
    pub path: Option<String>,
    pub text: String,
    pub modified: bool,
    pub version: i32,
    pub language: Option<String>,
    pub language_server: Option<usize>,
    pub selections: HashMap<usize, Selection>,
}

/// The mathematical value of a `Document`.
#[verifier::ext_equal]
pub struct DocumentModel {
    pub id: DocumentId,
    pub path: Option<Seq<char>>,
    pub text: Seq<char>,
    pub modified: bool,
    pub version: i32,
    pub language: Option<Seq<char>>,
    pub language_server: Option<usize>,
    pub selections: Map<usize, Selection>,
}

/// The characters of an optional string.
pub open spec fn opt_chars(s: Option<String>) -> Option<Seq<char>> {
    match s {
        Some(s) => Some(s@),
        None => None,
    }
}

impl DocumentModel {
    /// An empty document without path or language.
    pub open spec fn scratch() -> DocumentModel {
        DocumentModel {
            id: DocumentId(1),
            path: None,
            text: Seq::empty(),
            modified: false,
            version: 0,
            language: None,
            language_server: None,
            selections: Map::empty(),
        }
    }

    /// True of a document that may be dropped without loss: it has no path
    /// and no unsaved change.
    pub open spec fn is_empty_scratch(self) -> bool {
        !self.modified && self.path is None
    }

    /// True if pane `view` has a selection in this document.
    pub open spec fn has_selection(self, view: ViewId) -> bool {
        self.selections.contains_key(view.0)
    }

    /// The selection of pane `view`.
    pub open spec fn selection(self, view: ViewId) -> Selection
        recommends
            self.has_selection(view),
    {
        self.selections[view.0]
    }

    /// The place of pane `view`'s primary cursor.
    pub open spec fn cursor(self, view: ViewId) -> crate::graphics::Position
        recommends
            self.has_selection(view),
    {
        self.selections[view.0].cursor
    }

    /// The document with `selection` recorded for pane `view`.
    pub open spec fn with_selection(self, view: ViewId, selection: Selection) -> DocumentModel {
        DocumentModel { selections: self.selections.insert(view.0, selection), ..self }
    }

    /// The document with a selection at the start of the buffer for pane
    /// `view`, unless the pane already has one.
    pub open spec fn seeded(self, view: ViewId) -> DocumentModel {
        if self.has_selection(view) {
            self
        } else {
            self.with_selection(view, Selection::spec_start())
        }
    }

    /// The document without a selection for pane `view`.
    pub open spec fn without_selection(self, view: ViewId) -> DocumentModel {
        DocumentModel { selections: self.selections.remove(view.0), ..self }
    }

    /// The name under which the document is reported: its path, or the
    /// scratch label.
    pub open spec fn display_name(self) -> Seq<char> {
        match self.path {
            Some(p) => p,
            None => SCRATCH_BUFFER_NAME@,
        }
    }
}

impl View for Document {
    type V = DocumentModel;

    open spec fn view(&self) -> DocumentModel {
        DocumentModel {
            id: self.id,
            path: opt_chars(self.path),
            text: self.text@,
            modified: self.modified,
            version: self.version,
            language: opt_chars(self.language),
            language_server: self.language_server,
            selections: self.selections@,
        }
    }
}

/// The values of a sequence of documents.
pub open spec fn document_models(docs: Seq<Document>) -> Seq<DocumentModel> {
    docs.map_values(|d: Document| d@)
}

/// The value of an optional document.
pub open spec fn opt_model(doc: Option<Document>) -> Option<DocumentModel> {
    match doc {
        Some(d) => Some(d@),
        None => None,
    }
}

impl Default for Document {
    /// An empty scratch document.
    fn default() -> (doc: Document)
        ensures
            doc@ == DocumentModel::scratch(),
    {
        Document {
            id: DocumentId(1),
            path: None,
            text: String::new(),
            modified: false,
            version: 0,
            language: None,
            language_server: None,
            selections: HashMap::new(),
        }
    }
}

impl Document {
    /// A pathless, unmodified document holding `text`.
    pub fn from_text(text: String) -> (doc: Document)
        ensures
            doc@ == (DocumentModel { text: text@, ..DocumentModel::scratch() }),
    {
        Document {
            id: DocumentId(1),
            path: None,
            text,
            modified: false,
            version: 0,
            language: None,
            language_server: None,
            selections: HashMap::new(),
        }
    }

    /// True if the document has changes that were not saved.
    pub fn is_modified(&self) -> (b: bool)
        ensures
            b == self@.modified,
    {
        self.modified
    }

    /// True if pane `view` has a selection in this document.
    pub fn has_selection(&self, view: ViewId) -> (b: bool)
        ensures
            b == self@.has_selection(view),
    {
        self.selections.contains_key(&view.0)
    }

    /// The selection of pane `view`.
    pub fn selection(&self, view: ViewId) -> (s: Selection)
        requires
            self@.has_selection(view),
        ensures
            s == self@.selection(view),
    {
        match self.selections.get(&view.0) {
            Some(s) => *s,
            None => Selection::start(),
        }
    }

    /// Records `selection` for pane `view`, replacing an earlier one.
    pub fn set_selection(&mut self, view: ViewId, selection: Selection)
        ensures
            final(self)@ == old(self)@.with_selection(view, selection),
    {
        self.selections.insert(view.0, selection);
    }

    /// Gives pane `view` a selection at the start of the buffer unless it has one.
    pub fn seed_selection(&mut self, view: ViewId)
        ensures
            final(self)@ == old(self)@.seeded(view),
    {
        if !self.selections.contains_key(&view.0) {
            self.selections.insert(view.0, Selection::start());
        }
    }

    /// Forgets the selection of pane `view`.
    pub fn remove_selection(&mut self, view: ViewId)
        ensures
            final(self)@ == old(self)@.without_selection(view),
    {
        self.selections.remove(&view.0);
    }

    /// The name under which the document is reported: its path, or the
    /// scratch label.
    pub fn display_name(&self) -> (name: String)
        ensures
            name@ == self@.display_name(),
    {
        match &self.path {
            Some(p) => p.clone(),
            None => SCRATCH_BUFFER_NAME.to_owned(),
        }
    }

    /// True if the document's path is exactly `path`.
    pub fn has_path(&self, path: &str) -> (b: bool)
        ensures
            b == (self@.path == Some(path@)),
    {
        match &self.path {
            Some(p) => p.as_str().to_owned() == path.to_owned(),
            None => false,
        }
    }
}

} // verus!
