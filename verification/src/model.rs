//! The editor as a mathematical value, and what each operation makes of it.

use crate::config::Config;
use crate::document::{DocumentId, DocumentModel};
use crate::editor::{Action, IdleTimer, Motion, Severity};
use crate::error::{CloseErrorModel, OpenError};
use crate::graphics::Rect;
use crate::language::{launched, NotificationModel};
use crate::pane::{Layout, PaneModel, ViewId};
use crate::selection::Selection;
use crate::theme::Theme;
use crate::tree::TreeModel;
use vstd::prelude::*;

verus! {

/// The mathematical value of an `Editor`.
#[verifier::ext_equal]
pub struct EditorModel {
    pub tree: TreeModel,
    /// The identifier that the next document will get.
    pub next_document_id: DocumentId,
    /// The registered documents, in the order of their identifiers.
    pub documents: Seq<DocumentModel>,
    pub count: Option<usize>,
    pub selected_register: Option<char>,
    pub theme: Theme,
    pub status_msg: Option<(Seq<char>, Severity)>,
    pub config: Config,
    pub idle_timer: IdleTimer,
    pub last_motion: Option<Motion>,
    pub exit_code: i32,
    /// What language servers have to be told, oldest first.
    pub outbox: Seq<NotificationModel>,
}

impl EditorModel {
    // ----- the registry -----
    /// True if a document is registered under `id`.
    pub open spec fn has_document(self, id: DocumentId) -> bool {
        exists|i: int| 0 <= i < self.documents.len() && (#[trigger] self.documents[i]).id == id
    }

    /// The place of document `id` in the registry.
    pub open spec fn doc_index(self, id: DocumentId) -> int
        recommends
            self.has_document(id),
    {
        choose|i: int| 0 <= i < self.documents.len() && (#[trigger] self.documents[i]).id == id
    }

    /// The document registered under `id`.
    pub open spec fn document(self, id: DocumentId) -> DocumentModel
        recommends
            self.has_document(id),
    {
        self.documents[self.doc_index(id)]
    }

    /// True if `i` is the place of the first document whose path is `path`.
    pub open spec fn is_path_index(self, path: Seq<char>, i: int) -> bool {
        &&& 0 <= i < self.documents.len()
        &&& self.documents[i].path == Some(path)
        &&& forall|j: int| 0 <= j < i ==> (#[trigger] self.documents[j]).path != Some(path)
    }

    /// True if some document has the path `path`.
    pub open spec fn has_path(self, path: Seq<char>) -> bool {
        exists|i: int| 0 <= i < self.documents.len() && (#[trigger] self.documents[i]).path == Some(path)
    }

    /// The place of the first document whose path is `path`.
    pub open spec fn path_index(self, path: Seq<char>) -> int
        recommends
            self.has_path(path),
    {
        choose|i: int| self.is_path_index(path, i)
    }

    /// The first document whose path is `path`, if there is one.
    pub open spec fn document_by_path(self, path: Seq<char>) -> Option<DocumentModel> {
        if self.has_path(path) {
            Some(self.documents[self.path_index(path)])
        } else {
            None
        }
    }

    /// The invariant of the registry: identifiers are positive, older than
    /// the next to be handed out, and strictly increasing along the registry.
    pub open spec fn registry_wf(self) -> bool {
        &&& self.next_document_id.0 >= 1
        &&& forall|i: int|
            0 <= i < self.documents.len() ==> 1 <= (#[trigger] self.documents[i]).id.0
                < self.next_document_id.0
        &&& forall|i: int, j: int|
            0 <= i < j < self.documents.len() ==> (#[trigger] self.documents[i]).id.0 < (
            #[trigger] self.documents[j]).id.0
    }

    /// True if `pane` shows a registered document in which it has a selection.
    pub open spec fn bound(self, pane: PaneModel) -> bool {
        self.has_document(pane.doc) && self.document(pane.doc).has_selection(pane.id)
    }

    /// The invariant of the editor: tree and registry are well-formed, and
    /// every pane shows a registered document in which it has a selection.
    pub open spec fn wf(self) -> bool {
        &&& self.tree.wf()
        &&& self.registry_wf()
        &&& forall|i: int|
            0 <= i < self.tree.panes.len() ==> self.bound(#[trigger] self.tree.panes[i])
    }

    /// The invariant but for pane `view`, which may be left without a
    /// document while it changes from one to another.
    pub open spec fn wf_except(self, view: ViewId) -> bool {
        &&& self.tree.wf()
        &&& self.registry_wf()
        &&& forall|i: int|
            0 <= i < self.tree.panes.len() ==> (#[trigger] self.tree.panes[i]).id == view
                || self.bound(self.tree.panes[i])
    }

    /// True if the editor can register a document and attach a pane without
    /// running out of identifiers.
    pub open spec fn can_mint(self) -> bool {
        self.next_document_id.0 < usize::MAX && self.tree.can_mint()
    }

    pub open spec fn with_tree(self, tree: TreeModel) -> EditorModel {
        EditorModel { tree, ..self }
    }

    pub open spec fn with_documents(self, documents: Seq<DocumentModel>) -> EditorModel {
        EditorModel { documents, ..self }
    }

    /// The editor with the document at place `index` replaced.
    pub open spec fn with_document(self, index: int, doc: DocumentModel) -> EditorModel {
        EditorModel { documents: self.documents.update(index, doc), ..self }
    }

    /// The editor with the pane at place `index` replaced.
    pub open spec fn with_pane(self, index: int, pane: PaneModel) -> EditorModel {
        EditorModel { tree: self.tree.with_pane(index, pane), ..self }
    }

    /// The editor after `sent` was put into the outbox.
    pub open spec fn with_sent(self, sent: Seq<NotificationModel>) -> EditorModel {
        EditorModel { outbox: self.outbox + sent, ..self }
    }

    /// The editor after `doc` was registered under the next identifier.
    pub open spec fn register(self, doc: DocumentModel) -> EditorModel {
        EditorModel {
            documents: self.documents.push(DocumentModel { id: self.next_document_id, ..doc }),
            next_document_id: DocumentId((self.next_document_id.0 + 1) as usize),
            ..self
        }
    }

    /// The editor without document `id` in its registry.
    pub open spec fn unregister(self, id: DocumentId) -> EditorModel {
        if self.has_document(id) {
            self.with_documents(self.documents.remove(self.doc_index(id)))
        } else {
            self
        }
    }

    // ----- scrolling -----
    /// `pane` after it has scrolled to show its cursor.
    pub open spec fn refreshed(self, pane: PaneModel) -> PaneModel {
        pane.scrolled(self.document(pane.doc).cursor(pane.id), self.config.scrolloff)
    }

    /// The editor after every pane has scrolled to show its cursor.
    pub open spec fn refresh(self) -> EditorModel {
        self.with_tree(
            TreeModel {
                panes: Seq::new(
                    self.tree.panes.len(),
                    |i: int| self.refreshed(self.tree.panes[i]),
                ),
                ..self.tree
            },
        )
    }

    // ----- binding documents to panes -----
    /// True if a pane other than `except` shows document `doc`.
    pub open spec fn shown_elsewhere(self, doc: DocumentId, except: ViewId) -> bool {
        exists|i: int|
            0 <= i < self.tree.panes.len() && (#[trigger] self.tree.panes[i]).doc == doc
                && self.tree.panes[i].id != except
    }

    /// True if replacing the focused pane's document by `incoming` drops the
    /// document that the pane leaves: it is an empty scratch document, it is
    /// not `incoming` itself, and no other pane shows it.
    pub open spec fn discards_on_replace(self, incoming: DocumentId) -> bool {
        let pane = self.tree.focused();
        &&& self.document(pane.doc).is_empty_scratch()
        &&& incoming != pane.doc
        &&& !self.shown_elsewhere(pane.doc, pane.id)
    }

    /// The editor after the focused pane has let go of its document for
    /// `incoming`: the document is dropped if `discards_on_replace` says so,
    /// otherwise the pane notes where it was.
    pub open spec fn leave(self, incoming: DocumentId) -> EditorModel {
        let pane = self.tree.focused();
        if self.discards_on_replace(incoming) {
            self.unregister(pane.doc)
        } else {
            self.with_pane(
                self.tree.index_of(pane.id),
                pane.with_jump(pane.doc, self.document(pane.doc).selection(pane.id)),
            )
        }
    }

    /// The editor after pane `view` was made to show document `doc`: the
    /// document has a selection for the pane, seeded at the start of the
    /// buffer if it had none, and the pane shows the cursor's line in its
    /// middle, from the first column.
    pub open spec fn bind(self, view: ViewId, doc: DocumentId) -> EditorModel {
        let d = self.doc_index(doc);
        let target = self.documents[d].seeded(view);
        EditorModel {
            documents: self.documents.update(d, target),
            tree: self.tree.with_pane(
                self.tree.index_of(view),
                self.tree.get(view).bound_to(doc, target.cursor(view).row),
            ),
            ..self
        }
    }

    /// The editor after the focused pane swapped its document for `id`.
    pub open spec fn replace(self, id: DocumentId) -> EditorModel {
        self.leave(id).bind(self.tree.focus, id)
    }

    /// The editor after document `id` was loaded in the background: if no
    /// pane has a selection in it, the focused pane gets one at the start.
    pub open spec fn load(self, id: DocumentId) -> EditorModel {
        let d = self.doc_index(id);
        if self.documents[d].selections.is_empty() {
            self.with_document(
                d,
                self.documents[d].with_selection(self.tree.focus, Selection::spec_start()),
            )
        } else {
            self
        }
    }

    /// The editor after a new pane for document `id` was attached behind the
    /// focused one, with a selection of its own at the start of the buffer.
    pub open spec fn split(self, id: DocumentId, layout: Layout) -> EditorModel {
        let d = self.doc_index(id);
        EditorModel {
            tree: self.tree.attach(PaneModel::fresh(id), layout),
            documents: self.documents.update(
                d,
                self.documents[d].with_selection(
                    ViewId(self.tree.next_view),
                    Selection::spec_start(),
                ),
            ),
            ..self
        }
    }

    /// True if `action` can be carried out: loading and replacing need a
    /// focused pane, splitting needs an identifier for the new pane.
    pub open spec fn admits(self, action: Action) -> bool {
        match action {
            Action::Load | Action::Replace => !self.tree.is_empty(),
            Action::HorizontalSplit | Action::VerticalSplit => self.tree.can_mint(),
        }
    }

    /// The editor after `action` has brought document `id` into view.
    /// Nothing changes if no document is registered under `id`. Every
    /// action but `Load` ends with all panes scrolled to their cursors.
    pub open spec fn switch(self, id: DocumentId, action: Action) -> EditorModel {
        if !self.has_document(id) {
            self
        } else {
            match action {
                Action::Load => self.load(id),
                Action::Replace => self.replace(id).refresh(),
                Action::HorizontalSplit => self.split(id, Layout::Horizontal).refresh(),
                Action::VerticalSplit => self.split(id, Layout::Vertical).refresh(),
            }
        }
    }

    /// The editor after `doc` was registered and brought into view by
    /// `action`.
    pub open spec fn new_file_from_document(self, action: Action, doc: DocumentModel) -> EditorModel {
        self.register(doc).switch(self.next_document_id, action)
    }

    // ----- closing -----
    /// The editor after pane `view` was closed: its selection in the document
    /// it showed is forgotten, the pane is gone, and the panes that are left
    /// have scrolled to their cursors.
    pub open spec fn close(self, view: ViewId) -> EditorModel {
        self.unbind(view).refresh()
    }

    /// The editor after pane `view` left the tree and its selection left the
    /// document that the pane showed.
    pub open spec fn unbind(self, view: ViewId) -> EditorModel {
        let d = self.doc_index(self.tree.get(view).doc);
        EditorModel {
            documents: self.documents.update(d, self.documents[d].without_selection(view)),
            tree: self.tree.remove(view),
            ..self
        }
    }

    /// True if some pane shows document `doc`.
    pub open spec fn has_viewer(self, doc: DocumentId) -> bool {
        exists|i: int| 0 <= i < self.tree.panes.len() && (#[trigger] self.tree.panes[i]).doc == doc
    }

    /// True if `i` is the place of the first pane that shows document `doc`.
    pub open spec fn is_viewer_index(self, doc: DocumentId, i: int) -> bool {
        &&& 0 <= i < self.tree.panes.len()
        &&& self.tree.panes[i].doc == doc
        &&& forall|j: int| 0 <= j < i ==> (#[trigger] self.tree.panes[j]).doc != doc
    }

    /// The place of the first pane that shows document `doc`.
    pub open spec fn viewer_index(self, doc: DocumentId) -> int
        recommends
            self.has_viewer(doc),
    {
        choose|i: int| self.is_viewer_index(doc, i)
    }

    /// The first pane that shows document `doc`.
    pub open spec fn first_viewer(self, doc: DocumentId) -> ViewId
        recommends
            self.has_viewer(doc),
    {
        self.tree.panes[self.viewer_index(doc)].id
    }

    /// If the pane at place `k` shows `doc`, some pane at or before `k` is
    /// the first to show it.
    pub proof fn lemma_first_viewer_upto(self, doc: DocumentId, k: int)
        requires
            0 <= k < self.tree.panes.len(),
            self.tree.panes[k].doc == doc,
        ensures
            exists|i: int| 0 <= i <= k && self.is_viewer_index(doc, i),
        decreases k,
    {
        if forall|j: int| 0 <= j < k ==> (#[trigger] self.tree.panes[j]).doc != doc {
            assert(self.is_viewer_index(doc, k));
        } else {
            let j = choose|j: int| 0 <= j < k && (#[trigger] self.tree.panes[j]).doc == doc;
            self.lemma_first_viewer_upto(doc, j);
        }
    }

    /// A document that some pane shows has a first pane that shows it.
    pub proof fn lemma_first_viewer(self, doc: DocumentId)
        requires
            self.has_viewer(doc),
        ensures
            self.is_viewer_index(doc, self.viewer_index(doc)),
            self.tree.contains(self.first_viewer(doc)),
    {
        let k = choose|i: int|
            0 <= i < self.tree.panes.len() && (#[trigger] self.tree.panes[i]).doc == doc;
        self.lemma_first_viewer_upto(doc, k);
    }

    /// The editor after every pane that shows document `doc` was closed, the
    /// first such pane first.
    pub open spec fn close_viewers(self, doc: DocumentId) -> EditorModel
        decreases self.tree.panes.len(),
        via Self::close_viewers_decreases
    {
        if self.has_viewer(doc) {
            self.close(self.first_viewer(doc)).close_viewers(doc)
        } else {
            self
        }
    }

    #[via_fn]
    proof fn close_viewers_decreases(self, doc: DocumentId) {
        if self.has_viewer(doc) {
            self.lemma_first_viewer(doc);
            let v = self.first_viewer(doc);
            let removed = self.tree.remove(v);
            assert(removed.panes.len() == self.tree.panes.len() - 1);
            assert(self.close(v).tree.panes.len() == removed.panes.len());
        }
    }

    /// Why document `id` cannot be closed, if it cannot: it is not
    /// registered, or it has unsaved changes and `force` is not set.
    pub open spec fn close_error(self, id: DocumentId, force: bool) -> Option<CloseErrorModel> {
        if !self.has_document(id) {
            Some(CloseErrorModel::NotFound)
        } else if !force && self.document(id).modified {
            Some(CloseErrorModel::Modified(self.document(id).display_name()))
        } else {
            None
        }
    }

    /// The editor after the server of document `id`, if it has one, was told
    /// that the document is gone.
    pub open spec fn notify_close(self, id: DocumentId) -> EditorModel {
        match self.document(id).language_server {
            Some(server) => self.with_sent(
                seq![NotificationModel::DidClose { server, path: self.document(id).path }],
            ),
            None => self,
        }
    }

    /// The editor with a pane, if it had none: the pane shows the oldest
    /// document, or a new scratch document if none is registered.
    pub open spec fn with_fallback_view(self) -> EditorModel {
        if !self.tree.is_empty() {
            self
        } else {
            let e = if self.documents.len() > 0 {
                self
            } else {
                self.register(DocumentModel::scratch())
            };
            e.split(e.documents[0].id, Layout::Vertical)
        }
    }

    /// The editor after document `id` was closed: its server is told, its
    /// panes are closed, it leaves the registry, a pane is made if none is
    /// left, and all panes have scrolled to their cursors.
    pub open spec fn close_document(self, id: DocumentId) -> EditorModel {
        self.notify_close(id).close_viewers(id).unregister(id).with_fallback_view().refresh()
    }

    // ----- language servers -----
    /// The editor after document `id` was bound to the server `found` for its
    /// language.
    pub open spec fn launch(self, id: DocumentId, found: Option<usize>) -> EditorModel {
        let d = self.doc_index(id);
        let (doc, sent) = launched(self.documents[d], found);
        self.with_document(d, doc).with_sent(sent)
    }

    /// The editor after the language of document `id` was detected anew as
    /// `language` and the server `found` for it. Nothing changes if no
    /// document is registered under `id`.
    pub open spec fn refresh_language_server(
        self,
        id: DocumentId,
        language: Option<Seq<char>>,
        found: Option<usize>,
    ) -> EditorModel {
        if !self.has_document(id) {
            self
        } else {
            let d = self.doc_index(id);
            self.with_document(d, DocumentModel { language, ..self.documents[d] }).launch(
                id,
                found,
            )
        }
    }

    // ----- opening -----
    /// Why `path` cannot be opened, if it cannot: no document holds it and
    /// none could be made of the file.
    pub open spec fn open_error(self, path: Seq<char>, loaded: Option<DocumentModel>) -> Option<
        OpenError,
    > {
        if !self.has_path(path) && loaded is None {
            Some(OpenError::Unreadable)
        } else {
            None
        }
    }

    /// The document that opening `path` shows: the first that holds the
    /// path, or else the one that is registered for it.
    pub open spec fn opened_id(self, path: Seq<char>) -> DocumentId {
        if self.has_path(path) {
            self.documents[self.path_index(path)].id
        } else {
            self.next_document_id
        }
    }

    /// The editor after `path` was opened with `action`. A document that
    /// holds the path is brought into view. Otherwise `loaded`, what was made
    /// of the file, is given the path, bound to the server `found` for its
    /// language, registered and brought into view; without it nothing changes.
    pub open spec fn open(
        self,
        path: Seq<char>,
        action: Action,
        loaded: Option<DocumentModel>,
        found: Option<usize>,
    ) -> EditorModel {
        if self.has_path(path) {
            self.switch(self.opened_id(path), action)
        } else {
            match loaded {
                None => self,
                Some(doc) => {
                    let (doc, sent) = launched(DocumentModel { path: Some(path), ..doc }, found);
                    self.with_sent(sent).register(doc).switch(self.next_document_id, action)
                },
            }
        }
    }

    // ----- the rest -----
    /// The editor with a status message.
    pub open spec fn with_status(self, status_msg: Option<(Seq<char>, Severity)>) -> EditorModel {
        EditorModel { status_msg, ..self }
    }

    /// The editor with its idle timer set to fire at `deadline`.
    pub open spec fn with_deadline(self, deadline: u64) -> EditorModel {
        EditorModel { idle_timer: IdleTimer { deadline }, ..self }
    }

    /// The editor after its idle timer was started anew at the instant `now`:
    /// it fires when the configured idle timeout has passed.
    pub open spec fn reset_idle_timer(self, now: u64) -> EditorModel {
        self.with_deadline(crate::editor::deadline_after(now, self.config.idle_timeout))
    }

    /// The editor after its idle timer was put out of the way at the instant
    /// `now`: it fires thirty years later.
    pub open spec fn clear_idle_timer(self, now: u64) -> EditorModel {
        self.with_deadline(crate::editor::deadline_after(now, crate::editor::FAR_FUTURE_MS))
    }

    /// The editor after `motion` was carried out.
    pub open spec fn moved(self, motion: Motion) -> EditorModel {
        match motion {
            Motion::FocusNext => self.with_tree(self.tree.focus_next()),
            Motion::Focus(direction) => self.with_tree(self.tree.focus_direction(direction)),
        }
    }

    /// The editor after `theme` was offered: a theme that styles the required
    /// scope is taken and all panes scroll to their cursors; any other is
    /// turned down with an error message, and the old theme stays.
    pub open spec fn set_theme(self, theme: Theme) -> EditorModel {
        if theme.is_usable() {
            EditorModel { theme, ..self }.refresh()
        } else {
            self.with_status(Some((crate::theme::INVALID_THEME@, Severity::Error)))
        }
    }

    /// The editor in a new area: if the area differs from the old one, every
    /// pane is given it and scrolls to its cursor.
    pub open spec fn resize(self, area: Rect) -> EditorModel {
        if area == self.tree.area {
            self
        } else {
            self.with_tree(self.tree.resize(area)).refresh()
        }
    }

    /// The editor after pane `view` has scrolled to show its cursor.
    pub open spec fn scroll_pane(self, view: ViewId) -> EditorModel {
        self.with_pane(self.tree.index_of(view), self.refreshed(self.tree.get(view)))
    }

    /// Where the terminal's cursor belongs: at the focused pane's primary
    /// cursor, if the pane shows its line, moved by the pane's corner.
    pub open spec fn cursor(self) -> Option<crate::graphics::Position> {
        let pane = self.tree.focused();
        match pane.screen_coords(self.document(pane.doc).cursor(pane.id)) {
            Some(p) => Some(
                crate::graphics::Position {
                    row: (p.row + pane.area.y) as usize,
                    col: if p.col + pane.area.x > usize::MAX {
                        usize::MAX
                    } else {
                        (p.col + pane.area.x) as usize
                    },
                },
            ),
            None => None,
        }
    }

    /// The editor as it starts: one pane that shows one empty scratch
    /// document, in `area` less the line that is kept for the prompt.
    pub open spec fn initial(area: Rect, theme: Theme, config: Config, now: u64) -> EditorModel {
        EditorModel::empty(
            Rect { height: (area.height - 1) as u16, ..area },
            theme,
            config,
            now,
        ).new_file_from_document(Action::VerticalSplit, DocumentModel::scratch())
    }

    /// An editor without panes and documents.
    pub open spec fn empty(area: Rect, theme: Theme, config: Config, now: u64) -> EditorModel {
        EditorModel {
            tree: TreeModel::empty(area),
            next_document_id: DocumentId(1),
            documents: Seq::empty(),
            count: None,
            selected_register: None,
            theme,
            status_msg: None,
            config,
            idle_timer: IdleTimer { deadline: crate::editor::deadline_after(now, config.idle_timeout) },
            last_motion: None,
            exit_code: 0,
            outbox: Seq::empty(),
        }
    }
}

} // verus!
