//! The editor: the documents that are open and the panes that show them.

pub use crate::config::{Config, FilePickerConfig, LineNumber};
use crate::document::{document_models, Document, DocumentId, DocumentModel};
use crate::error::{ThemeError, ThemeErrorModel};
use crate::graphics::{CursorKind, Position, Rect};
use crate::language::{notification_models, Notification};
use crate::model::EditorModel;
use crate::pane::ViewId;
use crate::theme::{Theme, INVALID_THEME, REQUIRED_SCOPE};
use crate::tree::{Direction, Tree, TreeModel};
use vstd::prelude::*;

verus! {

/// How a document is brought into view.
#[derive(Debug, Copy, Clone, PartialEq, Eq, Structural)]
pub enum Action {
    /// In the background: no pane changes what it shows.
    Load,
    /// In the focused pane, in place of what it shows.
    Replace,
    /// In a new pane below the focused one.
    HorizontalSplit,
    /// In a new pane to the right of the focused one.
    VerticalSplit,
}

/// How grave a status message is.
#[derive(Debug, Copy, Clone, PartialEq, Eq, Structural)]
pub enum Severity {
    Error,
    Warning,
    Info,
    Hint,
}

/// A motion that the editor can carry out again later.
#[derive(Debug, Copy, Clone, PartialEq, Eq, Structural)]
pub enum Motion {
    /// Move the focus to the next pane.
    FocusNext,
    /// Move the focus one pane in a direction.
    Focus(Direction),
}

/// Milliseconds after which a cleared idle timer fires: thirty years.
pub const FAR_FUTURE_MS: u64 = 946_080_000_000;

/// The instant `wait` milliseconds after `now`, or the last instant there is.
pub open spec fn deadline_after(now: u64, wait: u64) -> u64 {
    if now + wait > u64::MAX {
        u64::MAX
    } else {
        (now + wait) as u64
    }
}

/// A deadline that can be moved: the instant, in milliseconds on the clock of
/// whoever polls it, from which on the editor counts as idle.
#[derive(Debug, Copy, Clone, PartialEq, Eq, Structural)]
pub struct IdleTimer {
    pub deadline: u64,
}

impl IdleTimer {
    /// True if the timer has fired by the instant `now`.
    pub open spec fn spec_expired(&self, now: u64) -> bool {
        now >= self.deadline
    }

    /// A timer that fires `wait` milliseconds after `now`.
    pub fn after(now: u64, wait: u64) -> (timer: IdleTimer)
        ensures
            timer.deadline == deadline_after(now, wait),
    {
        if now > u64::MAX - wait {
            IdleTimer { deadline: u64::MAX }
        } else {
            IdleTimer { deadline: now + wait }
        }
    }

    /// True if the timer has fired by the instant `now`.
    #[verifier::when_used_as_spec(spec_expired)]
    pub fn expired(&self, now: u64) -> (b: bool)
        ensures
            b == self.spec_expired(now),
    {
        now >= self.deadline
    }
}

/// The editor.
#[derive(Debug)]
pub struct Editor {
    pub tree: Tree,
    pub next_document_id: DocumentId,
    /// The registered documents, in the order of their identifiers.
    pub documents: Vec<Document>,
    pub count: Option<usize>,
    pub selected_register: Option<char>,
    pub theme: Theme,
    pub status_msg: Option<(String, Severity)>,
    pub config: Config,
    pub idle_timer: IdleTimer,
    pub last_motion: Option<Motion>,
    pub exit_code: i32,
    /// What language servers have to be told, oldest first.
    pub outbox: Vec<Notification>,
}

/// The characters of an optional status message.
pub open spec fn status_chars(s: Option<(String, Severity)>) -> Option<(Seq<char>, Severity)> {
    match s {
        Some((text, severity)) => Some((text@, severity)),
        None => None,
    }
}

impl View for Editor {
    type V = EditorModel;

    open spec fn view(&self) -> EditorModel {
        EditorModel {
            tree: self.tree@,
            next_document_id: self.next_document_id,
            documents: document_models(self.documents@),
            count: self.count,
            selected_register: self.selected_register,
            theme: self.theme,
            status_msg: status_chars(self.status_msg),
            config: self.config,
            idle_timer: self.idle_timer,
            last_motion: self.last_motion,
            exit_code: self.exit_code,
            outbox: notification_models(self.outbox@),
        }
    }
}

impl Editor {
    /// The place of document `id` in the registry, if it is registered.
    pub fn doc_index(&self, id: DocumentId) -> (r: Option<usize>)
        ensures
            r is Some <==> self@.has_document(id),
            match r {
                Some(i) => i < self.documents@.len() && self.documents@[i as int].id == id && (
                self@.registry_wf() ==> self@.doc_index(id) == i),
                None => true,
            },
    {
        let mut i: usize = 0;
        while i < self.documents.len()
            invariant
                i <= self.documents.len(),
                forall|j: int| 0 <= j < i ==> (#[trigger] self@.documents[j]).id != id,
            decreases self.documents.len() - i,
        {
            if self.documents[i].id == id {
                proof {
                    assert(self@.documents[i as int].id == id);
                    if self@.registry_wf() {
                        self@.lemma_doc_index(id, i as int);
                    }
                }
                return Some(i);
            }
            i += 1;
        }
        None
    }

    /// Scrolls every pane to show its cursor.
    pub fn _refresh(&mut self)
        requires
            old(self)@.wf(),
        ensures
            final(self)@ == old(self)@.refresh(),
            final(self)@.wf(),
    {
        let n = self.tree.len();
        let mut i: usize = 0;
        while i < n
            invariant
                i <= n,
                n == old(self)@.tree.panes.len(),
                old(self)@.wf(),
                self@ == old(self)@.with_tree(self@.tree),
                self@.tree == (TreeModel { panes: self@.tree.panes, ..old(self)@.tree }),
                self@.tree.panes.len() == n,
                forall|j: int|
                    0 <= j < i ==> #[trigger] self@.tree.panes[j] == old(self)@.refreshed(
                        old(self)@.tree.panes[j],
                    ),
                forall|j: int| i <= j < n ==> #[trigger] self@.tree.panes[j] == old(self)@.tree.panes[j],
            decreases n - i,
        {
            let pane = self.tree.pane(i);
            let view = pane.id;
            let doc = pane.doc;
            assert(old(self)@.bound(old(self)@.tree.panes[i as int]));
            let d = self.doc_index(doc).unwrap();
            let cursor = self.documents[d].selection(view).cursor;
            let scrolloff = self.config.scrolloff;
            let pane = self.tree.pane_mut(i);
            pane.ensure_cursor_in_view(cursor, scrolloff);
            i += 1;
        }
        proof {
            assert(self@.tree.panes =~= old(self)@.refresh().tree.panes);
            old(self)@.lemma_refresh_wf();
        }
    }

    /// An editor that shows one empty scratch document in one pane.
    ///
    /// The pane gets `area` less its last line, which is kept for the
    /// prompt. `theme` is the theme to start with, and `now` the instant from
    /// which the idle timer counts.
    pub fn new(area: Rect, theme: Theme, config: Config, now: u64) -> (editor: Editor)
        requires
            area.height >= 1,
        ensures
            editor@ == EditorModel::initial(area, theme, config, now),
            editor@.wf(),
            !editor@.tree.is_empty(),
    {
        let mut area = area;
        area.height = area.height - 1;
        let idle_timer = IdleTimer::after(now, config.idle_timeout);
        let mut editor = Editor {
            tree: Tree::new(area),
            next_document_id: DocumentId(1),
            documents: Vec::new(),
            count: None,
            selected_register: None,
            theme,
            status_msg: None,
            config,
            idle_timer,
            last_motion: None,
            exit_code: 0,
            outbox: Vec::new(),
        };
        proof {
            let e = EditorModel::empty(area, theme, config, now);
            assert(editor@.documents =~= e.documents);
            assert(editor@.outbox =~= e.outbox);
            assert(editor@ == e);
            e.lemma_register(DocumentModel::scratch());
            e.register(DocumentModel::scratch()).lemma_switch_wf(
                DocumentId(1),
                Action::VerticalSplit,
            );
        }
        let _ = editor.new_file(Action::VerticalSplit);
        editor
    }

    /// Puts the idle timer out of the way: it will not fire for thirty years
    /// from `now`.
    pub fn clear_idle_timer(&mut self, now: u64)
        ensures
            final(self)@ == old(self)@.clear_idle_timer(now),
            old(self)@.wf() ==> final(self)@.wf(),
    {
        self.idle_timer = IdleTimer::after(now, FAR_FUTURE_MS);
        proof {
            if old(self)@.wf() {
                old(self)@.lemma_same_state_wf(self@);
            }
        }
    }

    /// Starts the idle timer anew: it fires when the configured idle timeout
    /// has passed since `now`.
    pub fn reset_idle_timer(&mut self, now: u64)
        ensures
            final(self)@ == old(self)@.reset_idle_timer(now),
            old(self)@.wf() ==> final(self)@.wf(),
    {
        self.idle_timer = IdleTimer::after(now, self.config.idle_timeout);
        proof {
            if old(self)@.wf() {
                old(self)@.lemma_same_state_wf(self@);
            }
        }
    }

    /// Takes the status message away.
    pub fn clear_status(&mut self)
        ensures
            final(self)@ == old(self)@.with_status(None),
            old(self)@.wf() ==> final(self)@.wf(),
    {
        self.status_msg = None;
        proof {
            if old(self)@.wf() {
                old(self)@.lemma_same_state_wf(self@);
            }
        }
    }

    /// Shows `status` as a piece of information.
    pub fn set_status(&mut self, status: String)
        ensures
            final(self)@ == old(self)@.with_status(Some((status@, Severity::Info))),
            old(self)@.wf() ==> final(self)@.wf(),
    {
        self.status_msg = Some((status, Severity::Info));
        proof {
            if old(self)@.wf() {
                old(self)@.lemma_same_state_wf(self@);
            }
        }
    }

    /// Shows `error` as an error.
    pub fn set_error(&mut self, error: String)
        ensures
            final(self)@ == old(self)@.with_status(Some((error@, Severity::Error))),
            old(self)@.wf() ==> final(self)@.wf(),
    {
        self.status_msg = Some((error, Severity::Error));
        proof {
            if old(self)@.wf() {
                old(self)@.lemma_same_state_wf(self@);
            }
        }
    }

    /// Takes `theme` if it styles the required scope, and lets all panes
    /// scroll to their cursors. Any other theme is turned down with an error
    /// message, and the old theme stays.
    pub fn set_theme(&mut self, theme: Theme)
        requires
            old(self)@.wf(),
        ensures
            final(self)@ == old(self)@.set_theme(theme),
            final(self)@.wf(),
    {
        if theme.find_scope_index(REQUIRED_SCOPE).is_none() {
            self.set_error(INVALID_THEME.to_owned());
            return ;
        }
        self.theme = theme;
        proof {
            old(self)@.lemma_same_state_wf(self@);
        }
        self._refresh();
    }

    /// Takes the theme called `name`, which its caller has tried to load.
    /// Fails, and changes nothing, if `loaded` is `None`; otherwise does as
    /// `set_theme` does.
    pub fn set_theme_from_name(&mut self, name: &str, loaded: Option<Theme>) -> (r: Result<
        (),
        ThemeError,
    >)
        requires
            old(self)@.wf(),
        ensures
            match loaded {
                Some(theme) => r is Ok && final(self)@ == old(self)@.set_theme(theme),
                None => r is Err && r->Err_0@ == ThemeErrorModel::NotLoaded(name@) && final(self)@
                    == old(self)@,
            },
            final(self)@.wf(),
    {
        match loaded {
            Some(theme) => {
                self.set_theme(theme);
                Ok(())
            },
            None => Err(ThemeError::NotLoaded(name.to_owned())),
        }
    }

    /// Moves the editor into `area`. If that changes anything, all panes
    /// scroll to their cursors.
    pub fn resize(&mut self, area: Rect)
        requires
            old(self)@.wf(),
        ensures
            final(self)@ == old(self)@.resize(area),
            final(self)@.wf(),
    {
        if self.tree.resize(area) {
            proof {
                let e = old(self)@;
                e.lemma_same_panes_wf(e.tree.resize(area));
            }
            self._refresh();
        }
    }

    /// Moves the focus to the next pane, and from the last to the first.
    pub fn focus_next(&mut self)
        requires
            old(self)@.wf(),
        ensures
            final(self)@ == old(self)@.moved(Motion::FocusNext),
            final(self)@.wf(),
    {
        self.tree.focus_next();
        proof {
            old(self)@.lemma_moved_wf(Motion::FocusNext);
        }
    }

    /// Moves the focus to the pane on the right, if there is one.
    pub fn focus_right(&mut self)
        requires
            old(self)@.wf(),
        ensures
            final(self)@ == old(self)@.moved(Motion::Focus(Direction::Right)),
            final(self)@.wf(),
    {
        self.tree.focus_direction(Direction::Right);
        proof {
            old(self)@.lemma_moved_wf(Motion::Focus(Direction::Right));
        }
    }

    /// Moves the focus to the pane on the left, if there is one.
    pub fn focus_left(&mut self)
        requires
            old(self)@.wf(),
        ensures
            final(self)@ == old(self)@.moved(Motion::Focus(Direction::Left)),
            final(self)@.wf(),
    {
        self.tree.focus_direction(Direction::Left);
        proof {
            old(self)@.lemma_moved_wf(Motion::Focus(Direction::Left));
        }
    }

    /// Moves the focus to the pane above, if there is one.
    pub fn focus_up(&mut self)
        requires
            old(self)@.wf(),
        ensures
            final(self)@ == old(self)@.moved(Motion::Focus(Direction::Up)),
            final(self)@.wf(),
    {
        self.tree.focus_direction(Direction::Up);
        proof {
            old(self)@.lemma_moved_wf(Motion::Focus(Direction::Up));
        }
    }

    /// Moves the focus to the pane below, if there is one.
    pub fn focus_down(&mut self)
        requires
            old(self)@.wf(),
        ensures
            final(self)@ == old(self)@.moved(Motion::Focus(Direction::Down)),
            final(self)@.wf(),
    {
        self.tree.focus_direction(Direction::Down);
        proof {
            old(self)@.lemma_moved_wf(Motion::Focus(Direction::Down));
        }
    }

    /// True if the last pane was closed, so that the editor should end.
    pub fn should_close(&self) -> (b: bool)
        ensures
            b == self@.tree.is_empty(),
    {
        self.tree.is_empty()
    }

    /// Scrolls pane `id` to show its cursor.
    pub fn ensure_cursor_in_view(&mut self, id: ViewId)
        requires
            old(self)@.wf(),
            old(self)@.tree.contains(id),
        ensures
            final(self)@ == old(self)@.scroll_pane(id),
            final(self)@.wf(),
    {
        let vi = self.tree.index_of(id).unwrap();
        let doc = self.tree.pane(vi).doc;
        assert(old(self)@.bound(old(self)@.tree.panes[vi as int]));
        let d = self.doc_index(doc).unwrap();
        let cursor = self.documents[d].selection(id).cursor;
        let scrolloff = self.config.scrolloff;
        let pane = self.tree.pane_mut(vi);
        pane.ensure_cursor_in_view(cursor, scrolloff);
        proof {
            let e = old(self)@;
            e.lemma_same_panes_wf(e.scroll_pane(id).tree);
        }
    }

    /// The document registered under `id`, if there is one.
    pub fn document(&self, id: DocumentId) -> (r: Option<&Document>)
        requires
            self@.registry_wf(),
        ensures
            r is Some <==> self@.has_document(id),
            r is Some ==> r->0@ == self@.document(id),
    {
        match self.doc_index(id) {
            Some(i) => Some(&self.documents[i]),
            None => None,
        }
    }

    /// The document registered under `id`, to be changed, if there is one.
    pub fn document_mut(&mut self, id: DocumentId) -> (r: Option<&mut Document>)
        requires
            old(self)@.registry_wf(),
        ensures
            r is Some <==> old(self)@.has_document(id),
            r is Some ==> {
                let i = old(self)@.doc_index(id);
                &&& 0 <= i < old(self).documents@.len()
                &&& *r->0 == old(self).documents@[i]
                &&& *final(self) == (Editor {
                    documents: final(self).documents,
                    ..*old(self)
                })
                &&& final(self).documents@ == old(self).documents@.update(i, *final(r->0))
            },
            r is None ==> *final(self) == *old(self),
    {
        match self.doc_index(id) {
            Some(i) => Some(&mut self.documents[i]),
            None => None,
        }
    }

    /// The registered documents, in the order of their identifiers.
    pub fn documents(&self) -> (r: &Vec<Document>)
        ensures
            document_models(r@) == self@.documents,
    {
        &self.documents
    }

    /// The registered documents, to be changed.
    pub fn documents_mut(&mut self) -> (r: &mut Vec<Document>)
        ensures
            *r == old(self).documents,
            *final(self) == (Editor { documents: *final(r), ..*old(self) }),
    {
        &mut self.documents
    }

    /// Where the terminal's cursor belongs, and how it is drawn: at the
    /// focused pane's primary cursor if the pane shows its line, and hidden.
    pub fn cursor(&self) -> (r: (Option<Position>, CursorKind))
        requires
            self@.wf(),
            !self@.tree.is_empty(),
        ensures
            r.0 == self@.cursor(),
            r.1 == CursorKind::Hidden,
    {
        let pane = self.tree.get(self.tree.focus());
        assert(self@.bound(self@.tree.panes[self@.tree.index_of(self@.tree.focus)]));
        let d = self.doc_index(pane.doc).unwrap();
        let cursor = self.documents[d].selection(pane.id).cursor;
        match pane.screen_coords_at_pos(cursor) {
            Some(p) => {
                let inner = pane.inner_area();
                let x: usize = inner.x as usize;
                let row: usize = p.row + inner.y as usize;
                let col: usize = if p.col > usize::MAX - x {
                    usize::MAX
                } else {
                    p.col + x
                };
                (Some(Position { row, col }), CursorKind::Hidden)
            },
            None => (None, CursorKind::Hidden),
        }
    }
}

impl Editor {
    /// True if the editor can register a document and attach a pane without
    /// running out of identifiers.
    pub fn can_mint(&self) -> (b: bool)
        ensures
            b == self@.can_mint(),
    {
        self.next_document_id.0 < usize::MAX && self.tree.can_mint()
    }

    /// True if `action` can be carried out: loading and replacing need a
    /// focused pane, splitting needs an identifier for the new pane.
    pub fn admits(&self, action: Action) -> (b: bool)
        ensures
            b == self@.admits(action),
    {
        match action {
            Action::Load | Action::Replace => !self.tree.is_empty(),
            Action::HorizontalSplit | Action::VerticalSplit => self.tree.can_mint(),
        }
    }

    /// True if the registry is well-formed.
    pub fn is_registry_wf(&self) -> (b: bool)
        ensures
            b == self@.registry_wf(),
    {
        if self.next_document_id.0 < 1 {
            return false;
        }
        let n = self.documents.len();
        let mut i: usize = 0;
        while i < n
            invariant
                i <= n,
                n == self.documents.len(),
                forall|a: int|
                    0 <= a < i ==> 1 <= (#[trigger] self@.documents[a]).id.0
                        < self.next_document_id.0,
                forall|a: int, b: int|
                    0 <= a < b < i ==> (#[trigger] self@.documents[a]).id.0 < (
                    #[trigger] self@.documents[b]).id.0,
            decreases n - i,
        {
            let id = self.documents[i].id;
            if id.0 < 1 || id.0 >= self.next_document_id.0 {
                assert(!(1 <= self@.documents[i as int].id.0 < self@.next_document_id.0));
                return false;
            }
            if i > 0 && self.documents[i - 1].id.0 >= id.0 {
                assert(!(self@.documents[i - 1].id.0 < self@.documents[i as int].id.0));
                return false;
            }
            proof {
                assert forall|a: int, b: int| 0 <= a < b < i + 1 implies (
                #[trigger] self@.documents[a]).id.0 < (#[trigger] self@.documents[b]).id.0 by {
                    if b == i && a < i - 1 {
                        assert(self@.documents[a].id.0 < self@.documents[i - 1].id.0);
                    }
                }
            }
            i += 1;
        }
        true
    }

    /// True if the editor is well-formed: what every operation asks for and
    /// keeps.
    pub fn is_wf(&self) -> (b: bool)
        ensures
            b == self@.wf(),
    {
        if !self.tree.is_wf() || !self.is_registry_wf() {
            return false;
        }
        let n = self.tree.len();
        let mut i: usize = 0;
        while i < n
            invariant
                i <= n,
                n == self@.tree.panes.len(),
                self@.registry_wf(),
                self@.tree.wf(),
                forall|a: int| 0 <= a < i ==> self@.bound(#[trigger] self@.tree.panes[a]),
            decreases n - i,
        {
            let pane = self.tree.pane(i);
            let bound = match self.doc_index(pane.doc) {
                Some(d) => self.documents[d].has_selection(pane.id),
                None => false,
            };
            if !bound {
                assert(!self@.bound(self@.tree.panes[i as int]));
                return false;
            }
            i += 1;
        }
        true
    }
}

impl Motion {
    /// Carries the motion out on `editor`.
    pub fn run(&self, editor: &mut Editor)
        requires
            old(editor)@.wf(),
        ensures
            final(editor)@ == old(editor)@.moved(*self),
            final(editor)@.wf(),
    {
        match *self {
            Motion::FocusNext => editor.focus_next(),
            Motion::Focus(Direction::Up) => editor.focus_up(),
            Motion::Focus(Direction::Down) => editor.focus_down(),
            Motion::Focus(Direction::Left) => editor.focus_left(),
            Motion::Focus(Direction::Right) => editor.focus_right(),
        }
    }
}

} // verus!
