//! What holds of the editor whatever is done with it.

use crate::document::{DocumentId, DocumentModel};
use crate::editor::{deadline_after, Action, FAR_FUTURE_MS};
use crate::error::CloseErrorModel;
use crate::model::EditorModel;
use crate::pane::{scroll_margin, scrolled_offset};
use vstd::prelude::*;

verus! {

/// Opening a path a second time shows the document that the first time
/// showed: the second call finds the path, cannot fail, registers nothing and
/// hands out no identifier.
pub proof fn theorem_open_twice_shows_one_document(
    e: EditorModel,
    path: Seq<char>,
    first_action: Action,
    first_loaded: Option<DocumentModel>,
    first_found: Option<usize>,
    second_action: Action,
    second_loaded: Option<DocumentModel>,
    second_found: Option<usize>,
)
    requires
        e.wf(),
        e.can_mint(),
        e.admits(first_action),
        e.open_error(path, first_loaded) is None,
        e.open(path, first_action, first_loaded, first_found).admits(second_action),
    ensures
        ({
            let once = e.open(path, first_action, first_loaded, first_found);
            let twice = once.open(path, second_action, second_loaded, second_found);
            &&& once.has_path(path)
            &&& once.open_error(path, second_loaded) is None
            &&& once.opened_id(path) == e.opened_id(path)
            &&& twice.has_document(e.opened_id(path))
            &&& twice.next_document_id == once.next_document_id
            &&& forall|x: DocumentId| twice.has_document(x) ==> once.has_document(x)
        }),
{
    let x = e.opened_id(path);
    let once = e.open(path, first_action, first_loaded, first_found);
    e.lemma_open_wf(path, first_action, first_loaded, first_found);
    // the state in which the first call brings the document into view
    let before = if e.has_path(path) {
        e
    } else {
        let given = DocumentModel { path: Some(path), ..first_loaded->0 };
        let (doc, sent) = crate::language::launched(given, first_found);
        e.with_sent(sent).register(doc)
    };
    assert(once == before.switch(x, first_action));
    if e.has_path(path) {
        e.lemma_opened_id_is_least(path);
    } else {
        let given = DocumentModel { path: Some(path), ..first_loaded->0 };
        let (doc, sent) = crate::language::launched(given, first_found);
        let a = e.with_sent(sent);
        e.lemma_same_state_wf(a);
        a.lemma_register(doc);
        a.lemma_register_wf(doc);
        assert forall|y: DocumentId|
            before.has_document(y) && before.document(y).path == Some(path) implies x.0
            <= y.0 by {
            if y != x {
                assert(a.has_document(y));
                let j = a.doc_index(y);
                assert(e.documents[j].path == Some(path));
            }
        }
    }
    before.lemma_switch_wf(x, first_action);
    before.lemma_switch_paths(x, first_action);
    assert forall|y: DocumentId|
        once.has_document(y) && once.document(y).path == Some(path) implies x.0 <= y.0 by {
        assert(before.has_document(y));
    }
    once.lemma_least_is_opened_id(path, x);
    once.lemma_switch_wf(x, second_action);
}

/// Of two documents registered one after the other, the second gets the
/// greater identifier, and neither identifier was in use before.
pub proof fn theorem_identifiers_increase(
    e: EditorModel,
    first: DocumentModel,
    second: DocumentModel,
)
    requires
        e.registry_wf(),
        e.next_document_id.0 + 1 < usize::MAX,
    ensures
        ({
            let one = e.register(first);
            let two = one.register(second);
            &&& !e.has_document(e.next_document_id)
            &&& !one.has_document(one.next_document_id)
            &&& e.next_document_id.0 < one.next_document_id.0 < two.next_document_id.0
            &&& two.has_document(e.next_document_id) && two.has_document(one.next_document_id)
        }),
{
    e.lemma_register(first);
    e.register(first).lemma_register(second);
}

/// Every registered document has an identifier below the next to be handed
/// out, so that no identifier in use is handed out again.
pub proof fn theorem_identifiers_in_use_are_old(e: EditorModel, id: DocumentId)
    requires
        e.registry_wf(),
        e.has_document(id),
    ensures
        1 <= id.0 < e.next_document_id.0,
{
    let i = e.doc_index(id);
    assert(1 <= e.documents[i].id.0 < e.next_document_id.0);
}

/// The identifier of a closed document is never handed out again: it stays
/// below the next identifier, also when it was the greatest in use, and the
/// document registered next gets another.
pub proof fn theorem_closed_identifier_is_not_reused(
    e: EditorModel,
    id: DocumentId,
    next: DocumentModel,
)
    requires
        e.wf(),
        e.can_mint(),
        e.has_document(id),
    ensures
        ({
            let closed = e.close_document(id);
            &&& !closed.has_document(id)
            &&& id.0 < e.next_document_id.0 <= closed.next_document_id.0
            &&& closed.next_document_id.0 < usize::MAX ==> closed.register(next).document(
                closed.next_document_id,
            ).id != id && !closed.register(next).has_document(id)
        }),
{
    theorem_identifiers_in_use_are_old(e, id);
    e.lemma_close_document_wf(id);
    let closed = e.close_document(id);
    if closed.next_document_id.0 < usize::MAX {
        closed.lemma_register(next);
    }
}

/// Bringing a document into view, and closing a pane, hand out no document
/// identifier.
pub proof fn theorem_views_mint_no_document(e: EditorModel, id: DocumentId, action: Action)
    requires
        e.wf(),
        e.has_document(id) ==> e.admits(action),
    ensures
        e.switch(id, action).next_document_id == e.next_document_id,
        forall|view: crate::pane::ViewId|
            e.tree.contains(view) ==> e.close(view).next_document_id == e.next_document_id,
{
    e.lemma_switch_wf(id, action);
    assert forall|view: crate::pane::ViewId| e.tree.contains(view) implies e.close(
        view,
    ).next_document_id == e.next_document_id by {
        e.lemma_close_wf(view);
    }
}

/// After a document was closed the editor has a pane, and every pane shows
/// a registered document in which it has a selection.
pub proof fn theorem_close_document_leaves_a_pane(e: EditorModel, id: DocumentId, force: bool)
    requires
        e.wf(),
        e.can_mint(),
        e.close_error(id, force) is None,
    ensures
        !e.close_document(id).tree.is_empty(),
        e.close_document(id).wf(),
        forall|i: int|
            0 <= i < e.close_document(id).tree.panes.len() ==> e.close_document(id).has_document(
                (#[trigger] e.close_document(id).tree.panes[i]).doc,
            ),
{
    e.lemma_close_document_wf(id);
    let r = e.close_document(id);
    assert forall|i: int| 0 <= i < r.tree.panes.len() implies r.has_document(
        (#[trigger] r.tree.panes[i]).doc,
    ) by {
        assert(r.bound(r.tree.panes[i]));
    }
}

/// Replacing the focused pane's document drops the document that the pane
/// leaves if that one has no path and no unsaved change, is shown by no other
/// pane, and is not the incoming document itself. The pane then shows the
/// incoming document and has noted no jump.
pub proof fn theorem_replace_drops_empty_scratch(e: EditorModel, incoming: DocumentId)
    requires
        e.wf(),
        !e.tree.is_empty(),
        e.has_document(incoming),
        !e.document(e.tree.focused().doc).modified,
        e.document(e.tree.focused().doc).path is None,
        !e.shown_elsewhere(e.tree.focused().doc, e.tree.focus),
        incoming != e.tree.focused().doc,
    ensures
        ({
            let r = e.switch(incoming, Action::Replace);
            &&& !r.has_document(e.tree.focused().doc)
            &&& r.has_document(incoming)
            &&& r.tree.focus == e.tree.focus
            &&& r.tree.focused().doc == incoming
            &&& r.tree.focused().jumps == e.tree.focused().jumps
            &&& r.documents.len() == e.documents.len() - 1
        }),
{
    let fi = e.tree.index_of(e.tree.focus);
    let pane = e.tree.focused();
    assert(e.tree.panes[fi].id == e.tree.focus);
    assert(e.bound(e.tree.panes[fi]));
    assert(e.discards_on_replace(incoming));
    let a = e.leave(incoming);
    e.lemma_leave(incoming);
    e.lemma_unregister(pane.doc);
    a.lemma_bind(e.tree.focus, incoming);
    let b = a.bind(e.tree.focus, incoming);
    b.lemma_refresh_wf();
    let r = b.refresh();
    a.tree.lemma_index_of(e.tree.focus, fi);
    b.tree.lemma_index_of(e.tree.focus, fi);
    r.tree.lemma_index_of(e.tree.focus, fi);
    assert(!b.has_document(pane.doc));
}

/// Replacing the focused pane's document keeps the document that the pane
/// leaves if that one has unsaved changes, or a path, or is shown by another
/// pane, or is the incoming document itself. The pane then notes the
/// document and its selection in it as its latest jump.
pub proof fn theorem_replace_keeps_what_matters(e: EditorModel, incoming: DocumentId)
    requires
        e.wf(),
        !e.tree.is_empty(),
        e.has_document(incoming),
        e.document(e.tree.focused().doc).modified || e.document(e.tree.focused().doc).path is Some
            || e.shown_elsewhere(e.tree.focused().doc, e.tree.focus) || incoming
            == e.tree.focused().doc,
    ensures
        ({
            let r = e.switch(incoming, Action::Replace);
            let left = e.tree.focused().doc;
            &&& r.has_document(left)
            &&& r.documents.len() == e.documents.len()
            &&& r.tree.focus == e.tree.focus
            &&& r.tree.focused().doc == incoming
            &&& r.tree.focused().jumps == e.tree.focused().jumps.push(
                (left, e.document(left).selection(e.tree.focus)),
            )
            &&& r.tree.focused().last_accessed_doc == Some(left)
        }),
{
    let fi = e.tree.index_of(e.tree.focus);
    let pane = e.tree.focused();
    assert(e.tree.panes[fi].id == e.tree.focus);
    assert(e.bound(e.tree.panes[fi]));
    assert(!e.discards_on_replace(incoming));
    let a = e.leave(incoming);
    e.lemma_leave(incoming);
    a.lemma_bind(e.tree.focus, incoming);
    let b = a.bind(e.tree.focus, incoming);
    b.lemma_refresh_wf();
    let r = b.refresh();
    a.tree.lemma_index_of(e.tree.focus, fi);
    b.tree.lemma_index_of(e.tree.focus, fi);
    r.tree.lemma_index_of(e.tree.focus, fi);
    assert(a.has_document(pane.doc));
}

/// Closing a document that has unsaved changes is refused unless it is
/// forced, with the name the document is reported under. A forced close of a
/// registered document is never refused.
pub proof fn theorem_only_unforced_close_is_refused(e: EditorModel, id: DocumentId)
    requires
        e.has_document(id),
    ensures
        e.document(id).modified ==> e.close_error(id, false) == Some(
            CloseErrorModel::Modified(e.document(id).display_name()),
        ),
        !e.document(id).modified ==> e.close_error(id, false) is None,
        e.close_error(id, true) is None,
{
}

/// An idle timer that was started anew and then put out of the way does not
/// fire when the idle timeout has passed, nor at any instant in the thirty
/// years after it was put away. This holds of idle timeouts below thirty
/// years, on a clock that has thirty years left to run.
pub proof fn theorem_cleared_timer_stays_quiet(
    e: EditorModel,
    reset_at: u64,
    cleared_at: u64,
    instant: u64,
)
    requires
        reset_at <= cleared_at,
        cleared_at + FAR_FUTURE_MS <= u64::MAX,
        instant < cleared_at + FAR_FUTURE_MS,
    ensures
        !e.reset_idle_timer(reset_at).clear_idle_timer(cleared_at).idle_timer.spec_expired(instant),
        e.config.idle_timeout < FAR_FUTURE_MS ==> !e.reset_idle_timer(reset_at).clear_idle_timer(
            cleared_at,
        ).idle_timer.spec_expired(deadline_after(reset_at, e.config.idle_timeout)),
{
}

/// Until it is started anew or put out of the way, a timer that was started
/// anew fires exactly from the instant at which the idle timeout has passed.
pub proof fn theorem_reset_timer_fires_on_time(e: EditorModel, reset_at: u64, instant: u64)
    requires
        reset_at + e.config.idle_timeout <= u64::MAX,
    ensures
        e.reset_idle_timer(reset_at).idle_timer.spec_expired(instant) <==> instant >= reset_at
            + e.config.idle_timeout,
{
}

/// After scrolling, the cursor lies inside the window, and inside its margins
/// wherever the start of the buffer leaves room for them.
pub proof fn theorem_scrolled_window_holds_cursor(offset: int, extent: int, cursor: int, scrolloff: int)
    requires
        0 <= offset,
        0 <= cursor,
        0 <= scrolloff,
        1 <= extent,
    ensures
        ({
            let r = scrolled_offset(offset, extent, cursor, scrolloff);
            let m = scroll_margin(extent, scrolloff);
            &&& 0 <= r <= cursor < r + extent
            &&& cursor <= r + extent - 1 - m
            &&& r + m <= cursor || r == 0
        }),
{
}

/// A window that already holds the cursor inside its margins stays where it is.
pub proof fn theorem_scrolling_twice_is_scrolling_once(offset: int, extent: int, cursor: int, scrolloff: int)
    requires
        0 <= offset,
        0 <= cursor,
        0 <= scrolloff,
    ensures
        ({
            let r = scrolled_offset(offset, extent, cursor, scrolloff);
            scrolled_offset(r, extent, cursor, scrolloff) == r
        }),
{
}

/// After all panes have scrolled, every pane that has a line to draw on shows
/// the line of its cursor, and every pane that has a column to draw in shows
/// the cursor itself.
pub proof fn theorem_refresh_shows_every_cursor(e: EditorModel, i: int)
    requires
        e.wf(),
        0 <= i < e.tree.panes.len(),
        e.tree.panes[i].area.height >= 1,
    ensures
        ({
            let before = e.tree.panes[i];
            let pane = e.refresh().tree.panes[i];
            let cursor = e.document(before.doc).cursor(before.id);
            &&& pane.shows_line(cursor)
            &&& pane.screen_coords(cursor) is Some
            &&& pane.offset.col <= cursor.col
            &&& before.area.width >= 1 ==> cursor.col < pane.offset.col + pane.area.width
        }),
{
    let before = e.tree.panes[i];
    let cursor = e.document(before.doc).cursor(before.id);
    let so = e.config.scrolloff as int;
    theorem_scrolled_window_holds_cursor(
        before.offset.row as int,
        before.area.height as int,
        cursor.row as int,
        so,
    );
    if before.area.width >= 1 {
        theorem_scrolled_window_holds_cursor(
            before.offset.col as int,
            before.area.width as int,
            cursor.col as int,
            so,
        );
    }
}

/// Every action but a load in the background leaves each pane that has a
/// line to draw on showing the line of its cursor.
pub proof fn theorem_switch_shows_every_cursor(
    e: EditorModel,
    id: DocumentId,
    action: Action,
    i: int,
)
    requires
        e.wf(),
        e.has_document(id),
        e.admits(action),
        action != Action::Load,
        0 <= i < e.switch(id, action).tree.panes.len(),
        e.switch(id, action).tree.panes[i].area.height >= 1,
    ensures
        ({
            let r = e.switch(id, action);
            let pane = r.tree.panes[i];
            pane.shows_line(r.document(pane.doc).cursor(pane.id))
        }),
{
    let mid = match action {
        Action::Replace => e.replace(id),
        Action::HorizontalSplit => e.split(id, crate::pane::Layout::Horizontal),
        _ => e.split(id, crate::pane::Layout::Vertical),
    };
    match action {
        Action::Replace => {
            e.lemma_leave(id);
            e.leave(id).lemma_bind(e.tree.focus, id);
        },
        Action::HorizontalSplit => {
            e.lemma_split_wf(id, crate::pane::Layout::Horizontal);
        },
        _ => {
            e.lemma_split_wf(id, crate::pane::Layout::Vertical);
        },
    }
    mid.lemma_refresh_wf();
    theorem_refresh_shows_every_cursor(mid, i);
    let before = mid.tree.panes[i];
    assert(mid.bound(before));
    mid.lemma_doc_index(before.doc, mid.doc_index(before.doc));
    mid.refresh().lemma_doc_index(before.doc, mid.doc_index(before.doc));
}

} // verus!
