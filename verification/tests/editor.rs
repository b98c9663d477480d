use helix_view::config::Config;
use helix_view::document::{Document, DocumentId};
use helix_view::editor::{Action, Editor, Motion, Severity, FAR_FUTURE_MS};
use helix_view::error::{CloseError, OpenError, StdinError, ThemeError};
use helix_view::graphics::{CursorKind, Position, Rect};
use helix_view::language::Notification;
use helix_view::pane::{Layout, ViewId};
use helix_view::selection::Selection;
use helix_view::theme::Theme;
use helix_view::tree::Direction;

fn theme() -> Theme {
    Theme::new(vec!["ui.selection".to_string(), "comment".to_string()])
}

fn editor() -> Editor {
    Editor::new(Rect::new(0, 0, 80, 21), theme(), Config::default(), 1_000)
}

fn file(text: &str) -> Document {
    Document::from_text(text.to_string())
}

fn pane_docs(editor: &Editor) -> Vec<DocumentId> {
    editor.tree.views().iter().map(|p| p.doc).collect()
}

fn doc_ids(editor: &Editor) -> Vec<DocumentId> {
    editor.documents.iter().map(|d| d.id).collect()
}

#[test]
fn new_shows_one_scratch_document_in_one_pane() {
    let e = editor();
    assert!(e.is_wf());
    assert_eq!(doc_ids(&e), vec![DocumentId(1)]);
    assert_eq!(e.next_document_id, DocumentId(2));
    assert_eq!(e.tree.len(), 1);
    assert_eq!(e.tree.focus(), ViewId(1));
    let pane = e.tree.get(ViewId(1));
    assert_eq!(pane.doc, DocumentId(1));
    assert_eq!(pane.area, Rect::new(0, 0, 80, 20));
    assert_eq!(pane.offset, Position::new(0, 0));
    let doc = &e.documents[0];
    assert!(doc.path.is_none());
    assert!(!doc.modified);
    assert_eq!(doc.text, "");
    assert_eq!(doc.selection(ViewId(1)), Selection::start());
    assert!(e.status_msg.is_none());
    assert!(e.outbox.is_empty());
    assert_eq!(e.idle_timer.deadline, 1_400);
    assert_eq!(e.exit_code, 0);
    assert!(!e.should_close());
}

#[test]
fn scenario_open_replace_then_load_then_close() {
    let mut e = editor();
    let d1 = e
        .open("/tmp/a.txt".to_string(), Action::Replace, Some(file("hello")), None)
        .unwrap();
    assert_eq!(d1, DocumentId(2));
    assert_eq!(doc_ids(&e), vec![DocumentId(2)]);
    assert_eq!(pane_docs(&e), vec![DocumentId(2)]);
    assert_eq!(e.tree.focus(), ViewId(1));
    assert!(e.tree.get(ViewId(1)).jumps.is_empty());
    assert!(e.is_wf());

    let again = e
        .open("/tmp/a.txt".to_string(), Action::Load, Some(file("other")), None)
        .unwrap();
    assert_eq!(again, d1);
    assert_eq!(doc_ids(&e), vec![DocumentId(2)]);
    assert_eq!(e.documents[0].text, "hello");
    assert_eq!(e.next_document_id, DocumentId(3));

    assert_eq!(e.close_document(d1, false), Ok(()));
    assert_eq!(doc_ids(&e), vec![DocumentId(3)]);
    assert_eq!(e.tree.len(), 1);
    assert_eq!(pane_docs(&e), vec![DocumentId(3)]);
    assert!(e.documents[0].path.is_none());
    assert!(!e.documents[0].modified);
    assert_eq!(e.documents[0].text, "");
    assert!(e.is_wf());
}

#[test]
fn scenario_close_document_shown_in_two_panes() {
    let mut e = editor();
    e.switch(DocumentId(1), Action::VerticalSplit);
    assert_eq!(pane_docs(&e), vec![DocumentId(1), DocumentId(1)]);
    assert_eq!(e.tree.focus(), ViewId(2));
    assert_eq!(e.close_document(DocumentId(1), true), Ok(()));
    assert_eq!(e.tree.len(), 1);
    assert_eq!(doc_ids(&e), vec![DocumentId(2)]);
    assert_eq!(pane_docs(&e), vec![DocumentId(2)]);
    assert_eq!(e.tree.focus(), ViewId(3));
    assert!(!e.tree.contains(ViewId(1)));
    assert!(!e.tree.contains(ViewId(2)));
    assert_eq!(e.documents[0].selection(ViewId(3)), Selection::start());
    assert!(e.is_wf());
}

#[test]
fn open_same_path_twice_returns_the_same_document() {
    let mut e = editor();
    let a = e
        .open("/tmp/a.txt".to_string(), Action::VerticalSplit, Some(file("a")), None)
        .unwrap();
    let b = e
        .open("/tmp/b.txt".to_string(), Action::HorizontalSplit, Some(file("b")), None)
        .unwrap();
    let a2 = e.open("/tmp/a.txt".to_string(), Action::Replace, None, None).unwrap();
    let a3 = e
        .open("/tmp/a.txt".to_string(), Action::VerticalSplit, Some(file("zzz")), Some(4))
        .unwrap();
    assert_eq!(a, DocumentId(2));
    assert_eq!(b, DocumentId(3));
    assert_eq!(a2, a);
    assert_eq!(a3, a);
    assert_eq!(doc_ids(&e), vec![DocumentId(1), DocumentId(2), DocumentId(3)]);
    assert_eq!(e.next_document_id, DocumentId(4));
    assert!(e.outbox.is_empty());
    assert!(e.is_wf());
}

#[test]
fn open_sets_the_path_of_the_loaded_document() {
    let mut e = editor();
    let mut doc = file("x");
    doc.path = Some("/somewhere/else".to_string());
    let id = e.open("/tmp/a.txt".to_string(), Action::Load, Some(doc), None).unwrap();
    assert_eq!(e.document(id).unwrap().path.as_deref(), Some("/tmp/a.txt"));
    assert!(e.document_by_path("/tmp/a.txt").is_some());
    assert!(e.document_by_path("/somewhere/else").is_none());
}

#[test]
fn open_without_a_document_fails_and_changes_nothing() {
    let mut e = editor();
    let r = e.open("/tmp/missing.txt".to_string(), Action::Replace, None, Some(1));
    assert_eq!(r, Err(OpenError::Unreadable));
    assert_eq!(doc_ids(&e), vec![DocumentId(1)]);
    assert_eq!(pane_docs(&e), vec![DocumentId(1)]);
    assert_eq!(e.next_document_id, DocumentId(2));
    assert!(e.outbox.is_empty());
}

#[test]
fn open_binds_the_new_document_to_its_language_server() {
    let mut e = editor();
    let mut doc = file("fn main() {}");
    doc.language = Some("source.rust".to_string());
    doc.version = 7;
    let id = e.open("/tmp/main.rs".to_string(), Action::Replace, Some(doc), Some(3)).unwrap();
    assert_eq!(e.document(id).unwrap().language_server, Some(3));
    assert_eq!(e.outbox.len(), 1);
    match &e.outbox[0] {
        Notification::DidOpen { server, path, version, text, language_id } => {
            assert_eq!(*server, 3);
            assert_eq!(path.as_deref(), Some("/tmp/main.rs"));
            assert_eq!(*version, 7);
            assert_eq!(text, "fn main() {}");
            assert_eq!(language_id, "rust");
        }
        other => panic!("unexpected notification {:?}", other),
    }
}

#[test]
fn new_file_from_stdin_holds_what_was_read() {
    let mut e = editor();
    assert_eq!(e.new_file_from_stdin(Action::Replace, None), Err(StdinError::Unreadable));
    assert_eq!(doc_ids(&e), vec![DocumentId(1)]);
    assert_eq!(e.next_document_id, DocumentId(2));
    let id = e.new_file_from_stdin(Action::Replace, Some("piped\n".to_string()));
    assert_eq!(id, Ok(DocumentId(2)));
    assert_eq!(doc_ids(&e), vec![DocumentId(2)]);
    assert_eq!(e.documents[0].text, "piped\n");
    assert!(e.documents[0].path.is_none());
    assert!(!e.documents[0].modified);
    assert_eq!(pane_docs(&e), vec![DocumentId(2)]);
}

#[test]
fn config_is_reached_through_the_editor_module() {
    let c: helix_view::editor::Config = helix_view::editor::Config::default();
    assert_eq!(c.file_picker, helix_view::editor::FilePickerConfig::default());
    assert_eq!(c.line_number, helix_view::editor::LineNumber::Absolute);
}

#[test]
fn document_ids_increase_and_are_never_reused() {
    let mut e = editor();
    let a = e.new_file(Action::Load);
    let b = e.new_file(Action::Load);
    assert_eq!((a, b), (DocumentId(2), DocumentId(3)));
    assert_eq!(e.close_document(b, false), Ok(()));
    assert_eq!(doc_ids(&e), vec![DocumentId(1), DocumentId(2)]);
    let c = e.new_file(Action::Load);
    assert_eq!(c, DocumentId(4));
    let d = e.new_document(Document::default());
    assert_eq!(d, DocumentId(5));
    assert_eq!(e.documents[3].id, DocumentId(5));
    assert!(e.is_wf());
}

#[test]
fn close_document_reuses_the_oldest_document_for_the_fallback_pane() {
    let mut e = editor();
    let b = e.new_file(Action::Load);
    let c = e.new_file(Action::Load);
    assert_eq!(e.close_document(DocumentId(1), false), Ok(()));
    assert_eq!(doc_ids(&e), vec![b, c]);
    assert_eq!(pane_docs(&e), vec![b]);
    assert_eq!(e.tree.focus(), ViewId(2));
    assert_eq!(e.next_document_id, DocumentId(4));
    assert!(e.is_wf());
    assert!(!e.should_close());
}

#[test]
fn close_document_keeps_the_panes_of_other_documents() {
    let mut e = editor();
    let b = e.new_file(Action::VerticalSplit);
    assert_eq!(pane_docs(&e), vec![DocumentId(1), b]);
    assert_eq!(e.close_document(b, false), Ok(()));
    assert_eq!(pane_docs(&e), vec![DocumentId(1)]);
    assert_eq!(e.tree.focus(), ViewId(1));
    assert_eq!(doc_ids(&e), vec![DocumentId(1)]);
    assert!(e.is_wf());
}

#[test]
fn replace_drops_an_unmodified_scratch_document() {
    let mut e = editor();
    let incoming = e.new_file(Action::Load);
    e.switch(incoming, Action::Replace);
    assert_eq!(doc_ids(&e), vec![incoming]);
    assert_eq!(pane_docs(&e), vec![incoming]);
    let pane = e.tree.get(ViewId(1));
    assert!(pane.jumps.is_empty());
    assert_eq!(pane.last_accessed_doc, None);
    assert!(e.is_wf());
}

#[test]
fn replace_keeps_a_modified_scratch_document_and_notes_a_jump() {
    let mut e = editor();
    let sel = Selection::point(12, Position::new(3, 4));
    {
        let doc = e.document_mut(DocumentId(1)).unwrap();
        doc.modified = true;
        doc.set_selection(ViewId(1), sel);
    }
    let incoming = e.new_file(Action::Load);
    e.switch(incoming, Action::Replace);
    assert_eq!(doc_ids(&e), vec![DocumentId(1), incoming]);
    assert_eq!(pane_docs(&e), vec![incoming]);
    let pane = e.tree.get(ViewId(1));
    assert_eq!(pane.jumps, vec![(DocumentId(1), sel)]);
    assert_eq!(pane.last_accessed_doc, Some(DocumentId(1)));
    assert!(e.is_wf());
}

#[test]
fn replace_keeps_a_scratch_document_that_another_pane_shows() {
    let mut e = editor();
    e.switch(DocumentId(1), Action::HorizontalSplit);
    let incoming = e.new_file(Action::Load);
    e.switch(incoming, Action::Replace);
    assert_eq!(doc_ids(&e), vec![DocumentId(1), incoming]);
    assert_eq!(pane_docs(&e), vec![DocumentId(1), incoming]);
    let pane = e.tree.get(ViewId(2));
    assert_eq!(pane.jumps, vec![(DocumentId(1), Selection::start())]);
    assert_eq!(pane.last_accessed_doc, Some(DocumentId(1)));
}

#[test]
fn replace_keeps_a_document_that_has_a_path() {
    let mut e = editor();
    let a = e.open("/tmp/a.txt".to_string(), Action::Replace, Some(file("a")), None).unwrap();
    let b = e.new_file(Action::Replace);
    assert_eq!(doc_ids(&e), vec![a, b]);
    assert_eq!(e.tree.get(ViewId(1)).jumps, vec![(a, Selection::start())]);
}

#[test]
fn replace_by_the_same_document_keeps_it() {
    let mut e = editor();
    e.switch(DocumentId(1), Action::Replace);
    assert_eq!(doc_ids(&e), vec![DocumentId(1)]);
    assert_eq!(pane_docs(&e), vec![DocumentId(1)]);
    assert_eq!(e.tree.get(ViewId(1)).jumps, vec![(DocumentId(1), Selection::start())]);
    assert_eq!(e.tree.get(ViewId(1)).last_accessed_doc, Some(DocumentId(1)));
}

#[test]
fn replace_centres_the_cursor_line() {
    let mut e = Editor::new(Rect::new(2, 1, 80, 21), theme(), Config::default(), 0);
    let mut doc = file("long text");
    doc.set_selection(ViewId(1), Selection::point(500, Position::new(100, 3)));
    let id = e.new_document(doc);
    e.switch(id, Action::Replace);
    let pane = e.tree.get(ViewId(1));
    assert_eq!(pane.doc, id);
    assert_eq!(pane.offset, Position::new(90, 0));
    assert_eq!(e.cursor(), (Some(Position::new(11, 5)), CursorKind::Hidden));
}

#[test]
fn replace_near_the_start_of_the_buffer_does_not_scroll_above_it() {
    let mut e = editor();
    let mut doc = file("text");
    doc.set_selection(ViewId(1), Selection::point(9, Position::new(4, 0)));
    let id = e.new_document(doc);
    e.switch(id, Action::Replace);
    assert_eq!(e.tree.get(ViewId(1)).offset, Position::new(0, 0));
}

#[test]
fn replace_seeds_a_selection_at_the_start() {
    let mut e = editor();
    let id = e.new_document(file("text"));
    assert!(!e.document(id).unwrap().has_selection(ViewId(1)));
    e.switch(id, Action::Replace);
    assert_eq!(e.document(id).unwrap().selection(ViewId(1)), Selection::start());
}

#[test]
fn load_seeds_a_selection_only_in_a_document_without_one() {
    let mut e = editor();
    let id = e.new_document(file("text"));
    e.switch(id, Action::Load);
    assert_eq!(pane_docs(&e), vec![DocumentId(1)]);
    assert_eq!(e.tree.focus(), ViewId(1));
    assert_eq!(e.document(id).unwrap().selections.len(), 1);
    assert_eq!(e.document(id).unwrap().selection(ViewId(1)), Selection::start());

    let mut other = file("more");
    let kept = Selection::point(2, Position::new(0, 2));
    other.set_selection(ViewId(9), kept);
    let id2 = e.new_document(other);
    e.switch(id2, Action::Load);
    assert_eq!(e.document(id2).unwrap().selections.len(), 1);
    assert!(!e.document(id2).unwrap().has_selection(ViewId(1)));
    assert_eq!(e.document(id2).unwrap().selection(ViewId(9)), kept);
    assert!(e.is_wf());
}

#[test]
fn split_attaches_a_focused_pane_with_its_own_selection() {
    let mut e = editor();
    {
        let doc = e.document_mut(DocumentId(1)).unwrap();
        doc.set_selection(ViewId(1), Selection::point(7, Position::new(2, 1)));
    }
    e.switch(DocumentId(1), Action::HorizontalSplit);
    e.focus_next();
    e.switch(DocumentId(1), Action::VerticalSplit);
    let ids: Vec<ViewId> = e.tree.views().iter().map(|p| p.id).collect();
    assert_eq!(ids, vec![ViewId(1), ViewId(3), ViewId(2)]);
    assert_eq!(e.tree.focus(), ViewId(3));
    assert_eq!(e.tree.get(ViewId(2)).layout, Layout::Horizontal);
    assert_eq!(e.tree.get(ViewId(3)).layout, Layout::Vertical);
    assert_eq!(e.tree.get(ViewId(3)).area, Rect::new(0, 0, 80, 20));
    let doc = e.document(DocumentId(1)).unwrap();
    assert_eq!(doc.selection(ViewId(1)), Selection::point(7, Position::new(2, 1)));
    assert_eq!(doc.selection(ViewId(2)), Selection::start());
    assert_eq!(doc.selection(ViewId(3)), Selection::start());
    assert!(e.is_wf());
}

#[test]
fn switch_to_a_document_that_is_gone_changes_nothing() {
    let mut e = editor();
    let id = e.new_file(Action::Load);
    assert_eq!(e.close_document(id, false), Ok(()));
    for action in [Action::Load, Action::Replace, Action::HorizontalSplit, Action::VerticalSplit] {
        e.switch(id, action);
        assert_eq!(doc_ids(&e), vec![DocumentId(1)]);
        assert_eq!(pane_docs(&e), vec![DocumentId(1)]);
        assert_eq!(e.tree.focus(), ViewId(1));
        assert!(e.tree.get(ViewId(1)).jumps.is_empty());
    }
}

#[test]
fn close_of_a_modified_document_is_refused_unless_forced() {
    let mut e = editor();
    let id = e.open("/tmp/a.txt".to_string(), Action::VerticalSplit, Some(file("a")), None).unwrap();
    e.document_mut(id).unwrap().modified = true;
    let r = e.close_document(id, false);
    assert_eq!(r, Err(CloseError::Modified("/tmp/a.txt".to_string())));
    assert_eq!(doc_ids(&e), vec![DocumentId(1), id]);
    assert_eq!(pane_docs(&e), vec![DocumentId(1), id]);
    assert_eq!(e.tree.focus(), ViewId(2));
    assert!(e.outbox.is_empty());
    assert_eq!(e.close_document(id, true), Ok(()));
    assert_eq!(doc_ids(&e), vec![DocumentId(1)]);
    assert_eq!(pane_docs(&e), vec![DocumentId(1)]);
}

#[test]
fn close_of_a_modified_scratch_document_names_the_scratch_buffer() {
    let mut e = editor();
    e.document_mut(DocumentId(1)).unwrap().modified = true;
    let r = e.close_document(DocumentId(1), false);
    assert_eq!(r, Err(CloseError::Modified("[scratch]".to_string())));
    assert_eq!(doc_ids(&e), vec![DocumentId(1)]);
    assert_eq!(e.tree.len(), 1);
}

#[test]
fn close_of_an_unknown_document_is_not_found() {
    let mut e = editor();
    assert_eq!(e.close_document(DocumentId(9), false), Err(CloseError::NotFound));
    assert_eq!(e.close_document(DocumentId(9), true), Err(CloseError::NotFound));
    assert_eq!(doc_ids(&e), vec![DocumentId(1)]);
    assert_eq!(e.tree.len(), 1);
}

#[test]
fn close_document_tells_the_language_server_first() {
    let mut e = editor();
    let mut doc = file("x");
    doc.language = Some("source.toml".to_string());
    let id = e.open("/tmp/c.toml".to_string(), Action::Replace, Some(doc), Some(5)).unwrap();
    e.outbox.clear();
    assert_eq!(e.close_document(id, false), Ok(()));
    assert_eq!(e.outbox.len(), 1);
    match &e.outbox[0] {
        Notification::DidClose { server, path } => {
            assert_eq!(*server, 5);
            assert_eq!(path.as_deref(), Some("/tmp/c.toml"));
        }
        other => panic!("unexpected notification {:?}", other),
    }
}

#[test]
fn close_of_a_pane_forgets_its_selection_and_moves_the_focus() {
    let mut e = editor();
    e.switch(DocumentId(1), Action::VerticalSplit);
    e.switch(DocumentId(1), Action::VerticalSplit);
    assert_eq!(e.tree.focus(), ViewId(3));
    e.close(ViewId(3));
    assert_eq!(e.tree.focus(), ViewId(1));
    assert_eq!(e.tree.len(), 2);
    assert!(!e.document(DocumentId(1)).unwrap().has_selection(ViewId(3)));
    assert!(e.document(DocumentId(1)).unwrap().has_selection(ViewId(2)));
    e.close(ViewId(2));
    assert_eq!(e.tree.focus(), ViewId(1));
    assert!(e.is_wf());
}

#[test]
fn close_of_the_last_pane_empties_the_tree() {
    let mut e = editor();
    e.close(ViewId(1));
    assert!(e.should_close());
    assert_eq!(e.tree.focus(), ViewId(0));
    assert_eq!(doc_ids(&e), vec![DocumentId(1)]);
    assert!(e.document(DocumentId(1)).unwrap().selections.is_empty());
    assert!(e.is_wf());
    assert!(!e.admits(Action::Replace));
    assert!(e.admits(Action::VerticalSplit));
    e.switch(DocumentId(1), Action::VerticalSplit);
    assert_eq!(pane_docs(&e), vec![DocumentId(1)]);
    assert_eq!(e.tree.focus(), ViewId(2));
}

#[test]
fn idle_timer_reset_then_clear_stays_quiet() {
    let mut e = editor();
    e.reset_idle_timer(5_000);
    assert_eq!(e.idle_timer.deadline, 5_400);
    assert!(!e.idle_timer.expired(5_399));
    assert!(e.idle_timer.expired(5_400));
    e.clear_idle_timer(5_000);
    assert_eq!(e.idle_timer.deadline, 5_000 + 946_080_000_000);
    assert_eq!(FAR_FUTURE_MS, 86_400 * 365 * 30 * 1_000);
    assert!(!e.idle_timer.expired(5_400));
    assert!(!e.idle_timer.expired(5_000 + FAR_FUTURE_MS - 1));
    assert!(e.idle_timer.expired(5_000 + FAR_FUTURE_MS));
}

#[test]
fn idle_timer_deadline_stops_at_the_end_of_the_clock() {
    let mut e = editor();
    e.reset_idle_timer(u64::MAX - 100);
    assert_eq!(e.idle_timer.deadline, u64::MAX);
    e.clear_idle_timer(u64::MAX);
    assert_eq!(e.idle_timer.deadline, u64::MAX);
}

#[test]
fn status_messages_are_set_and_cleared() {
    let mut e = editor();
    e.set_status("saved".to_string());
    assert_eq!(e.status_msg, Some(("saved".to_string(), Severity::Info)));
    e.set_error("failed".to_string());
    assert_eq!(e.status_msg, Some(("failed".to_string(), Severity::Error)));
    e.clear_status();
    assert_eq!(e.status_msg, None);
}

#[test]
fn theme_without_the_required_scope_is_turned_down() {
    let mut e = editor();
    e.set_theme(Theme::new(vec!["comment".to_string(), "ui.selection.primary".to_string()]));
    assert_eq!(
        e.status_msg,
        Some(("Invalid theme: `ui.selection` required".to_string(), Severity::Error))
    );
    assert_eq!(e.theme.scopes, vec!["ui.selection".to_string(), "comment".to_string()]);
}

#[test]
fn theme_with_the_required_scope_is_taken() {
    let mut e = editor();
    let t = Theme::new(vec!["keyword".to_string(), "ui.selection".to_string()]);
    assert_eq!(t.find_scope_index("ui.selection"), Some(1));
    assert_eq!(t.find_scope_index("keyword"), Some(0));
    assert_eq!(t.find_scope_index("ui"), None);
    e.set_theme(t);
    assert_eq!(e.status_msg, None);
    assert_eq!(e.theme.scopes, vec!["keyword".to_string(), "ui.selection".to_string()]);
}

#[test]
fn theme_by_name_fails_when_it_was_not_loaded() {
    let mut e = editor();
    assert_eq!(
        e.set_theme_from_name("solarized", None),
        Err(ThemeError::NotLoaded("solarized".to_string()))
    );
    assert_eq!(e.theme.scopes.len(), 2);
    let t = Theme::new(vec!["ui.selection".to_string()]);
    assert_eq!(e.set_theme_from_name("plain", Some(t)), Ok(()));
    assert_eq!(e.theme.scopes, vec!["ui.selection".to_string()]);
}

#[test]
fn refresh_language_server_binds_once() {
    let mut e = editor();
    let id = e.open("/tmp/a.rs".to_string(), Action::Replace, Some(file("x")), None).unwrap();
    assert_eq!(e.refresh_language_server(id, Some("source.rust".to_string()), Some(1)), Some(()));
    assert_eq!(e.document(id).unwrap().language.as_deref(), Some("source.rust"));
    assert_eq!(e.document(id).unwrap().language_server, Some(1));
    assert_eq!(e.outbox.len(), 1);
    assert_eq!(e.refresh_language_server(id, Some("source.rust".to_string()), Some(1)), Some(()));
    assert_eq!(e.outbox.len(), 1);
    assert_eq!(e.refresh_language_server(id, Some("source.c".to_string()), Some(2)), Some(()));
    assert_eq!(e.outbox.len(), 3);
    assert!(matches!(&e.outbox[1], Notification::DidClose { server: 1, .. }));
    assert!(matches!(&e.outbox[2], Notification::DidOpen { server: 2, .. }));
    assert_eq!(e.document(id).unwrap().language_server, Some(2));
    assert_eq!(e.refresh_language_server(id, None, Some(3)), Some(()));
    assert_eq!(e.outbox.len(), 3);
    assert_eq!(e.document(id).unwrap().language, None);
    assert_eq!(e.document(id).unwrap().language_server, Some(2));
}

#[test]
fn refresh_language_server_of_a_document_that_is_gone() {
    let mut e = editor();
    assert_eq!(e.refresh_language_server(DocumentId(4), Some("source.rust".to_string()), Some(1)), None);
    assert!(e.outbox.is_empty());
    assert_eq!(doc_ids(&e), vec![DocumentId(1)]);
}

#[test]
fn focus_moves_along_the_panes() {
    let mut e = editor();
    e.switch(DocumentId(1), Action::VerticalSplit);
    e.switch(DocumentId(1), Action::HorizontalSplit);
    assert_eq!(e.tree.focus(), ViewId(3));
    e.focus_next();
    assert_eq!(e.tree.focus(), ViewId(1));
    e.focus_left();
    assert_eq!(e.tree.focus(), ViewId(1));
    e.focus_down();
    assert_eq!(e.tree.focus(), ViewId(1));
    e.focus_right();
    assert_eq!(e.tree.focus(), ViewId(2));
    e.focus_right();
    assert_eq!(e.tree.focus(), ViewId(2));
    e.focus_down();
    assert_eq!(e.tree.focus(), ViewId(3));
    e.focus_left();
    assert_eq!(e.tree.focus(), ViewId(3));
    e.focus_up();
    assert_eq!(e.tree.focus(), ViewId(2));
    e.focus_left();
    assert_eq!(e.tree.focus(), ViewId(1));
    Motion::FocusNext.run(&mut e);
    assert_eq!(e.tree.focus(), ViewId(2));
    Motion::Focus(Direction::Down).run(&mut e);
    assert_eq!(e.tree.focus(), ViewId(3));
    assert!(e.is_wf());
}

#[test]
fn resize_gives_every_pane_the_new_area_and_scrolls() {
    let mut e = editor();
    {
        let doc = e.document_mut(DocumentId(1)).unwrap();
        doc.set_selection(ViewId(1), Selection::point(0, Position::new(15, 0)));
    }
    e.resize(Rect::new(0, 0, 80, 20));
    assert_eq!(e.tree.get(ViewId(1)).offset, Position::new(0, 0));
    e.resize(Rect::new(0, 0, 40, 10));
    assert_eq!(e.tree.area(), Rect::new(0, 0, 40, 10));
    assert_eq!(e.tree.get(ViewId(1)).area, Rect::new(0, 0, 40, 10));
    assert_eq!(e.tree.get(ViewId(1)).offset, Position::new(10, 0));
}

#[test]
fn ensure_cursor_in_view_scrolls_one_pane() {
    let mut e = editor();
    e.switch(DocumentId(1), Action::VerticalSplit);
    {
        let doc = e.document_mut(DocumentId(1)).unwrap();
        doc.set_selection(ViewId(1), Selection::point(0, Position::new(40, 100)));
        doc.set_selection(ViewId(2), Selection::point(0, Position::new(40, 100)));
    }
    e.ensure_cursor_in_view(ViewId(2));
    assert_eq!(e.tree.get(ViewId(1)).offset, Position::new(0, 0));
    assert_eq!(e.tree.get(ViewId(2)).offset, Position::new(26, 26));
    assert_eq!(e.cursor(), (Some(Position::new(14, 74)), CursorKind::Hidden));
    e.focus_next();
    assert_eq!(e.cursor(), (None, CursorKind::Hidden));
}

#[test]
fn documents_are_found_by_id_and_by_path() {
    let mut e = editor();
    let a = e.open("/tmp/a.txt".to_string(), Action::Load, Some(file("a")), None).unwrap();
    let b = e.open("/tmp/b.txt".to_string(), Action::Load, Some(file("b")), None).unwrap();
    assert_eq!(e.document(a).unwrap().text, "a");
    assert!(e.document(DocumentId(17)).is_none());
    assert!(e.document_mut(DocumentId(17)).is_none());
    assert_eq!(e.document_by_path("/tmp/b.txt").unwrap().id, b);
    assert!(e.document_by_path("/tmp/c.txt").is_none());
    e.document_by_path_mut("/tmp/b.txt").unwrap().path = Some("/tmp/a.txt".to_string());
    assert_eq!(e.document_by_path("/tmp/a.txt").unwrap().id, a);
    assert!(e.document_by_path_mut("/tmp/b.txt").is_none());
    assert_eq!(e.documents().len(), 3);
    e.documents_mut()[0].modified = true;
    assert!(e.document(DocumentId(1)).unwrap().is_modified());
    assert_eq!(e.doc_index(b), Some(2));
    assert_eq!(e.path_index("/tmp/a.txt"), Some(1));
}

#[test]
fn is_wf_tells_a_broken_editor() {
    let mut e = editor();
    assert!(e.is_wf());
    e.documents_mut()[0].id = DocumentId(5);
    assert!(!e.is_registry_wf());
    assert!(!e.is_wf());
    e.documents_mut()[0].id = DocumentId(1);
    assert!(e.is_wf());
    e.document_mut(DocumentId(1)).unwrap().remove_selection(ViewId(1));
    assert!(e.is_registry_wf());
    assert!(!e.is_wf());
    e.document_mut(DocumentId(1)).unwrap().seed_selection(ViewId(1));
    e.tree.get_mut(ViewId(1)).doc = DocumentId(3);
    assert!(!e.is_wf());
    e.tree.get_mut(ViewId(1)).doc = DocumentId(1);
    e.tree.get_mut(ViewId(1)).id = ViewId(8);
    assert!(!e.tree.is_wf());
    assert!(!e.is_wf());
}

#[test]
fn first_viewer_and_shown_elsewhere() {
    let mut e = editor();
    let b = e.new_file(Action::VerticalSplit);
    e.switch(DocumentId(1), Action::VerticalSplit);
    assert_eq!(pane_docs(&e), vec![DocumentId(1), b, DocumentId(1)]);
    assert_eq!(e.first_viewer(DocumentId(1)), Some(ViewId(1)));
    assert_eq!(e.first_viewer(b), Some(ViewId(2)));
    assert_eq!(e.first_viewer(DocumentId(7)), None);
    assert!(e.shown_elsewhere(DocumentId(1), ViewId(1)));
    assert!(e.shown_elsewhere(DocumentId(1), ViewId(2)));
    assert!(!e.shown_elsewhere(b, ViewId(2)));
    assert!(e.shown_elsewhere(b, ViewId(1)));
    e.close_viewers(DocumentId(1));
    assert_eq!(pane_docs(&e), vec![b]);
    assert_eq!(e.tree.focus(), ViewId(2));
    assert!(e.can_mint());
}
