use helix_view::config::{Config, FilePickerConfig, LineNumber};
use helix_view::document::{Document, DocumentId, SCRATCH_BUFFER_NAME};
use helix_view::editor::{Editor, IdleTimer};
use helix_view::graphics::{Position, Rect};
use helix_view::language::{language_id, launch, shutdown_timeout_ms, Notification};
use helix_view::pane::{scroll_axis, Layout, Pane, ViewId};
use helix_view::selection::Selection;
use helix_view::tree::{Direction, Tree};

#[test]
fn config_defaults() {
    let c = Config::default();
    assert_eq!(c.scrolloff, 5);
    assert_eq!(c.scroll_lines, 3);
    assert!(c.mouse);
    assert_eq!(c.shell, vec!["sh".to_string(), "-c".to_string()]);
    assert_eq!(c.line_number, LineNumber::Absolute);
    assert!(c.middle_click_paste);
    assert!(c.smart_case);
    assert!(c.auto_pairs);
    assert!(c.auto_completion);
    assert_eq!(c.idle_timeout, 400);
    assert_eq!(c.completion_trigger_len, 2);
    assert!(c.auto_info);
    assert_eq!(c.file_picker, FilePickerConfig::default());
}

#[test]
fn file_picker_defaults() {
    let f = FilePickerConfig::default();
    assert!(f.hidden && f.parents && f.ignore && f.git_ignore && f.git_global && f.git_exclude);
    assert_eq!(f.max_depth, None);
}

#[test]
fn language_id_is_what_follows_the_last_dot() {
    assert_eq!(language_id("source.rust"), "rust");
    assert_eq!(language_id("source.ts.tsx"), "tsx");
    assert_eq!(language_id("rust"), "rust");
    assert_eq!(language_id(""), "");
    assert_eq!(language_id("source."), "");
    assert_eq!(language_id(".x"), "x");
    assert_eq!(language_id("text.h\u{e9}.\u{fc}ber"), "\u{fc}ber");
}

#[test]
fn launch_without_language_or_server_does_nothing() {
    let mut doc = Document::from_text("x".to_string());
    assert!(launch(&mut doc, Some(1)).is_empty());
    assert_eq!(doc.language_server, None);
    doc.language = Some("source.rust".to_string());
    assert!(launch(&mut doc, None).is_empty());
    assert_eq!(doc.language_server, None);
}

#[test]
fn launch_binds_and_rebinds() {
    let mut doc = Document::from_text("body".to_string());
    doc.language = Some("source.rust".to_string());
    doc.path = Some("/p/a.rs".to_string());
    doc.version = 3;
    let sent = Editor::launch_language_server(&mut doc, Some(1));
    assert_eq!(sent.len(), 1);
    match &sent[0] {
        Notification::DidOpen { server, path, version, text, language_id } => {
            assert_eq!(*server, 1);
            assert_eq!(path.as_deref(), Some("/p/a.rs"));
            assert_eq!(*version, 3);
            assert_eq!(text, "body");
            assert_eq!(language_id, "rust");
        }
        other => panic!("unexpected notification {:?}", other),
    }
    assert_eq!(doc.language_server, Some(1));
    assert!(Editor::launch_language_server(&mut doc, Some(1)).is_empty());
    let sent = Editor::launch_language_server(&mut doc, Some(2));
    assert_eq!(sent.len(), 2);
    match &sent[0] {
        Notification::DidClose { server, path } => {
            assert_eq!(*server, 1);
            assert_eq!(path.as_deref(), Some("/p/a.rs"));
        }
        other => panic!("unexpected notification {:?}", other),
    }
    assert!(matches!(&sent[1], Notification::DidOpen { server: 2, .. }));
    assert_eq!(doc.language_server, Some(2));
}

#[test]
fn shutdown_timeout_defaults_to_half_a_second() {
    assert_eq!(shutdown_timeout_ms(None), 500);
    assert_eq!(shutdown_timeout_ms(Some(0)), 0);
    assert_eq!(shutdown_timeout_ms(Some(1_234)), 1_234);
}

#[test]
fn scroll_axis_moves_the_least() {
    assert_eq!(scroll_axis(0, 20, 30, 5), 16);
    assert_eq!(scroll_axis(50, 20, 10, 5), 5);
    assert_eq!(scroll_axis(50, 20, 2, 5), 0);
    assert_eq!(scroll_axis(50, 20, 60, 5), 50);
    assert_eq!(scroll_axis(50, 20, 55, 5), 50);
    assert_eq!(scroll_axis(50, 20, 54, 5), 49);
    assert_eq!(scroll_axis(50, 20, 64, 5), 50);
    assert_eq!(scroll_axis(50, 20, 65, 5), 51);
    assert_eq!(scroll_axis(5, 0, 9, 3), 9);
    assert_eq!(scroll_axis(5, 1, 2, 3), 2);
    assert_eq!(scroll_axis(0, 3, 10, 5), 9);
    assert_eq!(scroll_axis(0, 4, 10, 5), 8);
    assert_eq!(scroll_axis(usize::MAX, 20, usize::MAX, usize::MAX), usize::MAX - 9);
    assert_eq!(scroll_axis(0, u16::MAX, usize::MAX, 0), usize::MAX - 65_534);
}

#[test]
fn pane_scrolls_and_maps_the_cursor() {
    let mut pane = Pane::new(DocumentId(4));
    assert_eq!(pane.id, ViewId(0));
    assert_eq!(pane.doc, DocumentId(4));
    assert_eq!(pane.layout, Layout::Vertical);
    assert_eq!(pane.inner_area(), Rect::new(0, 0, 0, 0));
    assert_eq!(pane.screen_coords_at_pos(Position::new(0, 0)), None);
    pane.area = Rect::new(3, 2, 40, 10);
    assert_eq!(pane.screen_coords_at_pos(Position::new(9, 7)), Some(Position::new(9, 7)));
    assert_eq!(pane.screen_coords_at_pos(Position::new(10, 7)), None);
    pane.ensure_cursor_in_view(Position::new(30, 50), 2);
    assert_eq!(pane.offset, Position::new(23, 13));
    assert_eq!(pane.screen_coords_at_pos(Position::new(30, 50)), Some(Position::new(7, 37)));
    assert_eq!(pane.screen_coords_at_pos(Position::new(22, 50)), None);
    assert_eq!(pane.screen_coords_at_pos(Position::new(23, 4)), Some(Position::new(0, 0)));
    pane.bind(DocumentId(6), 3);
    assert_eq!(pane.doc, DocumentId(6));
    assert_eq!(pane.offset, Position::new(0, 0));
    pane.bind(DocumentId(6), 5);
    assert_eq!(pane.offset, Position::new(0, 0));
    pane.bind(DocumentId(6), 6);
    assert_eq!(pane.offset, Position::new(1, 0));
    pane.push_jump(DocumentId(6), Selection::start());
    assert_eq!(pane.jumps, vec![(DocumentId(6), Selection::start())]);
    assert_eq!(pane.last_accessed_doc, Some(DocumentId(6)));
}

#[test]
fn document_selections_and_names() {
    let mut doc = Document::default();
    assert_eq!(doc.id, DocumentId::default());
    assert_eq!(DocumentId::default(), DocumentId(1));
    assert_eq!(doc.display_name(), "[scratch]");
    assert_eq!(SCRATCH_BUFFER_NAME, "[scratch]");
    assert!(!doc.is_modified());
    assert!(!doc.has_path("a"));
    doc.path = Some("src/lib.rs".to_string());
    assert_eq!(doc.display_name(), "src/lib.rs");
    assert!(doc.has_path("src/lib.rs"));
    assert!(!doc.has_path("src/lib"));
    assert!(!doc.has_selection(ViewId(2)));
    doc.seed_selection(ViewId(2));
    assert_eq!(doc.selection(ViewId(2)), Selection::start());
    let sel = Selection::point(4, Position::new(1, 1));
    assert!(sel.is_point());
    doc.set_selection(ViewId(2), sel);
    doc.seed_selection(ViewId(2));
    assert_eq!(doc.selection(ViewId(2)), sel);
    doc.remove_selection(ViewId(2));
    assert!(!doc.has_selection(ViewId(2)));
    assert!(!Selection { anchor: 1, head: 2, cursor: Position::new(0, 2) }.is_point());
}

#[test]
fn tree_attaches_behind_the_focus_and_removes() {
    let mut tree = Tree::new(Rect::new(0, 0, 10, 10));
    assert!(tree.is_empty());
    assert!(tree.is_wf());
    assert_eq!(tree.focus(), ViewId(0));
    let a = tree.insert(Pane::new(DocumentId(1)));
    let b = tree.split(Pane::new(DocumentId(2)), Layout::Horizontal);
    tree.focus_direction(Direction::Up);
    assert_eq!(tree.focus(), a);
    let c = tree.insert(Pane::new(DocumentId(3)));
    assert_eq!((a, b, c), (ViewId(1), ViewId(2), ViewId(3)));
    let order: Vec<ViewId> = tree.traverse().iter().map(|p| p.id).collect();
    assert_eq!(order, vec![a, c, b]);
    assert_eq!(tree.index_of(b), Some(2));
    assert_eq!(tree.index_of(ViewId(9)), None);
    assert_eq!(tree.pane(1).doc, DocumentId(3));
    assert_eq!(tree.focus(), c);
    tree.remove(c);
    assert_eq!(tree.focus(), b);
    tree.remove(ViewId(9));
    assert_eq!(tree.len(), 2);
    tree.remove(b);
    assert_eq!(tree.focus(), a);
    tree.remove(a);
    assert!(tree.is_empty());
    assert_eq!(tree.focus(), ViewId(0));
    let d = tree.insert(Pane::new(DocumentId(1)));
    assert_eq!(d, ViewId(4));
    assert!(tree.is_wf());
    assert!(tree.can_mint());
    assert!(!tree.resize(Rect::new(0, 0, 10, 10)));
    assert!(tree.resize(Rect::new(0, 0, 10, 11)));
    assert_eq!(tree.get(d).area, Rect::new(0, 0, 10, 11));
}

#[test]
fn idle_timer_fires_from_its_deadline() {
    let t = IdleTimer::after(10, 5);
    assert_eq!(t.deadline, 15);
    assert!(!t.expired(14));
    assert!(t.expired(15));
    assert!(t.expired(16));
    assert_eq!(IdleTimer::after(u64::MAX, 1).deadline, u64::MAX);
    assert_eq!(IdleTimer::after(0, 0).deadline, 0);
}
