use f1_editor::editor_app::{App, AppRequest};
use f1_editor::gitignore::GitIgnore;
use f1_editor::keyboard::{KeyCode, KeyEvent, KeyModifiers};
use f1_editor::mouse::{MouseButton, MouseEvent, MouseEventKind};
use f1_editor::picker::{find_repo_root, fuzzy_match};
use f1_editor::tree::{DirEntry, DirListing, TreeError};
use f1_editor::tree_view::TreeView;
use f1_editor::ui_state::FocusMode;

fn entry(path: &str, is_dir: bool) -> DirEntry {
    DirEntry { path: path.to_string(), is_dir }
}

fn listing(dir: &str, entries: Vec<DirEntry>) -> DirListing {
    DirListing { dir: dir.to_string(), entries }
}

fn sample_fs() -> Vec<DirListing> {
    vec![
        listing(
            "/r",
            vec![
                entry("/r/b.txt", false),
                entry("/r/src", true),
                entry("/r/A.md", false),
                entry("/r/target", true),
            ],
        ),
        listing("/r/src", vec![entry("/r/src/main.rs", false)]),
    ]
}

fn names(t: &TreeView) -> Vec<String> {
    t.get_visible_items().iter().map(|n| n.name.clone()).collect()
}

fn key(code: KeyCode) -> KeyEvent {
    KeyEvent { code, modifiers: KeyModifiers::none() }
}

fn mouse(kind: MouseEventKind, column: u16, row: u16) -> MouseEvent {
    MouseEvent { kind, column, row, modifiers: KeyModifiers::none() }
}

#[test]
fn gitignore_matches_patterns_and_defaults() {
    let g = GitIgnore::new("/r".to_string(), Some("target/\n*.log\n!keep.log\n# comment\n"));
    assert!(g.is_ignored("/r/target", true));
    assert!(!g.is_ignored("/r/target", false));
    assert!(g.is_ignored("/r/debug.log", false));
    assert!(!g.is_ignored("/r/keep.log", false));
    assert!(g.is_ignored("/r/.git", true));
    assert!(g.is_ignored("/r/notes.swp", false));
    assert!(!g.is_ignored("/r/src/main.rs", false));
}

#[test]
fn tree_lists_directories_first_sorted_by_name() {
    let g = GitIgnore::new("/r".to_string(), Some("target/\n"));
    let t = TreeView::new("/r".to_string(), 30, true, g, &sample_fs()).ok().unwrap();
    assert_eq!(names(&t), vec!["src", "target", "A.md", "b.txt"]);
    let items = t.get_visible_items();
    assert!(items[1].is_gitignored);
    assert!(!items[0].is_gitignored);
}

#[test]
fn tree_fails_without_a_listing() {
    let g = GitIgnore::new("/r".to_string(), None);
    let r = TreeView::new("/nowhere".to_string(), 30, true, g, &sample_fs());
    assert!(matches!(r, Err(TreeError::ReadFailed)));
}

#[test]
fn toggling_a_directory_shows_its_children() {
    let g = GitIgnore::new("/r".to_string(), None);
    let mut t = TreeView::new("/r".to_string(), 30, true, g, &sample_fs()).ok().unwrap();
    assert!(t.toggle_directory(&sample_fs()).is_ok());
    assert_eq!(names(&t), vec!["src", "main.rs", "target", "A.md", "b.txt"]);
    assert!(t.toggle_directory(&sample_fs()).is_ok());
    assert_eq!(names(&t), vec!["src", "target", "A.md", "b.txt"]);
}

#[test]
fn expand_to_file_selects_it() {
    let g = GitIgnore::new("/r".to_string(), None);
    let mut t = TreeView::new("/r".to_string(), 30, true, g, &sample_fs()).ok().unwrap();
    assert!(t.expand_to_file("/r/src/main.rs", &sample_fs()).is_ok());
    let sel = t.get_selected_item().unwrap();
    assert_eq!(sel.path, "/r/src/main.rs");
}

#[test]
fn copied_item_is_reported() {
    let g = GitIgnore::new("/r".to_string(), None);
    let mut t = TreeView::new("/r".to_string(), 30, true, g, &sample_fs()).ok().unwrap();
    assert!(!t.has_clipboard());
    t.move_down();
    t.move_down();
    t.copy_selected();
    assert_eq!(t.get_clipboard_info().as_deref(), Some("Copied: A.md"));
    t.cut_selected();
    assert_eq!(t.get_clipboard_info().as_deref(), Some("Cut: A.md"));
}

#[test]
fn fuzzy_match_is_a_subsequence_test() {
    assert!(fuzzy_match("main.rs", "mrs"));
    assert!(fuzzy_match("main.rs", ""));
    assert!(!fuzzy_match("main.rs", "sm"));
}

#[test]
fn repo_root_is_the_nearest_directory_with_git() {
    assert_eq!(find_repo_root("/a/b/c", &[false, true, false]), "/a/b");
    assert_eq!(find_repo_root("/a/b/c", &[false, false, false]), "/a/b/c");
}

#[test]
fn tree_keys_open_files_and_toggle_directories() {
    let g = GitIgnore::new("/r".to_string(), None);
    let t = TreeView::new("/r".to_string(), 30, true, g, &sample_fs()).ok().unwrap();
    let mut a = App::new(Some(t));
    a.terminal_size = (80, 24);
    a.focus_mode = FocusMode::TreeView;
    let mut clip = String::new();
    let (_, r) = a.handle_key_event(key(KeyCode::Enter), 0, &mut clip);
    assert!(matches!(r, Some(AppRequest::ToggleTreeSelection)));
    a.handle_key_event(key(KeyCode::Down), 0, &mut clip);
    a.handle_key_event(key(KeyCode::Down), 0, &mut clip);
    let (_, r) = a.handle_key_event(key(KeyCode::Char('e')), 0, &mut clip);
    match r {
        Some(AppRequest::OpenFile(p)) => assert_eq!(p, "/r/A.md"),
        _ => panic!("expected an open request"),
    }
    a.handle_key_event(key(KeyCode::Esc), 0, &mut clip);
    assert_eq!(a.focus_mode, FocusMode::Editor);
}

#[test]
fn clicking_the_tree_focuses_and_selects() {
    let g = GitIgnore::new("/r".to_string(), None);
    let t = TreeView::new("/r".to_string(), 30, true, g, &sample_fs()).ok().unwrap();
    let mut a = App::new(Some(t));
    a.terminal_size = (80, 24);
    a.sidebar_width = 30;
    let r = a.handle_mouse_event(mouse(MouseEventKind::Down(MouseButton::Left), 3, 2), 0);
    assert!(r.is_none());
    assert_eq!(a.focus_mode, FocusMode::TreeView);
    let sel = a.tree_view.as_ref().unwrap().get_selected_item().unwrap();
    assert_eq!(sel.name, "A.md");
}

#[test]
fn sidebar_border_drag_resizes_within_bounds() {
    let mut a = App::new(None);
    a.terminal_size = (100, 30);
    a.sidebar_width = 30;
    a.handle_mouse_event(mouse(MouseEventKind::Down(MouseButton::Left), 30, 5), 0);
    assert!(a.sidebar_resizing);
    a.handle_mouse_event(mouse(MouseEventKind::Drag(MouseButton::Left), 5, 5), 0);
    assert_eq!(a.sidebar_width, 15);
    a.handle_mouse_event(mouse(MouseEventKind::Drag(MouseButton::Left), 90, 5), 0);
    assert_eq!(a.sidebar_width, 50);
    a.handle_mouse_event(mouse(MouseEventKind::Up(MouseButton::Left), 90, 5), 0);
    assert!(!a.sidebar_resizing);
}

#[test]
fn clicking_text_moves_the_cursor_and_double_click_selects_a_word() {
    let mut a = App::new(None);
    a.terminal_size = (80, 24);
    a.sidebar_width = 0;
    a.open_file_in_tab("/w/t.txt".to_string(), "hello world\nsecond");
    a.handle_mouse_event(mouse(MouseEventKind::Down(MouseButton::Left), 8, 1), 100);
    let c = match a.tab_manager.active_tab() {
        Some(f1_editor::tab::Tab::Editor { cursor, .. }) => *cursor,
        _ => panic!(),
    };
    assert_eq!((c.position.line, c.position.column), (0, 8));
    assert!(c.selection_start.is_none());
    a.handle_mouse_event(mouse(MouseEventKind::Down(MouseButton::Left), 8, 1), 300);
    let c = match a.tab_manager.active_tab() {
        Some(f1_editor::tab::Tab::Editor { cursor, .. }) => *cursor,
        _ => panic!(),
    };
    assert_eq!(c.selection_start.map(|p| (p.line, p.column)), Some((0, 6)));
    assert_eq!((c.position.line, c.position.column), (0, 11));
}

#[test]
fn dialog_buttons_are_found_by_position() {
    let mut a = App::new(None);
    a.terminal_size = (80, 24);
    a.warning_message = Some("Delete?".to_string());
    a.warning_is_info = false;
    // The dialog is 50 wide at column 15 and 7 high at row 8; buttons on row 13.
    assert_eq!(a.get_dialog_button_at_position(29, 13), Some(0));
    assert_eq!(a.get_dialog_button_at_position(46, 13), Some(1));
    assert_eq!(a.get_dialog_button_at_position(46, 12), None);
    a.pending_delete_path = Some("/w/x".to_string());
    let r = a.handle_mouse_event(mouse(MouseEventKind::Down(MouseButton::Left), 46, 13), 0);
    assert!(matches!(r, Some(AppRequest::Delete(p)) if p == "/w/x"));
    assert!(a.warning_message.is_none());
}

#[test]
fn tab_bar_clicks_pick_tabs_and_the_hint() {
    let mut a = App::new(None);
    a.terminal_size = (80, 24);
    a.create_new_tab();
    assert_eq!(a.get_clicked_tab(3), Some(0));
    assert_eq!(a.get_clicked_tab(20), Some(1));
    assert_eq!(a.get_clicked_tab(40), None);
    assert!(a.is_ctrl_n_hint_clicked(30));
    assert!(!a.is_ctrl_n_hint_clicked(40));
    let (handled, _) = a.handle_tab_bar_mouse(mouse(MouseEventKind::Down(MouseButton::Left), 3, 0), 1);
    assert!(handled);
    assert_eq!(a.tab_manager.active_index(), 0);
    let (handled, _) = a.handle_tab_bar_mouse(mouse(MouseEventKind::Down(MouseButton::Left), 30, 0), 0);
    assert!(handled);
    assert_eq!(a.tab_manager.len(), 3);
}

#[test]
fn wheel_scrolls_faster_when_scrolls_follow_each_other() {
    let mut a = App::new(None);
    a.terminal_size = (80, 12);
    a.open_file_in_tab("/w/long.txt".to_string(), &"line\n".repeat(100));
    a.handle_editor_scroll(MouseEventKind::ScrollDown, 1000);
    a.handle_editor_scroll(MouseEventKind::ScrollDown, 1050);
    a.handle_editor_scroll(MouseEventKind::ScrollDown, 1100);
    assert_eq!(a.scroll_acceleration, 3);
    let vp = match a.tab_manager.active_tab() {
        Some(f1_editor::tab::Tab::Editor { viewport_offset, .. }) => *viewport_offset,
        _ => panic!(),
    };
    assert_eq!(vp.0, 6);
    a.handle_editor_scroll(MouseEventKind::ScrollUp, 5000);
    assert_eq!(a.scroll_acceleration, 1);
}

#[test]
fn clicking_where_a_tab_is_drawn_selects_it() {
    let mut a = App::new(None);
    a.terminal_size = (60, 24);
    for _ in 0..9 {
        a.create_new_tab();
    }
    assert_eq!(a.tab_manager.len(), 10);
    a.tab_manager.set_active_index(5);
    // 52 columns hold 3 tabs: tabs 4, 5 and 6 are drawn after the 3-column mark.
    assert_eq!(a.get_tab_x_position_for_menu(4), 3);
    assert_eq!(a.get_tab_x_position_for_menu(5), 17);
    assert_eq!(a.get_tab_x_position_for_menu(6), 31);
    for i in 4..7 {
        assert_eq!(a.get_clicked_tab(a.get_tab_x_position_for_menu(i)), Some(i));
    }
    a.terminal_size = (200, 24);
    for i in 0..10 {
        assert_eq!(a.get_tab_x_position_for_menu(i), (i * 14) as u16);
        assert_eq!(a.get_clicked_tab(a.get_tab_x_position_for_menu(i)), Some(i));
    }
}
