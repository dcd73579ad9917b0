use f1_editor::cursor::Position;
use f1_editor::tab::Tab;
use f1_editor::tab_manager::TabManager;

fn editor_text(t: &Tab) -> String {
    match t {
        Tab::Editor { buffer, .. } => buffer.to_string(),
        Tab::Terminal { .. } => String::new(),
    }
}

fn set_text(t: &mut Tab, text: &str) {
    if let Tab::Editor { buffer, .. } = t {
        *buffer = f1_editor::rope_buffer::RopeBuffer::from_str(text);
    }
}

#[test]
fn new_tab_is_an_empty_unmodified_editor() {
    let t = Tab::new("notes".to_string());
    assert!(t.is_editor_tab());
    assert_eq!(t.name(), "notes");
    assert!(!t.modified());
    assert_eq!(editor_text(&t), "");
    assert_eq!(t.display_name(), "notes");
}

#[test]
fn from_file_names_the_tab_after_the_file() {
    let t = Tab::from_file("/tmp/dir/readme.md".to_string(), "# Title\n");
    assert_eq!(t.name(), "readme.md");
    assert_eq!(t.path().map(|p| p.as_str()), Some("/tmp/dir/readme.md"));
    assert!(t.is_markdown());
    assert!(t.preview_enabled());
    assert_eq!(editor_text(&t), "# Title\n");
}

#[test]
fn modified_tab_shows_a_marker() {
    let mut t = Tab::new("a.txt".to_string());
    t.mark_modified();
    assert!(t.modified());
    assert_eq!(t.display_name(), "a.txt*");
    t.mark_saved();
    assert!(!t.modified());
    assert_eq!(t.display_name(), "a.txt");
}

#[test]
fn undo_restores_the_saved_text_and_redo_brings_the_edit_back() {
    let mut t = Tab::new("u".to_string());
    set_text(&mut t, "one");
    t.save_state();
    set_text(&mut t, "two");
    assert!(t.undo());
    assert_eq!(editor_text(&t), "one");
    assert!(t.redo());
    assert_eq!(editor_text(&t), "two");
    assert!(!t.redo());
}

fn stack_lens(t: &Tab) -> (usize, usize) {
    match t {
        Tab::Editor { undo_stack, redo_stack, .. } => (undo_stack.len(), redo_stack.len()),
        Tab::Terminal { .. } => (0, 0),
    }
}

#[test]
fn undo_after_save_pops_the_snapshot_and_keeps_the_edit_for_redo() {
    let mut t = Tab::new("u".to_string());
    set_text(&mut t, "one");
    t.save_state();
    assert_eq!(stack_lens(&t), (1, 0));
    set_text(&mut t, "two");
    if let Tab::Editor { cursor, .. } = &mut t {
        cursor.position = Position::new(0, 2);
    }
    t.mark_modified();
    assert!(t.undo());
    assert_eq!(editor_text(&t), "one");
    assert_eq!(stack_lens(&t), (0, 1));
    assert!(!t.modified());
    match &t {
        Tab::Editor { redo_stack, .. } => {
            let top = redo_stack.last().unwrap();
            assert_eq!(top.buffer.to_string(), "two");
            assert_eq!(top.cursor.position, Position::new(0, 2));
        }
        Tab::Terminal { .. } => panic!("not an editor"),
    }
}

#[test]
fn undo_keeps_the_tab_modified_while_older_snapshots_remain() {
    let mut t = Tab::new("u".to_string());
    set_text(&mut t, "a");
    t.save_state();
    set_text(&mut t, "ab");
    t.save_state();
    set_text(&mut t, "abc");
    t.mark_modified();
    assert!(t.undo());
    assert_eq!(editor_text(&t), "ab");
    assert_eq!(stack_lens(&t), (1, 1));
    assert!(t.modified());
}

#[test]
fn undo_with_empty_history_does_nothing() {
    let mut t = Tab::new("u".to_string());
    set_text(&mut t, "keep");
    assert!(!t.undo());
    assert_eq!(editor_text(&t), "keep");
}

#[test]
fn viewport_follows_the_cursor() {
    let mut t = Tab::new("v".to_string());
    set_text(&mut t, &"x\n".repeat(100));
    if let Tab::Editor { cursor, .. } = &mut t {
        cursor.position = Position::new(50, 0);
    }
    t.update_viewport(10);
    if let Tab::Editor { viewport_offset, .. } = &t {
        assert_eq!(viewport_offset.0, 41);
    }
    t.viewport_up(5);
    if let Tab::Editor { viewport_offset, .. } = &t {
        assert_eq!(viewport_offset.0, 36);
    }
}

#[test]
fn terminal_tab_keeps_its_id() {
    let t = Tab::new_terminal(7);
    assert!(!t.is_editor_tab());
    match t {
        Tab::Terminal { terminal_id, .. } => assert_eq!(terminal_id, 7),
        _ => panic!("not a terminal"),
    }
}

#[test]
fn tab_manager_starts_with_one_untitled_tab() {
    let m = TabManager::new();
    assert_eq!(m.len(), 1);
    assert_eq!(m.active_index(), 0);
    assert_eq!(m.tabs()[0].name(), "untitled");
}

#[test]
fn next_and_prev_wrap_around() {
    let mut m = TabManager::new();
    m.add_tab(Tab::new("b".to_string()));
    m.add_tab(Tab::new("c".to_string()));
    assert_eq!(m.active_index(), 2);
    m.next_tab();
    assert_eq!(m.active_index(), 0);
    m.prev_tab();
    assert_eq!(m.active_index(), 2);
    m.next_tab();
    m.prev_tab();
    assert_eq!(m.active_index(), 2);
}

#[test]
fn adding_an_open_file_activates_its_tab() {
    let mut m = TabManager::new();
    m.add_tab(Tab::from_file("/a/x.rs".to_string(), "fn main() {}"));
    m.add_tab(Tab::new("other".to_string()));
    assert_eq!(m.len(), 3);
    m.add_tab(Tab::from_file("/a/x.rs".to_string(), "ignored"));
    assert_eq!(m.len(), 3);
    assert_eq!(m.active_index(), 1);
}

#[test]
fn closing_keeps_at_least_one_tab() {
    let mut m = TabManager::new();
    assert!(!m.close_tab(0));
    m.add_tab(Tab::new("b".to_string()));
    assert!(m.close_tab(1));
    assert_eq!(m.len(), 1);
    assert_eq!(m.active_index(), 0);
    assert!(!m.close_tab(5));
}

#[test]
fn reorder_moves_the_tab_and_keeps_the_active_one() {
    let mut m = TabManager::new();
    m.add_tab(Tab::new("b".to_string()));
    m.add_tab(Tab::new("c".to_string()));
    m.set_active_index(0);
    m.reorder_tab(0, 2);
    let names: Vec<&str> = m.tabs().iter().map(|t| t.name().as_str()).collect();
    assert_eq!(names, vec!["b", "c", "untitled"]);
    assert_eq!(m.active_index(), 2);
    assert_eq!(m.tabs()[m.active_index()].name(), "untitled");
}

#[test]
fn close_other_tabs_keeps_the_active_one() {
    let mut m = TabManager::new();
    m.add_tab(Tab::new("b".to_string()));
    m.add_tab(Tab::new("c".to_string()));
    m.set_active_index(1);
    m.close_other_tabs();
    assert_eq!(m.len(), 1);
    assert_eq!(m.tabs()[0].name(), "b");
    assert_eq!(m.active_index(), 0);
}
