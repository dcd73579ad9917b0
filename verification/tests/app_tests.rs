use f1_editor::editor_app::{App, AppRequest};
use f1_editor::keyboard::{KeyCode, KeyEvent, KeyModifiers};
use f1_editor::menu::MenuState;
use f1_editor::tab::Tab;
use f1_editor::ui_state::FocusMode;

fn key(code: KeyCode) -> KeyEvent {
    KeyEvent { code, modifiers: KeyModifiers::none() }
}

fn ctrl(c: char) -> KeyEvent {
    let mut m = KeyModifiers::none();
    m.control = true;
    KeyEvent { code: KeyCode::Char(c), modifiers: m }
}

fn app() -> App {
    let mut a = App::new(None);
    a.terminal_size = (80, 24);
    a
}

fn active_text(a: &App) -> String {
    match a.tab_manager.active_tab() {
        Some(Tab::Editor { buffer, .. }) => buffer.to_string(),
        _ => String::new(),
    }
}

fn type_str(a: &mut App, s: &str, clip: &mut String) {
    for c in s.chars() {
        let (handled, r) = a.handle_key_event(key(KeyCode::Char(c)), 0, clip);
        assert!(handled);
        assert!(r.is_none());
    }
}

#[test]
fn typing_in_the_editor_edits_the_active_tab() {
    let mut a = app();
    let mut clip = String::new();
    type_str(&mut a, "hi", &mut clip);
    a.handle_key_event(key(KeyCode::Enter), 0, &mut clip);
    a.handle_key_event(key(KeyCode::Tab), 0, &mut clip);
    assert_eq!(active_text(&a), "hi\n\t");
    assert!(a.tab_manager.active_tab().unwrap().modified());
}

#[test]
fn ctrl_s_on_an_unnamed_tab_asks_for_a_name() {
    let mut a = app();
    let mut clip = String::new();
    let (handled, r) = a.handle_key_event(ctrl('s'), 0, &mut clip);
    assert!(handled);
    assert!(matches!(r, Some(AppRequest::AskSaveName)));
}

#[test]
fn ctrl_s_on_a_file_asks_to_write_it() {
    let mut a = app();
    let mut clip = String::new();
    a.open_file_in_tab("/w/a.txt".to_string(), "abc");
    let (_, r) = a.handle_key_event(ctrl('s'), 0, &mut clip);
    match r {
        Some(AppRequest::SaveFile { path, content }) => {
            assert_eq!(path, "/w/a.txt");
            assert_eq!(content, "abc");
        }
        _ => panic!("expected a save request"),
    }
}

#[test]
fn ctrl_n_adds_a_numbered_tab() {
    let mut a = app();
    let mut clip = String::new();
    a.handle_key_event(ctrl('n'), 0, &mut clip);
    assert_eq!(a.tab_manager.len(), 2);
    assert_eq!(a.tab_manager.active_tab().unwrap().name(), "untitled-2");
}

#[test]
fn ctrl_q_with_unsaved_changes_warns_first() {
    let mut a = app();
    let mut clip = String::new();
    type_str(&mut a, "x", &mut clip);
    a.handle_key_event(ctrl('q'), 0, &mut clip);
    assert!(a.running);
    assert_eq!(
        a.warning_message.as_deref(),
        Some("Tab 'untitled' has unsaved changes. Quit anyway?")
    );
    // Escape cancels the warning.
    let (handled, r) = a.handle_key_event(key(KeyCode::Esc), 0, &mut clip);
    assert!(!handled);
    assert!(r.is_none());
    assert!(a.warning_message.is_none());
}

#[test]
fn ctrl_q_without_changes_quits() {
    let mut a = app();
    let mut clip = String::new();
    a.handle_key_event(ctrl('q'), 0, &mut clip);
    assert!(!a.running);
}

#[test]
fn confirming_a_delete_asks_to_delete_the_path() {
    let mut a = app();
    let mut clip = String::new();
    a.warning_message = Some("Delete?".to_string());
    a.pending_delete_path = Some("/w/old.txt".to_string());
    a.warning_is_info = false;
    a.warning_selected_button = 0;
    a.handle_key_event(key(KeyCode::Char('y')), 0, &mut clip);
    assert_eq!(a.warning_selected_button, 1);
    let (_, r) = a.handle_key_event(key(KeyCode::Enter), 0, &mut clip);
    match r {
        Some(AppRequest::Delete(p)) => assert_eq!(p, "/w/old.txt"),
        _ => panic!("expected a delete request"),
    }
    assert!(a.warning_message.is_none());
    assert!(a.pending_delete_path.is_none());
    assert_eq!(a.warning_selected_button, 0);
}

#[test]
fn left_and_right_switch_the_warning_button() {
    let mut a = app();
    a.warning_message = Some("Sure?".to_string());
    a.warning_is_info = false;
    a.warning_selected_button = 0;
    a.handle_warning_key(key(KeyCode::Left));
    assert_eq!(a.warning_selected_button, 1);
    a.handle_warning_key(key(KeyCode::Right));
    assert_eq!(a.warning_selected_button, 0);
}

#[test]
fn a_button_index_out_of_range_counts_as_no() {
    let mut a = app();
    let mut clip = String::new();
    a.warning_message = Some("Delete?".to_string());
    a.pending_delete_path = Some("/w/old.txt".to_string());
    a.warning_is_info = false;
    a.warning_selected_button = 5;
    let (handled, r) = a.handle_key_event(key(KeyCode::Enter), 0, &mut clip);
    assert!(!handled);
    assert!(r.is_none());
    assert!(a.warning_message.is_none());
    assert_eq!(a.pending_delete_path.as_deref(), Some("/w/old.txt"));
    assert_eq!(a.warning_selected_button, 0);

    a.warning_message = Some("Delete?".to_string());
    a.warning_selected_button = 7;
    a.handle_warning_key(key(KeyCode::Char('y')));
    assert_eq!(a.warning_selected_button, 1);
}

#[test]
fn delete_done_reports_the_result() {
    let mut a = app();
    a.delete_done("/w/x.txt", false, None, 1000, true, &[]);
    assert_eq!(a.status_message.as_deref(), Some("Deleted file: /w/x.txt"));
    assert_eq!(a.status_message_expires, Some(4000));
    a.delete_done("/w/d", true, None, 0, true, &[]);
    assert_eq!(a.status_message.as_deref(), Some("Deleted directory: /w/d"));
    a.delete_done("/w/d", true, Some("denied".to_string()), 0, true, &[]);
    assert_eq!(a.status_message.as_deref(), Some("Delete failed: denied"));
    assert_eq!(a.status_message_expires, Some(5000));
}

#[test]
fn status_message_expires() {
    let mut a = app();
    a.set_status_message("hello".to_string(), 100, 2000);
    a.update_status_message(2100);
    assert_eq!(a.status_message.as_deref(), Some("hello"));
    a.update_status_message(2101);
    assert!(a.status_message.is_none());
}

#[test]
fn input_dialog_edits_and_confirms() {
    let mut a = app();
    let mut clip = String::new();
    a.menu_system
        .open_input_dialog("Name:".to_string(), "new_file".to_string(), "/w".to_string());
    type_str_dialog(&mut a, "ab", &mut clip);
    a.handle_key_event(key(KeyCode::Left), 0, &mut clip);
    a.handle_key_event(key(KeyCode::Char('x')), 0, &mut clip);
    a.handle_key_event(key(KeyCode::Backspace), 0, &mut clip);
    a.handle_key_event(key(KeyCode::End), 0, &mut clip);
    a.handle_key_event(key(KeyCode::Char('c')), 0, &mut clip);
    let (handled, r) = a.handle_key_event(key(KeyCode::Enter), 0, &mut clip);
    assert!(!handled);
    match r {
        Some(AppRequest::FileOperation { operation, target, input }) => {
            assert_eq!(operation, "new_file");
            assert_eq!(target, "/w");
            assert_eq!(input, "abc");
        }
        _ => panic!("expected a file operation"),
    }
    assert!(matches!(a.menu_system.state, MenuState::Closed));
}

fn type_str_dialog(a: &mut App, s: &str, clip: &mut String) {
    for c in s.chars() {
        let (handled, r) = a.handle_key_event(key(KeyCode::Char(c)), 0, clip);
        assert!(!handled);
        assert!(r.is_none());
    }
}

#[test]
fn input_dialog_select_all_then_type_replaces() {
    let mut a = app();
    a.menu_system
        .open_input_dialog("Name:".to_string(), "rename".to_string(), "/w/a".to_string());
    a.handle_input_dialog_key(key(KeyCode::Char('o')));
    a.handle_input_dialog_key(key(KeyCode::Char('l')));
    a.handle_input_dialog_key(key(KeyCode::Char('d')));
    a.handle_input_dialog_key(ctrl('a'));
    a.handle_input_dialog_key(key(KeyCode::Char('n')));
    match &a.menu_system.state {
        MenuState::InputDialog(st) => {
            assert_eq!(st.input, "n");
            assert_eq!(st.cursor_position, 1);
            assert!(st.selection_start.is_none());
        }
        _ => panic!("dialog closed"),
    }
    let r = a.handle_input_dialog_key(key(KeyCode::Esc));
    assert!(r.is_none());
    assert!(matches!(a.menu_system.state, MenuState::Closed));
}

#[test]
fn find_bar_finds_moves_and_replaces() {
    let mut a = app();
    let mut clip = String::new();
    a.open_file_in_tab("/w/t.txt".to_string(), "foo bar foo\nfoo");
    a.handle_key_event(ctrl('f'), 0, &mut clip);
    assert!(a.tab_manager.active_tab().unwrap().find_is_active());
    type_str(&mut a, "foo", &mut clip);
    if let Some(Tab::Editor { find_replace_state, .. }) = a.tab_manager.active_tab() {
        assert_eq!(find_replace_state.find_query, "foo");
        assert_eq!(find_replace_state.matches.len(), 3);
        assert_eq!(find_replace_state.current_match_index, Some(0));
    }
    let (handled, _) = a.handle_key_event(key(KeyCode::Enter), 500, &mut clip);
    assert!(handled);
    assert_eq!(a.status_message.as_deref(), Some("Match 2 of 3"));
    assert_eq!(a.status_message_expires, Some(2500));
    // Switch to the replace field and type the replacement.
    a.handle_key_event(key(KeyCode::Tab), 0, &mut clip);
    type_str(&mut a, "X", &mut clip);
    a.handle_key_event(ctrl('r'), 0, &mut clip);
    assert_eq!(active_text(&a), "foo bar X\nfoo");
    assert_eq!(a.status_message.as_deref(), Some("Replaced. 2 matches remaining"));
    a.handle_key_event(key(KeyCode::Esc), 0, &mut clip);
    assert!(!a.tab_manager.active_tab().unwrap().find_is_active());
}

#[test]
fn focused_tree_takes_escape() {
    let mut a = app();
    let mut clip = String::new();
    a.focus_mode = FocusMode::TreeView;
    // Without a tree the editor takes the keys.
    a.handle_key_event(key(KeyCode::Char('e')), 0, &mut clip);
    assert_eq!(active_text(&a), "e");
}

#[test]
fn ctrl_t_asks_for_a_terminal() {
    let mut a = app();
    let mut clip = String::new();
    let (_, r) = a.handle_key_event(ctrl('t'), 0, &mut clip);
    assert!(matches!(r, Some(AppRequest::NewTerminal)));
    a.create_new_terminal_tab(3);
    assert_eq!(a.tab_manager.len(), 2);
    assert!(!a.tab_manager.active_tab().unwrap().is_editor_tab());
}

#[test]
fn clipboard_is_shared_through_the_key_handler() {
    let mut a = app();
    let mut clip = String::new();
    type_str(&mut a, "ab", &mut clip);
    a.handle_key_event(ctrl('a'), 0, &mut clip);
    a.handle_key_event(ctrl('c'), 0, &mut clip);
    assert_eq!(clip, "ab");
    a.handle_key_event(key(KeyCode::End), 0, &mut clip);
    a.handle_key_event(ctrl('v'), 0, &mut clip);
    assert_eq!(active_text(&a), "abab");
}
