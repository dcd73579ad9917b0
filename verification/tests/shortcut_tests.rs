use f1_editor::editor_app::App;
use f1_editor::keyboard::{EditorCommand, KeyCode, KeyEvent, KeyModifiers};
use f1_editor::menu::MenuState;
use f1_editor::mouse::{MouseButton, MouseEvent, MouseEventKind};
use f1_editor::tab::Tab;

fn with(code: KeyCode, control: bool, shift: bool, alt: bool) -> KeyEvent {
    let mut m = KeyModifiers::none();
    m.control = control;
    m.shift = shift;
    m.alt = alt;
    KeyEvent { code, modifiers: m }
}

fn key(code: KeyCode) -> KeyEvent {
    with(code, false, false, false)
}

fn mouse(kind: MouseEventKind, column: u16, row: u16) -> MouseEvent {
    MouseEvent { kind, column, row, modifiers: KeyModifiers::none() }
}

fn app_with(text: &str) -> App {
    let mut a = App::new(None);
    a.terminal_size = (80, 24);
    a.sidebar_width = 0;
    a.open_file_in_tab("/w/t.txt".to_string(), text);
    a
}

fn cursor_of(a: &App) -> ((usize, usize), Option<(usize, usize)>) {
    match a.tab_manager.active_tab() {
        Some(Tab::Editor { cursor, .. }) => (
            (cursor.position.line, cursor.position.column),
            cursor.selection_start.map(|p| (p.line, p.column)),
        ),
        _ => panic!("no editor tab"),
    }
}

fn text_of(a: &App) -> String {
    match a.tab_manager.active_tab() {
        Some(Tab::Editor { buffer, .. }) => buffer.to_string(),
        _ => String::new(),
    }
}

#[test]
fn ctrl_w_closes_the_active_tab() {
    let mut a = app_with("x");
    let mut clip = String::new();
    assert_eq!(a.tab_manager.len(), 2);
    a.handle_key_event(with(KeyCode::Char('w'), true, false, false), 0, &mut clip);
    assert_eq!(a.tab_manager.len(), 1);
    assert!(a.running);
}

#[test]
fn ctrl_tab_and_shift_tab_switch_tabs() {
    let mut a = app_with("x");
    let mut clip = String::new();
    assert_eq!(a.tab_manager.active_index(), 1);
    a.handle_key_event(with(KeyCode::Tab, true, false, false), 0, &mut clip);
    assert_eq!(a.tab_manager.active_index(), 0);
    a.handle_key_event(with(KeyCode::BackTab, false, true, false), 0, &mut clip);
    assert_eq!(a.tab_manager.active_index(), 1);
}

#[test]
fn ctrl_shift_tab_goes_to_the_previous_tab() {
    let mut a = app_with("x");
    let mut clip = String::new();
    assert_eq!(a.tab_manager.len(), 2);
    assert_eq!(a.tab_manager.active_index(), 1);
    let (handled, _) = a.handle_key_event(with(KeyCode::BackTab, true, true, false), 0, &mut clip);
    assert!(handled);
    assert_eq!(a.tab_manager.len(), 2);
    assert_eq!(a.tab_manager.active_index(), 0);
    a.handle_key_event(with(KeyCode::BackTab, true, true, false), 0, &mut clip);
    assert_eq!(a.tab_manager.active_index(), 1);
    a.handle_key_event(with(KeyCode::BackTab, false, false, true), 0, &mut clip);
    assert_eq!(a.tab_manager.active_index(), 1);
}

#[test]
fn ctrl_and_alt_arrows_move_by_word() {
    let mut a = app_with("hello world");
    let mut clip = String::new();
    a.handle_key_event(with(KeyCode::Right, true, false, false), 0, &mut clip);
    assert_eq!(cursor_of(&a), ((0, 6), None));
    a.handle_key_event(with(KeyCode::Left, false, false, true), 0, &mut clip);
    assert_eq!(cursor_of(&a), ((0, 0), None));
    a.handle_key_event(with(KeyCode::Right, true, true, false), 0, &mut clip);
    assert_eq!(cursor_of(&a), ((0, 6), Some((0, 0))));
}

#[test]
fn shift_arrows_select() {
    let mut a = app_with("hello");
    let mut clip = String::new();
    a.handle_key_event(with(KeyCode::Right, false, true, false), 0, &mut clip);
    a.handle_key_event(with(KeyCode::Right, false, true, false), 0, &mut clip);
    assert_eq!(cursor_of(&a), ((0, 2), Some((0, 0))));
    a.handle_key_event(key(KeyCode::Right), 0, &mut clip);
    assert_eq!(cursor_of(&a).1, None);
}

#[test]
fn ctrl_backspace_deletes_a_word() {
    let mut a = app_with("hello world");
    let mut clip = String::new();
    a.handle_key_event(key(KeyCode::End), 0, &mut clip);
    a.handle_key_event(with(KeyCode::Backspace, true, false, false), 0, &mut clip);
    assert_eq!(text_of(&a), "hello ");
}

#[test]
fn page_down_and_up_move_the_view_by_a_page() {
    let mut a = app_with(&"line\n".repeat(100));
    let mut clip = String::new();
    a.handle_key_event(key(KeyCode::PageDown), 0, &mut clip);
    let top = |a: &App| match a.tab_manager.active_tab() {
        Some(Tab::Editor { viewport_offset, .. }) => viewport_offset.0,
        _ => usize::MAX,
    };
    assert_eq!(top(&a), 20);
    a.handle_key_event(key(KeyCode::PageUp), 0, &mut clip);
    assert_eq!(top(&a), 0);
}

#[test]
fn f1_opens_and_closes_the_menu() {
    let mut a = app_with("x");
    let mut clip = String::new();
    a.handle_key_event(key(KeyCode::F(1)), 0, &mut clip);
    assert!(matches!(a.menu_system.state, MenuState::MainMenu(_)));
    a.handle_key_event(key(KeyCode::F(1)), 0, &mut clip);
    assert!(matches!(a.menu_system.state, MenuState::Closed));
}

#[test]
fn clicking_the_f1_button_opens_the_menu() {
    let mut a = app_with("x");
    a.handle_mouse_input(mouse(MouseEventKind::Down(MouseButton::Left), 2, 23), 0);
    assert!(matches!(a.menu_system.state, MenuState::MainMenu(_)));
    a.handle_mouse_input(mouse(MouseEventKind::Down(MouseButton::Left), 2, 23), 0);
    assert!(matches!(a.menu_system.state, MenuState::Closed));
}

#[test]
fn clicking_a_tab_switches_to_it_and_again_shows_its_menu() {
    let mut a = app_with("x");
    assert_eq!(a.tab_manager.active_index(), 1);
    a.handle_mouse_input(mouse(MouseEventKind::Down(MouseButton::Left), 3, 0), 0);
    a.handle_mouse_input(mouse(MouseEventKind::Up(MouseButton::Left), 3, 0), 0);
    assert_eq!(a.tab_manager.active_index(), 0);
    assert!(matches!(a.menu_system.state, MenuState::Closed));
    a.handle_mouse_input(mouse(MouseEventKind::Down(MouseButton::Left), 3, 0), 0);
    a.handle_mouse_input(mouse(MouseEventKind::Up(MouseButton::Left), 3, 0), 0);
    assert!(matches!(a.menu_system.state, MenuState::CurrentTabMenu(_)));
}

#[test]
fn dragging_the_mouse_selects_text() {
    let mut a = app_with("hello world");
    a.handle_mouse_input(mouse(MouseEventKind::Down(MouseButton::Left), 5, 1), 0);
    let (start, _) = cursor_of(&a);
    a.handle_mouse_input(mouse(MouseEventKind::Drag(MouseButton::Left), 9, 1), 10);
    let (end, sel) = cursor_of(&a);
    assert_eq!(sel, Some(start));
    assert_eq!(end.1, start.1 + 4);
}

#[test]
fn the_wheel_scrolls_the_text() {
    let mut a = app_with(&"line\n".repeat(100));
    a.handle_mouse_input(mouse(MouseEventKind::ScrollDown, 10, 5), 0);
    match a.tab_manager.active_tab() {
        Some(Tab::Editor { viewport_offset, .. }) => assert!(viewport_offset.0 > 0),
        _ => panic!("no editor tab"),
    }
}

#[test]
fn tab_commands_run_like_the_shortcuts() {
    let mut a = app_with("x");
    a.handle_tab_specific_command(EditorCommand::NewTab);
    assert_eq!(a.tab_manager.len(), 3);
    a.handle_tab_specific_command(EditorCommand::NextTab);
    assert_eq!(a.tab_manager.active_index(), 0);
    a.handle_tab_specific_command(EditorCommand::ToggleWordWrap);
    assert!(a.global_word_wrap);
    let before = a.tab_manager.len();
    assert!(a.handle_tab_specific_command(EditorCommand::Save).is_none());
    assert_eq!(a.tab_manager.len(), before);
}

#[test]
fn backspace_takes_back_a_typed_char() {
    let mut a = app_with("héllo\nworld");
    let mut clip = String::new();
    a.handle_key_event(key(KeyCode::Right), 0, &mut clip);
    a.handle_key_event(key(KeyCode::Right), 0, &mut clip);
    let before = cursor_of(&a);
    a.handle_key_event(key(KeyCode::Char('x')), 0, &mut clip);
    assert_eq!(text_of(&a), "héxllo\nworld");
    a.handle_key_event(key(KeyCode::Backspace), 0, &mut clip);
    assert_eq!(text_of(&a), "héllo\nworld");
    assert_eq!(cursor_of(&a), before);
}

#[test]
fn pasting_what_was_cut_gives_back_the_text() {
    let mut a = app_with("one two\nthree");
    let mut clip = String::new();
    a.handle_key_event(with(KeyCode::Right, true, true, false), 0, &mut clip);
    a.handle_key_event(with(KeyCode::Char('x'), true, false, false), 0, &mut clip);
    assert_eq!(text_of(&a), "two\nthree");
    assert_eq!(clip, "one ");
    a.handle_key_event(with(KeyCode::Char('v'), true, false, false), 0, &mut clip);
    assert_eq!(text_of(&a), "one two\nthree");
    assert_eq!(cursor_of(&a), ((0, 4), None));
}

#[test]
fn pasting_a_cut_across_lines_leaves_the_cursor_at_its_end() {
    let mut a = app_with("one two\nthree");
    let mut clip = String::new();
    for _ in 0..4 {
        a.handle_key_event(key(KeyCode::Right), 0, &mut clip);
    }
    a.handle_key_event(with(KeyCode::Down, false, true, false), 0, &mut clip);
    assert_eq!(cursor_of(&a), ((1, 4), Some((0, 4))));
    a.handle_key_event(with(KeyCode::Char('x'), true, false, false), 0, &mut clip);
    assert_eq!(text_of(&a), "one e");
    assert_eq!(clip, "two\nthre");
    assert_eq!(cursor_of(&a), ((0, 4), None));
    a.handle_key_event(with(KeyCode::Char('v'), true, false, false), 0, &mut clip);
    assert_eq!(text_of(&a), "one two\nthree");
    assert_eq!(cursor_of(&a), ((1, 4), None));
}
