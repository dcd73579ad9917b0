use f1_editor::chars::is_word_char;
use f1_editor::cursor::{Cursor, Position};
use f1_editor::edit::{delete_char_backward, insert_char, insert_newline, paste_from_clipboard};
use f1_editor::keyboard::{handle_key_event, key_is_safe, EditorCommand, KeyCode, KeyEvent, KeyModifiers};
use f1_editor::rope_buffer::RopeBuffer;

fn key(code: KeyCode) -> KeyEvent {
    KeyEvent { code, modifiers: KeyModifiers::none() }
}

fn ctrl(c: char) -> KeyEvent {
    let mut m = KeyModifiers::none();
    m.control = true;
    KeyEvent { code: KeyCode::Char(c), modifiers: m }
}

#[test]
fn rope_buffer_reports_lines_and_chars() {
    let b = RopeBuffer::from_str("ab\ncde\n");
    assert_eq!(b.len_chars(), 7);
    assert_eq!(b.len_lines(), 3);
    assert_eq!(b.line_to_char(1), 3);
    assert_eq!(b.get_line_text(1), "cde");
    assert_eq!(b.get_line_text(2), "");
    assert_eq!(b.get_line_text(9), "");
    assert_eq!(b.line_byte_len(0), 2);
}

#[test]
fn rope_buffer_insert_and_remove() {
    let mut b = RopeBuffer::from_str("hello");
    b.insert(5, " world");
    assert_eq!(b.to_string(), "hello world");
    b.remove(0, 6);
    assert_eq!(b.to_string(), "world");
    b.insert_char(0, 'W');
    assert_eq!(b.to_string(), "Wworld");
}

#[test]
fn replace_line_keeps_line_break() {
    let mut b = RopeBuffer::from_str("one\ntwo\nthree");
    b.replace_line(1, "2");
    assert_eq!(b.to_string(), "one\n2\nthree");
    b.replace_line(7, "x");
    assert_eq!(b.to_string(), "one\n2\nthree");
}

#[test]
fn cursor_moves_across_lines() {
    let b = RopeBuffer::from_str("ab\ncd");
    let mut c = Cursor::new();
    c.move_right(&b);
    c.move_right(&b);
    assert_eq!(c.position, Position::new(0, 2));
    c.move_right(&b);
    assert_eq!(c.position, Position::new(1, 0));
    c.move_left(&b);
    assert_eq!(c.position, Position::new(0, 2));
    c.move_down(&b);
    assert_eq!(c.position.line, 1);
    c.move_to_line_start();
    assert_eq!(c.position.column, 0);
    c.move_to_line_end(&b);
    assert_eq!(c.position.column, 2);
}

#[test]
fn typing_and_backspace_edit_text() {
    let mut b = RopeBuffer::from_str("");
    let mut c = Cursor::new();
    insert_char(&mut b, &mut c, 'h');
    insert_char(&mut b, &mut c, 'i');
    insert_newline(&mut b, &mut c);
    insert_char(&mut b, &mut c, '!');
    assert_eq!(b.to_string(), "hi\n!");
    assert_eq!(c.position, Position::new(1, 1));
    delete_char_backward(&mut b, &mut c);
    delete_char_backward(&mut b, &mut c);
    assert_eq!(b.to_string(), "hi");
    assert_eq!(c.position, Position::new(0, 2));
}

#[test]
fn paste_inserts_clipboard_text() {
    let mut b = RopeBuffer::from_str("ac");
    let mut c = Cursor::new();
    c.move_right(&b);
    paste_from_clipboard(&mut b, &mut c, "b");
    assert_eq!(b.to_string(), "abc");
    assert_eq!(c.position, Position::new(0, 2));
}

#[test]
fn select_all_then_copy_and_cut() {
    let mut b = RopeBuffer::from_str("xy\nz");
    let mut c = Cursor::new();
    let mut clip = String::new();
    let k = ctrl('a');
    assert!(key_is_safe(k, &b, &c, &clip));
    assert_eq!(handle_key_event(k, &mut b, &mut c, &mut clip), None);
    let k = ctrl('c');
    assert!(key_is_safe(k, &b, &c, &clip));
    handle_key_event(k, &mut b, &mut c, &mut clip);
    assert_eq!(clip, "xy\nz");
    let k = ctrl('x');
    assert!(key_is_safe(k, &b, &c, &clip));
    assert_eq!(handle_key_event(k, &mut b, &mut c, &mut clip), Some(EditorCommand::Modified));
    assert_eq!(b.to_string(), "");
}

#[test]
fn key_map_returns_commands() {
    let mut b = RopeBuffer::from_str("");
    let mut c = Cursor::new();
    let mut clip = String::new();
    assert_eq!(handle_key_event(ctrl('s'), &mut b, &mut c, &mut clip), Some(EditorCommand::Save));
    assert_eq!(handle_key_event(ctrl('z'), &mut b, &mut c, &mut clip), Some(EditorCommand::Undo));
    assert_eq!(handle_key_event(key(KeyCode::PageDown), &mut b, &mut c, &mut clip), Some(EditorCommand::PageDown));
    assert_eq!(handle_key_event(key(KeyCode::Char('q')), &mut b, &mut c, &mut clip), Some(EditorCommand::Modified));
    assert_eq!(b.to_string(), "q");
}

#[test]
fn trim_drops_unicode_white_space_only() {
    let s: Vec<char> = "\u{3000}\t a\u{00A0}b \u{2028}\u{85}".chars().collect();
    let r: String = f1_editor::strings::trim(&s).into_iter().collect();
    assert_eq!(r, "a\u{00A0}b");
    let z: Vec<char> = "\u{200B}x\u{200B}".chars().collect();
    let r2: String = f1_editor::strings::trim(&z).into_iter().collect();
    assert_eq!(r2, "\u{200B}x\u{200B}");
}

#[test]
fn word_chars_are_letters_digits_and_underscore() {
    for c in ['a', 'Z', '7', '_', 'é', '藏'] {
        assert!(is_word_char(c), "{c:?}");
    }
    for c in [' ', '-', '.', '\t', '(', '$'] {
        assert!(!is_word_char(c), "{c:?}");
    }
}
