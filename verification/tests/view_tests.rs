use f1_editor::cursor::{Cursor, Position};
use f1_editor::editor_view::{CellStyle, EditorWidget};
use f1_editor::field_edit::{insert_at_byte, remove_at_byte, replace_bytes};
use f1_editor::file_icons::{get_directory_icon, get_file_icon, get_file_type_indicator};
use f1_editor::markdown::{
    calculate_display_length, parse_inline_formatting, parse_line, MarkdownWidget, SpanStyle,
    StyledSpan,
};
use f1_editor::messages::{decimal_string, match_message_text, quit_warning_text};
use f1_editor::rope_buffer::RopeBuffer;

fn chars(s: &str) -> Vec<char> {
    s.chars().collect()
}

fn spans(v: &[StyledSpan]) -> Vec<(String, SpanStyle)> {
    v.iter().map(|s| (s.text.clone(), s.style)).collect()
}

fn owned(v: &[(&str, SpanStyle)]) -> Vec<(String, SpanStyle)> {
    v.iter().map(|(t, s)| (t.to_string(), *s)).collect()
}

#[test]
fn inline_formatting_splits_code_bold_and_italic() {
    let got = spans(&parse_inline_formatting(&chars("a `b` **c** *d* e")));
    assert_eq!(
        got,
        owned(&[
            ("a ", SpanStyle::Text),
            ("b", SpanStyle::Code),
            (" ", SpanStyle::Text),
            ("c", SpanStyle::Bold),
            (" ", SpanStyle::Text),
            ("d", SpanStyle::Italic),
            (" e", SpanStyle::Text),
        ])
    );
}

#[test]
fn unclosed_marks_stay_plain_text() {
    let got = spans(&parse_inline_formatting(&chars("x **y")));
    assert_eq!(got, owned(&[("x ", SpanStyle::Text), ("**y", SpanStyle::Text)]));
    let got = spans(&parse_inline_formatting(&chars("`code")));
    assert_eq!(got, owned(&[("`code", SpanStyle::Text)]));
}

#[test]
fn display_length_skips_markup() {
    assert_eq!(calculate_display_length(&chars("**bold** `x`")), 6);
    assert_eq!(calculate_display_length(&chars("")), 0);
}

#[test]
fn headers_lists_and_quotes() {
    assert_eq!(spans(&parse_line(&chars("## Two"))), owned(&[("## Two", SpanStyle::Heading2)]));
    assert_eq!(spans(&parse_line(&chars("# One"))), owned(&[("# One", SpanStyle::Heading1)]));
    assert_eq!(
        spans(&parse_line(&chars("  - item"))),
        owned(&[("  ", SpanStyle::Plain), ("• ", SpanStyle::Bullet), ("item", SpanStyle::Text)])
    );
    assert_eq!(spans(&parse_line(&chars("> quoted"))), owned(&[("> quoted", SpanStyle::Quote)]));
    assert_eq!(spans(&parse_line(&chars("plain"))), owned(&[("plain", SpanStyle::Text)]));
}

#[test]
fn code_blocks_keep_their_lines() {
    let w = MarkdownWidget::new("```\n# not a header\n```\ntext");
    let lines: Vec<Vec<(String, SpanStyle)>> = w.parse_markdown().iter().map(|l| spans(l)).collect();
    assert_eq!(
        lines,
        vec![
            owned(&[("```", SpanStyle::Fence)]),
            owned(&[("# not a header", SpanStyle::CodeBlock)]),
            owned(&[("```", SpanStyle::Fence)]),
            owned(&[("text", SpanStyle::Text)]),
        ]
    );
}

#[test]
fn tables_are_drawn_with_borders() {
    let w = MarkdownWidget::new("| a | b |\n|---|---|\n| c | d |");
    let lines = w.parse_markdown();
    assert_eq!(lines.len(), 5);
    let top = spans(&lines[0]);
    assert_eq!(top, owned(&[("┌──────────┬──────────┐", SpanStyle::Border)]));
    let header = spans(&lines[1]);
    assert_eq!(header[0], ("│".to_string(), SpanStyle::Border));
    assert_eq!(header[1], (" a        ".to_string(), SpanStyle::TableHeader));
    assert_eq!(spans(&lines[2]), owned(&[("├──────────┼──────────┤", SpanStyle::Border)]));
    let row = spans(&lines[3]);
    assert_eq!(row[1], (" c        ".to_string(), SpanStyle::Text));
    assert_eq!(spans(&lines[4]), owned(&[("└──────────┴──────────┘", SpanStyle::Border)]));
}

#[test]
fn widget_builders_keep_settings() {
    let w = MarkdownWidget::new("x").viewport_offset((3, 1)).show_scrollbar(false);
    assert_eq!(w.offset(), (3, 1));
    assert!(!w.has_scrollbar());
    assert_eq!(w.content(), "x");
}

#[test]
fn byte_edits_respect_char_boundaries() {
    let mut s = "héllo".to_string();
    assert!(!insert_at_byte(&mut s, 2, 'x'));
    assert_eq!(s, "héllo");
    assert!(insert_at_byte(&mut s, 3, 'x'));
    assert_eq!(s, "héxllo");
    assert!(remove_at_byte(&mut s, 1));
    assert_eq!(s, "hxllo");
    assert!(replace_bytes(&mut s, 1, 3, "ey"));
    assert_eq!(s, "heylo");
    assert!(!replace_bytes(&mut s, 3, 1, ""));
}

#[test]
fn file_icons_by_name_and_extension() {
    assert_eq!(get_file_icon("/p/main.rs", false), "🦀");
    assert_eq!(get_file_icon("/p/README.md", false), "📖");
    assert_eq!(get_file_icon("/p/src", true), "📁");
    assert_eq!(get_directory_icon(true), "📂");
    assert_eq!(get_directory_icon(false), "📁");
    assert_eq!(get_file_type_indicator("/p/src", true), "D");
}

#[test]
fn messages_spell_numbers() {
    assert_eq!(decimal_string(0), "0");
    assert_eq!(decimal_string(1907), "1907");
    assert_eq!(match_message_text(0, 3), "Match 1 of 3");
    assert_eq!(quit_warning_text(&vec!["a".to_string(), "b".to_string()]), "2 tabs have unsaved changes. Quit anyway?");
}

#[test]
fn editor_view_wraps_and_styles() {
    let b = RopeBuffer::from_str("abcdef\n");
    let mut c = Cursor::new();
    c.position = Position::new(0, 1);
    c.selection_start = Some(Position::new(0, 3));
    let w = EditorWidget::new(&b, &c);
    assert_eq!(w.calculate_line_number_width(), 4);
    assert_eq!(w.wrap_line("abcdef", 4), vec!["abcd".to_string(), "ef".to_string()]);
    assert_eq!(w.wrap_line("a\tb", 4), vec!["a".to_string(), "\t".to_string(), "b".to_string()]);
    assert_eq!(w.wrap_line("", 4), vec!["".to_string()]);
    let cells: Vec<CellStyle> = w.render_line(0, Some(1)).iter().map(|c| c.style).collect();
    assert_eq!(
        cells,
        vec![
            CellStyle::Plain,
            CellStyle::Selected,
            CellStyle::Selected,
            CellStyle::Plain,
            CellStyle::Plain,
            CellStyle::Plain
        ]
    );
    let nowrap = EditorWidget::new(&b, &c).word_wrap(false);
    assert_eq!(nowrap.wrap_line("abcdef", 2), vec!["abcdef".to_string()]);
    assert!(w.is_position_selected(Position::new(1, 0), Position::new(0, 5), Position::new(2, 0)));
}

#[test]
fn cursor_block_on_an_empty_line() {
    let b = RopeBuffer::from_str("");
    let c = Cursor::new();
    let w = EditorWidget::new(&b, &c);
    let cells = w.render_line(0, Some(0));
    assert_eq!(cells.len(), 1);
    assert_eq!(cells[0].text, " ");
    assert_eq!(cells[0].style, CellStyle::CursorBlock);
}

#[test]
fn view_rows_label_lines_and_their_wrapped_pieces() {
    let b = RopeBuffer::from_str("abcdef\nxy\nz");
    let mut c = Cursor::new();
    c.position = Position::new(1, 1);
    let w = EditorWidget::new(&b, &c);
    let rows = w.view_rows(2, 4);
    let labels: Vec<&str> = rows.iter().map(|r| r.0.as_str()).collect();
    assert_eq!(labels, vec!["  1 ", "  ↳ ", "  2 "]);
    let texts: Vec<String> =
        rows.iter().map(|r| r.1.iter().map(|c| c.text.as_str()).collect::<String>()).collect();
    assert_eq!(texts, vec!["abcd".to_string(), "ef".to_string(), "xy".to_string()]);
    let styles: Vec<CellStyle> = rows[2].1.iter().map(|c| c.style).collect();
    assert_eq!(styles, vec![CellStyle::Plain, CellStyle::Cursor]);
    assert!(w.shows_scrollbar(2));
    assert!(!w.shows_scrollbar(3));

    let nowrap = EditorWidget::new(&b, &c).word_wrap(false);
    let rows = nowrap.view_rows(5, 4);
    let labels: Vec<&str> = rows.iter().map(|r| r.0.as_str()).collect();
    assert_eq!(labels, vec!["  1 ", "  2 ", "  3 "]);
    let first: String = rows[0].1.iter().map(|c| c.text.as_str()).collect();
    assert_eq!(first, "abcdef");

    let scrolled = EditorWidget::new(&b, &c).viewport_offset((2, 0));
    let rows = scrolled.view_rows(5, 4);
    assert_eq!(rows.len(), 1);
    assert_eq!(rows[0].0, "  3 ");
    let past = EditorWidget::new(&b, &c).viewport_offset((7, 0));
    assert!(past.view_rows(5, 4).is_empty());
}
