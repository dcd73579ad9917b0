use f1_editor::cursor::Position;
use f1_editor::dialog_view::InputCellStyle;
use f1_editor::file_icons::get_file_icon;
use f1_editor::file_ops::save_as_path;
use f1_editor::gitignore::GitIgnore;
use f1_editor::menu::InputDialogState;
use f1_editor::menu_component::{MenuAction, MenuComponent, MenuItem};
use f1_editor::menu_view::MenuLineStyle;
use f1_editor::picker::FilePickerState;
use f1_editor::status_view::StatusIndicator;
use f1_editor::tab::{FindMatch, FindReplaceState, Tab};
use f1_editor::tab_bar_view::{can_truncate_name, TabLabelStyle};
use f1_editor::tab_manager::TabManager;
use f1_editor::tree::{DirEntry, DirListing};
use f1_editor::tree_view::{copy_name, TreeRowStyle, TreeView};
use f1_editor::ui_state::{StatusBar, TabBar};

fn entry(path: &str, is_dir: bool) -> DirEntry {
    DirEntry { path: path.to_string(), is_dir }
}

fn sample_fs() -> Vec<DirListing> {
    vec![
        DirListing {
            dir: "/r".to_string(),
            entries: vec![
                entry("/r/b.txt", false),
                entry("/r/src", true),
                entry("/r/A.md", false),
                entry("/r/target", true),
            ],
        },
        DirListing { dir: "/r/src".to_string(), entries: vec![entry("/r/src/main.rs", false)] },
    ]
}

fn tree() -> TreeView {
    let g = GitIgnore::new("/r".to_string(), Some("target/\n"));
    TreeView::new("/r".to_string(), 30, true, g, &sample_fs()).ok().unwrap()
}

fn padded(s: &str, w: usize) -> String {
    format!("{:<w$}", s)
}

#[test]
fn tab_names_keep_their_extension_when_cut() {
    let bar = TabBar::new();
    assert_eq!(bar.truncate_name("short.rs", 12), "short.rs");
    assert_eq!(bar.truncate_name("verylongfilename.rs", 12), "verylong….rs");
    assert_eq!(bar.truncate_name("abcdefghijklmnop", 12), "abcdefghijk…");
    assert_eq!(bar.truncate_name("abcdef", 3), "…");
    assert!(can_truncate_name("verylongfilename.rs", 12));
    assert!(!can_truncate_name("ééééééééé", 12));
    assert!(can_truncate_name("éééééé", 12));
}

#[test]
fn tab_labels_fit_and_mark_hidden_tabs() {
    let bar = TabBar::new();
    let tm = TabManager::new();
    let labels = bar.calculate_tab_spans(&tm, 80, None);
    assert_eq!(labels.len(), 1);
    assert_eq!(labels[0].text, format!(" {:<12} ", "untitled"));
    assert_eq!(labels[0].style, TabLabelStyle::Active);

    let mut tm = TabManager::new();
    for i in 2..8 {
        tm.add_tab(Tab::new(format!("t{}", i)));
    }
    let labels = bar.calculate_tab_spans(&tm, 40, Some(5));
    let texts: Vec<&str> = labels.iter().map(|l| l.text.as_str()).collect();
    let t6 = format!(" {:<12} ", "t6");
    let t7 = format!(" {:<12} ", "t7");
    assert_eq!(texts, vec![" « ", t6.as_str(), t7.as_str()]);
    let styles: Vec<TabLabelStyle> = labels.iter().map(|l| l.style).collect();
    assert_eq!(
        styles,
        vec![TabLabelStyle::Marker, TabLabelStyle::Dragging, TabLabelStyle::Active]
    );
    tm.set_active_index(0);
    let labels = bar.tab_spans_checked(&tm, 40, None).unwrap();
    let texts: Vec<&str> = labels.iter().map(|l| l.text.as_str()).collect();
    let first = format!(" {:<12} ", "untitled");
    let second = format!(" {:<12} ", "t2");
    assert_eq!(texts, vec![first.as_str(), second.as_str(), " » "]);
}

#[test]
fn tab_labels_refuse_names_cut_inside_a_char() {
    let bar = TabBar::new();
    let mut tm = TabManager::new();
    tm.add_tab(Tab::new("ééééééééé".to_string()));
    assert!(bar.tab_spans_checked(&tm, 80, None).is_none());
}

#[test]
fn status_line_shows_file_cursor_and_message() {
    let bar = StatusBar::new();
    let tm = TabManager::new();
    let line = bar.status_line(&tm, None).unwrap();
    assert_eq!(line.text, " untitled ");
    assert!(!line.is_message);
    assert_eq!(line.indicator, StatusIndicator::Nothing);
    assert_eq!(line.position.as_deref(), Some(" L1:C0 "));

    let message = "Saved".to_string();
    let line = bar.status_line(&tm, Some(&message)).unwrap();
    assert_eq!(line.text, " Saved ");
    assert!(line.is_message);

    let mut tm = TabManager::new();
    tm.add_tab(Tab::from_file("/tmp/a.md".to_string(), "# hi"));
    if let Some(tab) = tm.active_tab_mut() {
        tab.mark_modified();
    }
    let line = bar.status_line(&tm, None).unwrap();
    assert_eq!(line.text, " /tmp/a.md  [Modified] ");
    assert_eq!(line.indicator, StatusIndicator::Preview);

    let mut tm = TabManager::new();
    tm.add_tab(Tab::new_terminal(3));
    let line = bar.status_line(&tm, None).unwrap();
    assert_eq!(line.indicator, StatusIndicator::Terminal);
    assert!(line.position.is_none());
}

#[test]
fn find_bar_texts_mark_the_cursor_and_count_matches() {
    let mut st = FindReplaceState::default();
    assert_eq!(st.match_counter_text(), "");
    st.find_query = "abc".to_string();
    st.find_cursor_position = 1;
    st.replace_query = "xy".to_string();
    st.replace_cursor_position = 1;
    assert_eq!(st.find_field_text(), "a│bc");
    assert_eq!(st.replace_field_text(), "xy");
    assert_eq!(st.match_counter_text(), " No match ");
    let m = FindMatch { start: Position::new(0, 0), end: Position::new(0, 1) };
    st.matches = vec![m, m, m];
    assert_eq!(st.match_counter_text(), " 0/3 ");
    st.current_match_index = Some(1);
    assert_eq!(st.match_counter_text(), " 2/3 ");
    st.find_cursor_position = 9;
    assert_eq!(st.find_field_text(), "abc");
}

#[test]
fn tree_rows_indent_icons_and_styles() {
    let t = tree();
    let lines = t.render_rows(10, 30);
    assert!(!lines.scrollbar);
    assert!(lines.search.is_none());
    assert_eq!(lines.content_width, 30);
    let names: Vec<&str> = lines.rows.iter().map(|r| r.name.as_str()).collect();
    assert_eq!(names, vec!["src", "target", "A.md", "b.txt"]);
    assert_eq!(lines.rows[0].icon, Some("📁"));
    assert_eq!(lines.rows[2].icon, Some(get_file_icon("/r/A.md", false)));
    assert_eq!(lines.rows[0].indent, 0);
    assert_eq!(lines.rows[0].style, TreeRowStyle::Selected);
    assert_eq!(lines.rows[1].style, TreeRowStyle::Ignored);
    assert_eq!(lines.rows[2].style, TreeRowStyle::File);

    let mut t = tree();
    assert!(t.toggle_directory(&sample_fs()).is_ok());
    t.set_focused(true);
    let lines = t.render_rows(10, 30);
    assert_eq!(lines.rows[0].icon, Some("📂"));
    assert_eq!(lines.rows[0].style, TreeRowStyle::SelectedFocused);
    assert_eq!(lines.rows[1].name, "main.rs");
    assert_eq!(lines.rows[1].indent, 2);

    let narrow = tree().render_rows(10, 6);
    let names: Vec<&str> = narrow.rows.iter().map(|r| r.name.as_str()).collect();
    assert_eq!(names, vec!["src", "...", "...", "..."]);

    let short = tree().render_rows_checked(2, 30).unwrap();
    assert!(short.scrollbar);
    assert_eq!(short.content_width, 29);
    assert_eq!(short.rows.len(), 2);
}

#[test]
fn picker_rows_follow_the_selection() {
    let g = GitIgnore::new("/r".to_string(), Some("target/\n"));
    let mut p = FilePickerState::new("/r".to_string(), g, &sample_fs());
    let lines = p.visible_rows(10, 20);
    assert!(!lines.has_query);
    assert_eq!(lines.search_text, "  Type to search files...");
    assert!(!lines.scrollbar);
    assert_eq!(lines.start, 0);
    let rows: Vec<&str> = lines.rows.iter().map(|r| r.name_line.as_str()).collect();
    let md = format!("  {}  A.md", get_file_icon("/r/A.md", false));
    let txt = format!("  {}  b.txt", get_file_icon("/r/b.txt", false));
    assert_eq!(
        rows,
        vec![
            padded("  ↑  ..", 20).as_str(),
            padded("  📁  src", 20).as_str(),
            padded(&md, 20).as_str(),
            padded(&txt, 20).as_str(),
        ]
    );
    assert!(lines.rows[0].selected);
    assert!(lines.rows[1].path_line.is_none());

    p.move_selection_down();
    p.move_selection_down();
    p.move_selection_down();
    let lines = p.visible_rows(2, 20);
    assert!(lines.scrollbar);
    assert_eq!(lines.start, 2);
    assert_eq!(lines.rows.len(), 2);
    assert_eq!(lines.rows[1].name_line, padded(&txt, 19));
    assert!(lines.rows[1].selected);
}

#[test]
fn input_field_cells_show_cursor_and_selection() {
    let mut d = InputDialogState {
        prompt: "Name:".to_string(),
        input: "abc".to_string(),
        operation: "new_file".to_string(),
        target_path: "/r".to_string(),
        cursor_position: 1,
        selection_start: None,
        hovered_button: None,
    };
    assert_eq!(
        d.input_cells(),
        vec![
            ('a', InputCellStyle::Normal),
            ('b', InputCellStyle::Cursor),
            ('c', InputCellStyle::Normal),
        ]
    );
    d.cursor_position = 3;
    assert_eq!(d.input_cells().last(), Some(&('_', InputCellStyle::EndCursor)));
    d.cursor_position = 2;
    d.selection_start = Some(0);
    assert_eq!(
        d.input_cells(),
        vec![
            ('a', InputCellStyle::Selected),
            ('b', InputCellStyle::Selected),
            ('c', InputCellStyle::Cursor),
        ]
    );
}

#[test]
fn menu_lines_put_shortcuts_at_the_edge() {
    let items = vec![
        MenuItem::new("Open", MenuAction::Close).with_shortcut("Ctrl+O"),
        MenuItem::new("Quit", MenuAction::Close),
    ];
    let m = MenuComponent::new(items);
    let lines = m.render_lines();
    assert_eq!(lines[0].0, format!(" Open{}Ctrl+O ", " ".repeat(18)));
    assert_eq!(lines[0].1, MenuLineStyle::Selected);
    assert_eq!(lines[1].0, padded(" Quit", 30));
    assert_eq!(lines[1].1, MenuLineStyle::Normal);

    let narrow = MenuComponent::new(vec![MenuItem::new("Hello", MenuAction::Close)]).with_width(4);
    assert_eq!(narrow.render_lines()[0].0, " Hel");

    let tight = MenuComponent::new(vec![MenuItem::new("Preferences", MenuAction::Close).with_shortcut("F2")])
        .with_width(12);
    assert!(tight.render_lines_checked().is_none());
}

#[test]
fn save_as_paths_join_or_take_absolute_names() {
    assert_eq!(save_as_path("notes.txt", "/home/u"), "/home/u/notes.txt");
    assert_eq!(save_as_path("  /abs/x.txt ", "/home/u"), "/abs/x.txt");
}

#[test]
fn pickers_compare_by_what_they_show() {
    let g = GitIgnore::new("/r".to_string(), Some("target/\n"));
    let a = FilePickerState::new("/r".to_string(), g.clone(), &sample_fs());
    let mut b = FilePickerState::new("/r".to_string(), g, &sample_fs());
    assert!(a.same_state(&b));
    b.move_selection_down();
    assert!(!a.same_state(&b));
}

#[test]
fn pasting_names_copies_and_finds_the_directory() {
    assert_eq!(copy_name("notes", Some("txt"), 2), "notes_copy_2.txt");
    assert_eq!(copy_name("Makefile", None, 1), "Makefile_copy_1");
    let mut t = tree();
    assert_eq!(t.paste_target_dir(), "/r/src");
    t.move_selection_down();
    t.move_selection_down();
    assert_eq!(t.paste_target_dir(), "/r");
    assert_eq!(t.paste_done("/r/x", None, true, &sample_fs()), Err("Nothing to paste".to_string()));
    t.copy_selected();
    assert_eq!(t.paste_done("/r/src/A.md", None, true, &sample_fs()), Ok("Copied to /r/src/A.md".to_string()));
    assert!(t.has_clipboard());
    t.cut_selected();
    assert_eq!(
        t.paste_done("/r/src/A.md", Some("Failed to move: denied".to_string()), true, &sample_fs()),
        Err("Failed to move: denied".to_string())
    );
    assert!(t.has_clipboard());
    assert_eq!(t.paste_done("/r/src/A.md", None, true, &sample_fs()), Ok("Moved to /r/src/A.md".to_string()));
    assert!(!t.has_clipboard());
}
