//! The editing core of a terminal text editor: a rope-backed text buffer,
//! cursor movement and selection, key and mouse handling, find and replace,
//! tabs, gitignore matching, the file tree model, the file picker, the menus,
//! and what each part of the screen shows.
//!
//! Drawing on the terminal, terminal I/O and file system access live in the
//! application crate that wraps this library; it carries out the requests
//! the editor makes and reports back.

pub mod text;
pub mod chars;
pub mod rope_buffer;

pub mod cursor;
pub mod edit;
pub mod keyboard;
pub mod strings;
pub mod gitignore;
pub mod paths;
pub mod encoding;
pub mod field_edit;
pub mod tab;
pub mod find;
pub mod tab_manager;
pub mod tree;
pub mod tree_view;
pub mod menu_component;
pub mod picker;
pub mod menu;
pub mod file_icons;
pub mod ui_state;
pub mod messages;
pub mod editor_app;
pub mod find_bar;
pub mod dialog_keys;
pub mod app_keys;
pub mod markdown;
pub mod editor_view;
pub mod mouse;
pub mod tab_bar_mouse;
pub mod file_ops;
pub mod tab_bar_view;
pub mod status_view;
pub mod find_bar_view;
pub mod dialog_view;
pub mod menu_view;
pub mod edit_laws;
