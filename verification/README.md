# f1_editor

A terminal text editor without a learning curve: tabs, a file tree, a fuzzy
file picker, find and replace, markdown preview, terminal tabs, mouse
support and warnings before unsaved changes are lost.

- `src/` is the editing library, verified with Verus: the rope-backed
  buffer, cursor movement and selection, the key and mouse handling of the
  whole editor, find and replace, tabs and their undo history, gitignore
  rules, the file tree and the file picker, menus and dialogs, markdown
  parsing, and what every part of the screen shows. Work on the disk or in
  a terminal comes back from the library as an `AppRequest`.
- `app/` is the program around it: it sets up the terminal, turns terminal
  events into the library's, carries out the requests (files, directory
  listings, pseudo-terminals) and draws the screen with ratatui.
- `tests/` runs the library on concrete inputs.

Usage: `f1 [file ...]` opens the files given, each in a tab.
