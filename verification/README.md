# AIDE

The editing core of a lightweight code editor, written in Verus.

`src/` is the verified library:

- `buffer`: the rope-backed text buffer and the undo/redo history with
  typing groups;
- `app`: the editor's document state (buffer, history, highlighter, theme,
  status) and how edits in the text area become history entries;
- `highlight`: tree-sitter parsing and the turning of highlight events into
  typed spans, and the color themes;
- `lsp`: the language server client's state, the message framing of the
  protocol, diagnostics and completion lists;
- `terminal`: the terminal panel's text handling (control sequences,
  command history);
- `ui`: tab bar, status bar and file explorer state;
- `assoc`, `sort`, `text`, `paths`: small maps, stable sorting, text and
  path helpers.

`app/` is the program: the egui window, file dialogs, the file system, the
language server process and the pseudo terminal.
