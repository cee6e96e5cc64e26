//! AIDE: the editing core of a lightweight code editor.
//!
//! The library holds the text buffer, the undo history, cursor and tab
//! state, syntax-highlight span extraction, the LSP data model and
//! client state, and the terminal panel's text handling. Windows, files,
//! processes and the language server's pipes are driven by the program
//! under `app/`.
pub mod app;
pub mod assoc;
pub mod buffer;
pub mod editor;
pub mod highlight;
pub mod paths;
pub mod sort;
pub mod terminal;
pub mod text;
pub mod lsp;
pub mod ui;
