//! The built-in terminal: its size and error types, and the text side of
//! the terminal panel. The shell itself runs in a pseudo terminal driven
//! by the program under `app/`.
pub mod pty;
pub mod view;
