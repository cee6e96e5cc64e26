//! Editor state: cursor and selection.
pub mod cursor;

pub use cursor::Cursor;
