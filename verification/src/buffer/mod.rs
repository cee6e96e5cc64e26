//! Text buffer and edit history.
pub mod history;
pub mod text_buffer;

pub use history::History;
pub use text_buffer::TextBuffer;
