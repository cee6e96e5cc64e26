use aide::buffer::TextBuffer;

#[test]
fn test_new_buffer_is_empty() {
    let buffer = TextBuffer::new();
    assert!(buffer.is_empty());
    assert_eq!(buffer.len_chars(), 0);
    assert_eq!(buffer.len_bytes(), 0);
}

#[test]
fn test_from_str() {
    let text = "Hello, World!";
    let buffer = TextBuffer::from_str(text);
    assert_eq!(buffer.to_string(), text);
    assert_eq!(buffer.len_chars(), 13);
}

#[test]
fn test_insert_at_beginning() {
    let mut buffer = TextBuffer::from_str("World");
    buffer.insert(0, "Hello, ");
    assert_eq!(buffer.to_string(), "Hello, World");
}

#[test]
fn test_insert_at_end() {
    let mut buffer = TextBuffer::from_str("Hello");
    buffer.insert(5, ", World!");
    assert_eq!(buffer.to_string(), "Hello, World!");
}

#[test]
fn test_insert_in_middle() {
    let mut buffer = TextBuffer::from_str("HeWorld");
    buffer.insert(2, "llo, ");
    assert_eq!(buffer.to_string(), "Hello, World");
}

#[test]
fn test_insert_empty_string() {
    let mut buffer = TextBuffer::from_str("Hello");
    buffer.insert(2, "");
    assert_eq!(buffer.to_string(), "Hello");
}

#[test]
fn test_insert_beyond_length() {
    let mut buffer = TextBuffer::from_str("Hello");
    buffer.insert(100, " World");
    assert_eq!(buffer.to_string(), "Hello World");
}

#[test]
fn test_remove_from_beginning() {
    let mut buffer = TextBuffer::from_str("Hello, World!");
    buffer.remove(0..7);
    assert_eq!(buffer.to_string(), "World!");
}

#[test]
fn test_remove_from_end() {
    let mut buffer = TextBuffer::from_str("Hello, World!");
    buffer.remove(5..13);
    assert_eq!(buffer.to_string(), "Hello");
}

#[test]
fn test_remove_from_middle() {
    let mut buffer = TextBuffer::from_str("Hello, World!");
    buffer.remove(5..7);
    assert_eq!(buffer.to_string(), "HelloWorld!");
}

#[test]
fn test_remove_empty_range() {
    let mut buffer = TextBuffer::from_str("Hello");
    buffer.remove(2..2);
    assert_eq!(buffer.to_string(), "Hello");
}

#[test]
fn test_remove_beyond_length() {
    let mut buffer = TextBuffer::from_str("Hello");
    buffer.remove(3..100);
    assert_eq!(buffer.to_string(), "Hel");
}

#[test]
fn test_remove_all() {
    let mut buffer = TextBuffer::from_str("Hello");
    buffer.remove(0..5);
    assert!(buffer.is_empty());
}

#[test]
fn test_multibyte_japanese() {
    let text = "こんにちは世界";
    let buffer = TextBuffer::from_str(text);
    assert_eq!(buffer.len_chars(), 7);
    assert_eq!(buffer.to_string(), text);
}

#[test]
fn test_multibyte_insert() {
    let mut buffer = TextBuffer::from_str("世界");
    buffer.insert(0, "こんにちは");
    assert_eq!(buffer.to_string(), "こんにちは世界");
}

#[test]
fn test_multibyte_remove() {
    let mut buffer = TextBuffer::from_str("こんにちは世界");
    buffer.remove(0..5);
    assert_eq!(buffer.to_string(), "世界");
}

#[test]
fn test_multibyte_slice() {
    let buffer = TextBuffer::from_str("こんにちは世界");
    let slice = buffer.slice(5..7);
    assert_eq!(slice, "世界");
}

#[test]
fn test_mixed_ascii_multibyte() {
    let text = "Hello, 世界! 123";
    let buffer = TextBuffer::from_str(text);
    assert_eq!(buffer.len_chars(), 14);

    let slice = buffer.slice(7..9);
    assert_eq!(slice, "世界");
}

#[test]
fn test_emoji() {
    let text = "Hello 👋 World 🌍";
    let buffer = TextBuffer::from_str(text);
    assert!(buffer.to_string().contains("👋"));
    assert!(buffer.to_string().contains("🌍"));
}

#[test]
fn test_line_count() {
    let buffer = TextBuffer::from_str("Line 1\nLine 2\nLine 3");
    assert_eq!(buffer.len_lines(), 3);
}

#[test]
fn test_get_line() {
    let buffer = TextBuffer::from_str("Line 1\nLine 2\nLine 3");
    assert_eq!(buffer.line(0).unwrap(), "Line 1\n");
    assert_eq!(buffer.line(1).unwrap(), "Line 2\n");
    assert_eq!(buffer.line(2).unwrap(), "Line 3");
}

#[test]
fn test_line_to_char() {
    let buffer = TextBuffer::from_str("abc\ndef\nghi");
    assert_eq!(buffer.line_to_char(0), 0);
    assert_eq!(buffer.line_to_char(1), 4);
    assert_eq!(buffer.line_to_char(2), 8);
}

#[test]
fn test_char_to_line() {
    let buffer = TextBuffer::from_str("abc\ndef\nghi");
    assert_eq!(buffer.char_to_line(0), 0);
    assert_eq!(buffer.char_to_line(3), 0);
    assert_eq!(buffer.char_to_line(4), 1);
    assert_eq!(buffer.char_to_line(8), 2);
}

#[test]
fn test_modified_flag() {
    let mut buffer = TextBuffer::new();
    assert!(!buffer.is_modified());

    buffer.insert(0, "text");
    assert!(buffer.is_modified());

    buffer.set_file_path("/tmp/modified_flag.txt");
    buffer.mark_saved();
    assert!(!buffer.is_modified());
}

#[test]
fn test_large_file_creation() {
    let line = "This is a test line with some content.\n";
    let line_count = 30_000;
    let large_text: String = line.repeat(line_count);

    let buffer = TextBuffer::from_str(&large_text);
    assert_eq!(buffer.len_lines(), line_count + 1);
}

#[test]
fn test_large_file_insert() {
    let line = "Test line\n";
    let large_text: String = line.repeat(10_000);
    let mut buffer = TextBuffer::from_str(&large_text);

    let middle = buffer.len_chars() / 2;
    buffer.insert(middle, "INSERTED");

    assert!(buffer.to_string().contains("INSERTED"));
}

#[test]
fn test_large_file_remove() {
    let line = "Test line\n";
    let large_text: String = line.repeat(10_000);
    let mut buffer = TextBuffer::from_str(&large_text);

    let len_before = buffer.len_chars();
    buffer.remove(0..100);

    assert!(buffer.len_chars() < len_before);
}

#[test]
fn test_byte_char_conversion() {
    let buffer = TextBuffer::from_str("aあb");
    assert_eq!(buffer.len_chars(), 3);
    assert_eq!(buffer.len_bytes(), 5);

    assert_eq!(buffer.char_to_byte(0), 0);
    assert_eq!(buffer.char_to_byte(1), 1);
    assert_eq!(buffer.char_to_byte(2), 4);

    assert_eq!(buffer.byte_to_char(0), 0);
    assert_eq!(buffer.byte_to_char(1), 1);
    assert_eq!(buffer.byte_to_char(4), 2);
}

// Edge cases and wrappers of the rope.

#[test]
fn empty_text_has_one_line() {
    let buffer = TextBuffer::from_str("");
    assert_eq!(buffer.len_lines(), 1);
    assert_eq!(buffer.line(0).unwrap(), "");
    assert!(buffer.line(1).is_none());
}

#[test]
fn crlf_counts_as_one_break() {
    let buffer = TextBuffer::from_str("a\r\nb");
    assert_eq!(buffer.len_lines(), 2);
    assert_eq!(buffer.line_to_char(1), 3);
    assert_eq!(buffer.char_to_line(2), 0);
}

#[test]
fn conversions_past_the_end_clamp() {
    let buffer = TextBuffer::from_str("aあb");
    assert_eq!(buffer.char_to_byte(10), 5);
    assert_eq!(buffer.byte_to_char(10), 3);
    assert_eq!(buffer.line_to_char(5), 3);
    assert_eq!(buffer.char_to_line(10), 0);
    assert_eq!(buffer.slice(2..1), "");
}

#[test]
fn empty_remove_keeps_unmodified() {
    let mut buffer = TextBuffer::from_str("abc");
    buffer.remove(1..1);
    assert!(!buffer.is_modified());
    buffer.remove(1..2);
    assert!(buffer.is_modified());
    assert_eq!(buffer.to_string(), "ac");
}

#[test]
fn insert_then_remove_restores_text() {
    let mut buffer = TextBuffer::from_str("hello world");
    buffer.insert(5, ", big");
    buffer.remove(5..10);
    assert_eq!(buffer.to_string(), "hello world");
}

#[test]
fn file_name_and_path() {
    let mut buffer = TextBuffer::from_file_text("/tmp/dir/notes.md", "x");
    assert_eq!(buffer.file_path(), Some("/tmp/dir/notes.md"));
    assert_eq!(buffer.file_name(), Some("notes.md".to_string()));
    buffer.set_file_path("/other/main.rs");
    assert_eq!(buffer.file_name(), Some("main.rs".to_string()));
    assert!(TextBuffer::new().file_name().is_none());
}
