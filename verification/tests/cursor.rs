use aide::editor::cursor::{Cursor, Selection};

#[test]
fn test_cursor_creation() {
    let cursor = Cursor::new(5, 10);
    assert_eq!(cursor.line, 5);
    assert_eq!(cursor.column, 10);
}

#[test]
fn test_selection_has_selection() {
    let no_selection = Selection::cursor(Cursor::new(1, 1));
    assert!(!no_selection.has_selection());

    let with_selection = Selection::new(Cursor::new(1, 1), Cursor::new(2, 5));
    assert!(with_selection.has_selection());
}

#[test]
fn test_selection_normalized() {
    let selection = Selection::new(Cursor::new(5, 10), Cursor::new(2, 3));
    let normalized = selection.normalized();

    assert_eq!(normalized.start.line, 2);
    assert_eq!(normalized.start.column, 3);
    assert_eq!(normalized.end.line, 5);
    assert_eq!(normalized.end.column, 10);
}

#[test]
fn normalized_keeps_ordered_selection_and_same_line() {
    let s = Selection::new(Cursor::new(2, 8), Cursor::new(2, 4));
    let n = s.normalized();
    assert_eq!(n.start, Cursor::new(2, 4));
    assert_eq!(n.end, Cursor::new(2, 8));
    let ordered = Selection::new(Cursor::new(1, 1), Cursor::new(3, 0));
    assert_eq!(ordered.normalized(), ordered);
    assert_eq!(Cursor::default(), Cursor::new(0, 0));
}
