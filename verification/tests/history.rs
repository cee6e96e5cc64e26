use aide::buffer::history::{EditCommand, History};

#[test]
fn test_insert_command_creation() {
    let cmd = EditCommand::insert(5, "hello");
    match cmd {
        EditCommand::Insert { position, text } => {
            assert_eq!(position, 5);
            assert_eq!(text, "hello");
        }
        _ => panic!("Expected Insert command"),
    }
}

#[test]
fn test_delete_command_creation() {
    let cmd = EditCommand::delete(5..10, "world");
    match cmd {
        EditCommand::Delete { range, deleted_text } => {
            assert_eq!(range, 5..10);
            assert_eq!(deleted_text, "world");
        }
        _ => panic!("Expected Delete command"),
    }
}

#[test]
fn test_insert_inverse() {
    let cmd = EditCommand::insert(5, "hello");
    let inverse = cmd.inverse();
    match inverse {
        EditCommand::Delete { range, deleted_text } => {
            assert_eq!(range, 5..10);
            assert_eq!(deleted_text, "hello");
        }
        _ => panic!("Expected Delete command as inverse"),
    }
}

#[test]
fn test_delete_inverse() {
    let cmd = EditCommand::delete(5..10, "world");
    let inverse = cmd.inverse();
    match inverse {
        EditCommand::Insert { position, text } => {
            assert_eq!(position, 5);
            assert_eq!(text, "world");
        }
        _ => panic!("Expected Insert command as inverse"),
    }
}

#[test]
fn test_group_inverse() {
    let group = EditCommand::group(vec![
        EditCommand::insert(0, "a"),
        EditCommand::insert(1, "b"),
    ]);
    let inverse = group.inverse();
    match inverse {
        EditCommand::Group { commands } => {
            assert_eq!(commands.len(), 2);
            match &commands[0] {
                EditCommand::Delete { range, deleted_text } => {
                    assert_eq!(*range, 1..2);
                    assert_eq!(deleted_text, "b");
                }
                _ => panic!("Expected Delete command"),
            }
            match &commands[1] {
                EditCommand::Delete { range, deleted_text } => {
                    assert_eq!(*range, 0..1);
                    assert_eq!(deleted_text, "a");
                }
                _ => panic!("Expected Delete command"),
            }
        }
        _ => panic!("Expected Group command as inverse"),
    }
}

#[test]
fn test_empty_history() {
    let history = History::new(100);
    assert!(!history.can_undo());
    assert!(!history.can_redo());
}

#[test]
fn test_single_undo() {
    let mut history = History::new(100);
    history.record(EditCommand::insert(0, "hello"));
    history.flush_pending_group();

    assert!(history.can_undo());
    let inverse = history.undo().unwrap();

    match inverse {
        EditCommand::Delete { range, deleted_text } => {
            assert_eq!(range, 0..5);
            assert_eq!(deleted_text, "hello");
        }
        _ => panic!("Expected Delete command"),
    }
}

#[test]
fn test_undo_redo_cycle() {
    let mut history = History::new(100);
    history.record(EditCommand::insert(0, "hello"));
    history.flush_pending_group();

    history.undo();
    assert!(history.can_redo());

    let redo_cmd = history.redo().unwrap();
    match redo_cmd {
        EditCommand::Insert { position, text } => {
            assert_eq!(position, 0);
            assert_eq!(text, "hello");
        }
        _ => panic!("Expected Insert command"),
    }
}

#[test]
fn test_multiple_undo() {
    let mut history = History::new(100);

    history.record(EditCommand::insert(0, "a"));
    history.flush_pending_group();
    history.record(EditCommand::insert(1, "b"));
    history.flush_pending_group();
    history.record(EditCommand::insert(2, "c"));
    history.flush_pending_group();

    assert_eq!(history.undo_count(), 3);

    history.undo();
    assert_eq!(history.undo_count(), 2);
    assert_eq!(history.redo_count(), 1);

    history.undo();
    assert_eq!(history.undo_count(), 1);
    assert_eq!(history.redo_count(), 2);

    history.undo();
    assert_eq!(history.undo_count(), 0);
    assert_eq!(history.redo_count(), 3);
}

#[test]
fn test_new_edit_clears_redo() {
    let mut history = History::new(100);

    history.record(EditCommand::insert(0, "hello"));
    history.flush_pending_group();

    history.undo();
    assert!(history.can_redo());

    history.record(EditCommand::insert(0, "world"));
    assert!(!history.can_redo());
}

#[test]
fn test_continuous_insert_grouping() {
    let mut history = History::new(100);

    history.record(EditCommand::insert(0, "h"));
    history.record(EditCommand::insert(1, "e"));
    history.record(EditCommand::insert(2, "l"));
    history.record(EditCommand::insert(3, "l"));
    history.record(EditCommand::insert(4, "o"));
    history.flush_pending_group();

    assert_eq!(history.undo_count(), 1);

    let inverse = history.undo().unwrap();
    match inverse {
        EditCommand::Group { commands } => {
            assert_eq!(commands.len(), 5);
        }
        _ => panic!("Expected Group command"),
    }
}

#[test]
fn test_newline_breaks_group() {
    let mut history = History::new(100);

    history.record(EditCommand::insert(0, "a"));
    history.record(EditCommand::insert(1, "b"));
    history.record(EditCommand::insert(2, "\n"));
    history.record(EditCommand::insert(3, "c"));
    history.flush_pending_group();

    assert_eq!(history.undo_count(), 3);
}

#[test]
fn test_space_after_word_breaks_group() {
    let mut history = History::new(100);

    history.record(EditCommand::insert(0, "h"));
    history.record(EditCommand::insert(1, "i"));
    history.record(EditCommand::insert(2, " "));
    history.flush_pending_group();
    history.record(EditCommand::insert(3, "t"));
    history.record(EditCommand::insert(4, "h"));
    history.record(EditCommand::insert(5, "e"));
    history.record(EditCommand::insert(6, "r"));
    history.record(EditCommand::insert(7, "e"));
    history.flush_pending_group();

    assert_eq!(history.undo_count(), 2);
}

#[test]
fn test_delete_grouping() {
    let mut history = History::new(100);

    history.record(EditCommand::delete(4..5, "o"));
    history.record(EditCommand::delete(3..4, "l"));
    history.record(EditCommand::delete(2..3, "l"));
    history.record(EditCommand::delete(1..2, "e"));
    history.record(EditCommand::delete(0..1, "h"));
    history.flush_pending_group();

    assert_eq!(history.undo_count(), 1);
}

#[test]
fn test_history_max_size() {
    let mut history = History::new(5);

    for i in 0..10 {
        history.record(EditCommand::insert(i, &format!("{}", i)));
        history.flush_pending_group();
    }

    assert_eq!(history.undo_count(), 5);
}

#[test]
fn test_clear_history() {
    let mut history = History::new(100);

    history.record(EditCommand::insert(0, "hello"));
    history.flush_pending_group();
    history.undo();

    assert!(history.can_redo());

    history.clear();
    assert!(!history.can_undo());
    assert!(!history.can_redo());
}

#[test]
fn test_mixed_operations() {
    let mut history = History::new(100);

    history.record(EditCommand::insert(0, "hello"));
    history.flush_pending_group();

    history.record(EditCommand::delete(0..2, "he"));
    history.flush_pending_group();

    assert_eq!(history.undo_count(), 2);

    let inverse = history.undo().unwrap();
    match inverse {
        EditCommand::Insert { position, text } => {
            assert_eq!(position, 0);
            assert_eq!(text, "he");
        }
        _ => panic!("Expected Insert command"),
    }
}

// Laws on concrete values.

#[test]
fn undo_then_redo_gives_back_the_command() {
    let mut history = History::new(10);
    history.record(EditCommand::delete(2..4, "cd"));
    history.flush_pending_group();
    let inverse = history.undo().unwrap();
    assert_eq!(inverse, EditCommand::insert(2, "cd"));
    let again = history.redo().unwrap();
    assert_eq!(again, EditCommand::delete(2..4, "cd"));
    assert!(history.can_undo());
    assert!(!history.can_redo());
}

#[test]
fn inverse_of_inverse_is_the_command() {
    let cmd = EditCommand::group(vec![EditCommand::insert(0, "ab"), EditCommand::delete(1..2, "b")]);
    assert_eq!(cmd.inverse().inverse(), cmd);
}

#[test]
fn zero_size_history_keeps_nothing() {
    let mut history = History::new(0);
    history.record(EditCommand::insert(0, "x"));
    history.flush_pending_group();
    assert!(!history.can_undo());
    assert_eq!(history.undo_count(), 0);
}

#[test]
fn undo_flushes_open_group_first() {
    let mut history = History::new(100);
    history.record(EditCommand::insert(0, "a"));
    history.record(EditCommand::insert(1, "b"));
    let inverse = history.undo().unwrap();
    match inverse {
        EditCommand::Group { commands } => assert_eq!(commands.len(), 2),
        _ => panic!("Expected Group command"),
    }
    assert_eq!(history.redo_count(), 1);
}

#[test]
fn history_of_largest_size_is_accepted() {
    let mut history = History::new(usize::MAX);
    history.record(EditCommand::insert(0, "x"));
    history.flush_pending_group();
    assert_eq!(history.undo_count(), 1);
}
