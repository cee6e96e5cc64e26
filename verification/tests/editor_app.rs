use aide::app::{shortcut_commands, AideApp, EditorCommand, KeyState};
use aide::highlight::theme::Theme;

fn keys() -> KeyState {
    KeyState { ctrl: true, shift: false, o: false, s: false, z: false, y: false }
}

#[test]
fn typing_then_undo_and_redo_by_groups() {
    let mut app = AideApp::new();
    app.text_changed("hello");
    app.text_changed("hello\n");
    app.text_changed("hello\nworld");
    assert_eq!(app.buffer().to_string(), "hello\nworld");
    app.undo();
    assert_eq!(app.buffer().to_string(), "hello\n");
    assert_eq!(app.status_message(), "元に戻しました");
    app.undo();
    app.undo();
    assert_eq!(app.buffer().to_string(), "");
    app.undo();
    assert_eq!(app.status_message(), "元に戻す操作がありません");
    app.redo();
    assert_eq!(app.buffer().to_string(), "hello");
    assert_eq!(app.status_message(), "やり直しました");
    app.redo();
    app.redo();
    app.redo();
    assert_eq!(app.status_message(), "やり直す操作がありません");
    assert_eq!(app.buffer().to_string(), "hello\nworld");
}

#[test]
fn replacing_text_in_the_middle_is_one_delete_and_one_insert() {
    let mut app = AideApp::new();
    app.text_changed("abcdef");
    app.text_changed("abXYef");
    app.undo();
    assert_eq!(app.buffer().to_string(), "abef");
    app.undo();
    assert_eq!(app.buffer().to_string(), "abcdef");
    app.redo();
    app.redo();
    assert_eq!(app.buffer().to_string(), "abXYef");
}

#[test]
fn unchanged_text_records_nothing() {
    let mut app = AideApp::new();
    app.text_changed("");
    assert!(!app.history().can_undo());
}

#[test]
fn opening_and_saving() {
    let mut app = AideApp::new();
    app.open_file("/tmp/x/main.rs", Ok("fn main() {}".to_string()));
    assert_eq!(app.status_message(), "開きました: main.rs");
    assert_eq!(app.buffer().to_string(), "fn main() {}");
    assert!(app.saves_to_file());
    assert!(!app.history().can_undo());
    app.open_file("/tmp/none", Err("not found".to_string()));
    assert_eq!(app.status_message(), "エラー: not found");
    app.file_saved(Err("denied".to_string()));
    assert_eq!(app.status_message(), "保存エラー: denied");
    app.file_saved(Ok(()));
    assert_eq!(app.status_message(), "保存しました");
    app.file_saved_as("/tmp/y/other.rs", Ok(()));
    assert_eq!(app.status_message(), "保存しました: other.rs");
    assert_eq!(app.buffer().file_path(), Some("/tmp/y/other.rs"));
}

#[test]
fn status_line_text() {
    let mut app = AideApp::new();
    assert_eq!(app.status_line(), "Dark | 1 行, 0 文字 | 言語: rust");
    app.open_file("/t/a.rs", Ok("ab\ncd".to_string()));
    app.set_theme(Theme::monokai());
    assert_eq!(app.status_line(), "Monokai | 2 行, 5 文字 | 言語: rust");
    app.show_about();
    assert_eq!(app.status_message(), "AIDE - AI Development Editor v0.1.0 - Rust製軽量エディター");
}

#[test]
fn shortcuts() {
    assert!(shortcut_commands(KeyState { ctrl: false, o: true, s: true, z: true, y: true, ..keys() })
        .is_empty());
    assert_eq!(shortcut_commands(KeyState { o: true, ..keys() }), vec![EditorCommand::Open]);
    assert_eq!(shortcut_commands(KeyState { s: true, ..keys() }), vec![EditorCommand::Save]);
    assert_eq!(
        shortcut_commands(KeyState { s: true, shift: true, ..keys() }),
        vec![EditorCommand::SaveAs]
    );
    assert_eq!(shortcut_commands(KeyState { z: true, ..keys() }), vec![EditorCommand::Undo]);
    assert_eq!(
        shortcut_commands(KeyState { z: true, shift: true, y: true, ..keys() }),
        vec![EditorCommand::Redo, EditorCommand::Redo]
    );
}

#[test]
fn opening_a_rust_file_switches_the_highlighter() {
    let mut app = AideApp::new();
    assert_eq!(app.highlighter().current_language(), Some(aide::highlight::Language::Rust));
    app.open_file("/tmp/x/notes.txt", Ok("plain".to_string()));
    assert_eq!(app.highlighter().current_language(), Some(aide::highlight::Language::Rust));
    app.open_file("/tmp/x/lib.RS", Ok("fn f() {}".to_string()));
    assert_eq!(app.highlighter().current_language(), Some(aide::highlight::Language::Rust));
    app.file_saved_as("/tmp/x/notes.txt", Ok(()));
    assert_eq!(app.highlighter().current_language(), Some(aide::highlight::Language::Rust));
}
