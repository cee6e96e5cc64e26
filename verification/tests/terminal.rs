use aide::highlight::theme::Color;
use aide::terminal::pty::{PtyError, TerminalSize};
use aide::terminal::view::{TerminalColors, TerminalView};

#[test]
fn test_terminal_size_default() {
    let size = TerminalSize::default();
    assert_eq!(size.cols, 80);
    assert_eq!(size.rows, 24);
}

#[test]
fn test_pty_error_display() {
    let err = PtyError::NotRunning;
    assert_eq!(err.message(), "シェルが実行されていません");

    let err = PtyError::SpawnFailed("テストエラー".to_string());
    assert!(err.message().contains("シェルの起動に失敗しました"));
}

#[test]
fn test_terminal_colors_default() {
    let colors = TerminalColors::default();
    assert_eq!(colors.background, Color::from_rgb(30, 30, 30));
    assert_eq!(colors.foreground, Color::from_rgb(204, 204, 204));
}

#[test]
fn test_terminal_view_creation() {
    let view = TerminalView::new();
    assert!(!view.is_visible());
    assert!(view.input_buffer().is_empty());
    assert!(view.history().is_empty());
}

#[test]
fn test_strip_ansi_codes() {
    let view = TerminalView::new();

    let input = "\x1b[32mHello\x1b[0m";
    let output = view.strip_ansi_codes(input);
    assert_eq!(output, "Hello");

    let input = "\x1b[1;31mError:\x1b[0m Something went wrong";
    let output = view.strip_ansi_codes(input);
    assert_eq!(output, "Error: Something went wrong");

    let input = "Plain text";
    let output = view.strip_ansi_codes(input);
    assert_eq!(output, "Plain text");
}

#[test]
fn test_history_navigation() {
    let mut view = TerminalView::new();

    for command in ["command1", "command2", "command3"] {
        view.set_input(command.to_string());
        view.send_input();
    }

    view.history_up();
    assert_eq!(view.input_buffer(), "command3");

    view.history_up();
    assert_eq!(view.input_buffer(), "command2");

    view.history_down();
    assert_eq!(view.input_buffer(), "command3");

    view.history_down();
    assert!(view.input_buffer().is_empty());
}

#[test]
fn test_toggle_visibility() {
    let mut view = TerminalView::new();
    assert!(!view.is_visible());

    view.start(Ok(())).unwrap();
    assert!(view.is_visible());

    view.toggle(true);
    assert!(!view.is_visible());
}

#[test]
fn test_set_colors() {
    let mut view = TerminalView::new();
    let new_colors = TerminalColors {
        background: Color::from_rgb(0, 0, 0),
        foreground: Color::from_rgb(255, 255, 255),
        cursor: Color::from_rgb(0, 255, 0),
        selection: Color::from_rgb(0, 0, 255),
    };

    view.set_colors(new_colors);
    assert_eq!(view.colors().background, Color::from_rgb(0, 0, 0));
    assert_eq!(view.colors().foreground, Color::from_rgb(255, 255, 255));
}

// Own tests.

#[test]
fn start_shows_the_banner_and_failure_changes_nothing() {
    let mut view = TerminalView::new();
    let err = view.start(Err(PtyError::OpenFailed("no pty".to_string())));
    assert!(err.is_err());
    assert!(!view.is_visible());
    assert_eq!(view.output_text(), "");
    view.start(Ok(())).unwrap();
    assert_eq!(view.output_text(), "シェルを起動しました。\nCtrl+Enter で入力を送信します。\n\n");
    assert_eq!(view.error_message(), None);
}

#[test]
fn toggle_asks_for_a_shell_only_when_none_runs() {
    let mut view = TerminalView::new();
    assert!(view.toggle(false));
    assert!(!view.is_visible());
    view.finish_toggle(Err(PtyError::SpawnFailed("x".to_string())));
    assert!(view.is_visible());
    assert_eq!(
        view.error_message(),
        Some("ターミナルの起動に失敗しました: シェルの起動に失敗しました: x")
    );
    assert!(!view.toggle(false));
    assert!(!view.is_visible());
    assert!(!view.toggle(true));
    assert!(view.is_visible());
}

#[test]
fn send_input_echoes_and_records() {
    let mut view = TerminalView::new();
    assert_eq!(view.send_input(), None);
    view.set_input("ls -l".to_string());
    assert_eq!(view.send_input(), Some("ls -l\n".to_string()));
    assert_eq!(view.output_text(), "$ ls -l\n");
    assert_eq!(view.history().len(), 1);
    assert_eq!(view.input_buffer(), "");
    view.set_input("  \t".to_string());
    assert_eq!(view.send_input(), Some("  \t\n".to_string()));
    assert_eq!(view.history().len(), 1);
    view.send_failed(&PtyError::NotRunning);
    assert_eq!(view.error_message(), Some("送信エラー: シェルが実行されていません"));
}

#[test]
fn output_is_decoded_and_stripped() {
    let mut view = TerminalView::new();
    view.update_output(b"");
    assert_eq!(view.output_text(), "");
    view.update_output("\x1b[1m太字\x1b[0m\n".as_bytes());
    assert_eq!(view.output_text(), "太字\n");
    view.update_output(&[b'a', 0xff, b'b']);
    assert_eq!(view.output_text(), "太字\na\u{fffd}b");
    view.clear_output();
    assert_eq!(view.output_text(), "");
}

#[test]
fn strip_edge_cases() {
    let view = TerminalView::new();
    assert_eq!(view.strip_ansi_codes("a\x1bb"), "a\x1bb");
    assert_eq!(view.strip_ansi_codes("x\x1b["), "x");
    assert_eq!(view.strip_ansi_codes("\x1b[12;3Hz"), "z");
    assert_eq!(view.strip_ansi_codes(""), "");
}

#[test]
fn history_stops_at_both_ends() {
    let mut view = TerminalView::new();
    view.history_up();
    view.history_down();
    assert_eq!(view.input_buffer(), "");
    view.set_input("one".to_string());
    view.send_input();
    view.history_up();
    view.history_up();
    assert_eq!(view.input_buffer(), "one");
}

#[test]
fn resize_errors_and_size() {
    let mut view = TerminalView::new();
    view.resize(Ok(()));
    assert_eq!(view.error_message(), None);
    view.resize(Err(PtyError::ResizeFailed("bad".to_string())));
    assert_eq!(view.error_message(), Some("リサイズエラー: リサイズに失敗しました: bad"));
    let s = TerminalView::size_for(120, 40);
    assert_eq!(s, TerminalSize { cols: 120, rows: 40, pixel_width: 0, pixel_height: 0 });
    view.stop();
    assert!(!view.is_visible());
}
