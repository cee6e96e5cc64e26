use aide::lsp::diagnostics::{code_from_number, Diagnostic, DiagnosticCollection, DiagnosticSeverity};
use aide::lsp::{LspLanguage, Position, Range};

#[test]
fn test_diagnostic_severity_display_name() {
    assert_eq!(DiagnosticSeverity::Error.display_name(), "エラー");
    assert_eq!(DiagnosticSeverity::Warning.display_name(), "警告");
    assert_eq!(DiagnosticSeverity::Information.display_name(), "情報");
    assert_eq!(DiagnosticSeverity::Hint.display_name(), "ヒント");
}

#[test]
fn test_diagnostic_creation() {
    let range = Range::new(Position::new(0, 0), Position::new(0, 10));
    let diag = Diagnostic::new(range, DiagnosticSeverity::Error, "テストエラー")
        .with_source("test")
        .with_code("E001");

    assert_eq!(diag.severity, DiagnosticSeverity::Error);
    assert_eq!(diag.message, "テストエラー");
    assert_eq!(diag.source, Some("test".to_string()));
    assert_eq!(diag.code, Some("E001".to_string()));
}

#[test]
fn test_diagnostic_formatted_message() {
    let range = Range::new(Position::new(0, 0), Position::new(0, 10));
    let diag = Diagnostic::new(range, DiagnosticSeverity::Error, "変数が見つかりません")
        .with_source("rust-analyzer")
        .with_code("E0425");

    let formatted = diag.formatted_message();
    assert!(formatted.contains("エラー"));
    assert!(formatted.contains("E0425"));
    assert!(formatted.contains("変数が見つかりません"));
    assert!(formatted.contains("rust-analyzer"));
}

#[test]
fn test_diagnostic_collection() {
    let mut collection = DiagnosticCollection::new();
    assert!(collection.is_empty());

    let range = Range::new(Position::new(0, 0), Position::new(0, 10));
    collection.add(Diagnostic::new(range, DiagnosticSeverity::Error, "エラー1"));
    collection.add(Diagnostic::new(range, DiagnosticSeverity::Warning, "警告1"));
    collection.add(Diagnostic::new(range, DiagnosticSeverity::Error, "エラー2"));

    assert_eq!(collection.len(), 3);
    assert_eq!(collection.error_count(), 2);
    assert_eq!(collection.warning_count(), 1);
}

#[test]
fn test_diagnostic_collection_for_line() {
    let mut collection = DiagnosticCollection::new();

    collection.add(Diagnostic::new(
        Range::new(Position::new(0, 0), Position::new(0, 10)),
        DiagnosticSeverity::Error,
        "1行目のエラー",
    ));
    collection.add(Diagnostic::new(
        Range::new(Position::new(5, 0), Position::new(5, 10)),
        DiagnosticSeverity::Error,
        "6行目のエラー",
    ));

    let line_0_diags = collection.for_line(0);
    assert_eq!(line_0_diags.len(), 1);

    let line_5_diags = collection.for_line(5);
    assert_eq!(line_5_diags.len(), 1);

    let line_10_diags = collection.for_line(10);
    assert_eq!(line_10_diags.len(), 0);
}

#[test]
fn test_lsp_language_from_extension() {
    assert_eq!(LspLanguage::from_extension("rs"), Some(LspLanguage::Rust));
    assert_eq!(LspLanguage::from_extension("RS"), Some(LspLanguage::Rust));
    assert_eq!(LspLanguage::from_extension("txt"), None);
}

#[test]
fn test_lsp_language_server_command() {
    assert_eq!(LspLanguage::Rust.server_command(), "rust-analyzer");
}

// Own tests.

#[test]
fn formatted_message_exact_text() {
    let range = Range::new(Position::new(0, 0), Position::new(0, 1));
    let d = Diagnostic::new(range, DiagnosticSeverity::Warning, "unused").with_code("W1");
    assert_eq!(d.formatted_message(), "警告 [W1] unused");
    let plain = Diagnostic::new(range, DiagnosticSeverity::Hint, "h");
    assert_eq!(plain.formatted_message(), "ヒント h");
}

#[test]
fn multi_line_range_covers_inner_lines() {
    let mut c = DiagnosticCollection::new();
    c.add(Diagnostic::new(
        Range::new(Position::new(2, 0), Position::new(4, 3)),
        DiagnosticSeverity::Error,
        "span",
    ));
    assert_eq!(c.for_line(1).len(), 0);
    assert_eq!(c.for_line(3).len(), 1);
    assert_eq!(c.for_line(4).len(), 1);
    assert_eq!(c.errors().len(), 1);
    assert_eq!(c.warnings().len(), 0);
    c.clear();
    assert!(c.is_empty());
}

#[test]
fn severity_codes_and_numeric_codes() {
    assert_eq!(DiagnosticSeverity::from_code(1), DiagnosticSeverity::Error);
    assert_eq!(DiagnosticSeverity::from_code(2), DiagnosticSeverity::Warning);
    assert_eq!(DiagnosticSeverity::from_code(3), DiagnosticSeverity::Information);
    assert_eq!(DiagnosticSeverity::from_code(4), DiagnosticSeverity::Hint);
    assert_eq!(DiagnosticSeverity::from_code(7), DiagnosticSeverity::Information);
    assert_eq!(code_from_number(425), "425");
    assert_eq!(code_from_number(0), "0");
    assert_eq!(code_from_number(-12), "-12");
    assert_eq!(code_from_number(i32::MIN), i32::MIN.to_string());
}

#[test]
fn from_lsp_parts_defaults_to_information() {
    let range = Range::new(Position::new(1, 2), Position::new(3, 4));
    let d = Diagnostic::from_lsp_parts(range, None, "m".to_string(), None, Some("c".to_string()));
    assert_eq!(d.severity, DiagnosticSeverity::Information);
    assert_eq!(d.code, Some("c".to_string()));
    assert_eq!(d.range, range);
}
