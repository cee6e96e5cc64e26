use aide::lsp::client::{
    definition_target, hover_text, notification_message, response_result, spawn_failed,
    ClientState, DefinitionResponse, HoverContents, Location, LspClient, LspClientError, LspError,
    LspMessage, MarkedString, ResponseStep,
};
use aide::lsp::diagnostics::{Diagnostic, DiagnosticSeverity};
use aide::lsp::protocol::{
    decode_body, message_header, parse_header_line, parse_usize, trim_str, HeaderLine, HeaderReader,
};
use aide::lsp::{LspLanguage, Position, Range};

fn initialized_client() -> LspClient {
    let mut client = LspClient::new(LspLanguage::Rust);
    client.connect().unwrap();
    client.begin_initialize().unwrap();
    client.finish_initialize();
    client
}

#[test]
fn test_client_creation() {
    let client = LspClient::new(LspLanguage::Rust);
    assert_eq!(client.state(), ClientState::Disconnected);
}

#[test]
fn test_client_set_workspace_root() {
    let mut client = LspClient::new(LspLanguage::Rust);
    client.set_workspace_root("/test/path".to_string());
    assert_eq!(client.workspace_root(), Some("/test/path"));
}

#[test]
fn test_lsp_client_error_display() {
    let err = LspClientError::NotConnected;
    assert_eq!(err.message(), "LSPサーバーに接続されていません");

    let err = LspClientError::SpawnFailed("rust-analyzer".to_string());
    assert!(err.message().contains("rust-analyzer"));
}

#[test]
fn test_client_state_initial() {
    let client = LspClient::new(LspLanguage::Rust);
    assert_eq!(client.state(), ClientState::Disconnected);
    assert!(client.no_diagnostics());
    assert!(client.no_open_documents());
}

#[test]
fn test_connect_without_server() {
    let _client = LspClient::new(LspLanguage::Rust);
}

#[test]
fn test_invalid_state_operations() {
    let mut client = LspClient::new(LspLanguage::Rust);

    let result = client.begin_initialize();
    assert!(result.is_err());

    let result = client.open_document("file:///test.rs");
    assert!(result.is_err());
}

#[test]
fn test_handle_diagnostics() {
    let mut client = LspClient::new(LspLanguage::Rust);
    let uri = "file:///test.rs";

    let diag = Diagnostic::from_lsp_parts(
        Range::new(Position::new(0, 0), Position::new(0, 10)),
        Some(DiagnosticSeverity::from_code(1)),
        "テストエラー".to_string(),
        None,
        None,
    );
    client.handle_diagnostics(uri.to_string(), vec![diag]);

    let diags = client.get_diagnostics(uri);
    assert!(diags.is_some());
    assert_eq!(diags.unwrap().len(), 1);
}

// Own tests: the connection's phases.

#[test]
fn connect_twice_is_refused() {
    let mut client = LspClient::new(LspLanguage::Rust);
    assert!(client.connect().is_ok());
    assert_eq!(client.state(), ClientState::Connecting);
    match client.connect() {
        Err(LspClientError::InvalidState(m)) => assert_eq!(m, "既に接続されています"),
        _ => panic!("expected InvalidState"),
    }
    assert_eq!(client.state(), ClientState::Connecting);
}

#[test]
fn initialize_only_while_connecting() {
    let client = LspClient::new(LspLanguage::Rust);
    match client.begin_initialize() {
        Err(e) => assert_eq!(e.message(), "無効な状態: 接続中の状態でない場合は初期化できません"),
        Ok(()) => panic!("expected an error"),
    }
    let client = initialized_client();
    assert_eq!(client.state(), ClientState::Initialized);
    assert!(client.begin_initialize().is_err());
}

#[test]
fn shutdown_cycle() {
    let mut client = LspClient::new(LspLanguage::Rust);
    match client.begin_shutdown() {
        Err(e) => assert_eq!(e.message(), "無効な状態: 初期化されていません"),
        Ok(()) => panic!("expected an error"),
    }
    let mut client = initialized_client();
    client.begin_shutdown().unwrap();
    assert_eq!(client.state(), ClientState::ShuttingDown);
    client.finish_shutdown();
    assert_eq!(client.state(), ClientState::Disconnected);
    assert!(client.connect().is_ok());
}

#[test]
fn document_versions() {
    let mut client = initialized_client();
    assert_eq!(client.open_document("file:///a.rs").unwrap(), 1);
    assert_eq!(client.change_document("file:///a.rs").unwrap(), 2);
    assert_eq!(client.change_document("file:///a.rs").unwrap(), 3);
    assert_eq!(client.document_version("file:///a.rs"), Some(3));
    assert_eq!(client.open_document("file:///a.rs").unwrap(), 1);
    match client.change_document("file:///b.rs") {
        Err(LspClientError::DocumentNotOpen(u)) => assert_eq!(u, "file:///b.rs"),
        _ => panic!("expected DocumentNotOpen"),
    }
    client.handle_diagnostics("file:///a.rs".to_string(), vec![]);
    client.close_document("file:///a.rs").unwrap();
    assert!(client.no_open_documents());
    assert!(client.get_diagnostics("file:///a.rs").is_none());
    assert!(client.no_diagnostics());
}

#[test]
fn diagnostics_are_replaced() {
    let mut client = LspClient::new(LspLanguage::Rust);
    let r = Range::new(Position::new(0, 0), Position::new(0, 1));
    client.handle_diagnostics(
        "u".to_string(),
        vec![
            Diagnostic::new(r, DiagnosticSeverity::Error, "a"),
            Diagnostic::new(r, DiagnosticSeverity::Warning, "b"),
        ],
    );
    client.handle_diagnostics("u".to_string(), vec![Diagnostic::new(r, DiagnosticSeverity::Hint, "c")]);
    assert_eq!(client.get_diagnostics("u").unwrap().len(), 1);
}

#[test]
fn requests_get_increasing_ids_and_responses_end_them() {
    let mut client = initialized_client();
    let m1 = client.request_message("textDocument/hover", "{}".to_string());
    let m2 = client.request_message("textDocument/completion", "{}".to_string());
    assert_eq!(m1.id, Some(1));
    assert_eq!(m2.id, Some(2));
    assert_eq!(m1.jsonrpc, "2.0");
    assert_eq!(m2.method.as_deref(), Some("textDocument/completion"));
    let diag_note = notification_message("textDocument/publishDiagnostics", "{\"uri\":\"x\"}".to_string());
    assert_eq!(client.accept_message(2, &diag_note), ResponseStep::Diagnostics);
    let other = notification_message("window/logMessage", "{}".to_string());
    assert_eq!(client.accept_message(2, &other), ResponseStep::Skip);
    let mut response = LspMessage {
        jsonrpc: "2.0".to_string(),
        id: Some(2),
        method: None,
        params: None,
        result: Some("null".to_string()),
        error: None,
    };
    assert_eq!(client.accept_message(1, &response), ResponseStep::Skip);
    assert_eq!(client.accept_message(2, &response), ResponseStep::Done);
    assert_eq!(response_result(response.clone()).unwrap(), "null");
    response.error = Some(LspError { code: -32601, message: "no".to_string(), data: None });
    match response_result(response.clone()) {
        Err(LspClientError::ServerError(m)) => assert_eq!(m, "no"),
        _ => panic!("expected ServerError"),
    }
    response.error = None;
    response.result = None;
    match response_result(response) {
        Err(e) => assert_eq!(e.message(), "無効なレスポンス: 結果がありません"),
        Ok(_) => panic!("expected an error"),
    }
}

#[test]
fn error_messages() {
    assert_eq!(
        spawn_failed("rust-analyzer", "not found").message(),
        "LSPサーバーの起動に失敗しました: rust-analyzer: not found"
    );
    assert_eq!(LspClientError::IoError("x".to_string()).message(), "I/Oエラー: x");
    assert_eq!(LspClientError::JsonError("y".to_string()).message(), "JSONエラー: y");
    assert_eq!(
        LspClientError::DocumentNotOpen("u".to_string()).message(),
        "ドキュメントが開かれていません: u"
    );
}

#[test]
fn root_uri_from_path() {
    let mut client = LspClient::new(LspLanguage::Rust);
    assert_eq!(client.root_uri(), None);
    client.set_workspace_root("/home/user/my project".to_string());
    assert_eq!(client.root_uri(), Some("file:///home/user/my%20project".to_string()));
    client.set_workspace_root("relative/dir".to_string());
    assert_eq!(client.root_uri(), None);
}

#[test]
fn hover_texts() {
    assert_eq!(hover_text(&HoverContents::Markup("**x**".to_string())), "**x**");
    assert_eq!(
        hover_text(&HoverContents::Scalar(MarkedString::LanguageString {
            language: "rust".to_string(),
            value: "fn f()".to_string(),
        })),
        "fn f()"
    );
    assert_eq!(
        hover_text(&HoverContents::Array(vec![
            MarkedString::String("a".to_string()),
            MarkedString::String("b".to_string()),
            MarkedString::LanguageString { language: "rust".to_string(), value: "c".to_string() },
        ])),
        "a\nb\nc"
    );
    assert_eq!(hover_text(&HoverContents::Array(vec![])), "");
}

#[test]
fn definition_targets() {
    let r = Range::new(Position::new(1, 2), Position::new(1, 5));
    let loc = |u: &str| Location { uri: u.to_string(), range: r };
    assert_eq!(
        definition_target(DefinitionResponse::Scalar(loc("file:///a.rs"))),
        Some(("file:///a.rs".to_string(), r))
    );
    assert_eq!(
        definition_target(DefinitionResponse::Array(vec![loc("file:///b.rs"), loc("file:///c.rs")])),
        Some(("file:///b.rs".to_string(), r))
    );
    assert_eq!(definition_target(DefinitionResponse::Link(vec![])), None);
}

// The wire format.

#[test]
fn header_is_written_for_the_byte_length() {
    assert_eq!(message_header("{}"), "Content-Length: 2\r\n\r\n");
    assert_eq!(message_header("日本"), "Content-Length: 6\r\n\r\n");
    assert_eq!(message_header(""), "Content-Length: 0\r\n\r\n");
}

#[test]
fn header_lines_are_read() {
    assert_eq!(parse_header_line("Content-Length: 42\r\n"), HeaderLine::ContentLength(42));
    assert_eq!(parse_header_line("\r\n"), HeaderLine::End);
    assert_eq!(parse_header_line("  \n"), HeaderLine::End);
    assert_eq!(parse_header_line("Content-Length: x\r\n"), HeaderLine::BadLength);
    assert_eq!(parse_header_line("Content-Length: +7"), HeaderLine::ContentLength(7));
    assert_eq!(parse_header_line("Content-Type: utf-8\r\n"), HeaderLine::Other);
    assert_eq!(parse_header_line("content-length: 3"), HeaderLine::Other);
}

#[test]
fn header_reader_round_trip() {
    let header = message_header("{\"a\":1}");
    let mut reader = HeaderReader::new();
    let mut ended = false;
    for line in header.split_inclusive('\n') {
        if reader.feed(line).unwrap() {
            ended = true;
            break;
        }
    }
    assert!(ended);
    assert_eq!(reader.finish().unwrap(), 7);
}

#[test]
fn header_reader_errors() {
    let reader = HeaderReader::new();
    match reader.finish() {
        Err(e) => assert_eq!(e.message(), "無効なレスポンス: Content-Lengthがありません"),
        Ok(_) => panic!("expected an error"),
    }
    let mut reader = HeaderReader::new();
    match reader.feed("Content-Length: -1\r\n") {
        Err(e) => assert_eq!(e.message(), "無効なレスポンス: 無効なContent-Length"),
        Ok(_) => panic!("expected an error"),
    }
}

#[test]
fn numbers_and_trimming() {
    assert_eq!(parse_usize("0"), Some(0));
    assert_eq!(parse_usize("+15"), Some(15));
    assert_eq!(parse_usize(""), None);
    assert_eq!(parse_usize("+"), None);
    assert_eq!(parse_usize("1 2"), None);
    assert_eq!(parse_usize("99999999999999999999999"), None);
    assert_eq!(parse_usize(&usize::MAX.to_string()), Some(usize::MAX));
    assert_eq!(trim_str("  a b \t\r\n"), "a b");
    assert_eq!(trim_str("\u{3000}x\u{3000}"), "x");
    assert_eq!(trim_str("   "), "");
}

#[test]
fn bodies_must_be_utf8() {
    assert_eq!(decode_body("{\"k\":\"値\"}".as_bytes().to_vec()).unwrap(), "{\"k\":\"値\"}");
    match decode_body(vec![0xff, 0xfe]) {
        Err(e) => assert_eq!(e.message(), "無効なレスポンス: 無効なUTF-8"),
        Ok(_) => panic!("expected an error"),
    }
}
