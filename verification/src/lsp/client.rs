//! The language server client's state: connection phase, request ids,
//! open documents and the diagnostics the server published.
//!
//! The server process and its pipes are driven by the caller, which hands
//! this client the messages it reads and sends the ones it is given.
use vstd::prelude::*;

use super::diagnostics::{Diagnostic, DiagnosticCollection};
use super::{LspLanguage, Range};
use crate::assoc::{
    lemma_pairs_has, pairs_map, text_get, text_insert, text_map, text_remove, unique_keys,
    unique_text_keys,
};
use std::collections::HashMap;

verus! {

/// The phase of the connection to the language server.
#[derive(Debug, Clone, Copy, PartialEq, Eq, Structural)]
pub enum ClientState {
    /// No server.
    Disconnected,
    /// The server was started and is not initialized yet.
    Connecting,
    /// The server is initialized.
    Initialized,
    /// The server is shutting down.
    ShuttingDown,
}

/// What can go wrong talking to the language server.
#[derive(Debug)]
pub enum LspClientError {
    /// No server is connected.
    NotConnected,
    /// The server could not be started.
    SpawnFailed(String),
    /// The request does not fit the connection's phase.
    InvalidState(String),
    /// Reading or writing the pipes failed.
    IoError(String),
    /// The server answered with an error.
    ServerError(String),
    /// The server's answer could not be read.
    InvalidResponse(String),
    /// The document was not opened.
    DocumentNotOpen(String),
    /// A message could not be turned into JSON or back.
    JsonError(String),
}

/// The message of an error.
pub open spec fn client_error_text(e: LspClientError) -> Seq<char> {
    match e {
        LspClientError::NotConnected => "LSPサーバーに接続されていません"@,
        LspClientError::SpawnFailed(s) => "LSPサーバーの起動に失敗しました: "@ + s@,
        LspClientError::InvalidState(s) => "無効な状態: "@ + s@,
        LspClientError::IoError(s) => "I/Oエラー: "@ + s@,
        LspClientError::ServerError(s) => "サーバーエラー: "@ + s@,
        LspClientError::InvalidResponse(s) => "無効なレスポンス: "@ + s@,
        LspClientError::DocumentNotOpen(s) => "ドキュメントが開かれていません: "@ + s@,
        LspClientError::JsonError(s) => "JSONエラー: "@ + s@,
    }
}

impl LspClientError {
    /// The error's message.
    pub fn message(&self) -> (m: String)
        ensures
            m@ == client_error_text(*self),
    {
        let (prefix, detail) = match self {
            LspClientError::NotConnected => {
                return "LSPサーバーに接続されていません".to_owned();
            },
            LspClientError::SpawnFailed(s) => ("LSPサーバーの起動に失敗しました: ", s.as_str()),
            LspClientError::InvalidState(s) => ("無効な状態: ", s.as_str()),
            LspClientError::IoError(s) => ("I/Oエラー: ", s.as_str()),
            LspClientError::ServerError(s) => ("サーバーエラー: ", s.as_str()),
            LspClientError::InvalidResponse(s) => ("無効なレスポンス: ", s.as_str()),
            LspClientError::DocumentNotOpen(s) => ("ドキュメントが開かれていません: ", s.as_str()),
            LspClientError::JsonError(s) => ("JSONエラー: ", s.as_str()),
        };
        let mut m = prefix.to_owned();
        m.append(detail);
        m
    }
}

/// The error for a server that could not be started: the command and the
/// reason.
pub fn spawn_failed(command: &str, reason: &str) -> (e: LspClientError)
    ensures
        e matches LspClientError::SpawnFailed(m) && m@ == command@ + ": "@ + reason@,
{
    let mut m = command.to_owned();
    m.append(": ");
    m.append(reason);
    LspClientError::SpawnFailed(m)
}

/// The error of a server message.
#[derive(Debug, Clone)]
pub struct LspError {
    /// Error code.
    pub code: i32,
    /// Error message.
    pub message: String,
    /// Extra data, as JSON text.
    pub data: Option<String>,
}

/// A JSON-RPC message, its structured parts kept as JSON text.
#[derive(Debug, Clone)]
pub struct LspMessage {
    /// The protocol version, `2.0`.
    pub jsonrpc: String,
    /// The request id; none for a notification.
    pub id: Option<i64>,
    /// The method, for requests and notifications.
    pub method: Option<String>,
    /// The parameters, as JSON text.
    pub params: Option<String>,
    /// The result of a response, as JSON text.
    pub result: Option<String>,
    /// The error of a response.
    pub error: Option<LspError>,
}

/// The text of an optional string.
pub open spec fn opt_text(o: Option<String>) -> Option<Seq<char>> {
    match o {
        Some(s) => Some(s@),
        None => None,
    }
}

/// A notification: a message with a method and parameters and no id.
pub fn notification_message(method: &str, params: String) -> (m: LspMessage)
    ensures
        m.jsonrpc@ == "2.0"@,
        m.id is None,
        opt_text(m.method) == Some(method@),
        opt_text(m.params) == Some(params@),
        m.result is None,
        m.error is None,
{
    LspMessage {
        jsonrpc: "2.0".to_owned(),
        id: None,
        method: Some(method.to_owned()),
        params: Some(params),
        result: None,
        error: None,
    }
}

/// What the result of a response is: the server's error, a missing
/// result, or the result as JSON text.
pub fn response_result(response: LspMessage) -> (r: Result<String, LspClientError>)
    ensures
        match response.error {
            Some(e) => r matches Err(LspClientError::ServerError(m)) && m@ == e.message@,
            None => match response.result {
                Some(v) => r matches Ok(t) && t@ == v@,
                None => r matches Err(LspClientError::InvalidResponse(m)) && m@ == "結果がありません"@,
            },
        },
{
    if let Some(e) = response.error {
        return Err(LspClientError::ServerError(e.message));
    }
    match response.result {
        Some(v) => Ok(v),
        None => Err(LspClientError::InvalidResponse("結果がありません".to_owned())),
    }
}

/// The method of the notification that publishes diagnostics.
pub open spec fn publish_diagnostics_method() -> Seq<char> {
    "textDocument/publishDiagnostics"@
}

/// What to do with a message read while waiting for a response.
#[derive(Debug, Clone, Copy, PartialEq, Eq, Structural)]
pub enum ResponseStep {
    /// It is the awaited response.
    Done,
    /// It publishes diagnostics: its parameters go to
    /// [`LspClient::handle_diagnostics`].
    Diagnostics,
    /// Nothing to do with it.
    Skip,
}

/// The name of the file URL of a path, as `url::Url::from_file_path`
/// writes it.
pub uninterp spec fn file_url(path: Seq<char>) -> Option<Seq<char>>;

/// `url::Url::from_file_path`, as text: the `file` URL of an absolute path
/// (each component percent-encoded), none for a relative one.
#[verifier::external_body]
fn file_url_of(path: &str) -> (r: Option<String>)
    ensures
        opt_text(r) == file_url(path@),
{
    url::Url::from_file_path(path).ok().map(|u| u.as_str().to_owned())
}

/// The abstract state of an [`LspClient`].
pub struct ClientView {
    /// The connection phase.
    pub state: ClientState,
    /// The language of the server.
    pub language: LspLanguage,
    /// The workspace root, if set.
    pub root: Option<Seq<char>>,
    /// The id the next request gets.
    pub next_id: i64,
    /// The requests awaiting an answer: id to method.
    pub pending: Map<i64, Seq<char>>,
    /// The open documents: URI to version.
    pub documents: Map<Seq<char>, i32>,
    /// The diagnostics published last for each URI.
    pub diagnostics: Map<Seq<char>, Seq<Diagnostic>>,
}

/// The views of the diagnostic collections of a map.
pub open spec fn collection_views(m: Map<Seq<char>, DiagnosticCollection>) -> Map<
    Seq<char>,
    Seq<Diagnostic>,
> {
    m.map_values(|c: DiagnosticCollection| c@)
}

/// A list of pairs is empty exactly when its map is.
proof fn lemma_empty_map<K, V>(s: Seq<(K, V)>)
    requires
        unique_keys(s),
    ensures
        (s.len() == 0) == (pairs_map(s) == Map::<K, V>::empty()),
{
    if s.len() == 0 {
        assert(pairs_map(s) =~= Map::<K, V>::empty());
    } else {
        lemma_pairs_has(s, 0);
        assert(!Map::<K, V>::empty().contains_key(s[0].0));
    }
}

/// A response ends the wait that its request began: recording a request
/// under a fresh id and then accepting its response leaves the pending
/// requests as they were.
pub proof fn law_answered_request_is_forgotten(c: ClientView, method: Seq<char>)
    requires
        !c.pending.contains_key(c.next_id),
    ensures
        c.pending.insert(c.next_id, method).remove(c.next_id) == c.pending,
{
    assert(c.pending.insert(c.next_id, method).remove(c.next_id) =~= c.pending);
}

/// The language server client.
pub struct LspClient {
    state: ClientState,
    language: LspLanguage,
    workspace_root: Option<String>,
    request_id: i64,
    pending_requests: HashMap<i64, String>,
    open_documents: Vec<(String, i32)>,
    diagnostics: Vec<(String, DiagnosticCollection)>,
}

/// The client's state with the phase changed.
pub open spec fn with_state(c: ClientView, s: ClientState) -> ClientView {
    ClientView { state: s, ..c }
}

/// The error for a request that needs an initialized server.
pub open spec fn not_initialized<T>(r: Result<T, LspClientError>) -> bool {
    r matches Err(LspClientError::InvalidState(m)) && m@ == "初期化されていません"@
}

impl LspClient {
    /// The abstract state.
    pub closed spec fn view(&self) -> ClientView {
        ClientView {
            state: self.state,
            language: self.language,
            root: opt_text(self.workspace_root),
            next_id: self.request_id,
            pending: self.pending_requests@.map_values(|m: String| m@),
            documents: text_map(self.open_documents@),
            diagnostics: collection_views(text_map(self.diagnostics@)),
        }
    }

    /// Each request id, URI and diagnostics URI is held once.
    pub closed spec fn wf(&self) -> bool {
        &&& unique_text_keys(self.open_documents@)
        &&& unique_text_keys(self.diagnostics@)
    }

    /// A client for `language` with no server, no documents and no
    /// diagnostics; the first request gets id 1.
    pub fn new(language: LspLanguage) -> (c: LspClient)
        ensures
            c.wf(),
            c@ == (ClientView {
                state: ClientState::Disconnected,
                language,
                root: None,
                next_id: 1,
                pending: Map::empty(),
                documents: Map::empty(),
                diagnostics: Map::empty(),
            }),
    {
        let c = LspClient {
            state: ClientState::Disconnected,
            language,
            workspace_root: None,
            request_id: 1,
            pending_requests: HashMap::new(),
            open_documents: Vec::new(),
            diagnostics: Vec::new(),
        };
        proof {
            assert(c.pending_requests@.map_values(|m: String| m@) =~= Map::empty());
            assert(crate::assoc::text_keyed(c.open_documents@) =~= Seq::empty());
            assert(crate::assoc::text_keyed(c.diagnostics@) =~= Seq::empty());
            assert(collection_views(text_map(c.diagnostics@)) =~= Map::empty());
        }
        c
    }

    /// Sets the workspace root.
    pub fn set_workspace_root(&mut self, root: String)
        requires
            old(self).wf(),
        ensures
            final(self).wf(),
            final(self)@ == (ClientView { root: Some(root@), ..old(self)@ }),
    {
        self.workspace_root = Some(root);
    }

    /// The workspace root, if set.
    pub fn workspace_root(&self) -> (r: Option<&str>)
        ensures
            match self@.root {
                Some(p) => r matches Some(s) && s@ == p,
                None => r is None,
            },
    {
        match &self.workspace_root {
            Some(p) => Some(p.as_str()),
            None => None,
        }
    }

    /// The workspace root as a `file` URL, for the server's `rootUri`;
    /// none without a root or when it is not an absolute path.
    pub fn root_uri(&self) -> (r: Option<String>)
        ensures
            opt_text(r) == match self@.root {
                Some(p) => file_url(p),
                None => None,
            },
    {
        match &self.workspace_root {
            Some(p) => file_url_of(p.as_str()),
            None => None,
        }
    }

    /// The connection phase.
    pub fn state(&self) -> (s: ClientState)
        ensures
            s == self@.state,
    {
        self.state
    }

    /// The language of the server.
    pub fn language(&self) -> (l: LspLanguage)
        ensures
            l == self@.language,
    {
        self.language
    }

    /// Starts connecting: only a disconnected client can, and it is then
    /// connecting. The caller starts the server command of the language
    /// and reports a failure with [`spawn_failed`].
    pub fn connect(&mut self) -> (r: Result<(), LspClientError>)
        requires
            old(self).wf(),
        ensures
            final(self).wf(),
            old(self)@.state == ClientState::Disconnected ==> r is Ok && final(self)@ == with_state(
                old(self)@,
                ClientState::Connecting,
            ),
            old(self)@.state != ClientState::Disconnected ==> (r matches Err(
                LspClientError::InvalidState(m),
            ) && m@ == "既に接続されています"@) && final(self)@ == old(self)@,
    {
        if self.state != ClientState::Disconnected {
            return Err(LspClientError::InvalidState("既に接続されています".to_owned()));
        }
        self.state = ClientState::Connecting;
        Ok(())
    }

    /// Whether the server may be initialized: only while connecting.
    pub fn begin_initialize(&self) -> (r: Result<(), LspClientError>)
        ensures
            self@.state == ClientState::Connecting ==> r is Ok,
            self@.state != ClientState::Connecting ==> (r matches Err(
                LspClientError::InvalidState(m),
            ) && m@ == "接続中の状態でない場合は初期化できません"@),
    {
        if self.state != ClientState::Connecting {
            return Err(
                LspClientError::InvalidState(
                    "接続中の状態でない場合は初期化できません".to_owned(),
                ),
            );
        }
        Ok(())
    }

    /// Records that the server answered the initialization and was told so.
    pub fn finish_initialize(&mut self)
        requires
            old(self).wf(),
        ensures
            final(self).wf(),
            final(self)@ == with_state(old(self)@, ClientState::Initialized),
    {
        self.state = ClientState::Initialized;
    }

    /// Whether requests on documents may be made: only once initialized.
    pub fn ensure_initialized(&self) -> (r: Result<(), LspClientError>)
        ensures
            self@.state == ClientState::Initialized ==> r is Ok,
            self@.state != ClientState::Initialized ==> not_initialized(r),
    {
        if self.state != ClientState::Initialized {
            return Err(LspClientError::InvalidState("初期化されていません".to_owned()));
        }
        Ok(())
    }

    /// Starts shutting down: only an initialized client can, and it is
    /// then shutting down until [`LspClient::finish_shutdown`].
    pub fn begin_shutdown(&mut self) -> (r: Result<(), LspClientError>)
        requires
            old(self).wf(),
        ensures
            final(self).wf(),
            old(self)@.state == ClientState::Initialized ==> r is Ok && final(self)@ == with_state(
                old(self)@,
                ClientState::ShuttingDown,
            ),
            old(self)@.state != ClientState::Initialized ==> not_initialized(r) && final(self)@
                == old(self)@,
    {
        self.ensure_initialized()?;
        self.state = ClientState::ShuttingDown;
        Ok(())
    }

    /// Records that the server was told to exit and stopped.
    pub fn finish_shutdown(&mut self)
        requires
            old(self).wf(),
        ensures
            final(self).wf(),
            final(self)@ == with_state(old(self)@, ClientState::Disconnected),
    {
        self.state = ClientState::Disconnected;
    }

    /// Opens a document: once initialized, its URI is recorded at version
    /// 1, the version the caller sends with its text.
    pub fn open_document(&mut self, uri: &str) -> (r: Result<i32, LspClientError>)
        requires
            old(self).wf(),
        ensures
            final(self).wf(),
            old(self)@.state == ClientState::Initialized ==> r == Ok::<i32, LspClientError>(1)
                && final(self)@ == (ClientView {
                documents: old(self)@.documents.insert(uri@, 1),
                ..old(self)@
            }),
            old(self)@.state != ClientState::Initialized ==> not_initialized(r) && final(self)@
                == old(self)@,
    {
        if let Err(e) = self.ensure_initialized() {
            return Err(e);
        }
        text_insert(&mut self.open_documents, uri.to_owned(), 1);
        Ok(1)
    }

    /// Closes a document: once initialized, its URI and its diagnostics
    /// are forgotten.
    pub fn close_document(&mut self, uri: &str) -> (r: Result<(), LspClientError>)
        requires
            old(self).wf(),
        ensures
            final(self).wf(),
            old(self)@.state == ClientState::Initialized ==> r is Ok && final(self)@ == (
            ClientView {
                documents: old(self)@.documents.remove(uri@),
                diagnostics: old(self)@.diagnostics.remove(uri@),
                ..old(self)@
            }),
            old(self)@.state != ClientState::Initialized ==> not_initialized(r) && final(self)@
                == old(self)@,
    {
        self.ensure_initialized()?;
        let ghost old_diags = text_map(self.diagnostics@);
        text_remove(&mut self.open_documents, uri);
        text_remove(&mut self.diagnostics, uri);
        proof {
            assert(collection_views(text_map(self.diagnostics@)) =~= collection_views(
                old_diags,
            ).remove(uri@));
        }
        Ok(())
    }

    /// Records a change of an open document: once initialized, its version
    /// goes up by one and is the answer, sent with the new text; a document
    /// that was not opened is an error.
    pub fn change_document(&mut self, uri: &str) -> (r: Result<i32, LspClientError>)
        requires
            old(self).wf(),
            old(self)@.documents.contains_key(uri@) ==> old(self)@.documents[uri@] < i32::MAX,
        ensures
            final(self).wf(),
            old(self)@.state != ClientState::Initialized ==> not_initialized(r) && final(self)@
                == old(self)@,
            old(self)@.state == ClientState::Initialized && !old(self)@.documents.contains_key(
                uri@,
            ) ==> (r matches Err(LspClientError::DocumentNotOpen(m)) && m@ == uri@)
                && final(self)@ == old(self)@,
            old(self)@.state == ClientState::Initialized && old(self)@.documents.contains_key(
                uri@,
            ) ==> r == Ok::<i32, LspClientError>((old(self)@.documents[uri@] + 1) as i32)
                && final(self)@ == (ClientView {
                documents: old(self)@.documents.insert(
                    uri@,
                    (old(self)@.documents[uri@] + 1) as i32,
                ),
                ..old(self)@
            }),
    {
        if let Err(e) = self.ensure_initialized() {
            return Err(e);
        }
        let version = match text_get(&self.open_documents, uri) {
            Some(v) => *v,
            None => {
                return Err(LspClientError::DocumentNotOpen(uri.to_owned()));
            },
        };
        let next = version + 1;
        text_insert(&mut self.open_documents, uri.to_owned(), next);
        Ok(next)
    }

    /// The version of an open document.
    pub fn document_version(&self, uri: &str) -> (r: Option<i32>)
        requires
            self.wf(),
        ensures
            match r {
                Some(v) => self@.documents.contains_key(uri@) && v == self@.documents[uri@],
                None => !self@.documents.contains_key(uri@),
            },
    {
        match text_get(&self.open_documents, uri) {
            Some(v) => Some(*v),
            None => None,
        }
    }

    /// Whether no document is open.
    pub fn no_open_documents(&self) -> (b: bool)
        requires
            self.wf(),
        ensures
            b == (self@.documents == Map::<Seq<char>, i32>::empty()),
    {
        proof {
            lemma_empty_map(crate::assoc::text_keyed(self.open_documents@));
        }
        self.open_documents.len() == 0
    }

    /// Whether no diagnostics are held.
    pub fn no_diagnostics(&self) -> (b: bool)
        requires
            self.wf(),
        ensures
            b == (self@.diagnostics == Map::<Seq<char>, Seq<Diagnostic>>::empty()),
    {
        proof {
            lemma_empty_map(crate::assoc::text_keyed(self.diagnostics@));
            if self.diagnostics.len() > 0 {
                let k = self.diagnostics@[0].0@;
                lemma_pairs_has(crate::assoc::text_keyed(self.diagnostics@), 0);
                assert(self@.diagnostics.contains_key(k));
                assert(!Map::<Seq<char>, Seq<Diagnostic>>::empty().contains_key(k));
            } else {
                assert(self@.diagnostics =~= Map::<Seq<char>, Seq<Diagnostic>>::empty());
            }
        }
        self.diagnostics.len() == 0
    }

    /// A request for `method`: it gets the next id, which is recorded as
    /// pending until its response is read.
    pub fn request_message(&mut self, method: &str, params: String) -> (m: LspMessage)
        requires
            old(self).wf(),
        ensures
            final(self).wf(),
            m.jsonrpc@ == "2.0"@,
            m.id == Some(old(self)@.next_id),
            opt_text(m.method) == Some(method@),
            opt_text(m.params) == Some(params@),
            m.result is None,
            m.error is None,
            final(self)@ == (ClientView {
                next_id: old(self)@.next_id.wrapping_add(1),
                pending: old(self)@.pending.insert(old(self)@.next_id, method@),
                ..old(self)@
            }),
    {
        let id = self.request_id;
        self.request_id = id.wrapping_add(1);
        proof {
            broadcast use vstd::std_specs::hash::group_hash_axioms;
        }
        self.pending_requests.insert(id, method.to_owned());
        proof {
            assert(self@.pending =~= old(self)@.pending.insert(old(self)@.next_id, method@));
        }
        LspMessage {
            jsonrpc: "2.0".to_owned(),
            id: Some(id),
            method: Some(method.to_owned()),
            params: Some(params),
            result: None,
            error: None,
        }
    }

    /// Sorts a message read while waiting for the response to request
    /// `expected`: the response itself ends the wait and its request is no
    /// longer pending; a diagnostics notification with parameters is to be
    /// handled; anything else is skipped.
    pub fn accept_message(&mut self, expected: i64, message: &LspMessage) -> (step: ResponseStep)
        requires
            old(self).wf(),
        ensures
            final(self).wf(),
            message.id == Some(expected) ==> step == ResponseStep::Done && final(self)@ == (
            ClientView { pending: old(self)@.pending.remove(expected), ..old(self)@ }),
            message.id != Some(expected) ==> final(self)@ == old(self)@ && step == (if opt_text(
                message.method,
            ) == Some(publish_diagnostics_method()) && message.params is Some {
                ResponseStep::Diagnostics
            } else {
                ResponseStep::Skip
            }),
    {
        if let Some(id) = message.id {
            if id == expected {
                proof {
                    broadcast use vstd::std_specs::hash::group_hash_axioms;
                }
                self.pending_requests.remove(&id);
                proof {
                    assert(self@.pending =~= old(self)@.pending.remove(expected));
                }
                return ResponseStep::Done;
            }
        }
        if let Some(m) = &message.method {
            if crate::text::str_eq(m.as_str(), "textDocument/publishDiagnostics")
                && message.params.is_some() {
                return ResponseStep::Diagnostics;
            }
        }
        ResponseStep::Skip
    }

    /// Keeps the diagnostics published for `uri`, in place of earlier ones.
    pub fn handle_diagnostics(&mut self, uri: String, diagnostics: Vec<Diagnostic>)
        requires
            old(self).wf(),
        ensures
            final(self).wf(),
            final(self)@ == (ClientView {
                diagnostics: old(self)@.diagnostics.insert(uri@, diagnostics@),
                ..old(self)@
            }),
    {
        let mut collection = DiagnosticCollection::new();
        collection.set(diagnostics);
        let ghost old_map = text_map(self.diagnostics@);
        let ghost c = collection;
        text_insert(&mut self.diagnostics, uri, collection);
        proof {
            assert(collection_views(text_map(self.diagnostics@)) =~= collection_views(
                old_map,
            ).insert(uri@, c@));
        }
    }

    /// The diagnostics published for `uri`, if any.
    pub fn get_diagnostics(&self, uri: &str) -> (r: Option<&DiagnosticCollection>)
        requires
            self.wf(),
        ensures
            match r {
                Some(c) => self@.diagnostics.contains_key(uri@) && c@ == self@.diagnostics[uri@],
                None => !self@.diagnostics.contains_key(uri@),
            },
    {
        text_get(&self.diagnostics, uri)
    }
}

/// A piece of hover text: plain, or code in a language.
#[derive(Debug, Clone)]
pub enum MarkedString {
    /// Plain (markdown) text.
    String(String),
    /// Code in a language.
    LanguageString {
        /// The language.
        language: String,
        /// The code.
        value: String,
    },
}

/// The text of a piece of hover text.
pub open spec fn marked_text(m: MarkedString) -> Seq<char> {
    match m {
        MarkedString::String(s) => s@,
        MarkedString::LanguageString { value, .. } => value@,
    }
}

/// What the server answers to a hover request.
#[derive(Debug, Clone)]
pub enum HoverContents {
    /// Markup content: its text.
    Markup(String),
    /// One piece.
    Scalar(MarkedString),
    /// Several pieces.
    Array(Vec<MarkedString>),
}

/// `parts` joined with `sep` between each two.
pub open spec fn joined(parts: Seq<Seq<char>>, sep: Seq<char>) -> Seq<char>
    decreases parts.len(),
{
    if parts.len() == 0 {
        Seq::empty()
    } else if parts.len() == 1 {
        parts[0]
    } else {
        joined(parts.drop_last(), sep) + sep + parts.last()
    }
}

/// The texts of pieces of hover text.
pub open spec fn marked_texts(v: Seq<MarkedString>) -> Seq<Seq<char>> {
    v.map_values(|m: MarkedString| marked_text(m))
}

/// The text shown for hover contents: the pieces of an array one per
/// line.
pub open spec fn hover_contents_text(h: HoverContents) -> Seq<char> {
    match h {
        HoverContents::Markup(v) => v@,
        HoverContents::Scalar(m) => marked_text(m),
        HoverContents::Array(v) => joined(marked_texts(v@), "\n"@),
    }
}

fn marked_string_text(m: &MarkedString) -> (s: &str)
    ensures
        s@ == marked_text(*m),
{
    match m {
        MarkedString::String(s) => s.as_str(),
        MarkedString::LanguageString { value, .. } => value.as_str(),
    }
}

/// The text to show for the server's hover contents.
pub fn hover_text(contents: &HoverContents) -> (s: String)
    ensures
        s@ == hover_contents_text(*contents),
{
    match contents {
        HoverContents::Markup(v) => v.clone(),
        HoverContents::Scalar(m) => marked_string_text(m).to_owned(),
        HoverContents::Array(v) => {
            let mut out = String::new();
            let mut i: usize = 0;
            while i < v.len()
                invariant
                    i <= v@.len(),
                    out@ == joined(marked_texts(v@.take(i as int)), "\n"@),
                decreases v@.len() - i,
            {
                let ghost before = marked_texts(v@.take(i as int));
                let ghost after = marked_texts(v@.take(i + 1));
                proof {
                    assert(after.drop_last() =~= before);
                    assert(after.last() == marked_text(v@[i as int]));
                }
                if i > 0 {
                    out.append("\n");
                }
                out.append(marked_string_text(&v[i]));
                proof {
                    if i == 0 {
                        assert(before =~= Seq::<Seq<char>>::empty());
                        assert(out@ =~= after[0]);
                    } else {
                        assert(out@ =~= joined(before, "\n"@) + "\n"@ + after.last());
                    }
                }
                i = i + 1;
            }
            proof {
                assert(v@.take(v@.len() as int) =~= v@);
            }
            out
        },
    }
}

/// A place in a document.
#[derive(Debug, Clone)]
pub struct Location {
    /// The document's URI.
    pub uri: String,
    /// The range.
    pub range: Range,
}

/// What the server answers to a definition request; a link is given by
/// its target and the target's selection range.
#[derive(Debug, Clone)]
pub enum DefinitionResponse {
    /// One place.
    Scalar(Location),
    /// Several places.
    Array(Vec<Location>),
    /// Several links.
    Link(Vec<Location>),
}

/// The place to go to: the one place, or the first of several.
pub open spec fn definition_place(r: DefinitionResponse) -> Option<Location> {
    match r {
        DefinitionResponse::Scalar(l) => Some(l),
        DefinitionResponse::Array(v) => if v@.len() > 0 {
            Some(v@[0])
        } else {
            None
        },
        DefinitionResponse::Link(v) => if v@.len() > 0 {
            Some(v@[0])
        } else {
            None
        },
    }
}

/// The URI and range to go to for the server's answer.
pub fn definition_target(response: DefinitionResponse) -> (r: Option<(String, Range)>)
    ensures
        match definition_place(response) {
            Some(l) => r matches Some(t) && t.0@ == l.uri@ && t.1 == l.range,
            None => r is None,
        },
{
    let place = match response {
        DefinitionResponse::Scalar(l) => Some(l),
        DefinitionResponse::Array(mut v) | DefinitionResponse::Link(mut v) => {
            if v.len() > 0 {
                Some(v.remove(0))
            } else {
                None
            }
        },
    };
    match place {
        Some(l) => Some((l.uri, l.range)),
        None => None,
    }
}

} // verus!
