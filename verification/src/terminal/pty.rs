//! Pseudo terminal size and errors.
use vstd::prelude::*;

verus! {

/// The size of a pseudo terminal.
#[derive(Debug, Clone, Copy, PartialEq, Eq, Structural)]
pub struct TerminalSize {
    /// Columns.
    pub cols: u16,
    /// Rows.
    pub rows: u16,
    /// Width in pixels (optional, 0 if unknown).
    pub pixel_width: u16,
    /// Height in pixels (optional, 0 if unknown).
    pub pixel_height: u16,
}

impl Default for TerminalSize {
    fn default() -> (s: TerminalSize)
        ensures
            s == (TerminalSize { cols: 80, rows: 24, pixel_width: 0, pixel_height: 0 }),
    {
        TerminalSize { cols: 80, rows: 24, pixel_width: 0, pixel_height: 0 }
    }
}

/// What can go wrong with the pseudo terminal.
#[derive(Debug)]
pub enum PtyError {
    /// The pseudo terminal could not be opened.
    OpenFailed(String),
    /// The shell could not be started.
    SpawnFailed(String),
    /// The reader or writer could not be obtained.
    CloneFailed(String),
    /// Writing to the shell failed.
    WriteFailed(String),
    /// Resizing failed.
    ResizeFailed(String),
    /// No shell is running.
    NotRunning,
}

/// The message of an error.
pub open spec fn pty_error_text(e: PtyError) -> Seq<char> {
    match e {
        PtyError::OpenFailed(s) => "PTYを開けませんでした: "@ + s@,
        PtyError::SpawnFailed(s) => "シェルの起動に失敗しました: "@ + s@,
        PtyError::CloneFailed(s) => "PTYのクローンに失敗しました: "@ + s@,
        PtyError::WriteFailed(s) => "書き込みに失敗しました: "@ + s@,
        PtyError::ResizeFailed(s) => "リサイズに失敗しました: "@ + s@,
        PtyError::NotRunning => "シェルが実行されていません"@,
    }
}

impl PtyError {
    /// The error's message.
    pub fn message(&self) -> (m: String)
        ensures
            m@ == pty_error_text(*self),
    {
        let (prefix, detail) = match self {
            PtyError::OpenFailed(s) => ("PTYを開けませんでした: ", s.as_str()),
            PtyError::SpawnFailed(s) => ("シェルの起動に失敗しました: ", s.as_str()),
            PtyError::CloneFailed(s) => ("PTYのクローンに失敗しました: ", s.as_str()),
            PtyError::WriteFailed(s) => ("書き込みに失敗しました: ", s.as_str()),
            PtyError::ResizeFailed(s) => ("リサイズに失敗しました: ", s.as_str()),
            PtyError::NotRunning => {
                return "シェルが実行されていません".to_owned();
            },
        };
        let mut m = prefix.to_owned();
        m.append(detail);
        m
    }
}

} // verus!
