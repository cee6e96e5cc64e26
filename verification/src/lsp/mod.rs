//! Language Server Protocol support: positions, diagnostics, completion
//! and the client's state.

pub mod client;
pub mod completion;
pub mod diagnostics;
pub mod protocol;


pub use completion::{CompletionItem, CompletionKind, CompletionList};
pub use diagnostics::{Diagnostic, DiagnosticCollection, DiagnosticSeverity};

use vstd::prelude::*;

use crate::text::{all_ascii, ascii_lower, lowercase, str_eq, to_lowercase};

verus! {

/// A language with a language server.
#[derive(Debug, Clone, Copy, PartialEq, Eq, Structural)]
pub enum LspLanguage {
    Rust,
}

impl LspLanguage {
    /// The command that starts the language server.
    pub fn server_command(&self) -> (s: &'static str)
        ensures
            *self == LspLanguage::Rust ==> s@ == "rust-analyzer"@,
    {
        match self {
            LspLanguage::Rust => "rust-analyzer",
        }
    }

    /// The language of files with extension `ext`, ignoring case.
    pub fn from_extension(ext: &str) -> (l: Option<LspLanguage>)
        ensures
            l == if lowercase(ext@) == "rs"@ {
                Some(LspLanguage::Rust)
            } else {
                None
            },
            all_ascii(ext@) ==> (l is Some <==> ext@.map_values(|c: char| ascii_lower(c))
                == "rs"@),
    {
        let lower = to_lowercase(ext);
        LspLanguage::from_lowercase_extension(lower.as_str())
    }

    /// The language of files with extension `ext`, which is already in
    /// lower case.
    pub fn from_lowercase_extension(ext: &str) -> (l: Option<LspLanguage>)
        ensures
            l == if ext@ == "rs"@ {
                Some(LspLanguage::Rust)
            } else {
                None
            },
    {
        if str_eq(ext, "rs") {
            Some(LspLanguage::Rust)
        } else {
            None
        }
    }

    /// The protocol's language identifier.
    pub fn language_id(&self) -> (s: &'static str)
        ensures
            *self == LspLanguage::Rust ==> s@ == "rust"@,
    {
        match self {
            LspLanguage::Rust => "rust",
        }
    }
}

/// A position in a document: zero-based line and character (UTF-16 code
/// units).
#[derive(Debug, Clone, Copy, PartialEq, Eq, Structural)]
pub struct Position {
    /// Line index.
    pub line: u32,
    /// Character offset in UTF-16 code units.
    pub character: u32,
}

impl Position {
    /// A position at `line`, `character`.
    pub fn new(line: u32, character: u32) -> (p: Position)
        ensures
            p == (Position { line, character }),
    {
        Position { line, character }
    }
}

/// A range in a document.
#[derive(Debug, Clone, Copy, PartialEq, Eq, Structural)]
pub struct Range {
    /// Where it starts.
    pub start: Position,
    /// Where it ends.
    pub end: Position,
}

impl Range {
    /// The range from `start` to `end`.
    pub fn new(start: Position, end: Position) -> (r: Range)
        ensures
            r == (Range { start, end }),
    {
        Range { start, end }
    }
}

} // verus!
