//! Diagnostics (errors, warnings, ...) reported by the language server.
use vstd::prelude::*;

use super::Range;
use crate::text::{decimal, push_char, push_decimal};

verus! {

/// How serious a diagnostic is, most serious first.
#[derive(Debug, Clone, Copy, PartialEq, Eq, PartialOrd, Ord, Structural)]
pub enum DiagnosticSeverity {
    /// An error.
    Error,
    /// A warning.
    Warning,
    /// Information.
    Information,
    /// A hint.
    Hint,
}

/// The display name of a severity.
pub open spec fn severity_name(s: DiagnosticSeverity) -> Seq<char> {
    match s {
        DiagnosticSeverity::Error => "エラー"@,
        DiagnosticSeverity::Warning => "警告"@,
        DiagnosticSeverity::Information => "情報"@,
        DiagnosticSeverity::Hint => "ヒント"@,
    }
}

/// The icon of a severity.
pub open spec fn severity_icon(s: DiagnosticSeverity) -> Seq<char> {
    match s {
        DiagnosticSeverity::Error => "❌"@,
        DiagnosticSeverity::Warning => "⚠️"@,
        DiagnosticSeverity::Information => "ℹ️"@,
        DiagnosticSeverity::Hint => "💡"@,
    }
}

/// The severity that the protocol's numeric severity `code` names; an
/// unknown code counts as information.
pub open spec fn severity_of_code(code: i32) -> DiagnosticSeverity {
    if code == 1 {
        DiagnosticSeverity::Error
    } else if code == 2 {
        DiagnosticSeverity::Warning
    } else if code == 4 {
        DiagnosticSeverity::Hint
    } else {
        DiagnosticSeverity::Information
    }
}

/// The decimal text of `n`, with a minus sign when it is negative.
pub open spec fn signed_decimal(n: int) -> Seq<char> {
    if n < 0 {
        seq!['-'] + decimal((-n) as nat)
    } else {
        decimal(n as nat)
    }
}

/// A numeric diagnostic code as text.
pub fn code_from_number(n: i32) -> (s: String)
    ensures
        s@ == signed_decimal(n as int),
{
    let mut s = String::new();
    let a: i64 = n as i64;
    if a < 0 {
        push_char(&mut s, '-');
        let m: i64 = -a;
        push_decimal(&mut s, m as usize);
        assert(s@ =~= signed_decimal(n as int));
    } else {
        push_decimal(&mut s, a as usize);
        assert(s@ =~= signed_decimal(n as int));
    }
    s
}

impl DiagnosticSeverity {
    /// The severity named by the protocol's numeric severity `code`.
    pub fn from_code(code: i32) -> (s: DiagnosticSeverity)
        ensures
            s == severity_of_code(code),
    {
        if code == 1 {
            DiagnosticSeverity::Error
        } else if code == 2 {
            DiagnosticSeverity::Warning
        } else if code == 4 {
            DiagnosticSeverity::Hint
        } else {
            DiagnosticSeverity::Information
        }
    }

    /// The display name.
    pub fn display_name(&self) -> (s: &'static str)
        ensures
            s@ == severity_name(*self),
    {
        match self {
            DiagnosticSeverity::Error => "エラー",
            DiagnosticSeverity::Warning => "警告",
            DiagnosticSeverity::Information => "情報",
            DiagnosticSeverity::Hint => "ヒント",
        }
    }

    /// The icon.
    pub fn icon(&self) -> (s: &'static str)
        ensures
            s@ == severity_icon(*self),
    {
        match self {
            DiagnosticSeverity::Error => "❌",
            DiagnosticSeverity::Warning => "⚠️",
            DiagnosticSeverity::Information => "ℹ️",
            DiagnosticSeverity::Hint => "💡",
        }
    }
}

/// A diagnostic message.
#[derive(Debug, Clone)]
pub struct Diagnostic {
    /// The range it applies to.
    pub range: Range,
    /// How serious it is.
    pub severity: DiagnosticSeverity,
    /// The message.
    pub message: String,
    /// Who reported it, e.g. "rust-analyzer".
    pub source: Option<String>,
    /// The error code.
    pub code: Option<String>,
}

/// The one-line form of a diagnostic: the severity's name, the code in
/// brackets, the message and the source in parentheses, separated by
/// spaces; a missing code or source is left out.
pub open spec fn formatted(d: Diagnostic) -> Seq<char> {
    severity_name(d.severity) + match d.code {
        Some(c) => " ["@ + c@ + "]"@,
        None => Seq::empty(),
    } + " "@ + d.message@ + match d.source {
        Some(s) => " ("@ + s@ + ")"@,
        None => Seq::empty(),
    }
}

impl Diagnostic {
    /// A diagnostic without source or code.
    pub fn new(range: Range, severity: DiagnosticSeverity, message: &str) -> (d: Diagnostic)
        ensures
            d.range == range,
            d.severity == severity,
            d.message@ == message@,
            d.source is None,
            d.code is None,
    {
        Diagnostic { range, severity, message: message.to_owned(), source: None, code: None }
    }

    /// A diagnostic from the parts of a protocol diagnostic; a missing
    /// severity counts as information.
    pub fn from_lsp_parts(
        range: Range,
        severity: Option<DiagnosticSeverity>,
        message: String,
        source: Option<String>,
        code: Option<String>,
    ) -> (d: Diagnostic)
        ensures
            d.range == range,
            d.severity == match severity {
                Some(s) => s,
                None => DiagnosticSeverity::Information,
            },
            d.message == message,
            d.source == source,
            d.code == code,
    {
        let severity = match severity {
            Some(s) => s,
            None => DiagnosticSeverity::Information,
        };
        Diagnostic { range, severity, message, source, code }
    }

    /// This diagnostic with `source` set.
    pub fn with_source(self, source: &str) -> (d: Diagnostic)
        ensures
            d.source matches Some(s) && s@ == source@,
            d.range == self.range,
            d.severity == self.severity,
            d.message == self.message,
            d.code == self.code,
    {
        let mut d = self;
        d.source = Some(source.to_owned());
        d
    }

    /// This diagnostic with `code` set.
    pub fn with_code(self, code: &str) -> (d: Diagnostic)
        ensures
            d.code matches Some(c) && c@ == code@,
            d.range == self.range,
            d.severity == self.severity,
            d.message == self.message,
            d.source == self.source,
    {
        let mut d = self;
        d.code = Some(code.to_owned());
        d
    }

    /// The one-line form, see [`formatted`].
    pub fn formatted_message(&self) -> (s: String)
        ensures
            s@ == formatted(*self),
    {
        let mut s = self.severity.display_name().to_owned();
        match &self.code {
            Some(code) => {
                s.append(" [");
                s.append(code.as_str());
                s.append("]");
            },
            None => {},
        }
        s.append(" ");
        s.append(self.message.as_str());
        match &self.source {
            Some(source) => {
                s.append(" (");
                s.append(source.as_str());
                s.append(")");
            },
            None => {},
        }
        proof {
            let d = *self;
            assert(s@ =~= formatted(d));
        }
        s
    }
}

/// Holds of the diagnostics of severity `s`.
pub open spec fn severity_is(s: DiagnosticSeverity) -> spec_fn(Diagnostic) -> bool {
    |d: Diagnostic| d.severity == s
}

/// Holds of the diagnostics whose range covers `line`.
pub open spec fn covers_line(line: u32) -> spec_fn(Diagnostic) -> bool {
    |d: Diagnostic| d.range.start.line <= line <= d.range.end.line
}

/// The references of `r`, dereferenced.
pub open spec fn derefs(r: Seq<&Diagnostic>) -> Seq<Diagnostic> {
    r.map_values(|d: &Diagnostic| *d)
}

/// The diagnostics of one document.
#[derive(Debug)]
pub struct DiagnosticCollection {
    diagnostics: Vec<Diagnostic>,
}

impl DiagnosticCollection {
    /// The diagnostics, in the order they were added.
    pub closed spec fn view(&self) -> Seq<Diagnostic> {
        self.diagnostics@
    }

    /// An empty collection.
    pub fn new() -> (c: DiagnosticCollection)
        ensures
            c@ == Seq::<Diagnostic>::empty(),
    {
        DiagnosticCollection { diagnostics: Vec::new() }
    }

    /// Adds a diagnostic at the end.
    pub fn add(&mut self, diagnostic: Diagnostic)
        ensures
            final(self)@ == old(self)@.push(diagnostic),
    {
        self.diagnostics.push(diagnostic);
    }

    /// Removes all diagnostics.
    pub fn clear(&mut self)
        ensures
            final(self)@ == Seq::<Diagnostic>::empty(),
    {
        self.diagnostics.clear();
    }

    /// Replaces all diagnostics.
    pub fn set(&mut self, diagnostics: Vec<Diagnostic>)
        ensures
            final(self)@ == diagnostics@,
    {
        self.diagnostics = diagnostics;
    }

    /// All diagnostics.
    pub fn all(&self) -> (s: &[Diagnostic])
        ensures
            s@ == self@,
    {
        self.diagnostics.as_slice()
    }

    /// The diagnostics of the given severity, in order.
    fn with_severity(&self, severity: DiagnosticSeverity) -> (r: Vec<&Diagnostic>)
        ensures
            derefs(r@) == self@.filter(severity_is(severity)),
    {
        let ghost keep = severity_is(severity);
        let mut r: Vec<&Diagnostic> = Vec::new();
        let n = self.diagnostics.len();
        let mut i: usize = 0;
        while i < n
            invariant
                n == self@.len(),
                i <= n,
                keep == severity_is(severity),
                derefs(r@) == self@.take(i as int).filter(keep),
            decreases n - i,
        {
            let d = &self.diagnostics[i];
            let ghost before = r@;
            if d.severity == severity {
                r.push(d);
                assert(derefs(r@) =~= derefs(before).push(*d));
            }
            proof {
                reveal_with_fuel(Seq::<Diagnostic>::filter, 1);
                assert(self@.take(i + 1).drop_last() =~= self@.take(i as int));
                assert(self@.take(i + 1).last() == self@[i as int]);
                assert(*d == self@[i as int]);
                let t1 = self@.take(i + 1);
                assert(keep(t1.last()) == (t1.last().severity == severity));
                assert(t1.filter(keep) == if keep(t1.last()) {
                    t1.drop_last().filter(keep).push(t1.last())
                } else {
                    t1.drop_last().filter(keep)
                });
            }
            i = i + 1;
        }
        assert(self@.take(n as int) =~= self@);
        r
    }

    /// The errors, in order.
    pub fn errors(&self) -> (r: Vec<&Diagnostic>)
        ensures
            derefs(r@) == self@.filter(severity_is(DiagnosticSeverity::Error)),
    {
        self.with_severity(DiagnosticSeverity::Error)
    }

    /// The warnings, in order.
    pub fn warnings(&self) -> (r: Vec<&Diagnostic>)
        ensures
            derefs(r@) == self@.filter(severity_is(DiagnosticSeverity::Warning)),
    {
        self.with_severity(DiagnosticSeverity::Warning)
    }

    /// The diagnostics whose range covers `line`, in order.
    pub fn for_line(&self, line: u32) -> (r: Vec<&Diagnostic>)
        ensures
            derefs(r@) == self@.filter(covers_line(line)),
    {
        let ghost keep = covers_line(line);
        let mut r: Vec<&Diagnostic> = Vec::new();
        let n = self.diagnostics.len();
        let mut i: usize = 0;
        while i < n
            invariant
                n == self@.len(),
                i <= n,
                keep == covers_line(line),
                derefs(r@) == self@.take(i as int).filter(keep),
            decreases n - i,
        {
            let d = &self.diagnostics[i];
            let ghost before = r@;
            if d.range.start.line <= line && line <= d.range.end.line {
                r.push(d);
                assert(derefs(r@) =~= derefs(before).push(*d));
            }
            proof {
                reveal_with_fuel(Seq::<Diagnostic>::filter, 1);
                assert(self@.take(i + 1).drop_last() =~= self@.take(i as int));
                assert(*d == self@[i as int]);
                let t1 = self@.take(i + 1);
                assert(t1.last() == self@[i as int]);
                assert(t1.filter(keep) == if keep(t1.last()) {
                    t1.drop_last().filter(keep).push(t1.last())
                } else {
                    t1.drop_last().filter(keep)
                });
            }
            i = i + 1;
        }
        assert(self@.take(n as int) =~= self@);
        r
    }

    /// The number of diagnostics.
    pub fn len(&self) -> (n: usize)
        ensures
            n == self@.len(),
    {
        self.diagnostics.len()
    }

    /// Whether there are no diagnostics.
    pub fn is_empty(&self) -> (b: bool)
        ensures
            b == (self@.len() == 0),
    {
        self.diagnostics.is_empty()
    }

    /// The number of errors.
    pub fn error_count(&self) -> (n: usize)
        ensures
            n == self@.filter(severity_is(DiagnosticSeverity::Error)).len(),
    {
        let e = self.errors();
        assert(derefs(e@).len() == e@.len());
        e.len()
    }

    /// The number of warnings.
    pub fn warning_count(&self) -> (n: usize)
        ensures
            n == self@.filter(severity_is(DiagnosticSeverity::Warning)).len(),
    {
        let w = self.warnings();
        assert(derefs(w@).len() == w@.len());
        w.len()
    }
}

impl Default for DiagnosticCollection {
    fn default() -> (c: DiagnosticCollection)
        ensures
            c@ == Seq::<Diagnostic>::empty(),
    {
        DiagnosticCollection::new()
    }
}

} // verus!
