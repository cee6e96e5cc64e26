//! Syntax highlighting with tree-sitter.
//!
//! The parser and the highlight query run in tree-sitter; the library
//! turns the highlight events into typed spans.
pub mod theme;

use tree_sitter::{InputEdit, Parser, Point, Tree};
use tree_sitter_highlight::{Highlight, HighlightConfiguration, Highlighter};
use vstd::prelude::*;

use crate::buffer::text_buffer::rope_to_string;
use crate::text::{all_ascii, ascii_lower, lowercase, str_eq, to_lowercase};
use ropey::Rope;

verus! {

/// A language that can be highlighted.
#[derive(Debug, Clone, Copy, PartialEq, Eq, Hash, Structural)]
pub enum Language {
    Rust,
}

/// The name of a language.
pub open spec fn language_name(l: Language) -> Seq<char> {
    match l {
        Language::Rust => "rust"@,
    }
}

impl Language {
    /// The language of files with extension `ext`, ignoring case.
    pub fn from_extension(ext: &str) -> (l: Option<Language>)
        ensures
            l == if lowercase(ext@) == "rs"@ {
                Some(Language::Rust)
            } else {
                None
            },
            all_ascii(ext@) ==> (l is Some <==> ext@.map_values(|c: char| ascii_lower(c))
                == "rs"@),
    {
        let lower = to_lowercase(ext);
        Language::from_lowercase_extension(lower.as_str())
    }

    /// The language of files with extension `ext`, which is already in
    /// lower case.
    pub fn from_lowercase_extension(ext: &str) -> (l: Option<Language>)
        ensures
            l == if ext@ == "rs"@ {
                Some(Language::Rust)
            } else {
                None
            },
    {
        if str_eq(ext, "rs") {
            Some(Language::Rust)
        } else {
            None
        }
    }

    /// The language's name.
    pub fn name(&self) -> (s: &'static str)
        ensures
            s@ == language_name(*self),
    {
        match self {
            Language::Rust => "rust",
        }
    }
}

/// A highlighted range of the text, in bytes.
#[derive(Debug, Clone, PartialEq, Eq)]
pub struct HighlightSpan {
    /// Start byte.
    pub start: usize,
    /// End byte.
    pub end: usize,
    /// What the text is.
    pub highlight_type: HighlightType,
}

/// What a highlighted range of text is.
#[derive(Debug, Clone, Copy, PartialEq, Eq, Hash, Structural)]
pub enum HighlightType {
    /// Keywords (fn, let, if, ...).
    Keyword,
    /// Type names.
    Type,
    /// Function names.
    Function,
    /// Variable names.
    Variable,
    /// String literals.
    String,
    /// Number literals.
    Number,
    /// Comments.
    Comment,
    /// Operators.
    Operator,
    /// Attributes.
    Attribute,
    /// Macros.
    Macro,
    /// Constants.
    Constant,
    /// Modules.
    Module,
    /// Properties and fields.
    Property,
    /// Anything else.
    Other,
}

/// The highlight type of a capture name.
pub open spec fn kind_of_name(n: Seq<char>) -> HighlightType {
    if n == "keyword"@ || n == "keyword.control"@ || n == "keyword.function"@ || n == "keyword.operator"@ {
        HighlightType::Keyword
    } else
    if n == "type"@ || n == "type.builtin"@ {
        HighlightType::Type
    } else
    if n == "function"@ || n == "function.builtin"@ || n == "function.method"@ {
        HighlightType::Function
    } else
    if n == "variable"@ || n == "variable.builtin"@ || n == "variable.parameter"@ {
        HighlightType::Variable
    } else
    if n == "string"@ || n == "string.special"@ {
        HighlightType::String
    } else
    if n == "number"@ || n == "float"@ {
        HighlightType::Number
    } else
    if n == "comment"@ {
        HighlightType::Comment
    } else
    if n == "operator"@ {
        HighlightType::Operator
    } else
    if n == "attribute"@ {
        HighlightType::Attribute
    } else
    if n == "macro"@ || n == "function.macro"@ {
        HighlightType::Macro
    } else
    if n == "constant"@ || n == "constant.builtin"@ {
        HighlightType::Constant
    } else
    if n == "module"@ || n == "namespace"@ {
        HighlightType::Module
    } else
    if n == "property"@ || n == "field"@ {
        HighlightType::Property
    } else {
        HighlightType::Other
    }
}

/// The highlight type of the capture name `name`.
pub fn highlight_name_to_type(name: &str) -> (t: HighlightType)
    ensures
        t == kind_of_name(name@),
{
    if str_eq(name, "keyword") || str_eq(name, "keyword.control") || str_eq(name, "keyword.function") || str_eq(name, "keyword.operator") {
        HighlightType::Keyword
    } else
    if str_eq(name, "type") || str_eq(name, "type.builtin") {
        HighlightType::Type
    } else
    if str_eq(name, "function") || str_eq(name, "function.builtin") || str_eq(name, "function.method") {
        HighlightType::Function
    } else
    if str_eq(name, "variable") || str_eq(name, "variable.builtin") || str_eq(name, "variable.parameter") {
        HighlightType::Variable
    } else
    if str_eq(name, "string") || str_eq(name, "string.special") {
        HighlightType::String
    } else
    if str_eq(name, "number") || str_eq(name, "float") {
        HighlightType::Number
    } else
    if str_eq(name, "comment") {
        HighlightType::Comment
    } else
    if str_eq(name, "operator") {
        HighlightType::Operator
    } else
    if str_eq(name, "attribute") {
        HighlightType::Attribute
    } else
    if str_eq(name, "macro") || str_eq(name, "function.macro") {
        HighlightType::Macro
    } else
    if str_eq(name, "constant") || str_eq(name, "constant.builtin") {
        HighlightType::Constant
    } else
    if str_eq(name, "module") || str_eq(name, "namespace") {
        HighlightType::Module
    } else
    if str_eq(name, "property") || str_eq(name, "field") {
        HighlightType::Property
    } else {
        HighlightType::Other
    }
}

/// The capture names the highlighter recognizes, by index.
pub open spec fn recognized_names() -> Seq<Seq<char>> {
    seq![
        "attribute"@,
        "comment"@,
        "constant"@,
        "constant.builtin"@,
        "field"@,
        "function"@,
        "function.builtin"@,
        "function.macro"@,
        "function.method"@,
        "keyword"@,
        "keyword.control"@,
        "keyword.function"@,
        "keyword.operator"@,
        "macro"@,
        "module"@,
        "namespace"@,
        "number"@,
        "operator"@,
        "property"@,
        "string"@,
        "string.special"@,
        "type"@,
        "type.builtin"@,
        "variable"@,
        "variable.builtin"@,
        "variable.parameter"@,
    ]
}

/// The capture names the highlighter recognizes, by index.
pub fn recognized_name_list() -> (v: Vec<String>)
    ensures
        v@.map_values(|s: String| s@) == recognized_names(),
{
    let mut v: Vec<String> = Vec::new();
    v.push("attribute".to_owned());
    v.push("comment".to_owned());
    v.push("constant".to_owned());
    v.push("constant.builtin".to_owned());
    v.push("field".to_owned());
    v.push("function".to_owned());
    v.push("function.builtin".to_owned());
    v.push("function.macro".to_owned());
    v.push("function.method".to_owned());
    v.push("keyword".to_owned());
    v.push("keyword.control".to_owned());
    v.push("keyword.function".to_owned());
    v.push("keyword.operator".to_owned());
    v.push("macro".to_owned());
    v.push("module".to_owned());
    v.push("namespace".to_owned());
    v.push("number".to_owned());
    v.push("operator".to_owned());
    v.push("property".to_owned());
    v.push("string".to_owned());
    v.push("string.special".to_owned());
    v.push("type".to_owned());
    v.push("type.builtin".to_owned());
    v.push("variable".to_owned());
    v.push("variable.builtin".to_owned());
    v.push("variable.parameter".to_owned());
    assert(v@.map_values(|s: String| s@) =~= recognized_names());
    v
}


/// One event of a highlight run: a source range, or the start or end of a
/// highlight (given by the index of its capture name).
#[derive(Debug, Clone, Copy, PartialEq, Eq, Structural)]
pub enum SpanEvent {
    /// The bytes `start..end` of the source.
    Source { start: usize, end: usize },
    /// A highlight with capture name number `.0` starts.
    HighlightStart(usize),
    /// The current highlight ends.
    HighlightEnd,
}

/// The highlight in force after the first `k` events: a start with a
/// known name index sets it, an end clears it, anything else keeps it.
pub open spec fn highlight_after(
    events: Seq<SpanEvent>,
    names: Seq<Seq<char>>,
    k: int,
) -> Option<HighlightType>
    decreases k,
{
    if k <= 0 {
        None
    } else {
        let before = highlight_after(events, names, k - 1);
        match events[k - 1] {
            SpanEvent::HighlightStart(i) => if i < names.len() {
                Some(kind_of_name(names[i as int]))
            } else {
                before
            },
            SpanEvent::HighlightEnd => None,
            SpanEvent::Source { .. } => before,
        }
    }
}

/// The spans of the first `k` events: each source range that lies under a
/// highlight becomes a span of that highlight's type.
pub open spec fn spans_upto(
    events: Seq<SpanEvent>,
    names: Seq<Seq<char>>,
    k: int,
) -> Seq<HighlightSpan>
    decreases k,
{
    if k <= 0 {
        Seq::empty()
    } else {
        let before = spans_upto(events, names, k - 1);
        match (events[k - 1], highlight_after(events, names, k - 1)) {
            (SpanEvent::Source { start, end }, Some(t)) => before.push(
                HighlightSpan { start, end, highlight_type: t },
            ),
            _ => before,
        }
    }
}

/// The spans of a whole highlight run.
pub open spec fn spans_of(events: Seq<SpanEvent>, names: Seq<Seq<char>>) -> Seq<HighlightSpan> {
    spans_upto(events, names, events.len() as int)
}

/// The highlight in force and the spans so far depend only on the events
/// read so far.
proof fn lemma_spans_prefix(a: Seq<SpanEvent>, b: Seq<SpanEvent>, names: Seq<Seq<char>>, k: int)
    requires
        0 <= k <= a.len(),
    ensures
        highlight_after(a + b, names, k) == highlight_after(a, names, k),
        spans_upto(a + b, names, k) == spans_upto(a, names, k),
    decreases k,
{
    if k > 0 {
        lemma_spans_prefix(a, b, names, k - 1);
        assert((a + b)[k - 1] == a[k - 1]);
    }
}

/// After a highlight end, with no new start, no highlight is in force and
/// no span is added.
proof fn lemma_after_end(e: Seq<SpanEvent>, names: Seq<Seq<char>>, m: int, k: int)
    requires
        0 < m <= k <= e.len(),
        e[m - 1] == SpanEvent::HighlightEnd,
        forall|i: int| m <= i < e.len() ==> !((#[trigger] e[i]) is HighlightStart),
    ensures
        highlight_after(e, names, k) is None,
        spans_upto(e, names, k) == spans_upto(e, names, m - 1),
    decreases k,
{
    if k > m {
        lemma_after_end(e, names, m, k - 1);
        assert(!(e[k - 1] is HighlightStart));
    }
}

/// A highlight end ends the highlight: source text that follows it, up to
/// the next highlight start, gets no span, so the spans of a run are
/// those of the events before the end.
pub proof fn law_no_span_after_end(
    before: Seq<SpanEvent>,
    after: Seq<SpanEvent>,
    names: Seq<Seq<char>>,
)
    requires
        forall|i: int| 0 <= i < after.len() ==> !((#[trigger] after[i]) is HighlightStart),
    ensures
        spans_of(before.push(SpanEvent::HighlightEnd) + after, names) == spans_of(before, names),
{
    let e = before.push(SpanEvent::HighlightEnd) + after;
    let m: int = before.len() as int + 1;
    assert(e[m - 1] == SpanEvent::HighlightEnd);
    assert forall|i: int| m <= i < e.len() implies !((#[trigger] e[i]) is HighlightStart) by {
        assert(e[i] == after[i - m]);
    }
    lemma_after_end(e, names, m, e.len() as int);
    lemma_spans_prefix(before, seq![SpanEvent::HighlightEnd] + after, names, before.len() as int);
    assert(before + (seq![SpanEvent::HighlightEnd] + after) =~= e);
}

/// Turns the events of a highlight run into spans, see [`spans_of`].
pub fn spans_from_events(events: &Vec<SpanEvent>, names: &Vec<String>) -> (spans: Vec<
    HighlightSpan,
>)
    ensures
        spans@ == spans_of(events@, names@.map_values(|s: String| s@)),
{
    let ghost nm = names@.map_values(|s: String| s@);
    let mut spans: Vec<HighlightSpan> = Vec::new();
    let mut current: Option<HighlightType> = None;
    let n = events.len();
    let mut k: usize = 0;
    while k < n
        invariant
            n == events@.len(),
            k <= n,
            nm == names@.map_values(|s: String| s@),
            current == highlight_after(events@, nm, k as int),
            spans@ == spans_upto(events@, nm, k as int),
        decreases n - k,
    {
        match events[k] {
            SpanEvent::Source { start, end } => {
                match current {
                    Some(t) => {
                        spans.push(HighlightSpan { start, end, highlight_type: t });
                    },
                    None => {},
                }
            },
            SpanEvent::HighlightStart(idx) => {
                if idx < names.len() {
                    current = Some(highlight_name_to_type(names[idx].as_str()));
                }
            },
            SpanEvent::HighlightEnd => {
                current = None;
            },
        }
        k = k + 1;
    }
    spans
}

#[verifier::external_type_specification]
#[verifier::external_body]
pub struct ExParser(Parser);

#[verifier::external_type_specification]
#[verifier::external_body]
pub struct ExTree(Tree);

#[verifier::external_type_specification]
#[verifier::external_body]
pub struct ExHighlightConfiguration(HighlightConfiguration);

/// `Parser::new`: a parser without a language.
#[verifier::external_body]
fn parser_new() -> Parser {
    Parser::new()
}

/// Whether tree-sitter accepts the grammar of `language`, as
/// `Parser::set_language` decides it.
pub uninterp spec fn grammar_accepted(language: Language) -> bool;

/// `Parser::set_language` with the grammar of `language`
/// (`tree_sitter_rust::LANGUAGE` for Rust). It succeeds exactly when the
/// grammar's ABI version lies in the range the tree-sitter library
/// supports, which depends on the grammar alone; on failure the parser is
/// left as it was and the error's text is returned, which the contract
/// leaves unsaid.
#[verifier::external_body]
fn parser_set_grammar(parser: &mut Parser, language: Language) -> (r: Result<(), String>)
    ensures
        r is Ok == grammar_accepted(language),
{
    let grammar = match language {
        Language::Rust => tree_sitter_rust::LANGUAGE,
    };
    parser.set_language(&grammar.into()).map_err(|e| e.to_string())
}

/// A tree-sitter parser and the grammar it was given. Only
/// [`GrammarParser::set_grammar`] gives the parser a grammar, and it
/// records it, so `grammar` is the parser's language.
struct GrammarParser {
    parser: Parser,
    grammar: Option<Language>,
}

/// A message of a failed switch of language: the grammar was refused or
/// the highlight query did not build, for the reason that follows.
pub open spec fn language_failure(m: Seq<char>) -> bool {
    exists|reason: Seq<char>|
        m == "Failed to set language: "@ + reason || m == "Failed to create highlight config: "@
            + reason
}

impl GrammarParser {
    /// A parser without a grammar.
    fn new() -> (p: GrammarParser)
        ensures
            p.grammar is None,
    {
        GrammarParser { parser: parser_new(), grammar: None }
    }

    /// Gives the parser the grammar of `language`; a refused grammar leaves
    /// the parser as it was.
    fn set_grammar(&mut self, language: Language) -> (r: Result<(), String>)
        ensures
            r is Ok == grammar_accepted(language),
            r is Ok ==> final(self).grammar == Some(language),
            r is Err ==> final(self).grammar == old(self).grammar,
            r matches Err(m) ==> language_failure(m@),
    {
        match parser_set_grammar(&mut self.parser, language) {
            Ok(()) => {
                self.grammar = Some(language);
                Ok(())
            },
            Err(reason) => {
                let mut m = "Failed to set language: ".to_owned();
                m.append(reason.as_str());
                assert(m@ == "Failed to set language: "@ + reason@);
                Err(m)
            },
        }
    }
}

/// `Parser::parse`: parses `text`, reusing `old_tree` for an incremental
/// parse.
/// tree-sitter answers nothing only when the parser has no language or a
/// timeout or cancellation flag, set by the deprecated setters, stops it;
/// neither is ever set here, so a parser with a grammar always gives a
/// tree. What the tree holds is left unsaid; the grammar stays.
#[verifier::external_body]
fn parser_parse(p: &mut GrammarParser, text: &str, old_tree: Option<&Tree>) -> (r: Option<Tree>)
    ensures
        final(p).grammar == old(p).grammar,
        old(p).grammar is Some ==> r is Some,
{
    p.parser.parse(text, old_tree)
}

/// `Tree::edit`: tells the tree about an edit of its text.
#[verifier::external_body]
fn tree_edit(tree: &mut Tree, edit: [usize; 9]) {
    tree.edit(
        &InputEdit {
            start_byte: edit[0],
            old_end_byte: edit[1],
            new_end_byte: edit[2],
            start_position: Point::new(edit[3], edit[4]),
            old_end_position: Point::new(edit[5], edit[6]),
            new_end_position: Point::new(edit[7], edit[8]),
        },
    )
}

/// Whether the highlight query of `language` compiles against its
/// grammar, as `HighlightConfiguration::new` decides it.
pub uninterp spec fn config_builds(language: Language) -> bool;

/// `HighlightConfiguration::new` for the grammar of `language` and its
/// highlight query (`tree_sitter_rust::HIGHLIGHTS_QUERY` for Rust), with
/// empty injection and locals queries. It succeeds exactly when the
/// queries compile against the grammar, which depends on the language
/// alone (`name` is only kept); on failure the error's text is returned,
/// which the contract leaves unsaid.
#[verifier::external_body]
fn highlight_config(language: Language, name: &str) -> (r: Result<HighlightConfiguration, String>)
    ensures
        r is Ok == config_builds(language),
{
    let (grammar, query) = match language {
        Language::Rust => (tree_sitter_rust::LANGUAGE, tree_sitter_rust::HIGHLIGHTS_QUERY),
    };
    HighlightConfiguration::new(grammar.into(), name, query, "", "").map_err(|e| e.to_string())
}

/// `HighlightConfiguration::configure`: maps the query's captures to the
/// indices of `names`.
#[verifier::external_body]
fn highlight_config_configure(config: &mut HighlightConfiguration, names: &Vec<String>) {
    config.configure(names)
}

/// The highlight configuration of a language, configured with capture
/// names. Only [`SyntaxHighlighter::create_highlight_config`] makes one,
/// so its view is the language and the names it was built with.
pub struct LangConfig {
    language: Language,
    names: Ghost<Seq<Seq<char>>>,
    config: HighlightConfiguration,
}

impl LangConfig {
    /// The language and capture names the configuration was built with.
    pub closed spec fn view(&self) -> (Language, Seq<Seq<char>>) {
        (self.language, self.names@)
    }
}

#[verifier::external_type_specification]
#[verifier::external_body]
pub struct ExHighlightEvent(tree_sitter_highlight::HighlightEvent);

#[verifier::external_type_specification]
#[verifier::external_body]
pub struct ExHighlightError(tree_sitter_highlight::Error);

/// The events of a tree-sitter highlight run on `text` with the
/// configuration of `config` (a language and its capture names), none when
/// the run or one of its events fails.
pub uninterp spec fn highlight_run(config: (Language, Seq<Seq<char>>), text: Seq<char>) -> Option<
    Seq<SpanEvent>,
>;

/// `Highlighter::highlight` on `text`, run to its end, each event turned
/// into the library's own by [`span_event_of`]: the outer error is a run
/// that could not start, the inner one the first event that failed. The
/// run uses no injections and no cancellation flag, so its outcome depends
/// on the configuration and the text alone.
#[verifier::external_body]
fn run_highlight(config: &LangConfig, text: &str) -> (r: Result<
    Result<Vec<SpanEvent>, tree_sitter_highlight::Error>,
    tree_sitter_highlight::Error,
>)
    ensures
        r matches Ok(Ok(v)) ==> highlight_run(config@, text@) == Some(v@),
        !(r matches Ok(Ok(_))) ==> highlight_run(config@, text@) is None,
{
    let mut highlighter = Highlighter::new();
    highlighter.highlight(&config.config, text.as_bytes(), None, |_| None).map(
        |events| events.map(|e| e.map(span_event_of)).collect(),
    )
}

/// A tree-sitter highlight event as the library's own, field for field.
#[verifier::external_body]
fn span_event_of(event: tree_sitter_highlight::HighlightEvent) -> SpanEvent {
    match event {
        tree_sitter_highlight::HighlightEvent::Source { start, end } => SpanEvent::Source {
            start,
            end,
        },
        tree_sitter_highlight::HighlightEvent::HighlightStart(Highlight(i)) => {
            SpanEvent::HighlightStart(i)
        },
        tree_sitter_highlight::HighlightEvent::HighlightEnd => SpanEvent::HighlightEnd,
    }
}

/// The message of a highlighting error (its `Display` text).
#[verifier::external_body]
fn highlight_error_text(e: &tree_sitter_highlight::Error) -> String {
    e.to_string()
}

/// A message of a failed highlight run: the run or one of its events
/// failed, for the reason that follows.
pub open spec fn highlight_failure(m: Seq<char>) -> bool {
    exists|reason: Seq<char>|
        m == "Highlight error: "@ + reason || m == "Highlight event error: "@ + reason
}

/// The events of highlighting `text` with `config`, capture names as
/// indices into its names; a failure is returned as its message.
fn highlight_events(config: &LangConfig, text: &str) -> (r: Result<Vec<SpanEvent>, String>)
    ensures
        r is Ok == highlight_run(config@, text@) is Some,
        r matches Ok(v) ==> Some(v@) == highlight_run(config@, text@),
        r matches Err(m) ==> highlight_failure(m@),
{
    match run_highlight(config, text) {
        Ok(Ok(events)) => Ok(events),
        Ok(Err(e)) => {
            let mut m = "Highlight event error: ".to_owned();
            let reason = highlight_error_text(&e);
            m.append(reason.as_str());
            assert(m@ == "Highlight event error: "@ + reason@);
            Err(m)
        },
        Err(e) => {
            let mut m = "Highlight error: ".to_owned();
            let reason = highlight_error_text(&e);
            m.append(reason.as_str());
            assert(m@ == "Highlight error: "@ + reason@);
            Err(m)
        },
    }
}


/// An edit of the parsed text, as it is reported to the parse tree: byte
/// offsets of its start, old end and new end, and their rows and columns.
pub struct TreeEdit {
    /// Byte offset where the edit starts.
    pub start_byte: usize,
    /// Byte offset where the replaced text ended.
    pub old_end_byte: usize,
    /// Byte offset where the new text ends.
    pub new_end_byte: usize,
    /// Row of the start.
    pub start_row: usize,
    /// Column of the start.
    pub start_col: usize,
    /// Row of the old end.
    pub old_end_row: usize,
    /// Column of the old end.
    pub old_end_col: usize,
    /// Row of the new end.
    pub new_end_row: usize,
    /// Column of the new end.
    pub new_end_col: usize,
}

/// The syntax highlighter: a tree-sitter parser with its current tree,
/// and the highlight configuration of each language used so far.
pub struct SyntaxHighlighter {
    parser: GrammarParser,
    tree: Option<Tree>,
    language: Option<Language>,
    configs: Vec<LangConfig>,
    highlight_names: Vec<String>,
    reported: Ghost<Seq<TreeEdit>>,
}

impl SyntaxHighlighter {
    /// The current language.
    pub closed spec fn current(&self) -> Option<Language> {
        self.language
    }

    /// Whether there is a parse tree.
    pub closed spec fn tree_present(&self) -> bool {
        self.tree is Some
    }

    /// The languages that have a highlight configuration.
    pub closed spec fn configured(&self) -> Seq<Language> {
        self.configs@.map_values(|c: LangConfig| c@.0)
    }

    /// The edits reported to the current tree since it was parsed, oldest
    /// first.
    pub closed spec fn reported_edits(&self) -> Seq<TreeEdit> {
        self.reported@
    }

    /// Whether switching to `language` succeeds: it is the current one, or
    /// tree-sitter accepts its grammar and its highlight configuration is
    /// at hand or can be built.
    pub open spec fn accepts(&self, language: Language) -> bool {
        ||| self.current() == Some(language)
        ||| grammar_accepted(language) && (self.configured().contains(language) || config_builds(
            language,
        ))
    }

    /// The representation invariant: the capture names are the recognized
    /// ones and every configuration was built with them, the current
    /// language has a configuration and the parser a grammar, and only a
    /// tree has edits reported to it.
    pub closed spec fn wf(&self) -> bool {
        &&& self.highlight_names@.map_values(|s: String| s@) == recognized_names()
        &&& forall|i: int| 0 <= i < self.configs@.len() ==> (#[trigger] self.configs@[i])@.1
            == recognized_names()
        &&& self.language matches Some(l) ==> self.configured().contains(l)
        &&& self.language is Some ==> self.parser.grammar is Some
        &&& self.tree is None ==> self.reported@.len() == 0
    }

    /// A highlighter without a language or tree.
    pub fn new() -> (h: SyntaxHighlighter)
        ensures
            h.wf(),
            h.current() is None,
            !h.tree_present(),
            h.configured() == Seq::<Language>::empty(),
            h.reported_edits() == Seq::<TreeEdit>::empty(),
    {
        let h = SyntaxHighlighter {
            parser: GrammarParser::new(),
            tree: None,
            language: None,
            configs: Vec::new(),
            highlight_names: recognized_name_list(),
            reported: Ghost(Seq::empty()),
        };
        assert(h.configured() =~= Seq::<Language>::empty());
        h
    }

    /// Switches to `language`. The tree is dropped when the language
    /// changes; choosing the current language changes nothing.
    pub fn set_language(&mut self, language: Language) -> (r: Result<(), String>)
        requires
            old(self).wf(),
        ensures
            final(self).wf(),
            old(self).current() == Some(language) ==> r is Ok
                && final(self).current() == old(self).current()
                && final(self).tree_present() == old(self).tree_present(),
            r is Ok ==> final(self).current() == Some(language),
            r is Ok && old(self).current() != Some(language) ==> !final(self).tree_present(),
            r is Err ==> final(self).current() == old(self).current()
                && final(self).tree_present() == old(self).tree_present(),
            r is Ok == old(self).accepts(language),
            r is Ok ==> final(self).configured().contains(language),
            forall|l: Language|
                old(self).configured().contains(l) ==> #[trigger] final(self).configured().contains(l),
            r is Err || old(self).current() == Some(language) ==> final(self).reported_edits()
                == old(self).reported_edits(),
            r matches Err(m) ==> language_failure(m@),
    {
        match self.language {
            Some(l) => {
                if l == language {
                    return Ok(());
                }
            },
            None => {},
        }
        let set = self.parser.set_grammar(language);
        match set {
            Ok(()) => {},
            Err(e) => {
                return Err(e);
            },
        }
        let mut found = false;
        let n = self.configs.len();
        let mut i: usize = 0;
        while i < n
            invariant
                n == self.configs@.len(),
                i <= n,
                found ==> self.configured().contains(language),
                !found ==> forall|j: int| 0 <= j < i ==> self.configured()[j] != language,
            decreases n - i,
        {
            if self.configs[i].language == language {
                assert(self.configured()[i as int] == language);
                found = true;
            }
            i = i + 1;
        }
        if !found {
            assert(!self.configured().contains(language)) by {
                if self.configured().contains(language) {
                    let j = choose|j: int|
                        0 <= j < self.configured().len() && self.configured()[j] == language;
                    assert(self.configured()[j] != language);
                }
            }
            let config = match self.create_highlight_config(language) {
                Ok(c) => c,
                Err(e) => {
                    return Err(e);
                },
            };
            let ghost before = self.configured();
            let ghost before_configs = self.configs@;
            self.configs.push(config);
            assert(self.configs@ =~= before_configs.push(config));
            assert(self.configured() =~= before.push(language));
            assert(self.configured()[before.len() as int] == language);
        }
        let ghost configured = self.configured();
        assert(configured.contains(language));
        self.language = Some(language);
        self.tree = None;
        self.reported = Ghost(Seq::empty());
        Ok(())
    }

    /// The highlight configuration of `language`, mapped to the recognized
    /// capture names; when the query does not build, the reason with its
    /// prefix.
    fn create_highlight_config(&self, language: Language) -> (r: Result<LangConfig, String>)
        requires
            self.wf(),
        ensures
            r is Ok == config_builds(language),
            r matches Ok(c) ==> c@ == (language, recognized_names()),
            r matches Err(m) ==> language_failure(m@),
    {
        match highlight_config(language, language.name()) {
            Ok(mut config) => {
                highlight_config_configure(&mut config, &self.highlight_names);
                Ok(
                    LangConfig {
                        language,
                        names: Ghost(self.highlight_names@.map_values(|s: String| s@)),
                        config,
                    },
                )
            },
            Err(reason) => {
                let mut m = "Failed to create highlight config: ".to_owned();
                m.append(reason.as_str());
                assert(m@ == "Failed to create highlight config: "@ + reason@);
                Err(m)
            },
        }
    }

    /// Parses `text` from scratch. Without a language this fails with
    /// "Language not set"; with one it succeeds, the new tree in place of
    /// the old.
    pub fn parse(&mut self, text: &str) -> (r: Result<(), String>)
        requires
            old(self).wf(),
        ensures
            final(self).wf(),
            final(self).current() == old(self).current(),
            old(self).current() is None ==> (r matches Err(e) && e@ == "Language not set"@),
            r is Ok ==> final(self).tree_present(),
            r is Err ==> final(self).tree_present() == old(self).tree_present(),
            old(self).current() is Some ==> r is Ok,
            r is Ok ==> final(self).reported_edits() == Seq::<TreeEdit>::empty(),
            r is Err ==> final(self).reported_edits() == old(self).reported_edits(),
    {
        if self.language.is_none() {
            return Err("Language not set".to_owned());
        }
        match parser_parse(&mut self.parser, text, None) {
            Some(tree) => {
                self.tree = Some(tree);
                self.reported = Ghost(Seq::empty());
                Ok(())
            },
            None => Err("Failed to parse text".to_owned()),
        }
    }

    /// Parses the text of `rope` from scratch, as [`SyntaxHighlighter::parse`].
    pub fn parse_rope(&mut self, rope: &Rope) -> (r: Result<(), String>)
        requires
            old(self).wf(),
        ensures
            final(self).wf(),
            final(self).current() == old(self).current(),
            old(self).current() is None ==> (r matches Err(e) && e@ == "Language not set"@),
            old(self).current() is Some ==> r is Ok,
            r is Ok ==> final(self).tree_present(),
            r is Err ==> final(self).tree_present() == old(self).tree_present(),
            r is Ok ==> final(self).reported_edits() == Seq::<TreeEdit>::empty(),
            r is Err ==> final(self).reported_edits() == old(self).reported_edits(),
    {
        let text = rope_to_string(rope);
        self.parse(text.as_str())
    }

    /// Tells the tree, if any, about an edit: byte offsets of its start,
    /// old end and new end, and their rows and columns.
    pub fn apply_edit(
        &mut self,
        start_byte: usize,
        old_end_byte: usize,
        new_end_byte: usize,
        start_row: usize,
        start_col: usize,
        old_end_row: usize,
        old_end_col: usize,
        new_end_row: usize,
        new_end_col: usize,
    )
        requires
            old(self).wf(),
        ensures
            final(self).wf(),
            final(self).current() == old(self).current(),
            final(self).tree_present() == old(self).tree_present(),
            old(self).tree_present() ==> final(self).reported_edits()
                == old(self).reported_edits().push(
                (TreeEdit {
                    start_byte,
                    old_end_byte,
                    new_end_byte,
                    start_row,
                    start_col,
                    old_end_row,
                    old_end_col,
                    new_end_row,
                    new_end_col,
                }),
            ),
            !old(self).tree_present() ==> final(self).reported_edits() == old(self).reported_edits(),
    {
        match self.tree.take() {
            Some(mut tree) => {
                tree_edit(
                    &mut tree,
                    [
                        start_byte,
                        old_end_byte,
                        new_end_byte,
                        start_row,
                        start_col,
                        old_end_row,
                        old_end_col,
                        new_end_row,
                        new_end_col,
                    ],
                );
                self.tree = Some(tree);
                self.reported = Ghost(
                    self.reported@.push(
                        TreeEdit {
                            start_byte,
                            old_end_byte,
                            new_end_byte,
                            start_row,
                            start_col,
                            old_end_row,
                            old_end_col,
                            new_end_row,
                            new_end_col,
                        },
                    ),
                );
            },
            None => {},
        }
    }

    /// Parses `text` again, reusing the (edited) tree. Without a language
    /// this fails with "Language not set"; with one it succeeds, the new
    /// tree in place of the old.
    pub fn reparse(&mut self, text: &str) -> (r: Result<(), String>)
        requires
            old(self).wf(),
        ensures
            final(self).wf(),
            final(self).current() == old(self).current(),
            old(self).current() is None ==> (r matches Err(e) && e@ == "Language not set"@),
            r is Ok ==> final(self).tree_present(),
            r is Err ==> final(self).tree_present() == old(self).tree_present(),
            old(self).current() is Some ==> r is Ok,
            r is Ok ==> final(self).reported_edits() == Seq::<TreeEdit>::empty(),
            r is Err ==> final(self).reported_edits() == old(self).reported_edits(),
    {
        if self.language.is_none() {
            return Err("Language not set".to_owned());
        }
        let parsed = parser_parse(&mut self.parser, text, self.tree.as_ref());
        match parsed {
            Some(tree) => {
                self.tree = Some(tree);
                self.reported = Ghost(Seq::empty());
                Ok(())
            },
            None => Err("Failed to reparse text".to_owned()),
        }
    }

    /// The highlighted spans of `text`: the events of a highlight run with
    /// the current language's configuration, turned into spans by
    /// [`spans_from_events`]. Without a language this fails with
    /// "Language not set"; a failed run fails with its message.
    pub fn highlight(&mut self, text: &str) -> (r: Result<Vec<HighlightSpan>, String>)
        requires
            old(self).wf(),
        ensures
            final(self).wf(),
            final(self).current() == old(self).current(),
            final(self).tree_present() == old(self).tree_present(),
            old(self).current() is None ==> (r matches Err(e) && e@ == "Language not set"@),
            old(self).current() is Some ==> (r matches Err(e) ==> highlight_failure(e@)),
            old(self).current() matches Some(l) ==> (r is Ok == highlight_run(
                (l, recognized_names()),
                text@,
            ) is Some),
            old(self).current() matches Some(l) ==> (r matches Ok(spans) ==> spans@ == spans_of(
                highlight_run((l, recognized_names()), text@)->0,
                recognized_names(),
            )),
            final(self).reported_edits() == old(self).reported_edits(),
    {
        let language = match self.language {
            Some(l) => l,
            None => {
                return Err("Language not set".to_owned());
            },
        };
        let n = self.configs.len();
        let mut i: usize = 0;
        #[verifier::loop_isolation(false)]
        while i < n
            invariant
                n == self.configs@.len(),
                i <= n,
                forall|j: int| 0 <= j < i ==> self.configured()[j] != language,
            decreases n - i,
        {
            if self.configs[i].language == language {
                assert(self.configs@[i as int]@ == (language, recognized_names()));
                let events = match highlight_events(&self.configs[i], text) {
                    Ok(ev) => ev,
                    Err(e) => {
                        return Err(e);
                    },
                };
                let spans = spans_from_events(&events, &self.highlight_names);
                assert(spans@ == spans_of(events@, recognized_names()));
                return Ok(spans);
            }
            assert(self.configured()[i as int] != language);
            i = i + 1;
        }
        assert(!self.configured().contains(language));
        Err("Highlight config not found".to_owned())
    }

    /// Whether there is a parse tree.
    pub fn has_tree(&self) -> (b: bool)
        ensures
            b == self.tree_present(),
    {
        self.tree.is_some()
    }

    /// The current language.
    pub fn current_language(&self) -> (l: Option<Language>)
        ensures
            l == self.current(),
    {
        self.language
    }
}

impl Default for SyntaxHighlighter {
    fn default() -> (h: SyntaxHighlighter)
        ensures
            h.wf(),
            h.current() is None,
            !h.tree_present(),
    {
        SyntaxHighlighter::new()
    }
}

} // verus!
