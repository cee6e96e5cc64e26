//! The terminal panel: what it shows, what the user typed, and the
//! history of sent commands.
//!
//! The pseudo terminal itself is driven by the caller: the view says what
//! to send and takes back what the shell printed and how each request went.
use vstd::prelude::*;
use vstd::utf8::{decode_utf8, valid_utf8};

use super::pty::{pty_error_text, PtyError, TerminalSize};
use crate::highlight::theme::{rgb, unmultiplied, Color};
use crate::text::{chars_of, is_space, is_whitespace, push_char};

verus! {

/// The colors of the terminal panel.
#[derive(Debug, Clone, Copy, PartialEq, Eq, Structural)]
pub struct TerminalColors {
    /// Background.
    pub background: Color,
    /// Default text color.
    pub foreground: Color,
    /// Cursor color.
    pub cursor: Color,
    /// Selection color.
    pub selection: Color,
}

/// The default terminal colors: light grey on near black, a white cursor
/// and a translucent blue selection.
pub open spec fn default_colors() -> TerminalColors {
    TerminalColors {
        background: rgb(30, 30, 30),
        foreground: rgb(204, 204, 204),
        cursor: rgb(255, 255, 255),
        selection: unmultiplied(100, 100, 200, 100),
    }
}

impl Default for TerminalColors {
    fn default() -> (c: TerminalColors)
        ensures
            c == default_colors(),
    {
        TerminalColors {
            background: Color::from_rgb(30, 30, 30),
            foreground: Color::from_rgb(204, 204, 204),
            cursor: Color::from_rgb(255, 255, 255),
            selection: Color::from_rgba_unmultiplied(100, 100, 200, 100),
        }
    }
}

/// The text that `String::from_utf8_lossy` makes of `bytes`.
pub uninterp spec fn lossy_utf8(bytes: Seq<u8>) -> Seq<char>;

/// `String::from_utf8_lossy`: `bytes` decoded as UTF-8, each invalid
/// sequence replaced by U+FFFD; valid UTF-8 is decoded as it stands.
#[verifier::external_body]
fn decode_lossy(bytes: &[u8]) -> (s: String)
    ensures
        s@ == lossy_utf8(bytes@),
        valid_utf8(bytes@) ==> s@ == decode_utf8(bytes@),
{
    String::from_utf8_lossy(bytes).into_owned()
}

/// The escape char that starts an ANSI control sequence.
pub open spec fn esc() -> char {
    '\x1b'
}

/// ASCII letters, which end a control sequence.
pub open spec fn is_ascii_letter(c: char) -> bool {
    ('a' <= c && c <= 'z') || ('A' <= c && c <= 'Z')
}

/// What is left of `s` from index `i` on once control sequences are taken
/// out, `in_seq` telling whether a sequence is open at `i`: `ESC [` opens
/// one, and it runs up to and including the next ASCII letter.
pub open spec fn strip_from(s: Seq<char>, i: int, in_seq: bool) -> Seq<char>
    decreases s.len() - i,
{
    if i < 0 || i >= s.len() {
        Seq::empty()
    } else if s[i] == esc() && i + 1 < s.len() && s[i + 1] == '\u{5b}' {
        strip_from(s, i + 2, true)
    } else if in_seq {
        strip_from(s, i + 1, !is_ascii_letter(s[i]))
    } else {
        seq![s[i]] + strip_from(s, i + 1, false)
    }
}

/// `s` with its ANSI control sequences taken out.
pub open spec fn stripped(s: Seq<char>) -> Seq<char> {
    strip_from(s, 0, false)
}

/// Stripping from inside `b` gives the same whether or not text stands
/// before `b`: the stripping only looks forward.
proof fn lemma_strip_shift(a: Seq<char>, b: Seq<char>, j: int, in_seq: bool)
    requires
        0 <= j,
    ensures
        strip_from(a + b, a.len() + j, in_seq) == strip_from(b, j, in_seq),
    decreases b.len() - j,
{
    let s = a + b;
    let i = a.len() + j;
    if j < b.len() {
        assert(s[i] == b[j]);
        if j + 1 < b.len() {
            assert(s[i + 1] == b[j + 1]);
            lemma_strip_shift(a, b, j + 2, true);
        }
        lemma_strip_shift(a, b, j + 1, true);
        lemma_strip_shift(a, b, j + 1, false);
    }
}

/// Inside an open control sequence, chars that are neither letters nor
/// escapes are passed over.
proof fn lemma_strip_params(s: Seq<char>, from: int, to: int)
    requires
        0 <= from <= to <= s.len(),
        forall|i: int| from <= i < to ==> !is_ascii_letter(#[trigger] s[i]) && s[i] != esc(),
    ensures
        strip_from(s, from, true) == strip_from(s, to, true),
    decreases to - from,
{
    if from < to {
        assert(!is_ascii_letter(s[from]) && s[from] != esc());
        lemma_strip_params(s, from + 1, to);
    }
}

/// A control sequence `ESC [` runs up to and including the next ASCII
/// letter: whatever comes between (parameters such as `?2004` or `1;31`)
/// is dropped with it, and stripping goes on after the letter as from the
/// start of the rest.
pub proof fn law_sequence_ends_at_letter(params: Seq<char>, letter: char, rest: Seq<char>)
    requires
        forall|i: int| 0 <= i < params.len() ==> !is_ascii_letter(#[trigger] params[i]) && params[i]
            != esc(),
        is_ascii_letter(letter),
    ensures
        stripped(seq![esc(), '\u{5b}'] + params + seq![letter] + rest) == stripped(rest),
{
    let head = seq![esc(), '\u{5b}'] + params + seq![letter];
    let s = head + rest;
    assert(s == seq![esc(), '\u{5b}'] + params + seq![letter] + rest);
    assert(s[0] == esc());
    assert(s[1] == '\u{5b}');
    let n = params.len() as int;
    assert forall|i: int| 2 <= i < 2 + n implies !is_ascii_letter(#[trigger] s[i]) && s[i] != esc() by {
        assert(s[i] == params[i - 2]);
    }
    lemma_strip_params(s, 2, 2 + n);
    assert(s[2 + n] == letter);
    assert(letter != esc());
    lemma_strip_shift(head, rest, 0, false);
    assert(head.len() == 3 + n);
}

/// Text without an escape char is left as it is from any index on.
proof fn lemma_strip_plain(s: Seq<char>, i: int)
    requires
        0 <= i <= s.len(),
        !s.contains(esc()),
    ensures
        strip_from(s, i, false) == s.subrange(i, s.len() as int),
    decreases s.len() - i,
{
    if i < s.len() {
        assert(s[i] != esc()) by {
            if s[i] == esc() {
                assert(s.contains(esc()));
            }
        }
        lemma_strip_plain(s, i + 1);
        assert(seq![s[i]] + s.subrange(i + 1, s.len() as int) =~= s.subrange(i, s.len() as int));
    } else {
        assert(s.subrange(i, s.len() as int) =~= Seq::<char>::empty());
    }
}

/// Text with no escape char in it comes out of the stripping unchanged.
pub proof fn law_strip_keeps_plain_text(s: Seq<char>)
    requires
        !s.contains(esc()),
    ensures
        stripped(s) == s,
{
    lemma_strip_plain(s, 0);
    assert(s.subrange(0, s.len() as int) =~= s);
}

/// The two lines shown when a shell has started.
pub open spec fn banner() -> Seq<char> {
    "シェルを起動しました。\n"@ + "Ctrl+Enter で入力を送信します。\n\n"@
}

/// Whether `s` holds nothing but white space.
pub open spec fn blank(s: Seq<char>) -> bool {
    forall|i: int| 0 <= i < s.len() ==> is_space(#[trigger] s[i])
}

/// The abstract state of a [`TerminalView`].
pub struct TerminalState {
    /// The text in the input box.
    pub input: Seq<char>,
    /// The text shown as the shell's output.
    pub output: Seq<char>,
    /// Whether the panel is shown.
    pub visible: bool,
    /// The error shown above the output, if any.
    pub error: Option<Seq<char>>,
    /// Sent commands, oldest first.
    pub history: Seq<Seq<char>>,
    /// The position in the history that the input box shows; the length
    /// of the history when it shows none.
    pub index: int,
    /// The colors.
    pub colors: TerminalColors,
}

/// The views of a list of strings.
pub open spec fn string_views(v: Seq<String>) -> Seq<Seq<char>> {
    v.map_values(|s: String| s@)
}

/// The terminal panel.
pub struct TerminalView {
    input_buffer: String,
    output_text: String,
    colors: TerminalColors,
    visible: bool,
    error_message: Option<String>,
    history: Vec<String>,
    history_index: usize,
}

impl TerminalView {
    /// The abstract state.
    pub closed spec fn view(&self) -> TerminalState {
        TerminalState {
            input: self.input_buffer@,
            output: self.output_text@,
            visible: self.visible,
            error: match self.error_message {
                Some(e) => Some(e@),
                None => None,
            },
            history: string_views(self.history@),
            index: self.history_index as int,
            colors: self.colors,
        }
    }

    /// The history position never passes the end of the history.
    pub closed spec fn wf(&self) -> bool {
        self.history_index <= self.history@.len()
    }

    /// The state of a well-formed view keeps its position within bounds.
    pub proof fn lemma_wf(&self)
        requires
            self.wf(),
        ensures
            0 <= self@.index <= self@.history.len(),
    {
    }

    /// A hidden panel with nothing typed, shown or sent.
    pub fn new() -> (v: TerminalView)
        ensures
            v.wf(),
            v@.input == Seq::<char>::empty(),
            v@.output == Seq::<char>::empty(),
            !v@.visible,
            v@.error is None,
            v@.history == Seq::<Seq<char>>::empty(),
            v@.index == 0,
            v@.colors == default_colors(),
    {
        let v = TerminalView {
            input_buffer: String::new(),
            output_text: String::new(),
            colors: TerminalColors::default(),
            visible: false,
            error_message: None,
            history: Vec::new(),
            history_index: 0,
        };
        assert(string_views(v.history@) =~= Seq::<Seq<char>>::empty());
        v
    }

    /// Records how starting the shell went: once it runs, the panel is shown
    /// with the start-up lines as its only output and no error; a failure
    /// is handed back with the view unchanged.
    pub fn start(&mut self, spawned: Result<(), PtyError>) -> (r: Result<(), PtyError>)
        requires
            old(self).wf(),
        ensures
            final(self).wf(),
            match spawned {
                Ok(()) => {
                    &&& r is Ok
                    &&& final(self)@ == (TerminalState {
                        visible: true,
                        error: None,
                        output: banner(),
                        ..old(self)@
                    })
                },
                Err(e) => r == Err::<(), PtyError>(e) && final(self)@ == old(self)@,
            },
    {
        match spawned {
            Ok(()) => {
                self.visible = true;
                self.error_message = None;
                let mut out = String::new();
                out.append("シェルを起動しました。\n");
                out.append("Ctrl+Enter で入力を送信します。\n\n");
                self.output_text = out;
                Ok(())
            },
            Err(e) => Err(e),
        }
    }

    /// Hides the panel; the caller stops the shell.
    pub fn stop(&mut self)
        requires
            old(self).wf(),
        ensures
            final(self).wf(),
            final(self)@ == (TerminalState { visible: false, ..old(self)@ }),
    {
        self.visible = false;
    }

    /// Shows or hides the panel. A shown panel is hidden. A hidden one is
    /// shown at once when the shell runs; when it does not, the view stays
    /// as it is and the answer is `true`: the caller starts the shell and
    /// hands the outcome to [`TerminalView::finish_toggle`].
    pub fn toggle(&mut self, running: bool) -> (start_shell: bool)
        requires
            old(self).wf(),
        ensures
            final(self).wf(),
            start_shell == (!old(self)@.visible && !running),
            old(self)@.visible ==> final(self)@ == (TerminalState { visible: false, ..old(self)@ }),
            !old(self)@.visible && running ==> final(self)@ == (TerminalState {
                visible: true,
                ..old(self)@
            }),
            start_shell ==> final(self)@ == old(self)@,
    {
        if self.visible {
            self.visible = false;
            false
        } else if running {
            self.visible = true;
            false
        } else {
            true
        }
    }

    /// Shows the panel after [`TerminalView::toggle`] asked for a shell:
    /// as [`TerminalView::start`] does when it started, and with the reason
    /// as the error when it did not.
    pub fn finish_toggle(&mut self, spawned: Result<(), PtyError>)
        requires
            old(self).wf(),
        ensures
            final(self).wf(),
            match spawned {
                Ok(()) => final(self)@ == (TerminalState {
                    visible: true,
                    error: None,
                    output: banner(),
                    ..old(self)@
                }),
                Err(e) => final(self)@ == (TerminalState {
                    visible: true,
                    error: Some("ターミナルの起動に失敗しました: "@ + pty_error_text(e)),
                    ..old(self)@
                }),
            },
    {
        match self.start(spawned) {
            Ok(()) => {},
            Err(e) => {
                let mut m = String::new();
                m.append("ターミナルの起動に失敗しました: ");
                let text = e.message();
                m.append(text.as_str());
                self.error_message = Some(m);
            },
        }
        self.visible = true;
    }

    /// Whether the panel is shown.
    pub fn is_visible(&self) -> (b: bool)
        ensures
            b == self@.visible,
    {
        self.visible
    }

    /// Replaces the text in the input box.
    pub fn set_input(&mut self, text: String)
        requires
            old(self).wf(),
        ensures
            final(self).wf(),
            final(self)@ == (TerminalState { input: text@, ..old(self)@ }),
    {
        self.input_buffer = text;
    }

    /// Sends what was typed. With nothing typed, nothing happens and the
    /// answer is `None`. Otherwise the input is echoed after `$ `, kept in
    /// the history unless it is all white space (the history then shows no
    /// entry), the input box is emptied, and the answer is the input and a
    /// line break, for the caller to write to the shell.
    pub fn send_input(&mut self) -> (command: Option<String>)
        requires
            old(self).wf(),
        ensures
            final(self).wf(),
            old(self)@.input.len() == 0 ==> command is None && final(self)@ == old(self)@,
            old(self)@.input.len() > 0 ==> {
                let input = old(self)@.input;
                let h = if blank(input) {
                    old(self)@.history
                } else {
                    old(self)@.history.push(input)
                };
                &&& command matches Some(c) && c@ == input + "\n"@
                &&& final(self)@ == (TerminalState {
                    input: Seq::empty(),
                    output: old(self)@.output + "$ "@ + input + "\n"@,
                    history: h,
                    index: if blank(input) {
                        old(self)@.index
                    } else {
                        h.len() as int
                    },
                    ..old(self)@
                })
            },
    {
        let n = self.input_buffer.unicode_len();
        if n == 0 {
            return None;
        }
        let input = self.input_buffer.clone();
        let mut i: usize = 0;
        let mut all_space = true;
        while i < n
            invariant
                n == input@.len(),
                i <= n,
                all_space == forall|j: int| 0 <= j < i ==> is_space(#[trigger] input@[j]),
            decreases n - i,
        {
            if !is_whitespace(input.as_str().get_char(i)) {
                all_space = false;
            }
            i = i + 1;
        }
        let ghost old_history = self.history@;
        if !all_space {
            self.history.push(input.clone());
            self.history_index = self.history.len();
            assert(string_views(self.history@) =~= string_views(old_history).push(input@));
        }
        self.output_text.append("$ ");
        self.output_text.append(input.as_str());
        self.output_text.append("\n");
        let mut command = input;
        command.append("\n");
        self.input_buffer = String::new();
        Some(command)
    }

    /// Records that writing a command to the shell failed.
    pub fn send_failed(&mut self, e: &PtyError)
        requires
            old(self).wf(),
        ensures
            final(self).wf(),
            final(self)@ == (TerminalState {
                error: Some("送信エラー: "@ + pty_error_text(*e)),
                ..old(self)@
            }),
    {
        let mut m = String::new();
        m.append("送信エラー: ");
        let text = e.message();
        m.append(text.as_str());
        self.error_message = Some(m);
    }

    /// Records that resizing the shell's terminal failed; success changes
    /// nothing.
    pub fn resize(&mut self, outcome: Result<(), PtyError>)
        requires
            old(self).wf(),
        ensures
            final(self).wf(),
            match outcome {
                Ok(()) => final(self)@ == old(self)@,
                Err(e) => final(self)@ == (TerminalState {
                    error: Some("リサイズエラー: "@ + pty_error_text(e)),
                    ..old(self)@
                }),
            },
    {
        if let Err(e) = outcome {
            let mut m = String::new();
            m.append("リサイズエラー: ");
            let text = e.message();
            m.append(text.as_str());
            self.error_message = Some(m);
        }
    }

    /// The terminal size to ask for when the panel has `cols` columns and
    /// `rows` rows; the pixel size is left unknown.
    pub fn size_for(cols: u16, rows: u16) -> (s: TerminalSize)
        ensures
            s == (TerminalSize { cols, rows, pixel_width: 0, pixel_height: 0 }),
    {
        TerminalSize { cols, rows, pixel_width: 0, pixel_height: 0 }
    }

    /// `text` with its ANSI control sequences taken out.
    pub fn strip_ansi_codes(&self, text: &str) -> (r: String)
        ensures
            r@ == stripped(text@),
    {
        let s = chars_of(text);
        let n = s.len();
        let mut r = String::new();
        let mut in_seq = false;
        let mut i: usize = 0;
        while i < n
            invariant
                s@ == text@,
                n == s@.len(),
                i <= n + 1,
                r@ + strip_from(s@, i as int, in_seq) == stripped(text@),
            decreases n + 1 - i,
        {
            let c = s[i];
            if c == '\x1b' && i + 1 < n && s[i + 1] == '\u{5b}' {
                in_seq = true;
                i = i + 2;
            } else if in_seq {
                if ('a' <= c && c <= 'z') || ('A' <= c && c <= 'Z') {
                    in_seq = false;
                }
                i = i + 1;
            } else {
                proof {
                    assert(r@.push(c) + strip_from(s@, i + 1, false) =~= r@ + (seq![c]
                        + strip_from(s@, i + 1, false)));
                }
                push_char(&mut r, c);
                i = i + 1;
            }
        }
        assert(strip_from(s@, i as int, in_seq) =~= Seq::<char>::empty());
        assert(r@ + Seq::<char>::empty() =~= r@);
        r
    }

    /// Adds what the shell printed, decoded, to the output, its control
    /// sequences taken out.
    pub fn append_output(&mut self, text: &str)
        requires
            old(self).wf(),
        ensures
            final(self).wf(),
            final(self)@ == (TerminalState {
                output: old(self)@.output + stripped(text@),
                ..old(self)@
            }),
    {
        let cleaned = self.strip_ansi_codes(text);
        self.output_text.append(cleaned.as_str());
    }

    /// Adds the bytes that the shell printed to the output: decoded as
    /// UTF-8 (invalid sequences replaced), control sequences taken out.
    pub fn update_output(&mut self, bytes: &[u8])
        requires
            old(self).wf(),
        ensures
            final(self).wf(),
            bytes@.len() == 0 ==> final(self)@ == old(self)@,
            bytes@.len() > 0 ==> final(self)@ == (TerminalState {
                output: old(self)@.output + stripped(lossy_utf8(bytes@)),
                ..old(self)@
            }),
    {
        if bytes.len() > 0 {
            let text = decode_lossy(bytes);
            self.append_output(text.as_str());
        }
    }

    /// Empties the output.
    pub fn clear_output(&mut self)
        requires
            old(self).wf(),
        ensures
            final(self).wf(),
            final(self)@ == (TerminalState { output: Seq::empty(), ..old(self)@ }),
    {
        self.output_text = String::new();
    }

    /// Moves one entry back in the history and puts it in the input box;
    /// at the oldest entry nothing changes.
    pub fn history_up(&mut self)
        requires
            old(self).wf(),
        ensures
            final(self).wf(),
            old(self)@.index > 0 ==> final(self)@ == (TerminalState {
                index: old(self)@.index - 1,
                input: old(self)@.history[old(self)@.index - 1],
                ..old(self)@
            }),
            old(self)@.index == 0 ==> final(self)@ == old(self)@,
    {
        if self.history.len() > 0 && self.history_index > 0 {
            self.history_index = self.history_index - 1;
            self.input_buffer = self.history[self.history_index].clone();
        }
    }

    /// Moves one entry forward in the history and puts it in the input box;
    /// past the newest entry the input box is emptied, and beyond that
    /// nothing changes.
    pub fn history_down(&mut self)
        requires
            old(self).wf(),
        ensures
            final(self).wf(),
            old(self)@.index + 1 < old(self)@.history.len() ==> final(self)@ == (TerminalState {
                index: old(self)@.index + 1,
                input: old(self)@.history[old(self)@.index + 1],
                ..old(self)@
            }),
            old(self)@.index + 1 == old(self)@.history.len() ==> final(self)@ == (TerminalState {
                index: old(self)@.index + 1,
                input: Seq::empty(),
                ..old(self)@
            }),
            old(self)@.index == old(self)@.history.len() ==> final(self)@ == old(self)@,
    {
        if self.history_index < self.history.len() {
            self.history_index = self.history_index + 1;
            if self.history_index == self.history.len() {
                self.input_buffer = String::new();
            } else {
                self.input_buffer = self.history[self.history_index].clone();
            }
        }
    }

    /// The colors.
    pub fn colors(&self) -> (c: &TerminalColors)
        ensures
            *c == self@.colors,
    {
        &self.colors
    }

    /// Replaces the colors.
    pub fn set_colors(&mut self, colors: TerminalColors)
        requires
            old(self).wf(),
        ensures
            final(self).wf(),
            final(self)@ == (TerminalState { colors, ..old(self)@ }),
    {
        self.colors = colors;
    }

    /// The text in the input box.
    pub fn input_buffer(&self) -> (s: &str)
        ensures
            s@ == self@.input,
    {
        self.input_buffer.as_str()
    }

    /// The output shown.
    pub fn output_text(&self) -> (s: &str)
        ensures
            s@ == self@.output,
    {
        self.output_text.as_str()
    }

    /// The sent commands, oldest first.
    pub fn history(&self) -> (h: &[String])
        ensures
            string_views(h@) == self@.history,
    {
        self.history.as_slice()
    }

    /// The error shown, if any.
    pub fn error_message(&self) -> (e: Option<&str>)
        ensures
            match self@.error {
                Some(m) => e matches Some(s) && s@ == m,
                None => e is None,
            },
    {
        match &self.error_message {
            Some(m) => Some(m.as_str()),
            None => None,
        }
    }
}

impl Default for TerminalView {
    fn default() -> (v: TerminalView)
        ensures
            v.wf(),
            v@.input == Seq::<char>::empty(),
            v@.output == Seq::<char>::empty(),
            !v@.visible,
            v@.error is None,
            v@.history == Seq::<Seq<char>>::empty(),
            v@.index == 0,
            v@.colors == default_colors(),
    {
        TerminalView::new()
    }
}

} // verus!
