//! The editor's document state: the buffer, its undo history, the
//! highlighter, the theme and the status message, and how text edits,
//! undo and redo move between them. The window around it is drawn by the
//! program under `app/`, which also reads and writes the files.
use vstd::prelude::*;

use crate::buffer::history::{
    apply, apply_all, clean, clean_all, inverses, law_undo_restores_all, recorded,
    redone, undone, valid, Edit, EditCommand, History, HistoryState,
};
use crate::buffer::text_buffer::TextBuffer;
use crate::highlight::theme::Theme;
use crate::highlight::{language_name, Language, SyntaxHighlighter};
use crate::paths::{extension_of, file_name_of, path_extension, path_file_name};
use crate::text::{chars_of, decimal, lowercase, push_decimal, string_of_range};

verus! {

/// The index of the first position from `i` on where `a` and `b` differ
/// (or where one of them ends).
pub open spec fn prefix_from(a: Seq<char>, b: Seq<char>, i: int) -> int
    decreases a.len() - i,
{
    if 0 <= i < a.len() && i < b.len() && a[i] == b[i] {
        prefix_from(a, b, i + 1)
    } else {
        i
    }
}

/// `a` and `b` agree at the `j`-th char from their ends.
pub open spec fn same_end(a: Seq<char>, b: Seq<char>, j: int) -> bool {
    a[a.len() - 1 - j] == b[b.len() - 1 - j]
}

/// How many chars `a` and `b` share at their ends, from `k` on, within
/// what follows their common prefix of length `p`.
pub open spec fn suffix_from(a: Seq<char>, b: Seq<char>, p: int, k: int) -> int
    decreases a.len() - p - k,
{
    if 0 <= k < a.len() - p && k < b.len() - p && a[a.len() - 1 - k] == b[b.len() - 1 - k] {
        suffix_from(a, b, p, k + 1)
    } else {
        k
    }
}

/// The edits that turn `a` into `b`, found by trimming their common
/// prefix and suffix: the deletion of what is left of `a`, then the
/// insertion of what is left of `b`, each only if it is not empty.
pub open spec fn change_edits(a: Seq<char>, b: Seq<char>) -> Seq<Edit> {
    let p = prefix_from(a, b, 0);
    let s = suffix_from(a, b, p, 0);
    let old_end = a.len() - s;
    let new_end = b.len() - s;
    (if p < old_end {
        seq![Edit::Delete { start: p, end: old_end, text: a.subrange(p, old_end) }]
    } else {
        Seq::empty()
    }) + (if p < new_end {
        seq![Edit::Insert { at: p, text: b.subrange(p, new_end) }]
    } else {
        Seq::empty()
    })
}

/// The history after recording the edits of `es` in order.
pub open spec fn recorded_all(h: HistoryState, es: Seq<Edit>) -> HistoryState
    decreases es.len(),
{
    if es.len() == 0 {
        h
    } else {
        recorded(recorded_all(h, es.drop_last()), es.last())
    }
}

proof fn lemma_prefix(a: Seq<char>, b: Seq<char>, i: int)
    requires
        0 <= i <= a.len(),
        i <= b.len(),
        forall|j: int| 0 <= j < i ==> a[j] == b[j],
    ensures
        i <= prefix_from(a, b, i) <= a.len(),
        prefix_from(a, b, i) <= b.len(),
        forall|j: int| 0 <= j < prefix_from(a, b, i) ==> a[j] == b[j],
        prefix_from(a, b, i) < a.len() && prefix_from(a, b, i) < b.len() ==> a[prefix_from(
            a,
            b,
            i,
        )] != b[prefix_from(a, b, i)],
    decreases a.len() - i,
{
    if i < a.len() && i < b.len() && a[i] == b[i] {
        lemma_prefix(a, b, i + 1);
    }
}

proof fn lemma_suffix(a: Seq<char>, b: Seq<char>, p: int, k: int)
    requires
        0 <= p <= a.len(),
        p <= b.len(),
        0 <= k <= a.len() - p,
        k <= b.len() - p,
        forall|j: int| 0 <= j < k ==> #[trigger] same_end(a, b, j),
    ensures
        k <= suffix_from(a, b, p, k) <= a.len() - p,
        suffix_from(a, b, p, k) <= b.len() - p,
        forall|j: int| 0 <= j < suffix_from(a, b, p, k) ==> #[trigger] same_end(a, b, j),
    decreases a.len() - p - k,
{
    if k < a.len() - p && k < b.len() - p && same_end(a, b, k) {
        lemma_suffix(a, b, p, k + 1);
    }
}

/// The recorded change is exact: its edits apply cleanly to the old text,
/// one after the other, and turn it into the new text.
pub proof fn law_change_edits_rebuild(a: Seq<char>, b: Seq<char>)
    ensures
        clean_all(change_edits(a, b), a),
        apply_all(change_edits(a, b), a) == b,
{
    lemma_prefix(a, b, 0);
    let p = prefix_from(a, b, 0);
    lemma_suffix(a, b, p, 0);
    let s = suffix_from(a, b, p, 0);
    let oe = a.len() - s;
    let ne = b.len() - s;
    let del = Edit::Delete { start: p, end: oe, text: a.subrange(p, oe) };
    let ins = Edit::Insert { at: p, text: b.subrange(p, ne) };
    let mid = if p < oe {
        a.take(p) + a.skip(oe)
    } else {
        a
    };
    assert(a.take(p) =~= b.take(p));
    assert(a.skip(oe) =~= b.skip(ne)) by {
        assert forall|j: int| 0 <= j < s implies a.skip(oe)[j] == b.skip(ne)[j] by {
            let k = s - 1 - j;
            assert(same_end(a, b, k));
        }
    }
    if p >= oe {
        assert(a =~= a.take(p) + a.skip(oe));
    }
    assert(mid =~= b.take(p) + b.skip(ne));
    let es = change_edits(a, b);
    if p < oe {
        assert(apply(del, a) == mid);
    }
    if p < ne {
        assert(apply(ins, mid) =~= b) by {
            assert(mid.take(p) =~= b.take(p));
            assert(mid.skip(p) =~= b.skip(ne));
            assert(b =~= b.take(p) + b.subrange(p, ne) + b.skip(ne));
        }
    } else {
        assert(b =~= b.take(p) + b.skip(ne));
    }
    if p < oe && p < ne {
        assert(es =~= seq![del, ins]);
        assert(es.drop_last() =~= seq![del]);
        assert(seq![del].drop_last() =~= Seq::<Edit>::empty());
        assert(seq![del].last() == del);
        assert(apply_all(Seq::<Edit>::empty(), a) == a);
        assert(clean(del, a));
        assert(clean_all(Seq::<Edit>::empty(), a));
        assert(apply_all(seq![del], a) == apply(del, a));
        assert(clean_all(seq![del], a) == (clean_all(Seq::<Edit>::empty(), a) && clean(
            del,
            apply_all(Seq::<Edit>::empty(), a),
        )));
        assert(clean_all(seq![del], a));
        assert(clean(ins, mid));
        assert(clean_all(es, a) == (clean_all(seq![del], a) && clean(ins, apply_all(seq![del], a))));
        assert(apply_all(es, a) == apply(ins, apply_all(seq![del], a)));
    } else if p < oe {
        assert(es =~= seq![del]);
        assert(seq![del].drop_last() =~= Seq::<Edit>::empty());
        assert(apply_all(es, a) == apply(del, apply_all(Seq::<Edit>::empty(), a)));
        assert(clean(del, a));
        assert(seq![del].last() == del);
        assert(clean_all(es, a) == (clean_all(Seq::<Edit>::empty(), a) && clean(
            del,
            apply_all(Seq::<Edit>::empty(), a),
        )));
    } else if p < ne {
        assert(es =~= seq![ins]);
        assert(seq![ins].drop_last() =~= Seq::<Edit>::empty());
        assert(apply_all(es, a) == apply(ins, apply_all(Seq::<Edit>::empty(), a)));
        assert(clean(ins, a));
        assert(seq![ins].last() == ins);
        assert(clean_all(es, a) == (clean_all(Seq::<Edit>::empty(), a) && clean(
            ins,
            apply_all(Seq::<Edit>::empty(), a),
        )));
    } else {
        assert(es =~= Seq::<Edit>::empty());
    }
}

/// Undo takes a text change back: applying the inverses of the recorded
/// edits, newest first, to the new text gives the old text.
pub proof fn law_change_undone(a: Seq<char>, b: Seq<char>)
    ensures
        apply_all(inverses(change_edits(a, b)), b) == a,
{
    law_change_edits_rebuild(a, b);
    law_undo_restores_all(change_edits(a, b), a);
}

/// The keys held and pressed in one frame, as the editor reads shortcuts.
#[derive(Debug, Clone, Copy, PartialEq, Eq, Structural)]
pub struct KeyState {
    /// Ctrl is held.
    pub ctrl: bool,
    /// Shift is held.
    pub shift: bool,
    /// O was pressed.
    pub o: bool,
    /// S was pressed.
    pub s: bool,
    /// Z was pressed.
    pub z: bool,
    /// Y was pressed.
    pub y: bool,
}

/// What the user asked the editor to do.
#[derive(Debug, Clone, Copy, PartialEq, Eq, Structural)]
pub enum EditorCommand {
    /// Choose a file and open it.
    Open,
    /// Save: to the buffer's file, or to a chosen one when it has none.
    Save,
    /// Choose a file and save to it.
    SaveAs,
    /// Undo.
    Undo,
    /// Redo.
    Redo,
}

/// `c` alone when `b` holds, else nothing.
pub open spec fn when(b: bool, c: EditorCommand) -> Seq<EditorCommand> {
    if b {
        seq![c]
    } else {
        Seq::empty()
    }
}

/// The commands that the keys ask for, in the order they are carried out:
/// Ctrl+O opens, Ctrl+S saves, Ctrl+Shift+S saves as, Ctrl+Z undoes, and
/// Ctrl+Y and Ctrl+Shift+Z redo.
pub open spec fn shortcut_list(k: KeyState) -> Seq<EditorCommand> {
    when(k.ctrl && k.o, EditorCommand::Open) + when(k.ctrl && !k.shift && k.s, EditorCommand::Save)
        + when(k.ctrl && k.shift && k.s, EditorCommand::SaveAs) + when(
        k.ctrl && !k.shift && k.z,
        EditorCommand::Undo,
    ) + when(k.ctrl && k.y, EditorCommand::Redo) + when(
        k.ctrl && k.shift && k.z,
        EditorCommand::Redo,
    )
}

/// The commands that the keys of one frame ask for.
pub fn shortcut_commands(k: KeyState) -> (r: Vec<EditorCommand>)
    ensures
        r@ == shortcut_list(k),
{
    let mut r: Vec<EditorCommand> = Vec::new();
    if k.ctrl && k.o {
        r.push(EditorCommand::Open);
    }
    assert(r@ =~= when(k.ctrl && k.o, EditorCommand::Open));
    let ghost r1 = r@;
    if k.ctrl && !k.shift && k.s {
        r.push(EditorCommand::Save);
    }
    assert(r@ =~= r1 + when(k.ctrl && !k.shift && k.s, EditorCommand::Save));
    let ghost r2 = r@;
    if k.ctrl && k.shift && k.s {
        r.push(EditorCommand::SaveAs);
    }
    assert(r@ =~= r2 + when(k.ctrl && k.shift && k.s, EditorCommand::SaveAs));
    let ghost r3 = r@;
    if k.ctrl && !k.shift && k.z {
        r.push(EditorCommand::Undo);
    }
    assert(r@ =~= r3 + when(k.ctrl && !k.shift && k.z, EditorCommand::Undo));
    let ghost r4 = r@;
    if k.ctrl && k.y {
        r.push(EditorCommand::Redo);
    }
    assert(r@ =~= r4 + when(k.ctrl && k.y, EditorCommand::Redo));
    let ghost r5 = r@;
    if k.ctrl && k.shift && k.z {
        r.push(EditorCommand::Redo);
    }
    assert(r@ =~= r5 + when(k.ctrl && k.shift && k.z, EditorCommand::Redo));
    r
}

/// The text of the status bar's right side: theme, line and char counts,
/// language, and a mark for unsaved changes.
pub open spec fn status_line_text(
    theme: Seq<char>,
    lines: nat,
    chars: nat,
    lang: Option<Language>,
    modified: bool,
) -> Seq<char> {
    theme + " | "@ + decimal(lines) + " 行, "@ + decimal(chars) + " 文字 | 言語: "@ + match lang {
        Some(l) => language_name(l),
        None => "なし"@,
    } + if modified {
        " [変更あり]"@
    } else {
        Seq::empty()
    }
}

/// The language of files at `path`, by extension.
pub open spec fn language_for_path(path: Seq<char>) -> Option<Language> {
    match extension_of(path) {
        Some(e) => if lowercase(e) == "rs"@ {
            Some(Language::Rust)
        } else {
            None
        },
        None => None,
    }
}

/// The editor's document state.
pub struct AideApp {
    buffer: TextBuffer,
    history: History,
    highlighter: SyntaxHighlighter,
    theme: Theme,
    status_message: String,
    previous_text: String,
}

impl AideApp {
    /// The text.
    pub closed spec fn text(&self) -> Seq<char> {
        self.buffer@
    }

    /// The undo history.
    pub closed spec fn edits(&self) -> HistoryState {
        self.history@
    }

    /// The text as it was when changes were last recorded.
    pub closed spec fn recorded_text(&self) -> Seq<char> {
        self.previous_text@
    }

    /// Whether the buffer has unsaved changes.
    pub closed spec fn dirty(&self) -> bool {
        self.buffer.dirty()
    }

    /// The buffer's file.
    pub closed spec fn path(&self) -> Option<Seq<char>> {
        self.buffer.path()
    }

    /// The status message.
    pub closed spec fn status(&self) -> Seq<char> {
        self.status_message@
    }

    /// The representation invariant.
    pub closed spec fn wf(&self) -> bool {
        self.history.wf() && self.highlighter.wf()
    }

    /// A well-formed state has a valid history.
    pub proof fn lemma_valid(&self)
        requires
            self.wf(),
        ensures
            valid(self.edits()),
    {
        self.history.lemma_valid();
    }

    /// An empty document with Rust highlighting, the dark theme and a
    /// history of 1000 steps.
    pub fn new() -> (a: AideApp)
        ensures
            a.wf(),
            a.text() == Seq::<char>::empty(),
            a.recorded_text() == Seq::<char>::empty(),
            a.edits().undo.len() == 0 && a.edits().redo.len() == 0 && a.edits().pending is None,
            a.status() == "AIDE - 準備完了"@,
    {
        let mut highlighter = SyntaxHighlighter::new();
        let _ = highlighter.set_language(Language::Rust);
        AideApp {
            buffer: TextBuffer::new(),
            history: History::with_default_size(),
            highlighter,
            theme: Theme::dark(),
            status_message: "AIDE - 準備完了".to_owned(),
            previous_text: String::new(),
        }
    }

    /// The buffer.
    pub fn buffer(&self) -> (b: &TextBuffer)
        ensures
            b@ == self.text(),
    {
        &self.buffer
    }

    /// The undo history.
    pub fn history(&self) -> (h: &History)
        ensures
            h@ == self.edits(),
            self.wf() ==> h.wf(),
    {
        &self.history
    }

    /// The highlighter.
    pub fn highlighter(&self) -> (h: &SyntaxHighlighter)
        ensures
            h.current() == self.language(),
            self.wf() ==> h.wf(),
    {
        &self.highlighter
    }

    /// The theme.
    pub closed spec fn current_theme(&self) -> Theme {
        self.theme
    }

    /// The theme.
    pub fn theme(&self) -> (t: &Theme)
        ensures
            *t == self.current_theme(),
            t.name@ == self.theme_name(),
    {
        &self.theme
    }

    /// Switches the theme.
    pub fn set_theme(&mut self, theme: Theme)
        requires
            old(self).wf(),
        ensures
            final(self).wf(),
            final(self).current_theme() == theme,
            final(self).status() == old(self).status(),
            final(self).language() == old(self).language(),
            final(self).text() == old(self).text(),
            final(self).edits() == old(self).edits(),
    {
        self.theme = theme;
    }

    /// The theme's name.
    pub closed spec fn theme_name(&self) -> Seq<char> {
        self.theme.name@
    }

    /// The language being highlighted.
    pub closed spec fn language(&self) -> Option<Language> {
        self.highlighter.current()
    }

    /// Whether the highlighter can switch to `l`.
    pub closed spec fn can_highlight(&self, l: Language) -> bool {
        self.highlighter.accepts(l)
    }

    /// Whether saving goes straight to the buffer's file (else a file is
    /// to be chosen).
    pub fn saves_to_file(&self) -> (b: bool)
        ensures
            b == self.path() is Some,
    {
        self.buffer.file_path().is_some()
    }

    /// Shows what the editor is in the status message.
    pub fn show_about(&mut self)
        requires
            old(self).wf(),
        ensures
            final(self).wf(),
            final(self).status() == "AIDE - AI Development Editor v0.1.0 - Rust製軽量エディター"@,
            final(self).text() == old(self).text(),
            final(self).edits() == old(self).edits(),
    {
        self.status_message = "AIDE - AI Development Editor v0.1.0 - Rust製軽量エディター".to_owned();
    }

    /// The text of the status bar's right side.
    pub fn status_line(&self) -> (s: String)
        ensures
            s@ == status_line_text(
                self.theme_name(),
                crate::buffer::text_buffer::line_count(self.text()),
                self.text().len(),
                self.language(),
                self.dirty(),
            ),
    {
        let mut s = self.theme.name.clone();
        s.append(" | ");
        push_decimal(&mut s, self.buffer.len_lines());
        s.append(" 行, ");
        push_decimal(&mut s, self.buffer.len_chars());
        s.append(" 文字 | 言語: ");
        match self.highlighter.current_language() {
            Some(l) => s.append(l.name()),
            None => s.append("なし"),
        }
        if self.buffer.is_modified() {
            s.append(" [変更あり]");
        }
        proof {
            let lang_text = match self.language() {
                Some(l) => language_name(l),
                None => "なし"@,
            };
            let mark = if self.dirty() {
                " [変更あり]"@
            } else {
                Seq::<char>::empty()
            };
            assert(s@ =~= status_line_text(
                self.theme_name(),
                crate::buffer::text_buffer::line_count(self.text()),
                self.text().len(),
                self.language(),
                self.dirty(),
            ));
        }
        s
    }

    /// The status message.
    pub fn status_message(&self) -> (s: &str)
        ensures
            s@ == self.status(),
    {
        self.status_message.as_str()
    }

    /// Sets the status message.
    pub fn set_status_message(&mut self, message: &str)
        requires
            old(self).wf(),
        ensures
            final(self).wf(),
            final(self).status() == message@,
            final(self).text() == old(self).text(),
            final(self).edits() == old(self).edits(),
    {
        self.status_message = message.to_owned();
    }

    /// Switches the highlighter to the language of files with extension
    /// of `path`, if there is one.
    fn set_language_for(&mut self, path: &str)
        requires
            old(self).wf(),
        ensures
            final(self).wf(),
            final(self).buffer == old(self).buffer,
            final(self).history == old(self).history,
            final(self).previous_text == old(self).previous_text,
            final(self).status_message == old(self).status_message,
            final(self).theme == old(self).theme,
            language_for_path(path@) is None ==> final(self).language() == old(self).language(),
            language_for_path(path@) matches Some(l) ==> final(self).language() == (if old(self).can_highlight(l) {
                Some(l)
            } else {
                old(self).language()
            }),
    {
        match path_extension(path) {
            Some(ext) => match Language::from_extension(ext.as_str()) {
                Some(lang) => {
                    let _ = self.highlighter.set_language(lang);
                },
                None => {},
            },
            None => {},
        }
    }

    /// Applies `command` to the buffer.
    fn apply_command(&mut self, command: &EditCommand)
        requires
            old(self).wf(),
        ensures
            final(self).wf(),
            final(self).text() == apply(command@, old(self).text()),
            final(self).history == old(self).history,
            final(self).previous_text == old(self).previous_text,
            final(self).status_message == old(self).status_message,
            final(self).highlighter == old(self).highlighter,
        decreases command,
    {
        match command {
            EditCommand::Insert { position, text } => {
                self.buffer.insert(*position, text.as_str());
            },
            EditCommand::Delete { range, .. } => {
                self.buffer.remove(range.start..range.end);
            },
            EditCommand::Group { commands } => {
                let ghost edits = command@->edits;
                let ghost start = self.buffer@;
                let n = commands.len();
                assert(edits.take(0) =~= Seq::<Edit>::empty());
                let mut k: usize = 0;
                #[verifier::loop_isolation(false)]
                while k < n
                    invariant
                        n == commands@.len(),
                        k <= n,
                        self.wf(),
                        self.buffer@ == apply_all(edits.take(k as int), start),
                        self.history == old(self).history,
                        self.previous_text == old(self).previous_text,
                        self.status_message == old(self).status_message,
                        self.highlighter == old(self).highlighter,
                    decreases n - k,
                {
                    assert(edits[k as int] == commands@[k as int]@);
                    self.apply_command(&commands[k]);
                    assert(edits.take(k + 1).drop_last() =~= edits.take(k as int));
                    assert(edits.take(k + 1).last() == edits[k as int]);
                    k = k + 1;
                }
                assert(edits.take(n as int) =~= edits);
            },
        }
    }

    /// Undoes the newest change: the inverse command from the history is
    /// applied to the buffer.
    pub fn undo(&mut self)
        requires
            old(self).wf(),
        ensures
            final(self).wf(),
            final(self).edits() == undone(old(self).edits()).0,
            undone(old(self).edits()).1 matches Some(inv) ==> {
                &&& final(self).text() == apply(inv, old(self).text())
                &&& final(self).recorded_text() == final(self).text()
                &&& final(self).status() == "元に戻しました"@
            },
            undone(old(self).edits()).1 is None ==> {
                &&& final(self).text() == old(self).text()
                &&& final(self).recorded_text() == old(self).recorded_text()
                &&& final(self).status() == "元に戻す操作がありません"@
            },
    {
        match self.history.undo() {
            Some(inverse) => {
                self.apply_command(&inverse);
                self.previous_text = self.buffer.to_string();
                self.status_message = "元に戻しました".to_owned();
            },
            None => {
                self.status_message = "元に戻す操作がありません".to_owned();
            },
        }
    }

    /// Redoes the newest undone change: the command from the history is
    /// applied to the buffer again.
    pub fn redo(&mut self)
        requires
            old(self).wf(),
        ensures
            final(self).wf(),
            final(self).edits() == redone(old(self).edits()).0,
            redone(old(self).edits()).1 matches Some(c) ==> {
                &&& final(self).text() == apply(c, old(self).text())
                &&& final(self).recorded_text() == final(self).text()
                &&& final(self).status() == "やり直しました"@
            },
            redone(old(self).edits()).1 is None ==> {
                &&& final(self).text() == old(self).text()
                &&& final(self).recorded_text() == old(self).recorded_text()
                &&& final(self).status() == "やり直す操作がありません"@
            },
    {
        match self.history.redo() {
            Some(command) => {
                self.apply_command(&command);
                self.previous_text = self.buffer.to_string();
                self.status_message = "やり直しました".to_owned();
            },
            None => {
                self.status_message = "やり直す操作がありません".to_owned();
            },
        }
    }

    /// Records the change from the last recorded text to `new_text` in the
    /// history, as the edits of [`change_edits`].
    pub fn detect_and_record_changes(&mut self, new_text: &str)
        requires
            old(self).wf(),
        ensures
            final(self).wf(),
            final(self).edits() == recorded_all(
                old(self).edits(),
                change_edits(old(self).recorded_text(), new_text@),
            ),
            final(self).recorded_text() == new_text@,
            final(self).text() == old(self).text(),
            final(self).status() == old(self).status(),
    {
        let old_chars = chars_of(self.previous_text.as_str());
        let new_chars = chars_of(new_text);
        let ghost a = old_chars@;
        let ghost b = new_chars@;
        let ol = old_chars.len();
        let nl = new_chars.len();
        let mut p: usize = 0;
        while p < ol && p < nl && old_chars[p] == new_chars[p]
            invariant
                a == old_chars@,
                b == new_chars@,
                ol == a.len(),
                nl == b.len(),
                p <= ol,
                p <= nl,
                prefix_from(a, b, 0) == prefix_from(a, b, p as int),
            decreases ol - p,
        {
            p = p + 1;
        }
        proof {
            lemma_prefix(a, b, 0);
        }
        if p == ol && p == nl {
            proof {
                assert(a =~= b);
                assert(change_edits(a, b) =~= Seq::<Edit>::empty());
            }
            return;
        }
        let mut s: usize = 0;
        while s < ol - p && s < nl - p && old_chars[ol - 1 - s] == new_chars[nl - 1 - s]
            invariant
                a == old_chars@,
                b == new_chars@,
                ol == a.len(),
                nl == b.len(),
                p <= ol,
                p <= nl,
                p == prefix_from(a, b, 0),
                s <= ol - p,
                s <= nl - p,
                suffix_from(a, b, p as int, 0) == suffix_from(a, b, p as int, s as int),
            decreases ol - p - s,
        {
            assert(same_end(a, b, s as int));
            s = s + 1;
        }
        let oe = ol - s;
        let ne = nl - s;
        let ghost h0 = self.history@;
        let ghost del = Edit::Delete { start: p as int, end: oe as int, text: a.subrange(p as int, oe as int) };
        let ghost ins = Edit::Insert { at: p as int, text: b.subrange(p as int, ne as int) };
        if p < oe {
            let deleted_text = string_of_range(&old_chars, p, oe);
            let c = EditCommand::Delete { range: p..oe, deleted_text };
            assert(c@ == del);
            self.history.record(c);
        }
        let ghost h1 = self.history@;
        if p < ne {
            let text = string_of_range(&new_chars, p, ne);
            let c = EditCommand::Insert { position: p, text };
            assert(c@ == ins);
            self.history.record(c);
        }
        proof {
            let es = change_edits(a, b);
            assert(seq![del].drop_last() =~= Seq::<Edit>::empty());
            assert(seq![ins].drop_last() =~= Seq::<Edit>::empty());
            assert(seq![del].last() == del);
            assert(seq![ins].last() == ins);
            assert(recorded_all(h0, Seq::<Edit>::empty()) == h0);
            assert(recorded_all(h0, seq![del]) == recorded(
                recorded_all(h0, Seq::<Edit>::empty()),
                del,
            ));
            assert(recorded_all(h0, seq![ins]) == recorded(
                recorded_all(h0, Seq::<Edit>::empty()),
                ins,
            ));
            if p < oe && p < ne {
                assert(es =~= seq![del, ins]);
                assert(es.drop_last() =~= seq![del]);
                assert(es.last() == ins);
                assert(recorded_all(h0, es) == recorded(recorded_all(h0, es.drop_last()), es.last()));
            } else if p < oe {
                assert(es =~= seq![del]);
            } else if p < ne {
                assert(es =~= seq![ins]);
            } else {
                assert(es =~= Seq::<Edit>::empty());
            }
        }
        self.previous_text = new_text.to_owned();
    }

    /// Takes in an edit of the whole text in the editor widget: the change
    /// is recorded in the history and the buffer is replaced by a fresh
    /// one holding `new_text` (which has no file and no unsaved mark).
    pub fn text_changed(&mut self, new_text: &str)
        requires
            old(self).wf(),
        ensures
            final(self).wf(),
            final(self).edits() == recorded_all(
                old(self).edits(),
                change_edits(old(self).recorded_text(), new_text@),
            ),
            final(self).recorded_text() == new_text@,
            final(self).text() == new_text@,
            final(self).path() is None,
            !final(self).dirty(),
            final(self).status() == old(self).status(),
    {
        self.detect_and_record_changes(new_text);
        self.buffer = TextBuffer::from_str(new_text);
    }

    /// Takes in a file that was read: `loaded` is its text, or the error
    /// message of the failed read. On success the buffer holds the text,
    /// the history is cleared, the highlighter follows the extension and
    /// the status names the file; on failure only the status changes.
    pub fn open_file(&mut self, path: &str, loaded: Result<String, String>)
        requires
            old(self).wf(),
        ensures
            final(self).wf(),
            loaded matches Ok(t) ==> {
                &&& final(self).text() == t@
                &&& final(self).recorded_text() == t@
                &&& final(self).edits().undo.len() == 0
                &&& final(self).edits().redo.len() == 0
                &&& final(self).edits().pending is None
                &&& final(self).edits().max_size == old(self).edits().max_size
                &&& final(self).path() == Some(path@)
                &&& !final(self).dirty()
                &&& final(self).status() == "開きました: "@ + match file_name_of(path@) {
                    Some(n) => n,
                    None => "不明"@,
                }
                &&& language_for_path(path@) is None ==> final(self).language() == old(
                    self,
                ).language()
                &&& language_for_path(path@) matches Some(l) ==> final(self).language() == (
                if old(self).can_highlight(l) {
                    Some(l)
                } else {
                    old(self).language()
                })
            },
            loaded matches Err(e) ==> {
                &&& final(self).text() == old(self).text()
                &&& final(self).edits() == old(self).edits()
                &&& final(self).path() == old(self).path()
                &&& final(self).dirty() == old(self).dirty()
                &&& final(self).language() == old(self).language()
                &&& final(self).status() == "エラー: "@ + e@
            },
            final(self).current_theme() == old(self).current_theme(),
    {
        match loaded {
            Ok(text) => {
                self.buffer = TextBuffer::from_file_text(path, text.as_str());
                self.history.clear();
                self.previous_text = self.buffer.to_string();
                self.set_language_for(path);
                let mut msg = "開きました: ".to_owned();
                match path_file_name(path) {
                    Some(n) => msg.append(n.as_str()),
                    None => msg.append("不明"),
                }
                self.status_message = msg;
            },
            Err(e) => {
                let mut msg = "エラー: ".to_owned();
                msg.append(e.as_str());
                self.status_message = msg;
            },
        }
    }

    /// Takes in the outcome of writing the buffer to its file: `Ok` marks
    /// the buffer saved, an error message goes to the status.
    pub fn file_saved(&mut self, result: Result<(), String>)
        requires
            old(self).wf(),
        ensures
            final(self).wf(),
            final(self).text() == old(self).text(),
            final(self).edits() == old(self).edits(),
            result is Ok ==> final(self).status() == "保存しました"@ && !final(self).dirty(),
            result matches Err(e) ==> final(self).status() == "保存エラー: "@ + e@
                && final(self).dirty() == old(self).dirty(),
    {
        match result {
            Ok(()) => {
                self.buffer.mark_saved();
                self.status_message = "保存しました".to_owned();
            },
            Err(e) => {
                let mut msg = "保存エラー: ".to_owned();
                msg.append(e.as_str());
                self.status_message = msg;
            },
        }
    }

    /// Takes in the outcome of writing the buffer to the file at `path`:
    /// `Ok` ties the buffer to that file, marks it saved and makes the
    /// highlighter follow the extension; an error message goes to the
    /// status.
    pub fn file_saved_as(&mut self, path: &str, result: Result<(), String>)
        requires
            old(self).wf(),
        ensures
            final(self).wf(),
            final(self).text() == old(self).text(),
            final(self).edits() == old(self).edits(),
            result is Ok ==> {
                &&& final(self).path() == Some(path@)
                &&& !final(self).dirty()
                &&& final(self).status() == "保存しました: "@ + match file_name_of(path@) {
                    Some(n) => n,
                    None => "不明"@,
                }
                &&& language_for_path(path@) is None ==> final(self).language() == old(
                    self,
                ).language()
                &&& language_for_path(path@) matches Some(l) ==> final(self).language() == (
                if old(self).can_highlight(l) {
                    Some(l)
                } else {
                    old(self).language()
                })
            },
            result matches Err(e) ==> {
                &&& final(self).status() == "保存エラー: "@ + e@
                &&& final(self).path() == old(self).path()
                &&& final(self).dirty() == old(self).dirty()
                &&& final(self).language() == old(self).language()
            },
            final(self).current_theme() == old(self).current_theme(),
    {
        match result {
            Ok(()) => {
                self.buffer.set_file_path(path);
                self.buffer.mark_saved();
                self.set_language_for(path);
                let mut msg = "保存しました: ".to_owned();
                match path_file_name(path) {
                    Some(n) => msg.append(n.as_str()),
                    None => msg.append("不明"),
                }
                self.status_message = msg;
            },
            Err(e) => {
                let mut msg = "保存エラー: ".to_owned();
                msg.append(e.as_str());
                self.status_message = msg;
            },
        }
    }
}

} // verus!
