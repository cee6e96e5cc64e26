//! Undo/redo history.
//!
//! Edits are recorded as commands. Consecutive typing and consecutive
//! deletion are merged into one group, so that one undo takes back a word
//! or a run of backspaces.
use std::ops::Range;
use vstd::prelude::*;

use crate::text::{char_count, contains_char, is_space, is_whitespace};

verus! {

/// The mathematical meaning of an [`EditCommand`]: positions are char
/// indices, texts are char sequences.
pub enum Edit {
    Insert { at: int, text: Seq<char> },
    Delete { start: int, end: int, text: Seq<char> },
    Group { edits: Seq<Edit> },
}

/// The command that takes back `e`: an insertion becomes the deletion of
/// the inserted chars, a deletion becomes the insertion of the deleted
/// text at the start of the range, and a group becomes the group of the
/// inverses in reverse order.
pub open spec fn inverse_of(e: Edit) -> Edit
    decreases e,
{
    match e {
        Edit::Insert { at, text } => Edit::Delete { start: at, end: at + text.len(), text },
        Edit::Delete { start, end, text } => Edit::Insert { at: start, text },
        Edit::Group { edits } => Edit::Group {
            edits: Seq::new(
                edits.len(),
                |i: int|
                    if 0 <= i < edits.len() {
                        inverse_of(edits[edits.len() - 1 - i])
                    } else {
                        Edit::Group { edits: Seq::empty() }
                    },
            ),
        },
    }
}

/// Every deletion inside `e` carries exactly the text of its range: as
/// many chars as the range is long.
pub open spec fn deletes_own_text(e: Edit) -> bool
    decreases e,
{
    match e {
        Edit::Insert { .. } => true,
        Edit::Delete { start, end, text } => end - start == text.len(),
        Edit::Group { edits } => forall|i: int|
            0 <= i < edits.len() ==> deletes_own_text(#[trigger] edits[i]),
    }
}

/// Taking back the command that takes back `e` gives `e` again, when every
/// deletion in `e` carries its own text.
pub proof fn law_inverse_twice(e: Edit)
    requires
        deletes_own_text(e),
    ensures
        inverse_of(inverse_of(e)) == e,
    decreases e,
{
    match e {
        Edit::Insert { .. } => {},
        Edit::Delete { .. } => {},
        Edit::Group { edits } => {
            let n = edits.len();
            let inv = inverse_of(e)->edits;
            let back = inverse_of(inverse_of(e))->edits;
            assert forall|i: int| 0 <= i < n implies #[trigger] back[i] == edits[i] by {
                assert(inv[n - 1 - i] == inverse_of(edits[i]));
                law_inverse_twice(edits[i]);
            }
            assert(back =~= edits);
        },
    }
}

/// Every insertion inside `e` ends at a char index that fits in `usize`.
pub open spec fn fits(e: Edit) -> bool
    decreases e,
{
    match e {
        Edit::Insert { at, text } => 0 <= at && at + text.len() <= usize::MAX,
        Edit::Delete { start, end, text } => 0 <= start && 0 <= end,
        Edit::Group { edits } => forall|i: int| 0 <= i < edits.len() ==> fits(#[trigger] edits[i]),
    }
}

/// An editing operation.
#[derive(Debug, PartialEq)]
pub enum EditCommand {
    /// Insertion of `text` at char index `position`.
    Insert {
        /// Char index of the insertion.
        position: usize,
        /// The inserted text.
        text: String,
    },
    /// Deletion of the chars in `range`.
    Delete {
        /// Char range that was deleted.
        range: Range<usize>,
        /// The deleted text.
        deleted_text: String,
    },
    /// Several operations applied in order.
    Group {
        /// The grouped operations.
        commands: Vec<EditCommand>,
    },
}

impl EditCommand {
    /// The [`Edit`] this command stands for.
    pub open spec fn view(self) -> Edit
        decreases self,
    {
        match self {
            EditCommand::Insert { position, text } => Edit::Insert {
                at: position as int,
                text: text@,
            },
            EditCommand::Delete { range, deleted_text } => Edit::Delete {
                start: range.start as int,
                end: range.end as int,
                text: deleted_text@,
            },
            EditCommand::Group { commands } => Edit::Group {
                edits: Seq::new(
                    commands@.len(),
                    |i: int|
                        if 0 <= i < commands@.len() {
                            commands@[i].view()
                        } else {
                            Edit::Group { edits: Seq::empty() }
                        },
                ),
            },
        }
    }

    /// Creates an insertion command.
    pub fn insert(position: usize, text: &str) -> (c: EditCommand)
        ensures
            c@ == (Edit::Insert { at: position as int, text: text@ }),
    {
        EditCommand::Insert { position, text: text.to_owned() }
    }

    /// Creates a deletion command.
    pub fn delete(range: Range<usize>, deleted_text: &str) -> (c: EditCommand)
        ensures
            c@ == (Edit::Delete {
                start: range.start as int,
                end: range.end as int,
                text: deleted_text@,
            }),
    {
        EditCommand::Delete { range, deleted_text: deleted_text.to_owned() }
    }

    /// Creates a group of commands.
    pub fn group(commands: Vec<EditCommand>) -> (c: EditCommand)
        ensures
            c == (EditCommand::Group { commands }),
    {
        EditCommand::Group { commands }
    }

    /// The command that takes this one back.
    pub fn inverse(&self) -> (r: EditCommand)
        requires
            fits(self@),
        ensures
            r@ == inverse_of(self@),
        decreases self,
    {
        match self {
            EditCommand::Insert { position, text } => {
                let n = char_count(text.as_str());
                EditCommand::Delete { range: *position..(*position + n), deleted_text: text.clone() }
            },
            EditCommand::Delete { range, deleted_text } => {
                EditCommand::Insert { position: range.start, text: deleted_text.clone() }
            },
            EditCommand::Group { commands } => {
                let n = commands.len();
                proof {
                    assert(self@ is Group);
                    let edits = self@->edits;
                    assert(edits.len() == n);
                    assert(fits(self@));
                    assert(forall|i: int| 0 <= i < n ==> #[trigger] fits(edits[i]));
                    assert forall|j: int| 0 <= j < n implies #[trigger] fits(commands@[j]@) by {
                        assert(edits[j] == commands@[j]@);
                    }
                }
                let mut out: Vec<EditCommand> = Vec::new();
                let mut k: usize = 0;
                #[verifier::loop_isolation(false)]
                while k < n
                    invariant
                        n == commands@.len(),
                        k <= n,
                        out@.len() == k,
                        forall|j: int|
                            0 <= j < k ==> #[trigger] out@[j]@ == inverse_of(
                                commands@[n - 1 - j]@,
                            ),
                    decreases n - k,
                {
                    let c = commands[n - 1 - k].inverse();
                    out.push(c);
                    k = k + 1;
                }
                let r = EditCommand::Group { commands: out };
                proof {
                    let edits = self@->edits;
                    assert forall|j: int| 0 <= j < n implies #[trigger] edits[j] == commands@[j]@ by {}
                    let inv = inverse_of(self@)->edits;
                    assert(inv.len() == n);
                    assert(r@->edits.len() == n);
                    assert(forall|j: int| 0 <= j < n ==> #[trigger] r@->edits[j] == out@[j]@);
                    assert(forall|j: int| 0 <= j < n ==> #[trigger] inv[j] == inverse_of(edits[n - 1 - j]));
                    assert(r@->edits =~= inv);
                }
                r
            },
        }
    }

    /// A copy of this command.
    pub fn duplicate(&self) -> (r: EditCommand)
        ensures
            r@ == self@,
        decreases self,
    {
        match self {
            EditCommand::Insert { position, text } => EditCommand::Insert {
                position: *position,
                text: text.clone(),
            },
            EditCommand::Delete { range, deleted_text } => EditCommand::Delete {
                range: range.start..range.end,
                deleted_text: deleted_text.clone(),
            },
            EditCommand::Group { commands } => {
                let n = commands.len();
                let mut out: Vec<EditCommand> = Vec::new();
                let mut k: usize = 0;
                #[verifier::loop_isolation(false)]
                while k < n
                    invariant
                        n == commands@.len(),
                        k <= n,
                        out@.len() == k,
                        forall|j: int| 0 <= j < k ==> #[trigger] out@[j]@ == commands@[j]@,
                    decreases n - k,
                {
                    let c = commands[k].duplicate();
                    out.push(c);
                    k = k + 1;
                }
                let r = EditCommand::Group { commands: out };
                proof {
                    assert(r@ is Group);
                    assert(r@->edits.len() == n);
                    assert(self@->edits.len() == n);
                    assert(forall|j: int| 0 <= j < n ==> #[trigger] r@->edits[j] == out@[j]@);
                    assert(forall|j: int| 0 <= j < n ==> #[trigger] self@->edits[j] == commands@[j]@);
                    assert(r@->edits =~= self@->edits);
                }
                r
            },
        }
    }
}


/// The meanings of a sequence of commands.
pub open spec fn views(s: Seq<EditCommand>) -> Seq<Edit> {
    s.map_values(|c: EditCommand| c@)
}

/// Every edit in `s` fits.
pub open spec fn all_fit(s: Seq<Edit>) -> bool {
    forall|i: int| 0 <= i < s.len() ==> fits(#[trigger] s[i])
}

/// The group of consecutive edits that is still open for merging.
pub struct Pending {
    /// The merged edits, oldest first.
    pub edits: Seq<Edit>,
    /// Whether the group is made of insertions (else of deletions).
    pub inserting: bool,
    /// The char index at which the next edit must start to join the group.
    pub next: int,
}

/// The abstract state of a [`History`].
pub struct HistoryState {
    /// Undoable commands, oldest first.
    pub undo: Seq<Edit>,
    /// Redoable commands, most recently undone last.
    pub redo: Seq<Edit>,
    /// The most undoable commands that are kept.
    pub max_size: nat,
    /// The open group, if any.
    pub pending: Option<Pending>,
}

/// `s` cut to its last `max` elements.
pub open spec fn trimmed(s: Seq<Edit>, max: nat) -> Seq<Edit> {
    if s.len() > max {
        s.subrange(s.len() - max, s.len() as int)
    } else {
        s
    }
}

/// `h` with `e` pushed on the undo stack, the oldest commands dropped
/// beyond the size limit.
pub open spec fn pushed_undo(h: HistoryState, e: Edit) -> HistoryState {
    HistoryState { undo: trimmed(h.undo.push(e), h.max_size), ..h }
}

/// `h` with its open group closed: a group of one edit is pushed as that
/// edit, a longer one as a [`Edit::Group`].
pub open spec fn flushed(h: HistoryState) -> HistoryState {
    match h.pending {
        None => h,
        Some(p) => {
            let h0 = HistoryState { pending: None, ..h };
            if p.edits.len() == 1 {
                pushed_undo(h0, p.edits[0])
            } else if p.edits.len() > 0 {
                pushed_undo(h0, Edit::Group { edits: p.edits })
            } else {
                h0
            }
        },
    }
}

/// The last edit of the group is an insertion that ends in white space.
pub open spec fn ends_in_space(p: Pending) -> bool {
    &&& p.edits.len() > 0
    &&& p.edits.last() matches Edit::Insert { text, .. }
    &&& text.len() > 0
    &&& is_space(text.last())
}

/// Whether `e` joins the open group `p`: an insertion continues an
/// insertion group at its end, holds no newline, and does not start a
/// word after white space; a deletion continues a deletion group when its
/// range ends (backspace) or starts (delete) at the group's position.
pub open spec fn joins(p: Pending, e: Edit) -> bool {
    match e {
        Edit::Insert { at, text } => {
            &&& p.inserting
            &&& !text.contains('\n')
            &&& !(ends_in_space(p) && !(text.len() > 0 && is_space(text[0])))
            &&& at == p.next
        },
        Edit::Delete { start, end, text } => !p.inserting && (end == p.next || start == p.next),
        Edit::Group { .. } => false,
    }
}

/// Where the edit after `e` must start to join its group.
pub open spec fn next_position(e: Edit) -> int {
    match e {
        Edit::Insert { at, text } => at + text.len(),
        Edit::Delete { start, .. } => start,
        Edit::Group { .. } => 0,
    }
}

/// The state after recording `e`: the redo stack is emptied; `e` joins the
/// open group if it can, else the group is closed and `e` opens a new one
/// (a group command is pushed on the undo stack at once).
pub open spec fn recorded(h: HistoryState, e: Edit) -> HistoryState {
    let h0 = HistoryState { redo: Seq::empty(), ..h };
    if h0.pending is Some && joins(h0.pending->0, e) {
        let p = h0.pending->0;
        HistoryState {
            pending: Some(Pending { edits: p.edits.push(e), next: next_position(e), ..p }),
            ..h0
        }
    } else {
        let h1 = flushed(h0);
        match e {
            Edit::Group { .. } => pushed_undo(h1, e),
            Edit::Insert { .. } => HistoryState {
                pending: Some(Pending { edits: seq![e], inserting: true, next: next_position(e) }),
                ..h1
            },
            Edit::Delete { .. } => HistoryState {
                pending: Some(Pending { edits: seq![e], inserting: false, next: next_position(e) }),
                ..h1
            },
        }
    }
}

/// The state after an undo, and the command it hands back: the open group
/// is closed, the newest undoable command moves to the redo stack, and
/// its inverse is returned.
pub open spec fn undone(h: HistoryState) -> (HistoryState, Option<Edit>) {
    let h1 = flushed(h);
    if h1.undo.len() == 0 {
        (h1, None)
    } else {
        (
            HistoryState { undo: h1.undo.drop_last(), redo: h1.redo.push(h1.undo.last()), ..h1 },
            Some(inverse_of(h1.undo.last())),
        )
    }
}

/// The state after a redo, and the command it hands back: the open group
/// is closed, the newest redoable command moves back to the undo stack and
/// is returned as it was recorded.
pub open spec fn redone(h: HistoryState) -> (HistoryState, Option<Edit>) {
    let h1 = flushed(h);
    if h1.redo.len() == 0 {
        (h1, None)
    } else {
        (
            HistoryState { undo: h1.undo.push(h1.redo.last()), redo: h1.redo.drop_last(), ..h1 },
            Some(h1.redo.last()),
        )
    }
}

/// The number of undo steps that are available.
pub open spec fn undo_steps(h: HistoryState) -> nat {
    h.undo.len() + if h.pending is Some {
        1nat
    } else {
        0nat
    }
}

/// The invariant of every reachable history: the two stacks together stay
/// within the size limit, an open group means nothing is redoable, and
/// every stored edit fits.
pub open spec fn valid(h: HistoryState) -> bool {
    &&& h.undo.len() + h.redo.len() <= h.max_size
    &&& h.pending is Some ==> h.redo.len() == 0
    &&& all_fit(h.undo)
    &&& all_fit(h.redo)
    &&& h.pending is Some ==> all_fit(h.pending->0.edits) && h.pending->0.edits.len() > 0
}

/// `x` clamped into `0..=n`.
pub open spec fn clamp(x: int, n: int) -> int {
    if x < 0 {
        0
    } else if x > n {
        n
    } else {
        x
    }
}

/// The text after `e` is applied to `t`. Positions past the end are
/// clamped to the end, and an empty or reversed range deletes nothing.
pub open spec fn apply(e: Edit, t: Seq<char>) -> Seq<char>
    decreases e,
{
    match e {
        Edit::Insert { at, text } => {
            let i = clamp(at, t.len() as int);
            t.take(i) + text + t.skip(i)
        },
        Edit::Delete { start, end, .. } => {
            let s = clamp(start, t.len() as int);
            let f = clamp(end, t.len() as int);
            if s < f {
                t.take(s) + t.skip(f)
            } else {
                t
            }
        },
        Edit::Group { edits } => apply_all(edits, t),
    }
}

/// The text after the edits of `es` are applied to `t` in order.
pub open spec fn apply_all(es: Seq<Edit>, t: Seq<char>) -> Seq<char>
    decreases es,
{
    if es.len() == 0 {
        t
    } else {
        apply(es.last(), apply_all(es.drop_last(), t))
    }
}

/// `e` is applied to `t` as it was recorded: an insertion lies within the
/// text, a deletion's range lies within the text and its recorded text is
/// what the range holds, and the edits of a group are so in turn.
pub open spec fn clean(e: Edit, t: Seq<char>) -> bool
    decreases e,
{
    match e {
        Edit::Insert { at, .. } => 0 <= at <= t.len(),
        Edit::Delete { start, end, text } => 0 <= start <= end <= t.len() && t.subrange(
            start,
            end,
        ) == text,
        Edit::Group { edits } => clean_all(edits, t),
    }
}

/// The edits of `es` are each clean on the text that the earlier ones leave.
pub open spec fn clean_all(es: Seq<Edit>, t: Seq<char>) -> bool
    decreases es,
{
    if es.len() == 0 {
        true
    } else {
        clean_all(es.drop_last(), t) && clean(es.last(), apply_all(es.drop_last(), t))
    }
}

/// The inverses of the edits of `es`, newest first.
pub open spec fn inverses(es: Seq<Edit>) -> Seq<Edit> {
    Seq::new(es.len(), |i: int| inverse_of(es[es.len() - 1 - i]))
}

proof fn lemma_apply_all_concat(p: Seq<Edit>, q: Seq<Edit>, t: Seq<char>)
    ensures
        apply_all(p + q, t) == apply_all(q, apply_all(p, t)),
    decreases q.len(),
{
    if q.len() == 0 {
        assert(p + q =~= p);
    } else {
        assert((p + q).drop_last() =~= p + q.drop_last());
        assert((p + q).last() == q.last());
        lemma_apply_all_concat(p, q.drop_last(), t);
    }
}

/// Undo restores the text: applying the inverse of an edit right after
/// the edit, on the text it was recorded on, gives that text back.
pub proof fn law_undo_restores_text(e: Edit, t: Seq<char>)
    requires
        clean(e, t),
    ensures
        apply(inverse_of(e), apply(e, t)) == t,
    decreases e,
{
    match e {
        Edit::Insert { at, text } => {
            let u = apply(e, t);
            assert(u =~= t.take(at) + text + t.skip(at));
            if text.len() > 0 {
                assert(u.take(at) + u.skip(at + text.len()) =~= t);
            } else {
                assert(u =~= t);
            }
        },
        Edit::Delete { start, end, text } => {
            let u = apply(e, t);
            if start < end {
                assert(u =~= t.take(start) + t.skip(end));
                assert(u.take(start) + text + u.skip(start) =~= t);
            } else {
                assert(u =~= t);
                assert(text =~= Seq::<char>::empty());
                assert(u.take(start) + text + u.skip(start) =~= t);
            }
        },
        Edit::Group { edits } => {
            assert(inverse_of(e)->edits =~= inverses(edits));
            law_undo_restores_all(edits, t);
        },
    }
}

/// Applying the inverses of a run of clean edits, newest first, after the
/// run gives back the text the run started from.
pub proof fn law_undo_restores_all(es: Seq<Edit>, t: Seq<char>)
    requires
        clean_all(es, t),
    ensures
        apply_all(inverses(es), apply_all(es, t)) == t,
    decreases es,
{
    if es.len() == 0 {
    } else {
        let init = es.drop_last();
        let last = es.last();
        let u = apply_all(init, t);
        assert(inverses(es) =~= seq![inverse_of(last)] + inverses(init));
        lemma_apply_all_concat(seq![inverse_of(last)], inverses(init), apply(last, u));
        assert(apply_all(seq![inverse_of(last)], apply(last, u)) == apply(
            inverse_of(last),
            apply_all(Seq::<Edit>::empty(), apply(last, u)),
        )) by {
            assert(seq![inverse_of(last)].drop_last() =~= Seq::<Edit>::empty());
        }
        law_undo_restores_text(last, u);
        law_undo_restores_all(init, t);
    }
}

/// Redo takes back an undo: after an undo that returned a command, a redo
/// returns the command that was undone (whose inverse is what the undo
/// returned) and leaves the history as it was with its open group closed.
pub proof fn law_undo_then_redo(h: HistoryState)
    requires
        valid(h),
        undone(h).1 is Some,
    ensures
        redone(undone(h).0).0 == flushed(h),
        redone(undone(h).0).1 matches Some(c) && inverse_of(c) == undone(h).1->0,
{
    let h1 = flushed(h);
    assert(h1.undo.drop_last().push(h1.undo.last()) =~= h1.undo);
    assert(h1.redo.push(h1.undo.last()).drop_last() =~= h1.redo);
}

/// Undo takes back a redo: after a redo that returned a command, an undo
/// returns that command's inverse and leaves the history as it was with
/// its open group closed.
pub proof fn law_redo_then_undo(h: HistoryState)
    requires
        valid(h),
        redone(h).1 is Some,
    ensures
        undone(redone(h).0).0 == flushed(h),
        undone(redone(h).0).1 == Some(inverse_of(redone(h).1->0)),
{
    let h1 = flushed(h);
    assert(h1.undo.push(h1.redo.last()).drop_last() =~= h1.undo);
    assert(h1.redo.drop_last().push(h1.redo.last()) =~= h1.redo);
}

/// The state after recording `es` one after another.
pub open spec fn recorded_all(h: HistoryState, es: Seq<Edit>) -> HistoryState
    decreases es.len(),
{
    if es.len() == 0 {
        h
    } else {
        recorded(recorded_all(h, es.drop_last()), es.last())
    }
}

/// Every edit of `es` deletes a range that starts at char `k`.
pub open spec fn deletes_from(es: Seq<Edit>, k: int) -> bool {
    forall|i: int| 0 <= i < es.len() ==> ((#[trigger] es[i]) matches Edit::Delete { start, .. } && start == k)
}

/// Pressing Delete again and again at one place is one undo step: a run of
/// deletions that all start at the same char, recorded with no group open
/// and then closed, adds exactly one command to the undo stack, which holds
/// all of them in order.
pub proof fn law_forward_deletes_group(h: HistoryState, es: Seq<Edit>, k: int)
    requires
        h.pending is None,
        h.undo.len() < h.max_size,
        es.len() > 0,
        deletes_from(es, k),
    ensures
        flushed(recorded_all(h, es)).undo.len() == h.undo.len() + 1,
        flushed(recorded_all(h, es)).undo == h.undo.push(
            if es.len() == 1 {
                es[0]
            } else {
                Edit::Group { edits: es }
            },
        ),
{
    assert forall|i: int| 0 < i < es.len() implies ((#[trigger] es[i]) matches Edit::Delete {
        start,
        end,
        ..
    } && (end == delete_start(es[i - 1]) || start == delete_start(es[i - 1]))) by {
        assert(es[i - 1] matches Edit::Delete { start, .. } && start == k);
    }
    lemma_chained_deletes_group(h, es);
}

/// The char at which deletion `e` starts.
pub open spec fn delete_start(e: Edit) -> int {
    match e {
        Edit::Delete { start, .. } => start,
        _ => 0,
    }
}

/// `es` are deletions, each after the first taking the chars just before
/// the place where the one before it started (backspace) or those from
/// that place on (delete).
pub open spec fn chained_deletes(es: Seq<Edit>) -> bool {
    &&& forall|i: int| 0 <= i < es.len() ==> (#[trigger] es[i]) is Delete
    &&& forall|i: int|
        0 < i < es.len() ==> ((#[trigger] es[i]) matches Edit::Delete { start, end, .. } && (end
            == delete_start(es[i - 1]) || start == delete_start(es[i - 1])))
}

/// Chained deletions, recorded with no group open, stay open as one
/// deletion group.
proof fn lemma_chained_deletes_group(h: HistoryState, es: Seq<Edit>)
    requires
        h.pending is None,
        es.len() > 0,
        chained_deletes(es),
    ensures
        recorded_all(h, es).undo == h.undo,
        recorded_all(h, es).max_size == h.max_size,
        recorded_all(h, es).pending == Some(
            Pending { edits: es, inserting: false, next: delete_start(es.last()) },
        ),
    decreases es.len(),
{
    let last = es.last();
    assert(es[es.len() - 1] == last);
    if es.len() == 1 {
        assert(es.drop_last() =~= Seq::<Edit>::empty());
        assert(seq![last] =~= es);
    } else {
        let init = es.drop_last();
        assert forall|i: int| 0 <= i < init.len() implies (#[trigger] init[i]) is Delete by {
            assert(init[i] == es[i]);
        }
        assert forall|i: int| 0 < i < init.len() implies ((#[trigger] init[i]) matches Edit::Delete {
            start,
            end,
            ..
        } && (end == delete_start(init[i - 1]) || start == delete_start(init[i - 1]))) by {
            assert(init[i] == es[i]);
            assert(init[i - 1] == es[i - 1]);
        }
        lemma_chained_deletes_group(h, init);
        assert(init.last() == es[es.len() - 2]);
        assert(es[es.len() - 1] is Delete);
        assert(init.push(last) =~= es);
    }
}

/// Deleting on and on around one place, by backspace or by delete, is one
/// undo step: a run of chained deletions recorded with no group open and
/// then closed adds exactly one command to the undo stack, holding all of
/// them in order.
pub proof fn law_chained_deletes_group(h: HistoryState, es: Seq<Edit>)
    requires
        h.pending is None,
        h.undo.len() < h.max_size,
        es.len() > 0,
        chained_deletes(es),
    ensures
        flushed(recorded_all(h, es)).undo.len() == h.undo.len() + 1,
        flushed(recorded_all(h, es)).undo == h.undo.push(
            if es.len() == 1 {
                es[0]
            } else {
                Edit::Group { edits: es }
            },
        ),
{
    lemma_chained_deletes_group(h, es);
}

/// Where the text after insertion `e` ends.
pub open spec fn insert_end(e: Edit) -> int {
    match e {
        Edit::Insert { at, text } => at + text.len(),
        _ => 0,
    }
}

/// `es` are insertions of text with neither a line break nor white space,
/// each after the first starting where the one before it ended: a word
/// typed on.
pub open spec fn typed_run(es: Seq<Edit>) -> bool {
    &&& forall|i: int|
        0 <= i < es.len() ==> ((#[trigger] es[i]) matches Edit::Insert { text, .. } && !text.contains(
            '\n',
        ) && forall|j: int| 0 <= j < text.len() ==> !is_space(#[trigger] text[j]))
    &&& forall|i: int|
        0 < i < es.len() ==> ((#[trigger] es[i]) matches Edit::Insert { at, .. } && at == insert_end(
            es[i - 1],
        ))
}

/// A typed run, recorded with no group open, stays open as one insertion
/// group.
proof fn lemma_typed_run_group(h: HistoryState, es: Seq<Edit>)
    requires
        h.pending is None,
        es.len() > 0,
        typed_run(es),
    ensures
        recorded_all(h, es).undo == h.undo,
        recorded_all(h, es).max_size == h.max_size,
        recorded_all(h, es).pending == Some(
            Pending { edits: es, inserting: true, next: insert_end(es.last()) },
        ),
    decreases es.len(),
{
    let last = es.last();
    assert(es[es.len() - 1] == last);
    if es.len() == 1 {
        assert(es.drop_last() =~= Seq::<Edit>::empty());
        assert(seq![last] =~= es);
    } else {
        let init = es.drop_last();
        assert forall|i: int| 0 <= i < init.len() implies ((#[trigger] init[i]) matches Edit::Insert {
            text,
            ..
        } && !text.contains('\n') && forall|j: int| 0 <= j < text.len() ==> !is_space(
            #[trigger] text[j],
        )) by {
            assert(init[i] == es[i]);
        }
        assert forall|i: int| 0 < i < init.len() implies ((#[trigger] init[i]) matches Edit::Insert {
            at,
            ..
        } && at == insert_end(init[i - 1])) by {
            assert(init[i] == es[i]);
            assert(init[i - 1] == es[i - 1]);
        }
        lemma_typed_run_group(h, init);
        let prev = init.last();
        assert(prev == es[es.len() - 2]);
        if let Edit::Insert { text, .. } = prev {
            if text.len() > 0 {
                assert(!is_space(text[text.len() - 1]));
            }
        }
        assert(init.push(last) =~= es);
    }
}

/// Typing a word is one undo step: a typed run recorded with no group
/// open and then closed adds exactly one command to the undo stack,
/// holding all of its insertions in order.
pub proof fn law_typed_run_groups(h: HistoryState, es: Seq<Edit>)
    requires
        h.pending is None,
        h.undo.len() < h.max_size,
        es.len() > 0,
        typed_run(es),
    ensures
        flushed(recorded_all(h, es)).undo.len() == h.undo.len() + 1,
        flushed(recorded_all(h, es)).undo == h.undo.push(
            if es.len() == 1 {
                es[0]
            } else {
                Edit::Group { edits: es }
            },
        ),
{
    lemma_typed_run_group(h, es);
}

/// A new edit makes redo impossible.
pub proof fn law_record_clears_redo(h: HistoryState, e: Edit)
    ensures
        recorded(h, e).redo.len() == 0,
        redone(recorded(h, e)).1 is None,
{
}

/// `can_redo` tells whether a redo will return a command.
pub proof fn law_can_redo_iff_redo(h: HistoryState)
    requires
        valid(h),
    ensures
        (h.redo.len() > 0) <==> redone(h).1 is Some,
{
}

/// `can_undo` tells whether an undo will return a command, whenever the
/// history keeps at least one step.
pub proof fn law_can_undo_iff_undo(h: HistoryState)
    requires
        valid(h),
        h.max_size > 0,
    ensures
        (h.undo.len() > 0 || h.pending is Some) <==> undone(h).1 is Some,
{
}

#[derive(PartialEq, Eq, Clone, Copy, Structural)]
enum EditType {
    Insert,
    Delete,
}

struct PendingGroup {
    commands: Vec<EditCommand>,
    last_type: EditType,
    last_position: usize,
}

/// The undo/redo history of one buffer.
pub struct History {
    undo_stack: Vec<EditCommand>,
    redo_stack: Vec<EditCommand>,
    max_size: usize,
    pending_group: Option<PendingGroup>,
}

impl History {
    /// The abstract state.
    pub closed spec fn view(&self) -> HistoryState {
        HistoryState {
            undo: views(self.undo_stack@),
            redo: views(self.redo_stack@),
            max_size: self.max_size as nat,
            pending: match self.pending_group {
                Some(p) => Some(
                    Pending {
                        edits: views(p.commands@),
                        inserting: p.last_type == EditType::Insert,
                        next: p.last_position as int,
                    },
                ),
                None => None,
            },
        }
    }

    /// The representation invariant.
    pub closed spec fn wf(&self) -> bool {
        valid(self@)
    }

    /// A well-formed history is in a valid state.
    pub proof fn lemma_valid(&self)
        requires
            self.wf(),
        ensures
            valid(self@),
    {
    }

    /// The size limit is a `usize`, and a well-formed history has at most
    /// one undo step more than its limit: the kept commands and the open
    /// group. So `undo_count` can be called whenever the limit is below
    /// `usize::MAX`.
    pub proof fn lemma_undo_steps_bound(&self)
        requires
            self.wf(),
        ensures
            self@.max_size <= usize::MAX,
            undo_steps(self@) <= self@.max_size + 1,
    {
    }

    /// Creates an empty history that keeps at most `max_size` undo steps.
    pub fn new(max_size: usize) -> (h: History)
        ensures
            h.wf(),
            h@ == (HistoryState {
                undo: Seq::empty(),
                redo: Seq::empty(),
                max_size: max_size as nat,
                pending: None,
            }),
    {
        let h = History {
            undo_stack: Vec::new(),
            redo_stack: Vec::new(),
            max_size,
            pending_group: None,
        };
        proof {
            assert(h@.undo =~= Seq::<Edit>::empty());
            assert(h@.redo =~= Seq::<Edit>::empty());
        }
        h
    }

    /// Creates an empty history that keeps 1000 undo steps.
    pub fn with_default_size() -> (h: History)
        ensures
            h.wf(),
            h@ == (HistoryState {
                undo: Seq::empty(),
                redo: Seq::empty(),
                max_size: 1000,
                pending: None,
            }),
    {
        History::new(1000)
    }

    /// Pushes `command` on the undo stack and drops the oldest commands
    /// beyond the size limit.
    fn push_undo(&mut self, command: EditCommand)
        ensures
            final(self)@ == pushed_undo(old(self)@, command@),
    {
        let ghost s = views(self.undo_stack@).push(command@);
        self.undo_stack.push(command);
        proof {
            assert(views(self.undo_stack@) =~= s);
        }
        while self.undo_stack.len() > self.max_size
            invariant
                self.max_size == old(self).max_size,
                self.redo_stack == old(self).redo_stack,
                self.pending_group == old(self).pending_group,
                s.len() == old(self)@.undo.len() + 1,
                self.undo_stack@.len() <= s.len(),
                views(self.undo_stack@) =~= s.subrange(
                    s.len() - self.undo_stack@.len(),
                    s.len() as int,
                ),
                self.undo_stack@.len() < s.len() ==> self.undo_stack@.len() >= self.max_size,
            decreases self.undo_stack@.len(),
        {
            let ghost before = views(self.undo_stack@);
            self.undo_stack.remove(0);
            proof {
                assert(views(self.undo_stack@) =~= before.subrange(1, before.len() as int));
            }
        }
    }

    /// Closes the open group: it goes on the undo stack as one command.
    pub fn flush_pending_group(&mut self)
        requires
            old(self).wf(),
        ensures
            final(self).wf(),
            final(self)@ == flushed(old(self)@),
    {
        match self.pending_group.take() {
            None => {},
            Some(pending) => {
                let ghost p = old(self)@.pending->0;
                let mut commands = pending.commands;
                assert(views(commands@) == p.edits);
                if commands.len() == 1 {
                    let c = commands.remove(0);
                    assert(c@ == p.edits[0]);
                    self.push_undo(c);
                } else if commands.len() > 0 {
                    let g = EditCommand::Group { commands };
                    proof {
                        assert(g@->edits =~= p.edits);
                        assert(fits(p.edits[0]));
                    }
                    self.push_undo(g);
                }
            },
        }
    }

    /// Records `command`. The redo stack is emptied; consecutive typing or
    /// deleting is merged into the open group.
    pub fn record(&mut self, command: EditCommand)
        requires
            old(self).wf(),
            fits(command@),
        ensures
            final(self).wf(),
            final(self)@ == recorded(old(self)@, command@),
    {
        self.redo_stack.clear();
        proof {
            assert(views(self.redo_stack@) =~= Seq::<Edit>::empty());
        }
        let should_group = self.should_group_with_pending(&command);
        if should_group {
            let next = Self::next_position(&command);
            let mut pending = self.pending_group.take().unwrap();
            let ghost before = views(pending.commands@);
            pending.commands.push(command);
            pending.last_position = next;
            self.pending_group = Some(pending);
            proof {
                assert(views(self.pending_group->0.commands@) =~= before.push(command@));
            }
        } else {
            self.flush_pending_group();
            let edit_type = match &command {
                EditCommand::Insert { .. } => EditType::Insert,
                EditCommand::Delete { .. } => EditType::Delete,
                EditCommand::Group { .. } => {
                    self.push_undo(command);
                    return;
                },
            };
            let last_position = Self::next_position(&command);
            let commands = vec![command];
            proof {
                assert(views(commands@) =~= seq![command@]);
            }
            self.pending_group = Some(
                PendingGroup { commands, last_type: edit_type, last_position },
            );
        }
    }

    /// Where the command after `command` must start to join its group.
    fn next_position(command: &EditCommand) -> (n: usize)
        requires
            fits(command@),
            !(command@ is Group),
        ensures
            n == next_position(command@),
    {
        match command {
            EditCommand::Insert { position, text } => *position + char_count(text.as_str()),
            EditCommand::Delete { range, .. } => range.start,
            EditCommand::Group { .. } => 0,
        }
    }

    /// Whether `command` joins the open group.
    fn should_group_with_pending(&self, command: &EditCommand) -> (b: bool)
        ensures
            b == (self@.pending is Some && joins(self@.pending->0, command@)),
    {
        let pending = match &self.pending_group {
            None => {
                return false;
            },
            Some(p) => p,
        };
        let ghost p = self@.pending->0;
        match command {
            EditCommand::Insert { position, text } => {
                if pending.last_type != EditType::Insert {
                    return false;
                }
                if contains_char(text.as_str(), '\n') {
                    return false;
                }
                let n = pending.commands.len();
                let mut last_char_is_space = false;
                if n > 0 {
                    assert(views(pending.commands@).last() == pending.commands@[n - 1]@);
                    match &pending.commands[n - 1] {
                        EditCommand::Insert { text: last_text, .. } => {
                            let m = char_count(last_text.as_str());
                            if m > 0 {
                                last_char_is_space = is_whitespace(
                                    last_text.as_str().get_char(m - 1),
                                );
                            }
                        },
                        _ => {},
                    }
                }
                assert(last_char_is_space == ends_in_space(p));
                let k = char_count(text.as_str());
                let current_is_space = k > 0 && is_whitespace(text.as_str().get_char(0));
                if last_char_is_space && !current_is_space {
                    return false;
                }
                *position == pending.last_position
            },
            EditCommand::Delete { range, .. } => {
                if pending.last_type != EditType::Delete {
                    return false;
                }
                range.end == pending.last_position || range.start == pending.last_position
            },
            EditCommand::Group { .. } => false,
        }
    }

    /// Undoes the newest command: returns the command that takes it back,
    /// or `None` when there is nothing to undo.
    pub fn undo(&mut self) -> (r: Option<EditCommand>)
        requires
            old(self).wf(),
        ensures
            final(self).wf(),
            final(self)@ == undone(old(self)@).0,
            r is None <==> undone(old(self)@).1 is None,
            r matches Some(c) ==> undone(old(self)@).1 == Some(c@),
    {
        self.flush_pending_group();
        let ghost h1 = self@;
        let command = match self.undo_stack.pop() {
            None => {
                return None;
            },
            Some(c) => c,
        };
        proof {
            assert(command@ == h1.undo.last());
            assert(fits(h1.undo[h1.undo.len() - 1]));
        }
        let inverse = command.inverse();
        self.redo_stack.push(command);
        proof {
            assert(views(self.undo_stack@) =~= h1.undo.drop_last());
            assert(views(self.redo_stack@) =~= h1.redo.push(h1.undo.last()));
        }
        Some(inverse)
    }

    /// Redoes the newest undone command and returns it.
    pub fn redo(&mut self) -> (r: Option<EditCommand>)
        requires
            old(self).wf(),
        ensures
            final(self).wf(),
            final(self)@ == redone(old(self)@).0,
            r is None <==> redone(old(self)@).1 is None,
            r matches Some(c) ==> redone(old(self)@).1 == Some(c@),
    {
        self.flush_pending_group();
        let ghost h1 = self@;
        let command = match self.redo_stack.pop() {
            None => {
                return None;
            },
            Some(c) => c,
        };
        proof {
            assert(command@ == h1.redo.last());
        }
        let cloned = command.duplicate();
        self.undo_stack.push(command);
        proof {
            assert(views(self.redo_stack@) =~= h1.redo.drop_last());
            assert(views(self.undo_stack@) =~= h1.undo.push(h1.redo.last()));
        }
        Some(cloned)
    }

    /// Whether something can be undone.
    pub fn can_undo(&self) -> (b: bool)
        ensures
            b == (self@.undo.len() > 0 || self@.pending is Some),
    {
        !self.undo_stack.is_empty() || self.pending_group.is_some()
    }

    /// Whether something can be redone.
    pub fn can_redo(&self) -> (b: bool)
        ensures
            b == (self@.redo.len() > 0),
    {
        !self.redo_stack.is_empty()
    }

    /// Forgets all history.
    pub fn clear(&mut self)
        requires
            old(self).wf(),
        ensures
            final(self).wf(),
            final(self)@ == (HistoryState {
                undo: Seq::empty(),
                redo: Seq::empty(),
                pending: None,
                ..old(self)@
            }),
    {
        self.undo_stack.clear();
        self.redo_stack.clear();
        self.pending_group = None;
        proof {
            assert(self@.undo =~= Seq::<Edit>::empty());
            assert(self@.redo =~= Seq::<Edit>::empty());
        }
    }

    /// The number of undo steps, the open group counting as one (a number
    /// that must fit in `usize`).
    pub fn undo_count(&self) -> (n: usize)
        requires
            self.wf(),
            undo_steps(self@) <= usize::MAX,
        ensures
            n == undo_steps(self@),
    {
        let pending_count: usize = if self.pending_group.is_some() {
            1
        } else {
            0
        };
        self.undo_stack.len() + pending_count
    }

    /// The number of redo steps.
    pub fn redo_count(&self) -> (n: usize)
        ensures
            n == self@.redo.len(),
    {
        self.redo_stack.len()
    }
}

impl Default for History {
    fn default() -> (h: History)
        ensures
            h.wf(),
            h@ == (HistoryState {
                undo: Seq::empty(),
                redo: Seq::empty(),
                max_size: 1000,
                pending: None,
            }),
    {
        History::with_default_size()
    }
}

} // verus!
