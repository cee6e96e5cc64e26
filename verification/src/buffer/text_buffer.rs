//! The text buffer: a `ropey` rope with clamped, char-indexed editing.
use ropey::Rope;
use std::ops::Range;
use vstd::prelude::*;

use crate::buffer::history::{apply, clamp, Edit};
use crate::paths::{file_name_of, path_file_name};
use crate::text::char_count;

verus! {

#[verifier::external_type_specification]
#[verifier::external_body]
pub struct ExRope(Rope);

/// The chars a rope holds.
pub uninterp spec fn rope_text(r: Rope) -> Seq<char>;

/// The number of bytes of the UTF-8 encoding of `c`.
pub open spec fn utf8_width(c: char) -> nat {
    let v = c as u32;
    if v < 0x80 {
        1
    } else if v < 0x800 {
        2
    } else if v < 0x10000 {
        3
    } else {
        4
    }
}

/// The number of bytes of the UTF-8 encoding of `s`.
pub open spec fn utf8_len(s: Seq<char>) -> nat
    decreases s.len(),
{
    if s.len() == 0 {
        0
    } else {
        utf8_len(s.drop_last()) + utf8_width(s.last())
    }
}

/// Whether a line ends with the char at index `i` of `s`. Line breaks are
/// LF, VT, FF, NEL, LINE SEPARATOR, PARAGRAPH SEPARATOR, CR, and CRLF,
/// which counts once, at its LF.
pub open spec fn ends_line(s: Seq<char>, i: int) -> bool {
    let c = s[i];
    ||| c == '\n'
    ||| c == '\u{b}'
    ||| c == '\u{c}'
    ||| c == '\u{85}'
    ||| c == '\u{2028}'
    ||| c == '\u{2029}'
    ||| (c == '\r' && !(i + 1 < s.len() && s[i + 1] == '\n'))
}

/// The number of line breaks among the first `n` chars of `s`.
pub open spec fn breaks_before(s: Seq<char>, n: int) -> nat
    decreases n,
{
    if n <= 0 {
        0
    } else {
        breaks_before(s, n - 1) + if ends_line(s, n - 1) {
            1nat
        } else {
            0nat
        }
    }
}

/// The number of lines of `s`: one more than its line breaks.
pub open spec fn line_count(s: Seq<char>) -> nat {
    breaks_before(s, s.len() as int) + 1
}

/// Whether line `l` of `s` starts at char index `n`: line 0 at 0, a later
/// line right after the line break that ends the line before it, and the
/// one-past-the-last line at the end of the text.
pub open spec fn is_line_start(s: Seq<char>, l: int, n: int) -> bool {
    if l == 0 {
        n == 0
    } else if l >= line_count(s) {
        n == s.len()
    } else {
        &&& 0 < n <= s.len()
        &&& ends_line(s, n - 1)
        &&& breaks_before(s, n) == l
    }
}

/// The char index at which line `l` of `s` starts.
pub open spec fn line_start(s: Seq<char>, l: int) -> int {
    choose|n: int| is_line_start(s, l, n)
}

/// `Rope::new`: an empty rope.
#[verifier::external_body]
fn rope_new() -> (r: Rope)
    ensures
        rope_text(r) == Seq::<char>::empty(),
{
    Rope::new()
}

/// `Rope::from_str`: a rope holding `text`.
#[verifier::external_body]
fn rope_from_str(text: &str) -> (r: Rope)
    ensures
        rope_text(r) == text@,
{
    Rope::from_str(text)
}

/// `Rope::len_chars`: the number of chars.
#[verifier::external_body]
fn rope_len_chars(r: &Rope) -> (n: usize)
    ensures
        n == rope_text(*r).len(),
{
    r.len_chars()
}

/// `Rope::len_bytes`: the length of the UTF-8 encoding.
#[verifier::external_body]
fn rope_len_bytes(r: &Rope) -> (n: usize)
    ensures
        n == utf8_len(rope_text(*r)),
{
    r.len_bytes()
}

/// `Rope::len_lines`: one more than the number of line breaks.
#[verifier::external_body]
fn rope_len_lines(r: &Rope) -> (n: usize)
    ensures
        n == line_count(rope_text(*r)),
{
    r.len_lines()
}

/// `Rope::insert`: inserts `text` at char index `idx`.
#[verifier::external_body]
fn rope_insert(r: &mut Rope, idx: usize, text: &str)
    requires
        idx <= rope_text(*old(r)).len(),
    ensures
        rope_text(*final(r)) == rope_text(*old(r)).take(idx as int) + text@ + rope_text(
            *old(r),
        ).skip(idx as int),
{
    r.insert(idx, text)
}

/// `Rope::remove`: removes the chars in `start..end`.
#[verifier::external_body]
fn rope_remove(r: &mut Rope, start: usize, end: usize)
    requires
        start <= end <= rope_text(*old(r)).len(),
    ensures
        rope_text(*final(r)) == rope_text(*old(r)).take(start as int) + rope_text(*old(r)).skip(
            end as int,
        ),
{
    r.remove(start..end)
}

/// `Rope::slice`, as a `String`: the chars in `start..end`.
#[verifier::external_body]
fn rope_slice(r: &Rope, start: usize, end: usize) -> (s: String)
    requires
        start <= end <= rope_text(*r).len(),
    ensures
        s@ == rope_text(*r).subrange(start as int, end as int),
{
    r.slice(start..end).to_string()
}

/// The text of a rope as a `String`.
#[verifier::external_body]
pub(crate) fn rope_to_string(r: &Rope) -> (s: String)
    ensures
        s@ == rope_text(*r),
{
    r.to_string()
}

/// `Rope::char_to_byte`: the byte index at which char `c` starts.
#[verifier::external_body]
fn rope_char_to_byte(r: &Rope, c: usize) -> (b: usize)
    requires
        c <= rope_text(*r).len(),
    ensures
        b == utf8_len(rope_text(*r).take(c as int)),
{
    r.char_to_byte(c)
}

/// `Rope::byte_to_char`: the index of the char that byte `b` belongs to.
#[verifier::external_body]
fn rope_byte_to_char(r: &Rope, b: usize) -> (c: usize)
    requires
        b <= utf8_len(rope_text(*r)),
    ensures
        c <= rope_text(*r).len(),
        utf8_len(rope_text(*r).take(c as int)) <= b,
        c < rope_text(*r).len() ==> b < utf8_len(rope_text(*r).take(c + 1)),
{
    r.byte_to_char(b)
}

/// `Rope::line_to_char`: the char index at which line `l` starts.
#[verifier::external_body]
fn rope_line_to_char(r: &Rope, l: usize) -> (c: usize)
    requires
        l <= line_count(rope_text(*r)),
    ensures
        is_line_start(rope_text(*r), l as int, c as int),
{
    r.line_to_char(l)
}

/// `Rope::char_to_line`: the number of line breaks before char `c`.
#[verifier::external_body]
fn rope_char_to_line(r: &Rope, c: usize) -> (l: usize)
    requires
        c <= rope_text(*r).len(),
    ensures
        l == breaks_before(rope_text(*r), c as int),
{
    r.char_to_line(c)
}

/// `Rope::line`, as a `String`: line `l` with its line break.
#[verifier::external_body]
fn rope_line(r: &Rope, l: usize) -> (s: String)
    requires
        l < line_count(rope_text(*r)),
    ensures
        s@ == rope_text(*r).subrange(
            line_start(rope_text(*r), l as int),
            line_start(rope_text(*r), l + 1),
        ),
{
    r.line(l).to_string()
}

/// A text buffer, optionally tied to a file.
pub struct TextBuffer {
    rope: Rope,
    file_path: Option<String>,
    modified: bool,
}

impl TextBuffer {
    /// The text.
    pub closed spec fn view(&self) -> Seq<char> {
        rope_text(self.rope)
    }

    /// The file the buffer belongs to, if any.
    pub closed spec fn path(&self) -> Option<Seq<char>> {
        match self.file_path {
            Some(p) => Some(p@),
            None => None,
        }
    }

    /// Whether the text changed since it was loaded or saved.
    pub closed spec fn dirty(&self) -> bool {
        self.modified
    }

    /// An empty buffer without a file.
    pub fn new() -> (b: TextBuffer)
        ensures
            b@ == Seq::<char>::empty(),
            b.path() is None,
            !b.dirty(),
    {
        TextBuffer { rope: rope_new(), file_path: None, modified: false }
    }

    /// A buffer holding `text`, without a file.
    pub fn from_str(text: &str) -> (b: TextBuffer)
        ensures
            b@ == text@,
            b.path() is None,
            !b.dirty(),
    {
        TextBuffer { rope: rope_from_str(text), file_path: None, modified: false }
    }

    /// A buffer holding `text`, read from the file at `path`.
    pub fn from_file_text(path: &str, text: &str) -> (b: TextBuffer)
        ensures
            b@ == text@,
            b.path() == Some(path@),
            !b.dirty(),
    {
        TextBuffer { rope: rope_from_str(text), file_path: Some(path.to_owned()), modified: false }
    }

    /// The length in UTF-8 bytes.
    pub fn len_bytes(&self) -> (n: usize)
        ensures
            n == utf8_len(self@),
    {
        rope_len_bytes(&self.rope)
    }

    /// The length in chars.
    pub fn len_chars(&self) -> (n: usize)
        ensures
            n == self@.len(),
    {
        rope_len_chars(&self.rope)
    }

    /// Whether the buffer holds no text.
    pub fn is_empty(&self) -> (b: bool)
        ensures
            b == (self@.len() == 0),
    {
        rope_len_chars(&self.rope) == 0
    }

    /// The number of lines.
    pub fn len_lines(&self) -> (n: usize)
        ensures
            n == line_count(self@),
    {
        rope_len_lines(&self.rope)
    }

    /// Inserts `text` at char index `char_idx`, or at the end when the
    /// index lies past it.
    pub fn insert(&mut self, char_idx: usize, text: &str)
        ensures
            final(self)@ == apply(Edit::Insert { at: char_idx as int, text: text@ }, old(self)@),
            final(self).dirty(),
            final(self).path() == old(self).path(),
    {
        let len = rope_len_chars(&self.rope);
        let idx = if char_idx < len {
            char_idx
        } else {
            len
        };
        rope_insert(&mut self.rope, idx, text);
        self.modified = true;
    }

    /// Removes the chars in `range`, clamped to the text; an empty range
    /// removes nothing and leaves the buffer unmodified.
    pub fn remove(&mut self, range: Range<usize>)
        ensures
            final(self)@ == apply(
                Edit::Delete { start: range.start as int, end: range.end as int, text: Seq::empty() },
                old(self)@,
            ),
            final(self).dirty() == (old(self).dirty() || clamp(range.start as int, old(self)@.len() as int)
                < clamp(range.end as int, old(self)@.len() as int)),
            final(self).path() == old(self).path(),
    {
        let len = rope_len_chars(&self.rope);
        let start = if range.start < len {
            range.start
        } else {
            len
        };
        let end = if range.end < len {
            range.end
        } else {
            len
        };
        if start < end {
            rope_remove(&mut self.rope, start, end);
            self.modified = true;
        }
    }

    /// The chars in `range`, clamped to the text.
    pub fn slice(&self, range: Range<usize>) -> (s: String)
        ensures
            ({
                let a = clamp(range.start as int, self@.len() as int);
                let b = clamp(range.end as int, self@.len() as int);
                s@ == if a < b {
                    self@.subrange(a, b)
                } else {
                    Seq::<char>::empty()
                }
            }),
    {
        let len = rope_len_chars(&self.rope);
        let start = if range.start < len {
            range.start
        } else {
            len
        };
        let end = if range.end < len {
            range.end
        } else {
            len
        };
        if start < end {
            rope_slice(&self.rope, start, end)
        } else {
            String::new()
        }
    }

    /// The whole text.
    pub fn to_string(&self) -> (s: String)
        ensures
            s@ == self@,
    {
        rope_to_string(&self.rope)
    }

    /// The byte index at which char `char_idx` starts; the byte length for
    /// an index at or past the end.
    pub fn char_to_byte(&self, char_idx: usize) -> (b: usize)
        ensures
            b == utf8_len(self@.take(clamp(char_idx as int, self@.len() as int))),
    {
        let len = rope_len_chars(&self.rope);
        if char_idx >= len {
            proof {
                assert(self@.take(len as int) =~= self@);
            }
            rope_len_bytes(&self.rope)
        } else {
            rope_char_to_byte(&self.rope, char_idx)
        }
    }

    /// The index of the char that byte `byte_idx` belongs to; the char
    /// length for an index at or past the end.
    pub fn byte_to_char(&self, byte_idx: usize) -> (c: usize)
        ensures
            byte_idx >= utf8_len(self@) ==> c == self@.len(),
            byte_idx < utf8_len(self@) ==> {
                &&& c < self@.len()
                &&& utf8_len(self@.take(c as int)) <= byte_idx
                &&& byte_idx < utf8_len(self@.take(c + 1))
            },
    {
        let len = rope_len_bytes(&self.rope);
        if byte_idx >= len {
            rope_len_chars(&self.rope)
        } else {
            let c = rope_byte_to_char(&self.rope, byte_idx);
            proof {
                if c == self@.len() {
                    assert(self@.take(c as int) =~= self@);
                }
            }
            c
        }
    }

    /// The char index at which line `line_idx` starts; the char length for
    /// a line at or past the last one.
    pub fn line_to_char(&self, line_idx: usize) -> (c: usize)
        ensures
            line_idx >= line_count(self@) ==> c == self@.len(),
            line_idx < line_count(self@) ==> is_line_start(self@, line_idx as int, c as int),
    {
        let n = rope_len_lines(&self.rope);
        if line_idx >= n {
            rope_len_chars(&self.rope)
        } else {
            rope_line_to_char(&self.rope, line_idx)
        }
    }

    /// The index of the line that char `char_idx` lies on; the last line for
    /// an index at or past the end.
    pub fn char_to_line(&self, char_idx: usize) -> (l: usize)
        ensures
            l == breaks_before(self@, clamp(char_idx as int, self@.len() as int)),
    {
        let len = rope_len_chars(&self.rope);
        if char_idx >= len {
            let n = rope_len_lines(&self.rope);
            n - 1
        } else {
            rope_char_to_line(&self.rope, char_idx)
        }
    }

    /// Line `line_idx` with its line break, or `None` past the last line.
    pub fn line(&self, line_idx: usize) -> (s: Option<String>)
        ensures
            line_idx >= line_count(self@) ==> s is None,
            line_idx < line_count(self@) ==> (s matches Some(t) && t@ == self@.subrange(
                line_start(self@, line_idx as int),
                line_start(self@, line_idx + 1),
            )),
    {
        if line_idx < rope_len_lines(&self.rope) {
            Some(rope_line(&self.rope, line_idx))
        } else {
            None
        }
    }

    /// Records that the text was written to its file.
    pub fn mark_saved(&mut self)
        ensures
            final(self)@ == old(self)@,
            final(self).path() == old(self).path(),
            !final(self).dirty(),
    {
        self.modified = false;
    }

    /// Ties the buffer to the file at `path`.
    pub fn set_file_path(&mut self, path: &str)
        ensures
            final(self)@ == old(self)@,
            final(self).path() == Some(path@),
            final(self).dirty() == old(self).dirty(),
    {
        self.file_path = Some(path.to_owned());
    }

    /// Whether the text changed since it was loaded or saved.
    pub fn is_modified(&self) -> (b: bool)
        ensures
            b == self.dirty(),
    {
        self.modified
    }

    /// The file the buffer belongs to.
    pub fn file_path(&self) -> (p: Option<&str>)
        ensures
            p matches Some(s) ==> self.path() == Some(s@),
            p is None <==> self.path() is None,
    {
        match &self.file_path {
            Some(p) => Some(p.as_str()),
            None => None,
        }
    }

    /// The final component of the file's path.
    pub fn file_name(&self) -> (n: Option<String>)
        ensures
            self.path() is None ==> n is None,
            self.path() matches Some(p) ==> (match n {
                Some(s) => file_name_of(p) == Some(s@),
                None => file_name_of(p) is None,
            }),
    {
        match &self.file_path {
            Some(p) => path_file_name(p.as_str()),
            None => None,
        }
    }

    /// Inserts `text` at char index `char_index` and returns the number of
    /// chars inserted.
    pub fn insert_text(&mut self, text: &str, char_index: usize) -> (n: usize)
        ensures
            final(self)@ == apply(Edit::Insert { at: char_index as int, text: text@ }, old(self)@),
            final(self).dirty(),
            final(self).path() == old(self).path(),
            n == text@.len(),
    {
        self.insert(char_index, text);
        char_count(text)
    }

    /// Removes the chars in `char_range`.
    pub fn delete_char_range(&mut self, char_range: Range<usize>)
        ensures
            final(self)@ == apply(
                Edit::Delete {
                    start: char_range.start as int,
                    end: char_range.end as int,
                    text: Seq::empty(),
                },
                old(self)@,
            ),
            final(self).path() == old(self).path(),
    {
        self.remove(char_range);
    }
}

impl Default for TextBuffer {
    fn default() -> (b: TextBuffer)
        ensures
            b@ == Seq::<char>::empty(),
            b.path() is None,
            !b.dirty(),
    {
        TextBuffer::new()
    }
}

} // verus!
