//! The wire format of the language server protocol: each JSON message is
//! preceded by a `Content-Length` header and a blank line.
use vstd::prelude::*;
use vstd::string::StringSliceAdditionalSpecFns;
use vstd::utf8::{decode_utf8, valid_utf8};

use super::client::LspClientError;
use crate::text::{
    chars_of, decimal, digit_char, is_space, is_whitespace, push_decimal, string_of_range,
};

verus! {

/// The index of the first char of `s` at or after `i` that is not white
/// space (`s.len()` when there is none).
pub open spec fn first_kept(s: Seq<char>, i: int) -> int
    decreases s.len() - i,
{
    if 0 <= i < s.len() && is_space(s[i]) {
        first_kept(s, i + 1)
    } else {
        i
    }
}

/// The end of `s` up to `j` once trailing white space is cut, never going
/// below `lo`.
pub open spec fn last_kept(s: Seq<char>, j: int, lo: int) -> int
    decreases j - lo,
{
    if lo < j && j <= s.len() && is_space(s[j - 1]) {
        last_kept(s, j - 1, lo)
    } else {
        j
    }
}

/// `s` without leading and trailing white space, as `str::trim` gives it.
pub open spec fn trim(s: Seq<char>) -> Seq<char> {
    let lo = first_kept(s, 0);
    s.subrange(lo, last_kept(s, s.len() as int, lo))
}

proof fn lemma_first_kept(s: Seq<char>, i: int)
    requires
        0 <= i <= s.len(),
    ensures
        i <= first_kept(s, i) <= s.len(),
        forall|k: int| i <= k < first_kept(s, i) ==> is_space(#[trigger] s[k]),
        first_kept(s, i) < s.len() ==> !is_space(s[first_kept(s, i)]),
    decreases s.len() - i,
{
    if i < s.len() && is_space(s[i]) {
        lemma_first_kept(s, i + 1);
    }
}

proof fn lemma_last_kept(s: Seq<char>, j: int, lo: int)
    requires
        0 <= lo <= j <= s.len(),
    ensures
        lo <= last_kept(s, j, lo) <= j,
        forall|k: int| last_kept(s, j, lo) <= k < j ==> is_space(#[trigger] s[k]),
        lo < last_kept(s, j, lo) ==> !is_space(s[last_kept(s, j, lo) - 1]),
    decreases j - lo,
{
    if lo < j && is_space(s[j - 1]) {
        lemma_last_kept(s, j - 1, lo);
    }
}

/// `s` without leading and trailing white space.
pub fn trim_str(s: &str) -> (r: String)
    ensures
        r@ == trim(s@),
{
    let v = chars_of(s);
    let n = v.len();
    let mut lo: usize = 0;
    while lo < n && is_whitespace(v[lo])
        invariant
            v@ == s@,
            n == v@.len(),
            lo <= n,
            first_kept(s@, lo as int) == first_kept(s@, 0),
        decreases n - lo,
    {
        lo = lo + 1;
    }
    let mut hi: usize = n;
    while hi > lo && is_whitespace(v[hi - 1])
        invariant
            v@ == s@,
            n == v@.len(),
            lo <= hi <= n,
            lo == first_kept(s@, 0),
            last_kept(s@, hi as int, lo as int) == last_kept(s@, n as int, lo as int),
        decreases hi - lo,
    {
        hi = hi - 1;
    }
    string_of_range(&v, lo, hi)
}

/// Whether `c` is an ASCII decimal digit.
pub open spec fn is_digit(c: char) -> bool {
    '0' <= c && c <= '9'
}

/// The value of the ASCII digit `c`.
pub open spec fn digit_value(c: char) -> int {
    c as int - '0' as int
}

/// The value of the decimal digits `s`.
pub open spec fn digits_value(s: Seq<char>) -> int
    decreases s.len(),
{
    if s.len() == 0 {
        0
    } else {
        digits_value(s.drop_last()) * 10 + digit_value(s.last())
    }
}

/// Every char of `s` is a decimal digit.
pub open spec fn all_digits(s: Seq<char>) -> bool {
    forall|i: int| 0 <= i < s.len() ==> is_digit(#[trigger] s[i])
}

/// The digits of a `usize` in text form: an optional `+` is dropped.
pub open spec fn unsigned_digits(s: Seq<char>) -> Seq<char> {
    if s.len() > 0 && s[0] == '+' {
        s.drop_first()
    } else {
        s
    }
}

/// The `usize` that `s` spells, as `str::parse::<usize>` reads it: an
/// optional `+`, then one or more decimal digits, the value in range.
pub open spec fn usize_text(s: Seq<char>) -> Option<usize> {
    let d = unsigned_digits(s);
    if d.len() > 0 && all_digits(d) && digits_value(d) <= usize::MAX {
        Some(digits_value(d) as usize)
    } else {
        None
    }
}

proof fn lemma_digits_grow(s: Seq<char>, i: int, j: int)
    requires
        0 <= i <= j <= s.len(),
        all_digits(s),
    ensures
        0 <= digits_value(s.take(i)) <= digits_value(s.take(j)),
    decreases j,
{
    if j == 0 {
        assert(s.take(0) =~= Seq::<char>::empty());
    } else {
        if i < j {
            lemma_digits_grow(s, i, j - 1);
        } else {
            lemma_digits_grow(s, 0, j - 1);
        }
        assert(s.take(j).drop_last() =~= s.take(j - 1));
        assert(is_digit(s[j - 1]));
        assert(s.take(j).last() == s[j - 1]);
    }
}

fn digit_of(c: char) -> (d: usize)
    requires
        is_digit(c),
    ensures
        d == digit_value(c),
{
    if c == '0' {
        0
    } else if c == '1' {
        1
    } else if c == '2' {
        2
    } else if c == '3' {
        3
    } else if c == '4' {
        4
    } else if c == '5' {
        5
    } else if c == '6' {
        6
    } else if c == '7' {
        7
    } else if c == '8' {
        8
    } else {
        9
    }
}

/// Reads a `usize` from `s`; `None` when `s` does not spell one.
pub fn parse_usize(s: &str) -> (r: Option<usize>)
    ensures
        r == usize_text(s@),
{
    let v = chars_of(s);
    let n = v.len();
    let mut start: usize = 0;
    if n > 0 && v[0] == '+' {
        start = 1;
    }
    let ghost d = unsigned_digits(s@);
    assert(d =~= v@.skip(start as int));
    if start >= n {
        return None;
    }
    let mut value: usize = 0;
    let mut i: usize = start;
    while i < n
        invariant
            v@ == s@,
            n == v@.len(),
            start <= i <= n,
            start < n,
            d == v@.skip(start as int),
            d == unsigned_digits(s@),
            all_digits(d.take(i - start)),
            value == digits_value(d.take(i - start)),
        decreases n - i,
    {
        let c = v[i];
        assert(d[i - start] == c);
        if !('0' <= c && c <= '9') {
            assert(!all_digits(d));
            return None;
        }
        let k = digit_of(c);
        assert(d.take(i - start + 1).drop_last() =~= d.take(i - start));
        assert(all_digits(d.take(i - start + 1))) by {
            assert forall|m: int| 0 <= m < i - start + 1 implies is_digit(
                #[trigger] d.take(i - start + 1)[m],
            ) by {
                if m < i - start {
                    assert(d.take(i - start + 1)[m] == d.take(i - start)[m]);
                }
            }
        }
        match value.checked_mul(10) {
            Some(t) => match t.checked_add(k) {
                Some(u) => {
                    value = u;
                },
                None => {
                    proof {
                        if all_digits(d) {
                            lemma_digits_grow(d, i - start + 1, d.len() as int);
                            assert(d.take(d.len() as int) =~= d);
                        }
                    }
                    return None;
                },
            },
            None => {
                proof {
                    if all_digits(d) {
                        lemma_digits_grow(d, i - start + 1, d.len() as int);
                        assert(d.take(d.len() as int) =~= d);
                    }
                }
                return None;
            },
        }
        i = i + 1;
    }
    assert(d.take(n - start) =~= d);
    Some(value)
}

/// The text that opens every header line giving the body's length.
pub open spec fn length_prefix() -> Seq<char> {
    "Content-Length: "@
}

/// A line break as the protocol writes it.
pub open spec fn crlf() -> Seq<char> {
    "\r\n"@
}

/// The header written before a body of `n` bytes: the length line and a
/// blank line.
pub open spec fn frame_header(n: nat) -> Seq<char> {
    length_prefix() + decimal(n) + crlf() + crlf()
}

/// The header to write before the JSON text `content`.
pub fn message_header(content: &str) -> (h: String)
    ensures
        h@ == frame_header(content.spec_bytes().len()),
{
    let mut h = "Content-Length: ".to_owned();
    let n = content.as_bytes().len();
    push_decimal(&mut h, n);
    h.append("\r\n");
    h.append("\r\n");
    h
}

/// What a header line says.
#[derive(Debug, Clone, Copy, PartialEq, Eq, Structural)]
pub enum HeaderLine {
    /// The blank line that ends the header.
    End,
    /// The body's length in bytes.
    ContentLength(usize),
    /// A length line whose number cannot be read.
    BadLength,
    /// Any other header line.
    Other,
}

/// `p` begins `s`.
pub open spec fn starts_with(s: Seq<char>, p: Seq<char>) -> bool {
    p.len() <= s.len() && s.take(p.len() as int) == p
}

/// What the header line `line` says, once trimmed.
pub open spec fn header_line(line: Seq<char>) -> HeaderLine {
    let t = trim(line);
    if t.len() == 0 {
        HeaderLine::End
    } else if starts_with(t, length_prefix()) {
        match usize_text(t.skip(length_prefix().len() as int)) {
            Some(n) => HeaderLine::ContentLength(n),
            None => HeaderLine::BadLength,
        }
    } else {
        HeaderLine::Other
    }
}

/// Whether `s` begins with `p`, and what follows it.
fn strip_prefix(s: &str, p: &str) -> (r: Option<String>)
    ensures
        match r {
            Some(rest) => starts_with(s@, p@) && rest@ == s@.skip(p@.len() as int),
            None => !starts_with(s@, p@),
        },
{
    let sv = chars_of(s);
    let pv = chars_of(p);
    if pv.len() > sv.len() {
        return None;
    }
    let mut i: usize = 0;
    while i < pv.len()
        invariant
            sv@ == s@,
            pv@ == p@,
            pv@.len() <= sv@.len(),
            i <= pv@.len(),
            forall|k: int| 0 <= k < i ==> sv@[k] == pv@[k],
        decreases pv@.len() - i,
    {
        if sv[i] != pv[i] {
            assert(s@.take(p@.len() as int)[i as int] != p@[i as int]);
            return None;
        }
        i = i + 1;
    }
    assert(s@.take(p@.len() as int) =~= p@);
    let rest = string_of_range(&sv, pv.len(), sv.len());
    assert(rest@ =~= s@.skip(p@.len() as int));
    Some(rest)
}

/// Reads one header line.
pub fn parse_header_line(line: &str) -> (h: HeaderLine)
    ensures
        h == header_line(line@),
{
    let t = trim_str(line);
    if t.as_str().unicode_len() == 0 {
        return HeaderLine::End;
    }
    match strip_prefix(t.as_str(), "Content-Length: ") {
        Some(rest) => match parse_usize(rest.as_str()) {
            Some(n) => HeaderLine::ContentLength(n),
            None => HeaderLine::BadLength,
        },
        None => HeaderLine::Other,
    }
}

/// Reads a message header line by line.
pub struct HeaderReader {
    content_length: Option<usize>,
}

impl HeaderReader {
    /// The length read so far, if any.
    pub closed spec fn length(&self) -> Option<usize> {
        self.content_length
    }

    /// A reader that has read nothing.
    pub fn new() -> (r: HeaderReader)
        ensures
            r.length() is None,
    {
        HeaderReader { content_length: None }
    }

    /// Takes in one line of the header: `Ok(true)` at the blank line that
    /// ends it, `Ok(false)` for another line (a length line sets the
    /// length, the last one read counts), and an error for a length that
    /// cannot be read.
    pub fn feed(&mut self, line: &str) -> (r: Result<bool, LspClientError>)
        ensures
            match header_line(line@) {
                HeaderLine::End => r == Ok::<bool, LspClientError>(true) && final(self).length()
                    == old(self).length(),
                HeaderLine::ContentLength(n) => r == Ok::<bool, LspClientError>(false)
                    && final(self).length() == Some(n),
                HeaderLine::BadLength => r matches Err(LspClientError::InvalidResponse(m)) && m@
                    == "無効なContent-Length"@ && final(self).length() == old(self).length(),
                HeaderLine::Other => r == Ok::<bool, LspClientError>(false) && final(self).length()
                    == old(self).length(),
            },
    {
        match parse_header_line(line) {
            HeaderLine::End => Ok(true),
            HeaderLine::ContentLength(n) => {
                self.content_length = Some(n);
                Ok(false)
            },
            HeaderLine::BadLength => Err(
                LspClientError::InvalidResponse("無効なContent-Length".to_owned()),
            ),
            HeaderLine::Other => Ok(false),
        }
    }

    /// The body's length once the header has ended; an error when no line
    /// gave it.
    pub fn finish(&self) -> (r: Result<usize, LspClientError>)
        ensures
            match self.length() {
                Some(n) => r == Ok::<usize, LspClientError>(n),
                None => r matches Err(LspClientError::InvalidResponse(m)) && m@
                    == "Content-Lengthがありません"@,
            },
    {
        match self.content_length {
            Some(n) => Ok(n),
            None => Err(LspClientError::InvalidResponse("Content-Lengthがありません".to_owned())),
        }
    }
}

/// `String::from_utf8`: the text that `bytes` encode, when they are valid
/// UTF-8.
#[verifier::external_body]
fn utf8_text(bytes: Vec<u8>) -> (r: Option<String>)
    ensures
        r is Some <==> valid_utf8(bytes@),
        r matches Some(s) ==> s@ == decode_utf8(bytes@),
{
    String::from_utf8(bytes).ok()
}

/// The body of a message as text; an error when it is not valid UTF-8.
pub fn decode_body(bytes: Vec<u8>) -> (r: Result<String, LspClientError>)
    ensures
        valid_utf8(bytes@) ==> (r matches Ok(s) && s@ == decode_utf8(bytes@)),
        !valid_utf8(bytes@) ==> (r matches Err(LspClientError::InvalidResponse(m)) && m@
            == "無効なUTF-8"@),
{
    match utf8_text(bytes) {
        Some(s) => Ok(s),
        None => Err(LspClientError::InvalidResponse("無効なUTF-8".to_owned())),
    }
}

proof fn lemma_digit_char(k: nat)
    requires
        k < 10,
    ensures
        is_digit(digit_char(k)),
        digit_value(digit_char(k)) == k,
{
}

proof fn lemma_decimal_digits(n: nat)
    ensures
        decimal(n).len() > 0,
        all_digits(decimal(n)),
        digits_value(decimal(n)) == n,
    decreases n,
{
    if n < 10 {
        lemma_digit_char(n);
        assert(decimal(n) =~= seq![digit_char(n)]);
        assert(decimal(n).drop_last() =~= Seq::<char>::empty());
        assert(digits_value(Seq::<char>::empty()) == 0);
    } else {
        lemma_decimal_digits(n / 10);
        lemma_digit_char(n % 10);
        assert((n / 10) * 10 + n % 10 == n) by (nonlinear_arith);
        let d = decimal(n);
        assert(d =~= decimal(n / 10).push(digit_char(n % 10)));
        assert(d.drop_last() =~= decimal(n / 10));
        assert forall|i: int| 0 <= i < d.len() implies is_digit(#[trigger] d[i]) by {
            if i < d.len() - 1 {
                assert(d[i] == decimal(n / 10)[i]);
            }
        }
    }
}

/// The header that [`message_header`] writes reads back as the length it
/// was written for: its first line gives the length, and the blank line
/// after it ends the header.
pub proof fn law_header_round_trip(n: usize)
    ensures
        frame_header(n as nat) == length_prefix() + decimal(n as nat) + crlf() + crlf(),
        header_line(length_prefix() + decimal(n as nat) + crlf()) == HeaderLine::ContentLength(n),
        header_line(crlf()) == HeaderLine::End,
{
    reveal_strlit("Content-Length: ");
    reveal_strlit("\r\n");
    let p = length_prefix();
    let d = decimal(n as nat);
    let line = p + d + crlf();
    lemma_decimal_digits(n as nat);
    let len = line.len() as int;
    assert(line[len - 1] == '\n');
    assert(line[len - 2] == '\r');
    assert(line[len - 3] == d[d.len() - 1]);
    assert(is_digit(d[d.len() - 1]));
    assert(!is_space(line[len - 3]));
    assert(line[0] == 'C');
    assert(first_kept(line, 0) == 0);
    assert(last_kept(line, len - 2, 0) == len - 2);
    assert(last_kept(line, len - 1, 0) == len - 2);
    assert(last_kept(line, len, 0) == len - 2);
    let t = trim(line);
    assert(t =~= p + d);
    assert(t.take(p.len() as int) =~= p);
    assert(t.skip(p.len() as int) =~= d);
    assert(d[0] != '+') by {
        assert(is_digit(d[0]));
    }
    assert(unsigned_digits(d) == d);
    let c = crlf();
    assert(first_kept(c, 2) == 2);
    assert(first_kept(c, 1) == 2);
    assert(first_kept(c, 0) == 2);
    assert(trim(c) =~= Seq::<char>::empty());
}

} // verus!
