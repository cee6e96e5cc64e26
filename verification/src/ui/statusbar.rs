//! Status bar contents.
use vstd::prelude::*;

use crate::text::{decimal, push_decimal};

verus! {

/// What the status bar shows.
#[derive(Debug, Clone)]
pub struct StatusInfo {
    /// Message on the left.
    pub message: String,
    /// Name of the open file.
    pub file_name: Option<String>,
    /// Number of lines.
    pub line_count: usize,
    /// Number of chars.
    pub char_count: usize,
    /// Cursor line, one-based.
    pub cursor_line: usize,
    /// Cursor column, one-based.
    pub cursor_column: usize,
    /// Language name.
    pub language: String,
    /// Theme name.
    pub theme: String,
    /// Whether the text has unsaved changes.
    pub modified: bool,
    /// Text encoding.
    pub encoding: String,
    /// Line ending convention.
    pub line_ending: String,
}

impl StatusInfo {
    /// The initial status: no message and no file, cursor at line 1,
    /// column 1, language "なし", theme "Dark", UTF-8 with LF endings.
    pub fn new() -> (s: StatusInfo)
        ensures
            s.message@ == Seq::<char>::empty(),
            s.file_name is None,
            s.line_count == 0,
            s.char_count == 0,
            s.cursor_line == 1,
            s.cursor_column == 1,
            s.language@ == "なし"@,
            s.theme@ == "Dark"@,
            !s.modified,
            s.encoding@ == "UTF-8"@,
            s.line_ending@ == "LF"@,
    {
        StatusInfo {
            message: String::new(),
            file_name: None,
            line_count: 0,
            char_count: 0,
            cursor_line: 1,
            cursor_column: 1,
            language: "なし".to_owned(),
            theme: "Dark".to_owned(),
            modified: false,
            encoding: "UTF-8".to_owned(),
            line_ending: "LF".to_owned(),
        }
    }

    /// Sets the message.
    pub fn set_message(&mut self, message: &str)
        ensures
            final(self).message@ == message@,
            final(self).file_name == old(self).file_name,
            final(self).line_count == old(self).line_count,
            final(self).char_count == old(self).char_count,
            final(self).cursor_line == old(self).cursor_line,
            final(self).cursor_column == old(self).cursor_column,
            final(self).language == old(self).language,
            final(self).theme == old(self).theme,
            final(self).modified == old(self).modified,
            final(self).encoding == old(self).encoding,
            final(self).line_ending == old(self).line_ending,
    {
        self.message = message.to_owned();
    }

    /// Sets the file name, size and modification state.
    pub fn set_file_info(&mut self, name: Option<String>, lines: usize, chars: usize, modified: bool)
        ensures
            *final(self) == (StatusInfo {
                file_name: name,
                line_count: lines,
                char_count: chars,
                modified,
                ..*old(self)
            }),
    {
        self.file_name = name;
        self.line_count = lines;
        self.char_count = chars;
        self.modified = modified;
    }

    /// Sets the cursor position.
    pub fn set_cursor(&mut self, line: usize, column: usize)
        ensures
            *final(self) == (StatusInfo { cursor_line: line, cursor_column: column, ..*old(self) }),
    {
        self.cursor_line = line;
        self.cursor_column = column;
    }

    /// Sets the language name.
    pub fn set_language(&mut self, language: &str)
        ensures
            final(self).language@ == language@,
            final(self).message == old(self).message,
            final(self).file_name == old(self).file_name,
            final(self).line_count == old(self).line_count,
            final(self).char_count == old(self).char_count,
            final(self).cursor_line == old(self).cursor_line,
            final(self).cursor_column == old(self).cursor_column,
            final(self).theme == old(self).theme,
            final(self).modified == old(self).modified,
            final(self).encoding == old(self).encoding,
            final(self).line_ending == old(self).line_ending,
    {
        self.language = language.to_owned();
    }

    /// Sets the theme name.
    pub fn set_theme(&mut self, theme: &str)
        ensures
            final(self).theme@ == theme@,
            final(self).message == old(self).message,
            final(self).file_name == old(self).file_name,
            final(self).line_count == old(self).line_count,
            final(self).char_count == old(self).char_count,
            final(self).cursor_line == old(self).cursor_line,
            final(self).cursor_column == old(self).cursor_column,
            final(self).language == old(self).language,
            final(self).modified == old(self).modified,
            final(self).encoding == old(self).encoding,
            final(self).line_ending == old(self).line_ending,
    {
        self.theme = theme.to_owned();
    }

    /// The encoding and line ending, as shown: `UTF-8 | LF`.
    pub fn encoding_text(&self) -> (s: String)
        ensures
            s@ == self.encoding@ + " | "@ + self.line_ending@,
    {
        let mut s = self.encoding.clone();
        s.append(" | ");
        s.append(self.line_ending.as_str());
        s
    }

    /// The cursor position, as shown: `行 3, 列 7`.
    pub fn cursor_text(&self) -> (s: String)
        ensures
            s@ == "行 "@ + decimal(self.cursor_line as nat) + ", 列 "@ + decimal(
                self.cursor_column as nat,
            ),
    {
        let mut s = "行 ".to_owned();
        push_decimal(&mut s, self.cursor_line);
        s.append(", 列 ");
        push_decimal(&mut s, self.cursor_column);
        s
    }

    /// The language, as shown: `言語: Rust`.
    pub fn language_text(&self) -> (s: String)
        ensures
            s@ == "言語: "@ + self.language@,
    {
        let mut s = "言語: ".to_owned();
        s.append(self.language.as_str());
        s
    }

    /// The size of the text, as shown, with a dot for unsaved changes:
    /// `10 行, 200 文字 ●`.
    pub fn file_info_text(&self) -> (s: String)
        ensures
            s@ == decimal(self.line_count as nat) + " 行, "@ + decimal(self.char_count as nat)
                + " 文字"@ + if self.modified {
                " ●"@
            } else {
                Seq::empty()
            },
    {
        let mut s = String::new();
        push_decimal(&mut s, self.line_count);
        s.append(" 行, ");
        push_decimal(&mut s, self.char_count);
        s.append(" 文字");
        if self.modified {
            s.append(" ●");
        }
        proof {
            assert(s@ =~= decimal(self.line_count as nat) + " 行, "@ + decimal(
                self.char_count as nat,
            ) + " 文字"@ + if self.modified {
                " ●"@
            } else {
                Seq::<char>::empty()
            });
        }
        s
    }
}

impl Default for StatusInfo {
    fn default() -> (s: StatusInfo)
        ensures
            s.message@ == Seq::<char>::empty(),
            s.file_name is None,
            s.line_count == 0,
            s.char_count == 0,
            s.cursor_line == 0,
            s.cursor_column == 0,
            s.language@ == Seq::<char>::empty(),
            s.theme@ == Seq::<char>::empty(),
            !s.modified,
            s.encoding@ == Seq::<char>::empty(),
            s.line_ending@ == Seq::<char>::empty(),
    {
        StatusInfo {
            message: String::new(),
            file_name: None,
            line_count: 0,
            char_count: 0,
            cursor_line: 0,
            cursor_column: 0,
            language: String::new(),
            theme: String::new(),
            modified: false,
            encoding: String::new(),
            line_ending: String::new(),
        }
    }
}

/// The status bar.
pub struct StatusBar {
    info: StatusInfo,
}

impl StatusBar {
    /// What the bar shows.
    pub closed spec fn view(&self) -> StatusInfo {
        self.info
    }

    /// A status bar with the initial status of [`StatusInfo::new`].
    pub fn new() -> (b: StatusBar)
        ensures
            b@.message@ == Seq::<char>::empty(),
            b@.file_name is None,
            b@.line_count == 0,
            b@.char_count == 0,
            b@.cursor_line == 1,
            b@.cursor_column == 1,
            b@.language@ == "なし"@,
            b@.theme@ == "Dark"@,
            !b@.modified,
            b@.encoding@ == "UTF-8"@,
            b@.line_ending@ == "LF"@,
    {
        StatusBar { info: StatusInfo::new() }
    }

    /// What the bar shows.
    pub fn info(&self) -> (i: &StatusInfo)
        ensures
            *i == self@,
    {
        &self.info
    }

    /// What the bar shows, for changing it in place.
    pub fn info_mut(&mut self) -> (i: &mut StatusInfo)
        ensures
            *i == old(self)@,
            final(self)@ == *final(i),
    {
        &mut self.info
    }

    /// Replaces what the bar shows.
    pub fn set_info(&mut self, info: StatusInfo)
        ensures
            final(self)@ == info,
    {
        self.info = info;
    }
}

impl Default for StatusBar {
    fn default() -> (b: StatusBar)
        ensures
            b@.message@ == Seq::<char>::empty(),
            b@.cursor_line == 1,
            b@.cursor_column == 1,
    {
        StatusBar::new()
    }
}

} // verus!
