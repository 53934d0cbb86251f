//! The cursor position tracker over flat text.
//!
//! A [`CursorPosition`] is a `(line, column)` pair in character (Unicode
//! scalar) units. Every movement takes the current text as context, because
//! validity depends on the current line lengths, and keeps the invariant
//! that the position addresses a place that exists: the line index is a
//! valid index into the text's lines and the column is at most the
//! addressed line's character count.

use vstd::prelude::*;

use crate::lines::{split_lines, text_lines};

verus! {

/// A `(line, column)` position in character units.
#[derive(Debug, Clone, Copy, PartialEq, Eq, Structural)]
pub struct CursorPosition {
    pub line: usize,
    pub column: usize,
}

/// The cursor addresses a position that exists in `s`: its line is a valid
/// line index and its column is at most that line's character count.
pub open spec fn cursor_valid(c: CursorPosition, s: Seq<char>) -> bool {
    &&& c.line < text_lines(s).len()
    &&& c.column <= text_lines(s)[c.line as int].len()
}

impl CursorPosition {
    /// A cursor at the given coordinates.
    pub fn new(line: usize, column: usize) -> (r: Self)
        ensures
            r.line == line,
            r.column == column,
    {
        CursorPosition { line, column }
    }

    /// The line index.
    pub fn get_line_position(self) -> (r: usize)
        ensures
            r == self.line,
    {
        self.line
    }

    /// The column.
    pub fn get_column_position(self) -> (r: usize)
        ensures
            r == self.column,
    {
        self.column
    }

    /// The largest valid line index of `text`: its line count minus one.
    /// The trailing line after a final separator counts as a line.
    fn get_max_line_index(&self, text: &str) -> (r: usize)
        ensures
            r == text_lines(text@).len() - 1,
    {
        let parts = split_lines(text);
        parts.len() - 1
    }

    /// Clamp the column to the addressed line's character count.
    fn clamp_column(&mut self, text: &str)
        requires
            old(self).line < text_lines(text@).len(),
        ensures
            final(self).line == old(self).line,
            final(self).column == vstd::math::min(
                old(self).column as int,
                text_lines(text@)[old(self).line as int].len() as int,
            ),
            cursor_valid(*final(self), text@),
    {
        let parts = split_lines(text);
        let len = parts[self.line].as_str().unicode_len();
        if self.column > len {
            self.column = len;
        }
    }

    /// Move one line up, clamping the column to the new line's length. At
    /// the first line nothing happens.
    pub fn move_up(&mut self, text: &str)
        requires
            cursor_valid(*old(self), text@),
        ensures
            old(self).line == 0 ==> *final(self) == *old(self),
            old(self).line > 0 ==> final(self).line == old(self).line - 1 && final(self).column
                == vstd::math::min(
                old(self).column as int,
                text_lines(text@)[old(self).line - 1].len() as int,
            ),
            cursor_valid(*final(self), text@),
    {
        if self.line > 0 {
            self.line = self.line - 1;
            self.clamp_column(text);
        }
    }

    /// Move one line down, clamped to the last line, then clamp the column
    /// to the new line's length.
    pub fn move_down(&mut self, text: &str)
        requires
            cursor_valid(*old(self), text@),
        ensures
            ({
                let nl = vstd::math::min(
                    old(self).line + 1,
                    text_lines(text@).len() - 1,
                );
                final(self).line == nl && final(self).column == vstd::math::min(
                    old(self).column as int,
                    text_lines(text@)[nl].len() as int,
                )
            }),
            cursor_valid(*final(self), text@),
    {
        let max_line = self.get_max_line_index(text);
        if self.line < max_line {
            self.line = self.line + 1;
        }
        self.clamp_column(text);
    }

    /// Move one position left: back one column, or to the end of the
    /// previous line at a line start. At the start of the text nothing
    /// happens.
    pub fn move_left(&mut self, text: &str)
        requires
            cursor_valid(*old(self), text@),
        ensures
            old(self).column > 0 ==> final(self).line == old(self).line && final(self).column
                == old(self).column - 1,
            old(self).column == 0 && old(self).line > 0 ==> final(self).line == old(self).line - 1
                && final(self).column == text_lines(text@)[old(self).line - 1].len(),
            old(self).column == 0 && old(self).line == 0 ==> *final(self) == *old(self),
            cursor_valid(*final(self), text@),
    {
        if self.column > 0 {
            self.column = self.column - 1;
        } else if self.line > 0 {
            self.move_up(text);
            self.move_to_line_end(text);
        }
    }

    /// Move one position right: forward one column, or to the start of the
    /// next line at a line end. At the end of the text nothing happens.
    pub fn move_right(&mut self, text: &str)
        requires
            cursor_valid(*old(self), text@),
        ensures
            ({
                let o = *old(self);
                let f = *final(self);
                let n = text_lines(text@)[o.line as int].len();
                let last = text_lines(text@).len() - 1;
                &&& o.column < n ==> f.line == o.line && f.column == o.column + 1
                &&& o.column == n && o.line < last ==> f.line == o.line + 1 && f.column == 0
                &&& o.column == n && o.line >= last ==> f == o
            }),
            cursor_valid(*final(self), text@),
    {
        let max_line = self.get_max_line_index(text);
        let parts = split_lines(text);
        let character_count = parts[self.line].as_str().unicode_len();
        if self.column == character_count && self.line < max_line {
            self.move_down(text);
            self.move_to_line_start();
        } else if self.column < character_count {
            self.column = self.column + 1;
        }
    }

    /// Advance the column by `amount` without consulting the text. The
    /// caller is responsible for keeping the position within the line.
    pub fn move_right_by(&mut self, amount: usize)
        requires
            old(self).column + amount <= usize::MAX,
        ensures
            final(self).line == old(self).line,
            final(self).column == old(self).column + amount,
    {
        self.column = self.column + amount;
    }

    /// Jump to the given coordinates, clamping the line to the last line
    /// and the column to that line's character count. The result is always
    /// a valid position.
    pub fn move_to_line_and_column(&mut self, line: usize, column: usize, text: &str)
        ensures
            ({
                let nl = vstd::math::min(line as int, text_lines(text@).len() - 1);
                final(self).line == nl && final(self).column == vstd::math::min(
                    column as int,
                    text_lines(text@)[nl].len() as int,
                )
            }),
            cursor_valid(*final(self), text@),
    {
        let max_line = self.get_max_line_index(text);
        if line < max_line {
            self.line = line;
        } else {
            self.line = max_line;
        }
        self.column = column;
        self.clamp_column(text);
    }

    /// Set the column to the addressed line's character count.
    pub fn move_to_line_end(&mut self, text: &str)
        requires
            old(self).line < text_lines(text@).len(),
        ensures
            final(self).line == old(self).line,
            final(self).column == text_lines(text@)[old(self).line as int].len(),
            cursor_valid(*final(self), text@),
    {
        let parts = split_lines(text);
        self.column = parts[self.line].as_str().unicode_len();
    }

    /// Set the column to the start of the line.
    pub fn move_to_line_start(&mut self)
        ensures
            final(self).line == old(self).line,
            final(self).column == 0,
    {
        self.column = 0;
    }
}

} // verus!
