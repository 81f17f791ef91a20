//! The cursor: the line and column where editing happens.

use vstd::prelude::*;

verus! {

/// A line and column in a document.
#[derive(Debug, Clone, Copy, PartialEq, Eq, Structural)]
pub struct CursorPosition {
    pub line: usize,
    pub column: usize,
}

/// The cursor of the editor: a line and a column, both counted from 0.
#[derive(Debug, Clone, Copy, PartialEq, Eq, Structural)]
pub struct Cursor {
    line: usize,
    column: usize,
}

impl Default for Cursor {
    fn default() -> (r: Cursor)
        ensures
            r.spec_line() == 0,
            r.spec_column() == 0,
    {
        Cursor { line: 0, column: 0 }
    }
}

impl Cursor {
    pub closed spec fn spec_line(self) -> usize {
        self.line
    }

    pub closed spec fn spec_column(self) -> usize {
        self.column
    }

    pub fn line(&self) -> (r: usize)
        ensures
            r == self.spec_line(),
    {
        self.line
    }

    pub fn column(&self) -> (r: usize)
        ensures
            r == self.spec_column(),
    {
        self.column
    }

    pub fn position(&self) -> (r: CursorPosition)
        ensures
            r == (CursorPosition { line: self.spec_line(), column: self.spec_column() }),
    {
        CursorPosition { line: self.line, column: self.column }
    }

    /// One column to the left, staying at the first column.
    pub fn move_left(&mut self)
        ensures
            final(self).spec_line() == old(self).spec_line(),
            final(self).spec_column() == if old(self).spec_column() == 0 {
                0
            } else {
                old(self).spec_column() - 1
            },
    {
        self.column = if self.column == 0 { 0 } else { self.column - 1 };
    }

    /// One column to the right, staying within a line of `line_length`
    /// characters (the column just after its last character included).
    pub fn move_right(&mut self, line_length: usize)
        ensures
            final(self).spec_line() == old(self).spec_line(),
            final(self).spec_column() == if old(self).spec_column() + 1 <= line_length {
                old(self).spec_column() + 1
            } else {
                line_length as int
            },
    {
        self.column = if self.column < line_length { self.column + 1 } else { line_length };
    }

    /// One line up, staying on the first line; the column stays within the
    /// target line of `target_line_length` characters.
    pub fn move_up(&mut self, target_line_length: usize)
        ensures
            final(self).spec_line() == if old(self).spec_line() == 0 {
                0
            } else {
                old(self).spec_line() - 1
            },
            final(self).spec_column() == if old(self).spec_column() <= target_line_length {
                old(self).spec_column()
            } else {
                target_line_length
            },
    {
        self.line = if self.line == 0 { 0 } else { self.line - 1 };
        self.column = if self.column <= target_line_length { self.column } else { target_line_length };
    }

    /// One line down where the document (of `line_count` lines) has one; the
    /// column then stays within the target line of `target_line_length`
    /// characters. On the last line nothing changes.
    pub fn move_down(&mut self, line_count: usize, target_line_length: usize)
        ensures
            if old(self).spec_line() + 1 < line_count {
                &&& final(self).spec_line() == old(self).spec_line() + 1
                &&& final(self).spec_column() == if old(self).spec_column() <= target_line_length {
                    old(self).spec_column()
                } else {
                    target_line_length
                }
            } else {
                *final(self) == *old(self)
            },
    {
        if line_count > 0 && self.line < line_count - 1 {
            self.line = self.line + 1;
            self.column = if self.column <= target_line_length { self.column } else { target_line_length };
        }
    }

    /// To `line` and `column`.
    pub fn move_to(&mut self, line: usize, column: usize)
        ensures
            final(self).spec_line() == line,
            final(self).spec_column() == column,
    {
        self.line = line;
        self.column = column;
    }

    /// One column to the right, whatever the length of the line.
    pub fn move_right_unbounded(&mut self)
        requires
            old(self).spec_column() < usize::MAX,
        ensures
            final(self).spec_line() == old(self).spec_line(),
            final(self).spec_column() == old(self).spec_column() + 1,
    {
        self.column = self.column + 1;
    }
}

} // verus!
