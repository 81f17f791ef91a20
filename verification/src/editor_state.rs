//! What the editor shows and how it takes keys: the cursor, the mode and the
//! window onto the document.

use vstd::prelude::*;

use crate::buffer::{BackspaceResult, EditorMode};
use crate::cursor::Cursor;
use crate::text::{line_count, line_length, line_length_at, lines};
use crate::viewport::{scroll_to_show, Viewport};

verus! {

/// The cursor, the mode and the window of the editor.
#[derive(Debug)]
pub struct EditorState {
    cursor: Cursor,
    mode: EditorMode,
    viewport: Viewport,
}

impl EditorState {
    pub closed spec fn spec_cursor(&self) -> Cursor {
        self.cursor
    }

    pub closed spec fn spec_mode(&self) -> EditorMode {
        self.mode
    }

    pub closed spec fn spec_viewport(&self) -> Viewport {
        self.viewport
    }

    /// The window after making `cursor` visible in `v`, as
    /// `Viewport::ensure_cursor_visible` does.
    pub open spec fn scrolled_to(v: Viewport, cursor: Cursor, after: Viewport) -> bool {
        &&& after.spec_width() == v.spec_width()
        &&& after.spec_height() == v.spec_height()
        &&& after.spec_scroll_y() == if v.spec_height() == 0 {
            v.spec_scroll_y() as int
        } else {
            scroll_to_show(v.spec_scroll_y() as int, v.spec_height() as int, cursor.spec_line() as int)
        }
        &&& after.spec_scroll_x() == if v.spec_height() == 0 || v.spec_width() == 0 {
            v.spec_scroll_x() as int
        } else {
            scroll_to_show(
                v.spec_scroll_x() as int,
                v.spec_width() as int,
                cursor.spec_column() as int,
            )
        }
    }

    pub fn cursor(&self) -> (r: &Cursor)
        ensures
            *r == self.spec_cursor(),
    {
        &self.cursor
    }

    /// The cursor, to move it; the rest of the state stays.
    pub fn cursor_mut(&mut self) -> (r: &mut Cursor)
        ensures
            *r == old(self).spec_cursor(),
            final(self).spec_cursor() == *final(r),
            final(self).spec_mode() == old(self).spec_mode(),
            final(self).spec_viewport() == old(self).spec_viewport(),
    {
        &mut self.cursor
    }

    pub fn viewport(&self) -> (r: &Viewport)
        ensures
            *r == self.spec_viewport(),
    {
        &self.viewport
    }

    /// Gives the window a new size, then scrolls it to show the cursor.
    pub fn resize_viewport(&mut self, width: usize, height: usize)
        ensures
            final(self).spec_cursor() == old(self).spec_cursor(),
            final(self).spec_mode() == old(self).spec_mode(),
            final(self).spec_viewport().spec_width() == width,
            final(self).spec_viewport().spec_height() == height,
            final(self).spec_viewport().spec_scroll_y() == if height == 0 {
                old(self).spec_viewport().spec_scroll_y() as int
            } else {
                scroll_to_show(
                    old(self).spec_viewport().spec_scroll_y() as int,
                    height as int,
                    old(self).spec_cursor().spec_line() as int,
                )
            },
            final(self).spec_viewport().spec_scroll_x() == if height == 0 || width == 0 {
                old(self).spec_viewport().spec_scroll_x() as int
            } else {
                scroll_to_show(
                    old(self).spec_viewport().spec_scroll_x() as int,
                    width as int,
                    old(self).spec_cursor().spec_column() as int,
                )
            },
    {
        self.viewport.resize(width, height);
        self.viewport.ensure_cursor_visible(&self.cursor);
    }

    /// Scrolls the window to show the cursor.
    pub fn ensure_cursor_visible(&mut self)
        ensures
            final(self).spec_cursor() == old(self).spec_cursor(),
            final(self).spec_mode() == old(self).spec_mode(),
            Self::scrolled_to(
                old(self).spec_viewport(),
                old(self).spec_cursor(),
                final(self).spec_viewport(),
            ),
    {
        self.viewport.ensure_cursor_visible(&self.cursor);
    }

    pub fn mode(&self) -> (r: EditorMode)
        ensures
            r == self.spec_mode(),
    {
        self.mode
    }

    /// Keys insert text from now on.
    pub fn enter_insert_mode(&mut self)
        ensures
            final(self).spec_mode() == EditorMode::Insert,
            final(self).spec_cursor() == old(self).spec_cursor(),
            final(self).spec_viewport() == old(self).spec_viewport(),
    {
        self.mode = EditorMode::Insert;
    }

    /// Keys are commands from now on.
    pub fn enter_normal_mode(&mut self)
        ensures
            final(self).spec_mode() == EditorMode::Normal,
            final(self).spec_cursor() == old(self).spec_cursor(),
            final(self).spec_viewport() == old(self).spec_viewport(),
    {
        self.mode = EditorMode::Normal;
    }

    pub fn is_insert(&self) -> (r: bool)
        ensures
            r == (self.spec_mode() == EditorMode::Insert),
    {
        self.mode == EditorMode::Insert
    }

    pub fn is_normal(&self) -> (r: bool)
        ensures
            r == (self.spec_mode() == EditorMode::Normal),
    {
        self.mode == EditorMode::Normal
    }
}

impl EditorState {
    /// The cursor moves one column left; nothing else changes.
    pub fn move_cursor_left(&mut self)
        ensures
            final(self).spec_cursor().spec_line() == old(self).spec_cursor().spec_line(),
            final(self).spec_cursor().spec_column() == if old(self).spec_cursor().spec_column() == 0 {
                0
            } else {
                old(self).spec_cursor().spec_column() - 1
            },
            final(self).spec_mode() == old(self).spec_mode(),
            final(self).spec_viewport() == old(self).spec_viewport(),
    {
        self.cursor.move_left();
    }

    /// The cursor moves one column right within its line of `content`;
    /// nothing else changes.
    pub fn move_cursor_right_in(&mut self, content: &str)
        ensures
            ({
                let line = old(self).spec_cursor().spec_line();
                let length = line_length(content@, line as int);
                let column = old(self).spec_cursor().spec_column();
                &&& final(self).spec_cursor().spec_line() == line
                &&& final(self).spec_cursor().spec_column() == if column + 1 <= length {
                    column + 1
                } else {
                    length
                }
            }),
            final(self).spec_mode() == old(self).spec_mode(),
            final(self).spec_viewport() == old(self).spec_viewport(),
    {
        let length = line_length_at(content, self.cursor.line());
        self.cursor.move_right(length);
    }

    /// The cursor moves one line up in `content`, its column kept within the
    /// target line, and the window scrolls to show it.
    pub fn move_cursor_up_in(&mut self, content: &str)
        ensures
            ({
                let line = old(self).spec_cursor().spec_line();
                let target = if line == 0 { 0 } else { line - 1 };
                let length = line_length(content@, target as int);
                let column = old(self).spec_cursor().spec_column();
                let cursor = final(self).spec_cursor();
                &&& cursor.spec_line() == target
                &&& cursor.spec_column() == if column <= length { column as int } else { length as int }
                &&& Self::scrolled_to(old(self).spec_viewport(), cursor, final(self).spec_viewport())
            }),
            final(self).spec_mode() == old(self).spec_mode(),
    {
        let line = self.cursor.line();
        let target = if line == 0 { 0 } else { line - 1 };
        let length = line_length_at(content, target);
        self.cursor.move_up(length);
        self.viewport.ensure_cursor_visible(&self.cursor);
    }

    /// The cursor moves one line down where `content` has a line below it,
    /// its column kept within that line, and the window scrolls to show it.
    pub fn move_cursor_down_in(&mut self, content: &str)
        ensures
            ({
                let count = if lines(content@).len() == 0 { 1 } else { lines(content@).len() };
                let line = old(self).spec_cursor().spec_line();
                let target = if line + 1 < count { line + 1 } else { count - 1 };
                let length = line_length(content@, target);
                let column = old(self).spec_cursor().spec_column();
                let cursor = final(self).spec_cursor();
                &&& if line + 1 < count {
                    &&& cursor.spec_line() == line + 1
                    &&& cursor.spec_column() == if column <= length { column as int } else { length }
                } else {
                    cursor == old(self).spec_cursor()
                }
                &&& Self::scrolled_to(old(self).spec_viewport(), cursor, final(self).spec_viewport())
            }),
            final(self).spec_mode() == old(self).spec_mode(),
    {
        let counted = line_count(content);
        let count = if counted == 0 { 1 } else { counted };
        let line = self.cursor.line();
        let target = if line < count - 1 { line + 1 } else { count - 1 };
        let length = line_length_at(content, target);
        self.cursor.move_down(count, length);
        self.viewport.ensure_cursor_visible(&self.cursor);
    }

    /// After a character was typed: where it was inserted the cursor moves
    /// past it and the window scrolls to show it; otherwise nothing changes.
    pub fn after_insert(&mut self, inserted: bool)
        requires
            inserted ==> old(self).spec_cursor().spec_column() < usize::MAX,
        ensures
            final(self).spec_mode() == old(self).spec_mode(),
            if inserted {
                let cursor = final(self).spec_cursor();
                &&& cursor.spec_line() == old(self).spec_cursor().spec_line()
                &&& cursor.spec_column() == old(self).spec_cursor().spec_column() + 1
                &&& Self::scrolled_to(old(self).spec_viewport(), cursor, final(self).spec_viewport())
            } else {
                &&& final(self).spec_cursor() == old(self).spec_cursor()
                &&& final(self).spec_viewport() == old(self).spec_viewport()
            },
    {
        if inserted {
            self.cursor.move_right_unbounded();
            self.viewport.ensure_cursor_visible(&self.cursor);
        }
    }

    /// After a backspace: the cursor follows what it did (one column left
    /// after deleting a character, to the join after joining lines), and the
    /// window scrolls to show it.
    pub fn after_backspace(&mut self, result: BackspaceResult)
        ensures
            final(self).spec_mode() == old(self).spec_mode(),
            ({
                let before = old(self).spec_cursor();
                let cursor = final(self).spec_cursor();
                &&& match result {
                    BackspaceResult::Noop => cursor == before,
                    BackspaceResult::CharacterDeleted => cursor.spec_line() == before.spec_line()
                        && cursor.spec_column() == if before.spec_column() == 0 {
                        0
                    } else {
                        before.spec_column() - 1
                    },
                    BackspaceResult::LinesJoined { line, column } => cursor.spec_line() == line
                        && cursor.spec_column() == column,
                }
                &&& Self::scrolled_to(old(self).spec_viewport(), cursor, final(self).spec_viewport())
            }),
    {
        match result {
            BackspaceResult::Noop => {},
            BackspaceResult::CharacterDeleted => {
                self.cursor.move_left();
            },
            BackspaceResult::LinesJoined { line, column } => {
                self.cursor.move_to(line, column);
            },
        }
        self.viewport.ensure_cursor_visible(&self.cursor);
    }
}

impl Default for EditorState {
    /// The cursor at the start, normal mode, a window of no size at the top
    /// left.
    fn default() -> (r: EditorState)
        ensures
            r.spec_cursor().spec_line() == 0,
            r.spec_cursor().spec_column() == 0,
            r.spec_mode() == EditorMode::Normal,
            r.spec_viewport() == Viewport::spec_new(),
    {
        EditorState { cursor: Cursor::default(), mode: EditorMode::Normal, viewport: Viewport::new() }
    }
}

} // verus!
