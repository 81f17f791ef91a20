//! The part of a document the editor shows: a window of `height` lines and
//! `width` columns, scrolled by `scroll_y` lines and `scroll_x` columns.

use vstd::prelude::*;

use crate::cursor::Cursor;

verus! {

/// The first value that a window of `size` values must start at so that it
/// shows `target`, moving as little as possible from `scroll`.
pub open spec fn scroll_to_show(scroll: int, size: int, target: int) -> int {
    if target < scroll {
        target
    } else if target >= scroll + size {
        target - size + 1
    } else {
        scroll
    }
}

/// The window of the document the editor shows.
#[derive(Debug, Clone, Copy, PartialEq, Eq, Structural)]
pub struct Viewport {
    scroll_x: usize,
    scroll_y: usize,
    width: usize,
    height: usize,
}

impl Default for Viewport {
    fn default() -> (r: Viewport)
        ensures
            r.spec_scroll_x() == 0,
            r.spec_scroll_y() == 0,
            r.spec_width() == 0,
            r.spec_height() == 0,
    {
        Viewport::new()
    }
}

impl Viewport {
    pub closed spec fn spec_scroll_x(self) -> usize {
        self.scroll_x
    }

    pub closed spec fn spec_scroll_y(self) -> usize {
        self.scroll_y
    }

    pub closed spec fn spec_width(self) -> usize {
        self.width
    }

    pub closed spec fn spec_height(self) -> usize {
        self.height
    }

    /// A window at the top left of the document, of no size.
    pub closed spec fn spec_new() -> Viewport {
        Viewport { scroll_x: 0, scroll_y: 0, width: 0, height: 0 }
    }

    /// A window at the top left of the document, of no size.
    pub fn new() -> (r: Viewport)
        ensures
            r == Viewport::spec_new(),
            r.spec_scroll_x() == 0,
            r.spec_scroll_y() == 0,
            r.spec_width() == 0,
            r.spec_height() == 0,
    {
        Viewport { scroll_x: 0, scroll_y: 0, width: 0, height: 0 }
    }

    /// Gives the window a new size; the scroll stays.
    pub fn resize(&mut self, width: usize, height: usize)
        ensures
            final(self).spec_width() == width,
            final(self).spec_height() == height,
            final(self).spec_scroll_x() == old(self).spec_scroll_x(),
            final(self).spec_scroll_y() == old(self).spec_scroll_y(),
    {
        self.width = width;
        self.height = height;
    }

    pub fn scroll_x(&self) -> (r: usize)
        ensures
            r == self.spec_scroll_x(),
    {
        self.scroll_x
    }

    pub fn scroll_y(&self) -> (r: usize)
        ensures
            r == self.spec_scroll_y(),
    {
        self.scroll_y
    }

    pub fn width(&self) -> (r: usize)
        ensures
            r == self.spec_width(),
    {
        self.width
    }

    pub fn height(&self) -> (r: usize)
        ensures
            r == self.spec_height(),
    {
        self.height
    }

    /// The cursor lies inside the window.
    pub open spec fn shows(self, cursor: Cursor) -> bool {
        &&& self.spec_scroll_y() <= cursor.spec_line() < self.spec_scroll_y() + self.spec_height()
        &&& self.spec_scroll_x() <= cursor.spec_column() < self.spec_scroll_x() + self.spec_width()
    }

    /// Scrolls as little as needed to show `cursor`: vertically where the
    /// window has a height, then horizontally where it also has a width.
    pub fn ensure_cursor_visible(&mut self, cursor: &Cursor)
        ensures
            final(self).spec_width() == old(self).spec_width(),
            final(self).spec_height() == old(self).spec_height(),
            final(self).spec_scroll_y() == if old(self).spec_height() == 0 {
                old(self).spec_scroll_y() as int
            } else {
                scroll_to_show(
                    old(self).spec_scroll_y() as int,
                    old(self).spec_height() as int,
                    cursor.spec_line() as int,
                )
            },
            final(self).spec_scroll_x() == if old(self).spec_height() == 0 || old(self).spec_width()
                == 0 {
                old(self).spec_scroll_x() as int
            } else {
                scroll_to_show(
                    old(self).spec_scroll_x() as int,
                    old(self).spec_width() as int,
                    cursor.spec_column() as int,
                )
            },
    {
        if self.height == 0 {
            return;
        }
        let line = cursor.line();
        if line < self.scroll_y {
            self.scroll_y = line;
        } else if line - self.scroll_y >= self.height {
            self.scroll_y = line - self.height + 1;
        }
        if self.width == 0 {
            return;
        }
        let column = cursor.column();
        if column < self.scroll_x {
            self.scroll_x = column;
        } else if column - self.scroll_x >= self.width {
            self.scroll_x = column - self.width + 1;
        }
    }
}

/// Once the window has a size, making the cursor visible puts it inside the
/// window; doing so again changes nothing.
pub proof fn lemma_ensure_cursor_visible_shows(before: Viewport, cursor: Cursor, after: Viewport)
    requires
        before.spec_width() > 0,
        before.spec_height() > 0,
        after.spec_width() == before.spec_width(),
        after.spec_height() == before.spec_height(),
        after.spec_scroll_y() == scroll_to_show(
            before.spec_scroll_y() as int,
            before.spec_height() as int,
            cursor.spec_line() as int,
        ),
        after.spec_scroll_x() == scroll_to_show(
            before.spec_scroll_x() as int,
            before.spec_width() as int,
            cursor.spec_column() as int,
        ),
    ensures
        after.shows(cursor),
        scroll_to_show(after.spec_scroll_y() as int, after.spec_height() as int, cursor.spec_line() as int)
            == after.spec_scroll_y(),
        scroll_to_show(after.spec_scroll_x() as int, after.spec_width() as int, cursor.spec_column() as int)
            == after.spec_scroll_x(),
{
}

/// How far `target` lies past `scroll`, and 0 where it lies before it.
pub open spec fn offset_from(scroll: int, target: int) -> int {
    if target >= scroll {
        target - scroll
    } else {
        0
    }
}

/// The screen cell where the cursor is drawn, for a window shown in the
/// area whose top left cell is at column `area_x` and row `area_y`,
/// `area_width` cells wide and `area_height` high: the cursor's offset from
/// the window's top left corner, added to the area's, where that offset
/// lies inside the area; none otherwise.
pub fn cursor_cell(
    area_x: u16,
    area_y: u16,
    area_width: u16,
    area_height: u16,
    cursor: &Cursor,
    viewport: &Viewport,
) -> (r: Option<(u16, u16)>)
    requires
        area_x + area_width <= u16::MAX,
        area_y + area_height <= u16::MAX,
    ensures
        ({
            let dx = offset_from(viewport.spec_scroll_x() as int, cursor.spec_column() as int);
            let dy = offset_from(viewport.spec_scroll_y() as int, cursor.spec_line() as int);
            if dx < area_width && dy < area_height {
                r == Some(((area_x + dx) as u16, (area_y + dy) as u16))
            } else {
                r is None
            }
        }),
{
    let column = cursor.column();
    let line = cursor.line();
    let dx = if column >= viewport.scroll_x() { column - viewport.scroll_x() } else { 0 };
    let dy = if line >= viewport.scroll_y() { line - viewport.scroll_y() } else { 0 };
    if dx < area_width as usize && dy < area_height as usize {
        Some((area_x + dx as u16, area_y + dy as u16))
    } else {
        None
    }
}

} // verus!
