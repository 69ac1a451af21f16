//! The visible window over the document: a first visible row and a
//! height in rows.  Scroll adjustments are derived from the cursor row,
//! never tracked independently of it.

use vstd::prelude::*;

verus! {

/// The contiguous range of rows currently on screen:
/// `begin_row .. begin_row + height`.
#[derive(Clone, Copy, PartialEq, Eq, Structural, Debug)]
pub struct Viewport {
    pub begin_row: usize,
    pub height: usize,
}

impl Viewport {
    /// A window must show at least one row.
    pub open spec fn wf(&self) -> bool {
        self.height >= 1
    }

    /// The given row lies inside the window.
    pub open spec fn contains(&self, row: usize) -> bool {
        self.begin_row <= row && (row as int) < self.begin_row + self.height
    }

    /// The first visible row after bringing `cursor_row` into view:
    /// scroll up exactly to the cursor when it is above the window,
    /// scroll down exactly enough to make it the last visible row when
    /// it is below, and stay put otherwise.
    pub open spec fn scrolled_begin(&self, cursor_row: usize) -> usize {
        if cursor_row < self.begin_row {
            cursor_row
        } else if cursor_row as int >= self.begin_row + self.height {
            (cursor_row - (self.height - 1)) as usize
        } else {
            self.begin_row
        }
    }

    pub fn new(height: usize) -> (v: Viewport)
        requires
            height >= 1,
        ensures
            v == (Viewport { begin_row: 0usize, height }),
            v.wf(),
    {
        Viewport { begin_row: 0, height }
    }

    /// Scrolls the window just enough that `cursor_row` is visible.
    /// Returns whether the window moved, in which case the screen
    /// needs a full redraw.
    pub fn ensure_visible(&mut self, cursor_row: usize) -> (scrolled: bool)
        requires
            old(self).wf(),
        ensures
            final(self).wf(),
            final(self).height == old(self).height,
            final(self).begin_row == old(self).scrolled_begin(cursor_row),
            scrolled == (final(self).begin_row != old(self).begin_row),
            final(self).contains(cursor_row),
    {
        if cursor_row < self.begin_row {
            self.begin_row = cursor_row;
            true
        } else if cursor_row - self.begin_row >= self.height {
            self.begin_row = cursor_row - (self.height - 1);
            true
        } else {
            false
        }
    }
}

} // verus!
