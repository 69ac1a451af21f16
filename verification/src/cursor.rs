//! Cursor position and movement.  Movement requests are clamped and
//! translated against the buffer's shape, so the cursor can never point
//! outside the document.

use vstd::prelude::*;

use crate::buffer::TextBuffer;

verus! {

/// A position in the document: `row` indexes a line, `col` a column on
/// that line.  A column equal to the line's length is the position just
/// past its last character.
#[derive(Clone, Copy, PartialEq, Eq, Structural, Debug)]
pub struct Cursor {
    pub row: usize,
    pub col: usize,
}

#[derive(Clone, Copy, PartialEq, Eq, Structural, Debug)]
pub enum Direction {
    Left,
    Right,
    Up,
    Down,
}

/// The cursor sits on a valid line, at a column no greater than that
/// line's length.
pub open spec fn cursor_in_bounds(c: Cursor, lines: Seq<Seq<char>>) -> bool {
    &&& (c.row as int) < lines.len()
    &&& (c.col as int) <= lines[c.row as int].len()
}

/// The smaller of a requested column and a line's length: the column
/// clamped so it never points past the line's end.
pub open spec fn clamped_col(col: usize, line_len: nat) -> usize {
    if col as nat <= line_len {
        col
    } else {
        line_len as usize
    }
}

/// Where one movement step lands, against the given document shape.
/// Left at the start of a line wraps to the end of the previous line;
/// Right at the end of a line wraps to the start of the next; neither
/// wraps past the ends of the document.  Up and Down move one row,
/// clamped to the document, and clamp the column to the target line's
/// length.
pub open spec fn moved_cursor(c: Cursor, lines: Seq<Seq<char>>, dir: Direction) -> Cursor {
    match dir {
        Direction::Left => {
            if c.col > 0 {
                Cursor { row: c.row, col: (c.col - 1) as usize }
            } else if c.row > 0 {
                Cursor { row: (c.row - 1) as usize, col: lines[c.row - 1].len() as usize }
            } else {
                c
            }
        },
        Direction::Right => {
            if (c.col as int) < lines[c.row as int].len() {
                Cursor { row: c.row, col: (c.col + 1) as usize }
            } else if (c.row as int) + 1 < lines.len() {
                Cursor { row: (c.row + 1) as usize, col: 0 }
            } else {
                c
            }
        },
        Direction::Up => {
            if c.row > 0 {
                Cursor { row: (c.row - 1) as usize, col: clamped_col(c.col, lines[c.row - 1].len()) }
            } else {
                c
            }
        },
        Direction::Down => {
            if (c.row as int) + 1 < lines.len() {
                Cursor { row: (c.row + 1) as usize, col: clamped_col(c.col, lines[c.row + 1].len()) }
            } else {
                c
            }
        },
    }
}

/// A movement step never leaves the document's bounds.
pub proof fn lemma_moved_cursor_in_bounds(c: Cursor, lines: Seq<Seq<char>>, dir: Direction)
    requires
        cursor_in_bounds(c, lines),
        forall|i: int| 0 <= i < lines.len() ==> #[trigger] lines[i].len() <= usize::MAX,
        lines.len() <= usize::MAX,
    ensures
        cursor_in_bounds(moved_cursor(c, lines, dir), lines),
{
}

/// Moves the cursor one step in `dir`, wrapping and clamping against
/// the buffer's shape as `moved_cursor` describes.
pub fn move_cursor(c: &mut Cursor, buf: &TextBuffer, dir: Direction)
    requires
        buf.wf(),
        cursor_in_bounds(*old(c), buf.lines_sq()),
    ensures
        *final(c) == moved_cursor(*old(c), buf.lines_sq(), dir),
        cursor_in_bounds(*final(c), buf.lines_sq()),
{
    match dir {
        Direction::Left => {
            if c.col > 0 {
                c.col = c.col - 1;
            } else if c.row > 0 {
                c.row = c.row - 1;
                c.col = buf.line_len(c.row);
            }
        },
        Direction::Right => {
            let len = buf.line_len(c.row);
            let count = buf.line_count();
            if c.col < len {
                c.col = c.col + 1;
            } else if c.row < count - 1 {
                c.row = c.row + 1;
                c.col = 0;
            }
        },
        Direction::Up => {
            if c.row > 0 {
                c.row = c.row - 1;
                let len = buf.line_len(c.row);
                if c.col > len {
                    c.col = len;
                }
            }
        },
        Direction::Down => {
            let count = buf.line_count();
            if c.row < count - 1 {
                c.row = c.row + 1;
                let len = buf.line_len(c.row);
                if c.col > len {
                    c.col = len;
                }
            }
        },
    }
}

} // verus!
