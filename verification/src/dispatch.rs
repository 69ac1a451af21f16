//! Event dispatch: raw input events resolve to a closed set of editor
//! commands, and each command is applied to completion — buffer
//! mutation, cursor update, viewport scroll — before the next event is
//! looked at.  The exact effect of every command is the step relation
//! `apply_rel`, and the bounds laws below are proved over it.

use vstd::prelude::*;

use crate::buffer::{bumped_gen, TextBuffer};
use crate::cursor::{cursor_in_bounds, moved_cursor, move_cursor, Cursor, Direction};
use crate::highlight::HighlightCache;
use crate::viewport::Viewport;

verus! {

/// A raw input event, as the terminal reports it.  Anything the editor
/// does not recognize arrives as `Other` and is ignored.
#[derive(Clone, Copy, PartialEq, Eq, Structural, Debug)]
pub enum InputEvent {
    Char(char),
    Enter,
    Backspace,
    Delete,
    Arrow(Direction),
    Pointer { x: usize, y: usize },
    SaveKey,
    QuitKey,
    Other,
}

/// The closed set of editor commands.  Produced and consumed within
/// one dispatch cycle.
#[derive(Clone, Copy, PartialEq, Eq, Structural, Debug)]
pub enum Command {
    InsertChar(char),
    InsertNewline,
    DeleteBackward,
    DeleteForward,
    MoveCursor(Direction),
    Save,
    Quit,
    PointerMove { x: usize, y: usize },
}

/// The dispatcher's state: editing, or shutting down after a quit.
#[derive(Clone, Copy, PartialEq, Eq, Structural, Debug)]
pub enum EditorMode {
    Editing,
    Exiting,
}

/// Which cached highlight lines an applied command made stale.
#[derive(Clone, Copy, PartialEq, Eq, Structural, Debug)]
pub enum Invalidation {
    Nothing,
    Row(usize),
    FromRow(usize),
}

/// What the caller must do after a command was applied: redraw the
/// whole window if the viewport scrolled, drop the named cache lines,
/// run a save, or shut down.
#[derive(Clone, Copy, PartialEq, Eq, Structural, Debug)]
pub struct ApplyOutcome {
    pub scrolled: bool,
    pub invalidation: Invalidation,
    pub save_requested: bool,
    pub quit: bool,
}

/// The outcome of a cycle that changed nothing.
pub open spec fn neutral_outcome() -> ApplyOutcome {
    ApplyOutcome {
        scrolled: false,
        invalidation: Invalidation::Nothing,
        save_requested: false,
        quit: false,
    }
}

/// Which command an event resolves to; None for events the editor
/// ignores.
pub open spec fn resolved_command(ev: InputEvent) -> Option<Command> {
    match ev {
        InputEvent::Char(c) => {
            if c == '\n' || c == '\r' {
                Some(Command::InsertNewline)
            } else {
                Some(Command::InsertChar(c))
            }
        },
        InputEvent::Enter => Some(Command::InsertNewline),
        InputEvent::Backspace => Some(Command::DeleteBackward),
        InputEvent::Delete => Some(Command::DeleteForward),
        InputEvent::Arrow(d) => Some(Command::MoveCursor(d)),
        InputEvent::Pointer { x, y } => Some(Command::PointerMove { x, y }),
        InputEvent::SaveKey => Some(Command::Save),
        InputEvent::QuitKey => Some(Command::Quit),
        InputEvent::Other => None,
    }
}

/// Translates one raw event into its command.
pub fn resolve_event(ev: InputEvent) -> (r: Option<Command>)
    ensures
        r == resolved_command(ev),
{
    match ev {
        InputEvent::Char(c) => {
            if c == '\n' || c == '\r' {
                Some(Command::InsertNewline)
            } else {
                Some(Command::InsertChar(c))
            }
        },
        InputEvent::Enter => Some(Command::InsertNewline),
        InputEvent::Backspace => Some(Command::DeleteBackward),
        InputEvent::Delete => Some(Command::DeleteForward),
        InputEvent::Arrow(d) => Some(Command::MoveCursor(d)),
        InputEvent::Pointer { x, y } => Some(Command::PointerMove { x, y }),
        InputEvent::SaveKey => Some(Command::Save),
        InputEvent::QuitKey => Some(Command::Quit),
        InputEvent::Other => None,
    }
}

/// The editor's mutually consistent core state: the document, the
/// cursor into it, the window over it, and the dispatch mode.
pub struct Editor {
    pub buffer: TextBuffer,
    pub cursor: Cursor,
    pub viewport: Viewport,
    pub mode: EditorMode,
}

impl Editor {
    /// The states the editor keeps consistent at every step: the
    /// buffer's own shape, the cursor inside the document, and the
    /// viewport window containing the cursor row.
    pub open spec fn wf(&self) -> bool {
        &&& self.buffer.wf()
        &&& cursor_in_bounds(self.cursor, self.buffer.lines_sq())
        &&& self.viewport.wf()
        &&& self.viewport.contains(self.cursor.row)
    }

    /// A fresh editor over a loaded (or empty) buffer, cursor at the
    /// document's start, window at the top.
    pub fn new(buffer: TextBuffer, height: usize) -> (e: Editor)
        requires
            buffer.wf(),
            height >= 1,
        ensures
            e.wf(),
            e.buffer == buffer,
            e.cursor == (Cursor { row: 0usize, col: 0usize }),
            e.viewport == (Viewport { begin_row: 0usize, height }),
            e.mode == EditorMode::Editing,
    {
        Editor {
            buffer,
            cursor: Cursor { row: 0, col: 0 },
            viewport: Viewport::new(height),
            mode: EditorMode::Editing,
        }
    }
}

/// Where a pointer press lands: the row under the window-relative `y`
/// clamped into the document, then the column clamped to that line.
pub open spec fn pointer_target(pre: Editor, x: usize, y: usize) -> Cursor {
    let count = pre.buffer.lines_sq().len();
    let row: usize = if pre.viewport.begin_row + y < count {
        (pre.viewport.begin_row + y) as usize
    } else {
        (count - 1) as usize
    };
    let len = pre.buffer.lines_sq()[row as int].len();
    let col: usize = if x as nat <= len {
        x
    } else {
        len as usize
    };
    Cursor { row, col }
}

/// The buffer's identity — recorded path and line-ending convention —
/// is not touched by editing commands.
pub open spec fn buffer_meta_unchanged(pre: TextBuffer, post: TextBuffer) -> bool {
    &&& post.path_sq() == pre.path_sq()
    &&& post.ending_spec() == pre.ending_spec()
}

/// The viewport after a step: same height, scrolled just enough to
/// show the new cursor row.
pub open spec fn viewport_tracked(pre: Editor, post: Editor) -> bool {
    &&& post.viewport.height == pre.viewport.height
    &&& post.viewport.begin_row == pre.viewport.scrolled_begin(post.cursor.row)
}

/// The outcome reported for a step: a redraw exactly when the window
/// moved, plus the given invalidation, save and quit signals.
pub open spec fn outcome_for(
    pre: Editor,
    post: Editor,
    inv: Invalidation,
    save: bool,
    quit: bool,
    out: ApplyOutcome,
) -> bool {
    out == (ApplyOutcome {
        scrolled: post.viewport.begin_row != pre.viewport.begin_row,
        invalidation: inv,
        save_requested: save,
        quit,
    })
}

/// The exact effect of applying one command: how the document, the
/// cursor, the viewport, the mode and the reported outcome of the post
/// state relate to the pre state.  In the exiting mode nothing happens.
pub open spec fn apply_rel(pre: Editor, cmd: Command, post: Editor, out: ApplyOutcome) -> bool {
    if pre.mode is Exiting {
        &&& post == pre
        &&& out == neutral_outcome()
    } else {
        match cmd {
            Command::InsertChar(c) => {
                let row = pre.cursor.row as int;
                let col = pre.cursor.col as int;
                &&& post.buffer.lines_sq() == pre.buffer.lines_sq().update(
                    row,
                    pre.buffer.lines_sq()[row].insert(col, c),
                )
                &&& post.buffer.gens_sq() == pre.buffer.gens_sq().update(
                    row,
                    bumped_gen(pre.buffer.gens_sq()[row]),
                )
                &&& post.buffer.is_dirty()
                &&& buffer_meta_unchanged(pre.buffer, post.buffer)
                &&& post.cursor == (Cursor {
                    row: pre.cursor.row,
                    col: (pre.cursor.col + 1) as usize,
                })
                &&& viewport_tracked(pre, post)
                &&& post.mode == pre.mode
                &&& outcome_for(pre, post, Invalidation::Row(pre.cursor.row), false, false, out)
            },
            Command::InsertNewline => {
                let row = pre.cursor.row as int;
                let col = pre.cursor.col as int;
                let line = pre.buffer.lines_sq()[row];
                &&& post.buffer.lines_sq() == pre.buffer.lines_sq().update(
                    row,
                    line.subrange(0, col),
                ).insert(row + 1, line.subrange(col, line.len() as int))
                &&& post.buffer.gens_sq() == pre.buffer.gens_sq().update(
                    row,
                    bumped_gen(pre.buffer.gens_sq()[row]),
                ).insert(row + 1, 0u64)
                &&& post.buffer.is_dirty()
                &&& buffer_meta_unchanged(pre.buffer, post.buffer)
                &&& post.cursor == (Cursor { row: (pre.cursor.row + 1) as usize, col: 0usize })
                &&& viewport_tracked(pre, post)
                &&& post.mode == pre.mode
                &&& outcome_for(pre, post, Invalidation::FromRow(pre.cursor.row), false, false, out)
            },
            Command::DeleteBackward => {
                let row = pre.cursor.row as int;
                let col = pre.cursor.col as int;
                &&& buffer_meta_unchanged(pre.buffer, post.buffer)
                &&& viewport_tracked(pre, post)
                &&& post.mode == pre.mode
                &&& if pre.cursor.col > 0 {
                    &&& post.buffer.lines_sq() == pre.buffer.lines_sq().update(
                        row,
                        pre.buffer.lines_sq()[row].remove(col - 1),
                    )
                    &&& post.buffer.gens_sq() == pre.buffer.gens_sq().update(
                        row,
                        bumped_gen(pre.buffer.gens_sq()[row]),
                    )
                    &&& post.buffer.is_dirty()
                    &&& post.cursor == (Cursor {
                        row: pre.cursor.row,
                        col: (pre.cursor.col - 1) as usize,
                    })
                    &&& outcome_for(pre, post, Invalidation::Row(pre.cursor.row), false, false, out)
                } else if pre.cursor.row > 0 {
                    &&& post.buffer.lines_sq() == pre.buffer.lines_sq().update(
                        row - 1,
                        pre.buffer.lines_sq()[row - 1] + pre.buffer.lines_sq()[row],
                    ).remove(row)
                    &&& post.buffer.gens_sq() == pre.buffer.gens_sq().update(
                        row - 1,
                        bumped_gen(pre.buffer.gens_sq()[row - 1]),
                    ).remove(row)
                    &&& post.buffer.is_dirty()
                    &&& post.cursor == (Cursor {
                        row: (pre.cursor.row - 1) as usize,
                        col: pre.buffer.lines_sq()[row - 1].len() as usize,
                    })
                    &&& outcome_for(
                        pre,
                        post,
                        Invalidation::FromRow((pre.cursor.row - 1) as usize),
                        false,
                        false,
                        out,
                    )
                } else {
                    &&& post.buffer == pre.buffer
                    &&& post.cursor == pre.cursor
                    &&& outcome_for(pre, post, Invalidation::Nothing, false, false, out)
                }
            },
            Command::DeleteForward => {
                let row = pre.cursor.row as int;
                let col = pre.cursor.col as int;
                let line_len = pre.buffer.lines_sq()[row].len() as int;
                let count = pre.buffer.lines_sq().len() as int;
                &&& buffer_meta_unchanged(pre.buffer, post.buffer)
                &&& post.cursor == pre.cursor
                &&& viewport_tracked(pre, post)
                &&& post.mode == pre.mode
                &&& if col < line_len {
                    &&& post.buffer.lines_sq() == pre.buffer.lines_sq().update(
                        row,
                        pre.buffer.lines_sq()[row].remove(col),
                    )
                    &&& post.buffer.gens_sq() == pre.buffer.gens_sq().update(
                        row,
                        bumped_gen(pre.buffer.gens_sq()[row]),
                    )
                    &&& post.buffer.is_dirty()
                    &&& outcome_for(pre, post, Invalidation::Row(pre.cursor.row), false, false, out)
                } else if row + 1 < count {
                    &&& post.buffer.lines_sq() == pre.buffer.lines_sq().update(
                        row,
                        pre.buffer.lines_sq()[row] + pre.buffer.lines_sq()[row + 1],
                    ).remove(row + 1)
                    &&& post.buffer.gens_sq() == pre.buffer.gens_sq().update(
                        row,
                        bumped_gen(pre.buffer.gens_sq()[row]),
                    ).remove(row + 1)
                    &&& post.buffer.is_dirty()
                    &&& outcome_for(
                        pre,
                        post,
                        Invalidation::FromRow(pre.cursor.row),
                        false,
                        false,
                        out,
                    )
                } else {
                    &&& post.buffer == pre.buffer
                    &&& outcome_for(pre, post, Invalidation::Nothing, false, false, out)
                }
            },
            Command::MoveCursor(d) => {
                &&& post.buffer == pre.buffer
                &&& post.cursor == moved_cursor(pre.cursor, pre.buffer.lines_sq(), d)
                &&& viewport_tracked(pre, post)
                &&& post.mode == pre.mode
                &&& outcome_for(pre, post, Invalidation::Nothing, false, false, out)
            },
            Command::PointerMove { x, y } => {
                &&& post.buffer == pre.buffer
                &&& post.cursor == pointer_target(pre, x, y)
                &&& viewport_tracked(pre, post)
                &&& post.mode == pre.mode
                &&& outcome_for(pre, post, Invalidation::Nothing, false, false, out)
            },
            Command::Save => {
                &&& post.buffer == pre.buffer
                &&& post.cursor == pre.cursor
                &&& viewport_tracked(pre, post)
                &&& post.mode == pre.mode
                &&& outcome_for(pre, post, Invalidation::Nothing, true, false, out)
            },
            Command::Quit => {
                &&& post.buffer == pre.buffer
                &&& post.cursor == pre.cursor
                &&& viewport_tracked(pre, post)
                &&& post.mode is Exiting
                &&& outcome_for(pre, post, Invalidation::Nothing, false, true, out)
            },
        }
    }
}

impl Editor {
    /// Applies one command to completion and reports what the caller
    /// must do next.  The state change is exactly `apply_rel`.
    pub fn apply_command(&mut self, cmd: Command) -> (out: ApplyOutcome)
        requires
            old(self).wf(),
        ensures
            final(self).wf(),
            apply_rel(*old(self), cmd, *final(self), out),
    {
        if matches!(self.mode, EditorMode::Exiting) {
            return ApplyOutcome {
                scrolled: false,
                invalidation: Invalidation::Nothing,
                save_requested: false,
                quit: false,
            };
        }
        match cmd {
            Command::InsertChar(c) => {
                self.buffer.insert_char(self.cursor.row, self.cursor.col, c);
                proof {
                    self.buffer.lemma_machine_bounds();
                    assert(self.buffer.lines_sq()[self.cursor.row as int].len() == old(
                        self,
                    ).buffer.lines_sq()[self.cursor.row as int].len() + 1);
                }
                self.cursor.col = self.cursor.col + 1;
                let scrolled = self.viewport.ensure_visible(self.cursor.row);
                ApplyOutcome {
                    scrolled,
                    invalidation: Invalidation::Row(self.cursor.row),
                    save_requested: false,
                    quit: false,
                }
            },
            Command::InsertNewline => {
                let row = self.cursor.row;
                self.buffer.split_line(row, self.cursor.col);
                proof {
                    self.buffer.lemma_machine_bounds();
                    assert(self.buffer.lines_sq().len() == old(self).buffer.lines_sq().len() + 1);
                }
                self.cursor.row = row + 1;
                self.cursor.col = 0;
                let scrolled = self.viewport.ensure_visible(self.cursor.row);
                ApplyOutcome {
                    scrolled,
                    invalidation: Invalidation::FromRow(row),
                    save_requested: false,
                    quit: false,
                }
            },
            Command::DeleteBackward => {
                let row = self.cursor.row;
                let col = self.cursor.col;
                let inv = if col > 0 {
                    Invalidation::Row(row)
                } else if row > 0 {
                    Invalidation::FromRow(row - 1)
                } else {
                    Invalidation::Nothing
                };
                let (r, c) = self.buffer.delete_grapheme(row, col);
                self.cursor.row = r;
                self.cursor.col = c;
                proof {
                    self.buffer.lemma_machine_bounds();
                }
                let scrolled = self.viewport.ensure_visible(self.cursor.row);
                ApplyOutcome { scrolled, invalidation: inv, save_requested: false, quit: false }
            },
            Command::DeleteForward => {
                let row = self.cursor.row;
                let col = self.cursor.col;
                let line_len = self.buffer.line_len(row);
                let count = self.buffer.line_count();
                let inv = if col < line_len {
                    Invalidation::Row(row)
                } else if row + 1 < count {
                    Invalidation::FromRow(row)
                } else {
                    Invalidation::Nothing
                };
                self.buffer.delete_forward(row, col);
                let scrolled = self.viewport.ensure_visible(self.cursor.row);
                ApplyOutcome { scrolled, invalidation: inv, save_requested: false, quit: false }
            },
            Command::MoveCursor(d) => {
                move_cursor(&mut self.cursor, &self.buffer, d);
                let scrolled = self.viewport.ensure_visible(self.cursor.row);
                ApplyOutcome {
                    scrolled,
                    invalidation: Invalidation::Nothing,
                    save_requested: false,
                    quit: false,
                }
            },
            Command::PointerMove { x, y } => {
                let count = self.buffer.line_count();
                let begin = self.viewport.begin_row;
                let rem = count - 1 - begin;
                let row = if y <= rem {
                    begin + y
                } else {
                    count - 1
                };
                let len = self.buffer.line_len(row);
                let col = if x <= len {
                    x
                } else {
                    len
                };
                self.cursor.row = row;
                self.cursor.col = col;
                let scrolled = self.viewport.ensure_visible(self.cursor.row);
                ApplyOutcome {
                    scrolled,
                    invalidation: Invalidation::Nothing,
                    save_requested: false,
                    quit: false,
                }
            },
            Command::Save => {
                let scrolled = self.viewport.ensure_visible(self.cursor.row);
                ApplyOutcome {
                    scrolled,
                    invalidation: Invalidation::Nothing,
                    save_requested: true,
                    quit: false,
                }
            },
            Command::Quit => {
                self.mode = EditorMode::Exiting;
                let scrolled = self.viewport.ensure_visible(self.cursor.row);
                ApplyOutcome {
                    scrolled,
                    invalidation: Invalidation::Nothing,
                    save_requested: false,
                    quit: true,
                }
            },
        }
    }

    /// One full dispatch cycle: resolve the event and apply its
    /// command.  Unrecognized events change nothing.
    pub fn dispatch(&mut self, ev: InputEvent) -> (out: ApplyOutcome)
        requires
            old(self).wf(),
        ensures
            final(self).wf(),
            match resolved_command(ev) {
                Some(cmd) => apply_rel(*old(self), cmd, *final(self), out),
                None => *final(self) == *old(self) && out == neutral_outcome(),
            },
    {
        match resolve_event(ev) {
            Some(cmd) => self.apply_command(cmd),
            None => ApplyOutcome {
                scrolled: false,
                invalidation: Invalidation::Nothing,
                save_requested: false,
                quit: false,
            },
        }
    }
}

/// Drops exactly the cache lines an applied command made stale.
pub fn apply_invalidation(cache: &mut HighlightCache, inv: Invalidation)
    ensures
        final(cache).recompute_count() == old(cache).recompute_count(),
        match inv {
            Invalidation::Nothing => final(cache).entries_sq() == old(cache).entries_sq(),
            Invalidation::Row(r) => {
                &&& (r as int) < old(cache).entries_sq().len() ==> final(cache).entries_sq() == old(
                    cache,
                ).entries_sq().update(r as int, None)
                &&& (r as int) >= old(cache).entries_sq().len() ==> final(cache).entries_sq()
                    == old(cache).entries_sq()
            },
            Invalidation::FromRow(r) => {
                &&& (r as int) <= old(cache).entries_sq().len() ==> final(cache).entries_sq()
                    == old(cache).entries_sq().take(r as int)
                &&& (r as int) > old(cache).entries_sq().len() ==> final(cache).entries_sq() == old(
                    cache,
                ).entries_sq()
            },
        },
{
    match inv {
        Invalidation::Nothing => {},
        Invalidation::Row(r) => cache.invalidate(r),
        Invalidation::FromRow(r) => cache.invalidate_from(r),
    }
}

/// One applied command keeps the editor well-formed: the cursor stays
/// inside the document and the window keeps containing the cursor row.
pub proof fn lemma_apply_preserves_wf(pre: Editor, cmd: Command, post: Editor, out: ApplyOutcome)
    requires
        pre.wf(),
        apply_rel(pre, cmd, post, out),
    ensures
        post.wf(),
{
    post.buffer.lemma_machine_bounds();
    pre.buffer.lemma_machine_bounds();
}

/// The editor states reachable from `pre` by applying the commands in
/// order; every intermediate state is itself reachable by a prefix.
pub open spec fn reachable_by(pre: Editor, cmds: Seq<Command>, post: Editor) -> bool
    decreases cmds.len(),
{
    if cmds.len() == 0 {
        post == pre
    } else {
        exists|mid: Editor, out: ApplyOutcome|
            apply_rel(pre, cmds[0], mid, out) && reachable_by(mid, cmds.skip(1), post)
    }
}

/// Bounds stability: under any sequence of commands — character
/// insertions and backward deletions included — a well-formed editor
/// stays well-formed, so the cursor's row and column are inside the
/// document's bounds and the viewport window contains the cursor row
/// at every intermediate step.
pub proof fn lemma_commands_preserve_bounds(pre: Editor, cmds: Seq<Command>, post: Editor)
    requires
        pre.wf(),
        reachable_by(pre, cmds, post),
    ensures
        post.wf(),
        cursor_in_bounds(post.cursor, post.buffer.lines_sq()),
        post.viewport.contains(post.cursor.row),
    decreases cmds.len(),
{
    if cmds.len() > 0 {
        let (mid, out) = choose|mid: Editor, out: ApplyOutcome|
            apply_rel(pre, cmds[0], mid, out) && reachable_by(mid, cmds.skip(1), post);
        lemma_apply_preserves_wf(pre, cmds[0], mid, out);
        lemma_commands_preserve_bounds(mid, cmds.skip(1), post);
    }
}

} // verus!
