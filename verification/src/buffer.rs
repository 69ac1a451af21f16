//! The text buffer: an ordered sequence of lines, a dirty flag, an optional
//! source path, the detected line-ending convention, and a per-line edit
//! counter that the highlight cache compares generations against.

use vstd::prelude::*;

verus! {

/// Line-ending convention of the loaded document, detected at load and
/// reused at save.
#[derive(Clone, Copy, PartialEq, Eq, Structural, Debug)]
pub enum LineEnding {
    Lf,
    CrLf,
}

/// One line of the document: an ordered sequence of characters.
/// Columns index characters; a column equal to the length denotes
/// the position just past the end of the line.
#[derive(Debug)]
pub struct Line {
    chars: Vec<char>,
}

impl View for Line {
    type V = Seq<char>;

    closed spec fn view(&self) -> Seq<char> {
        self.chars@
    }
}

impl Line {
    pub fn new() -> (r: Line)
        ensures
            r@ == Seq::<char>::empty(),
    {
        Line { chars: Vec::new() }
    }

    pub fn from_chars(chars: Vec<char>) -> (r: Line)
        ensures
            r@ == chars@,
    {
        Line { chars }
    }

    pub fn len(&self) -> (n: usize)
        ensures
            n == self@.len(),
    {
        self.chars.len()
    }

    pub fn char_at(&self, i: usize) -> (c: char)
        requires
            i < self@.len(),
        ensures
            c == self@[i as int],
    {
        self.chars[i]
    }

    pub fn chars_vec(&self) -> (v: &Vec<char>)
        ensures
            v@ == self@,
    {
        &self.chars
    }

    /// A fresh copy of this line's characters.
    pub fn to_chars(&self) -> (v: Vec<char>)
        ensures
            v@ == self@,
    {
        let mut out: Vec<char> = Vec::new();
        let mut i: usize = 0;
        while i < self.chars.len()
            invariant
                i <= self.chars.len(),
                out@ == self.chars@.subrange(0, i as int),
            decreases self.chars.len() - i,
        {
            out.push(self.chars[i]);
            i = i + 1;
            proof {
                assert(out@ =~= self.chars@.subrange(0, i as int));
            }
        }
        proof {
            assert(out@ =~= self.chars@);
        }
        out
    }

    pub fn insert_char(&mut self, col: usize, c: char)
        requires
            col <= old(self)@.len(),
        ensures
            final(self)@ == old(self)@.insert(col as int, c),
    {
        self.chars.insert(col, c);
    }

    /// Removes and returns the character at `col`.
    pub fn remove_char(&mut self, col: usize) -> (c: char)
        requires
            col < old(self)@.len(),
        ensures
            c == old(self)@[col as int],
            final(self)@ == old(self)@.remove(col as int),
    {
        self.chars.remove(col)
    }

    /// Splits this line at `col`: keeps the prefix, returns the suffix.
    pub fn split_at(&mut self, col: usize) -> (tail: Line)
        requires
            col <= old(self)@.len(),
        ensures
            final(self)@ == old(self)@.subrange(0, col as int),
            tail@ == old(self)@.subrange(col as int, old(self)@.len() as int),
    {
        let tail = self.chars.split_off(col);
        Line { chars: tail }
    }

    /// Appends another line's characters to the end of this one.
    pub fn append_line(&mut self, mut other: Line)
        ensures
            final(self)@ == old(self)@ + other@,
    {
        self.chars.append(&mut other.chars);
    }
}

/// The next value of a line's edit counter: one more, saturating at the
/// largest representable value.
pub open spec fn bumped_gen(g: u64) -> u64 {
    if g == u64::MAX {
        g
    } else {
        (g + 1) as u64
    }
}

/// The document as the editor holds it in memory.
pub struct TextBuffer {
    lines: Vec<Line>,
    gens: Vec<u64>,
    dirty: bool,
    path: Option<Vec<char>>,
    ending: LineEnding,
}

impl TextBuffer {
    /// The document's lines, as sequences of characters.
    pub closed spec fn lines_sq(&self) -> Seq<Seq<char>> {
        self.lines@.map_values(|l: Line| l@)
    }

    /// The per-line edit counters, parallel to the lines.
    pub closed spec fn gens_sq(&self) -> Seq<u64> {
        self.gens@
    }

    pub closed spec fn is_dirty(&self) -> bool {
        self.dirty
    }

    pub closed spec fn path_sq(&self) -> Option<Seq<char>> {
        match self.path {
            Some(ref p) => Some(p@),
            None => None,
        }
    }

    pub closed spec fn ending_spec(&self) -> LineEnding {
        self.ending
    }

    /// Well-formed: at least one line (an empty document is one empty
    /// line), and one edit counter per line.
    pub open spec fn wf(&self) -> bool {
        &&& self.lines_sq().len() >= 1
        &&& self.gens_sq().len() == self.lines_sq().len()
    }

    /// An empty, unnamed buffer: one empty line, not dirty, no path.
    pub fn empty() -> (r: TextBuffer)
        ensures
            r.wf(),
            r.lines_sq() =~= seq![Seq::<char>::empty()],
            r.gens_sq() =~= seq![0u64],
            !r.is_dirty(),
            r.path_sq() is None,
            r.ending_spec() == LineEnding::Lf,
    {
        let mut lines: Vec<Line> = Vec::new();
        lines.push(Line::new());
        let mut gens: Vec<u64> = Vec::new();
        gens.push(0);
        let r = TextBuffer { lines, gens, dirty: false, path: None, ending: LineEnding::Lf };
        proof {
            assert(r.lines_sq() =~= seq![Seq::<char>::empty()]);
        }
        r
    }

    /// Assembles a buffer from parsed parts; every line starts at
    /// edit counter zero.
    pub fn from_parts(lines: Vec<Line>, path: Option<Vec<char>>, ending: LineEnding) -> (r:
        TextBuffer)
        requires
            lines@.len() >= 1,
        ensures
            r.wf(),
            r.lines_sq() == lines@.map_values(|l: Line| l@),
            r.gens_sq().len() == lines@.len(),
            forall|i: int| 0 <= i < r.gens_sq().len() ==> r.gens_sq()[i] == 0u64,
            !r.is_dirty(),
            r.path_sq() == (match path {
                Some(p) => Some::<Seq<char>>(p@),
                None => None::<Seq<char>>,
            }),
            r.ending_spec() == ending,
    {
        let n = lines.len();
        let mut gens: Vec<u64> = Vec::new();
        let mut i: usize = 0;
        while i < n
            invariant
                i <= n,
                gens@.len() == i,
                forall|j: int| 0 <= j < i ==> gens@[j] == 0u64,
            decreases n - i,
        {
            gens.push(0);
            i = i + 1;
        }
        TextBuffer { lines, gens, dirty: false, path, ending }
    }

    pub fn line_count(&self) -> (n: usize)
        ensures
            n == self.lines_sq().len(),
    {
        self.lines.len()
    }

    pub fn line_len(&self, row: usize) -> (n: usize)
        requires
            row < self.lines_sq().len(),
        ensures
            n == self.lines_sq()[row as int].len(),
    {
        self.lines[row].len()
    }

    pub fn line_at(&self, row: usize) -> (l: &Line)
        requires
            row < self.lines_sq().len(),
        ensures
            l@ == self.lines_sq()[row as int],
    {
        &self.lines[row]
    }

    pub fn gen_of(&self, row: usize) -> (g: u64)
        requires
            row < self.gens_sq().len(),
        ensures
            g == self.gens_sq()[row as int],
    {
        self.gens[row]
    }

    pub fn dirty(&self) -> (d: bool)
        ensures
            d == self.is_dirty(),
    {
        self.dirty
    }

    pub fn has_path(&self) -> (b: bool)
        ensures
            b == (self.path_sq() is Some),
    {
        match self.path {
            Some(_) => true,
            None => false,
        }
    }

    /// A fresh copy of the recorded path, if one is set.
    pub fn path_chars(&self) -> (p: Option<Vec<char>>)
        ensures
            match p {
                Some(v) => self.path_sq() == Some(v@),
                None => self.path_sq() is None,
            },
    {
        match self.path {
            Some(ref v) => {
                let mut out: Vec<char> = Vec::new();
                let mut i: usize = 0;
                while i < v.len()
                    invariant
                        i <= v.len(),
                        out@ == v@.subrange(0, i as int),
                    decreases v.len() - i,
                {
                    out.push(v[i]);
                    i = i + 1;
                    proof {
                        assert(out@ =~= v@.subrange(0, i as int));
                    }
                }
                proof {
                    assert(out@ =~= v@);
                }
                Some(out)
            },
            None => None,
        }
    }

    pub fn ending(&self) -> (e: LineEnding)
        ensures
            e == self.ending_spec(),
    {
        self.ending
    }

    fn bump_gen(&mut self, row: usize)
        requires
            row < old(self).gens_sq().len(),
        ensures
            final(self).gens_sq() == old(self).gens_sq().update(
                row as int,
                bumped_gen(old(self).gens_sq()[row as int]),
            ),
            final(self).lines_sq() == old(self).lines_sq(),
            final(self).is_dirty() == old(self).is_dirty(),
            final(self).path_sq() == old(self).path_sq(),
            final(self).ending_spec() == old(self).ending_spec(),
    {
        let g = self.gens[row];
        let bumped = if g == u64::MAX {
            g
        } else {
            g + 1
        };
        let slot = &mut self.gens[row];
        *slot = bumped;
    }

    /// Inserts `c` at column `col` of line `row`, shifting later
    /// characters on that line; marks the buffer and the line dirty.
    pub fn insert_char(&mut self, row: usize, col: usize, c: char)
        requires
            old(self).wf(),
            row < old(self).lines_sq().len(),
            col <= old(self).lines_sq()[row as int].len(),
        ensures
            final(self).wf(),
            final(self).lines_sq() == old(self).lines_sq().update(
                row as int,
                old(self).lines_sq()[row as int].insert(col as int, c),
            ),
            final(self).gens_sq() == old(self).gens_sq().update(
                row as int,
                bumped_gen(old(self).gens_sq()[row as int]),
            ),
            final(self).is_dirty(),
            final(self).path_sq() == old(self).path_sq(),
            final(self).ending_spec() == old(self).ending_spec(),
    {
        let line = &mut self.lines[row];
        line.insert_char(col, c);
        proof {
            assert(self.lines_sq() =~= old(self).lines_sq().update(
                row as int,
                old(self).lines_sq()[row as int].insert(col as int, c),
            ));
        }
        self.bump_gen(row);
        self.dirty = true;
    }

    /// Splits line `row` at column `col`: `row` keeps the prefix and a
    /// new line holding the suffix is inserted right after it.  Row
    /// indices held by callers for lines after `row` are stale after
    /// this call and must be recomputed.
    pub fn split_line(&mut self, row: usize, col: usize)
        requires
            old(self).wf(),
            row < old(self).lines_sq().len(),
            col <= old(self).lines_sq()[row as int].len(),
        ensures
            final(self).wf(),
            final(self).lines_sq() == old(self).lines_sq().update(
                row as int,
                old(self).lines_sq()[row as int].subrange(0, col as int),
            ).insert(
                row + 1,
                old(self).lines_sq()[row as int].subrange(
                    col as int,
                    old(self).lines_sq()[row as int].len() as int,
                ),
            ),
            final(self).gens_sq() == old(self).gens_sq().update(
                row as int,
                bumped_gen(old(self).gens_sq()[row as int]),
            ).insert(row + 1, 0u64),
            final(self).is_dirty(),
            final(self).path_sq() == old(self).path_sq(),
            final(self).ending_spec() == old(self).ending_spec(),
    {
        proof {
            assert(self.lines.len() == self.lines@.len());
        }
        let line = &mut self.lines[row];
        let tail = line.split_at(col);
        self.lines.insert(row + 1, tail);
        proof {
            assert(self.lines_sq() =~= old(self).lines_sq().update(
                row as int,
                old(self).lines_sq()[row as int].subrange(0, col as int),
            ).insert(
                row + 1,
                old(self).lines_sq()[row as int].subrange(
                    col as int,
                    old(self).lines_sq()[row as int].len() as int,
                ),
            ));
        }
        self.bump_gen(row);
        self.gens.insert(row + 1, 0);
        self.dirty = true;
    }

    /// Merges line `row + 1` into the end of line `row` and removes
    /// it.  Row indices held by callers for lines after `row` are
    /// stale after this call and must be recomputed.
    pub fn join_line(&mut self, row: usize)
        requires
            old(self).wf(),
            row + 1 < old(self).lines_sq().len(),
        ensures
            final(self).wf(),
            final(self).lines_sq() == old(self).lines_sq().update(
                row as int,
                old(self).lines_sq()[row as int] + old(self).lines_sq()[row + 1],
            ).remove(row + 1),
            final(self).gens_sq() == old(self).gens_sq().update(
                row as int,
                bumped_gen(old(self).gens_sq()[row as int]),
            ).remove(row + 1),
            final(self).is_dirty(),
            final(self).path_sq() == old(self).path_sq(),
            final(self).ending_spec() == old(self).ending_spec(),
    {
        proof {
            assert(self.lines.len() == self.lines@.len());
        }
        let tail = self.lines.remove(row + 1);
        let line = &mut self.lines[row];
        line.append_line(tail);
        proof {
            assert(self.lines_sq() =~= old(self).lines_sq().update(
                row as int,
                old(self).lines_sq()[row as int] + old(self).lines_sq()[row + 1],
            ).remove(row + 1));
        }
        self.bump_gen(row);
        self.gens.remove(row + 1);
        self.dirty = true;
    }

    /// Deletes the character just before column `col` of line `row`.
    /// At the start of a line it instead joins the line onto the
    /// previous one; at the start of the document it does nothing.
    /// Returns the position where the deletion point ends up.
    pub fn delete_grapheme(&mut self, row: usize, col: usize) -> (pos: (usize, usize))
        requires
            old(self).wf(),
            row < old(self).lines_sq().len(),
            col <= old(self).lines_sq()[row as int].len(),
        ensures
            final(self).wf(),
            col > 0 ==> {
                &&& pos == (row, (col - 1) as usize)
                &&& final(self).lines_sq() == old(self).lines_sq().update(
                    row as int,
                    old(self).lines_sq()[row as int].remove(col - 1),
                )
                &&& final(self).gens_sq() == old(self).gens_sq().update(
                    row as int,
                    bumped_gen(old(self).gens_sq()[row as int]),
                )
                &&& final(self).is_dirty()
            },
            col == 0 && row > 0 ==> {
                &&& pos == ((row - 1) as usize, old(self).lines_sq()[row - 1].len() as usize)
                &&& final(self).lines_sq() == old(self).lines_sq().update(
                    row - 1,
                    old(self).lines_sq()[row - 1] + old(self).lines_sq()[row as int],
                ).remove(row as int)
                &&& final(self).gens_sq() == old(self).gens_sq().update(
                    row - 1,
                    bumped_gen(old(self).gens_sq()[row - 1]),
                ).remove(row as int)
                &&& final(self).is_dirty()
            },
            col == 0 && row == 0 ==> {
                &&& pos == (0usize, 0usize)
                &&& *final(self) == *old(self)
            },
            final(self).path_sq() == old(self).path_sq(),
            final(self).ending_spec() == old(self).ending_spec(),
    {
        if col > 0 {
            let line = &mut self.lines[row];
            let _ = line.remove_char(col - 1);
            proof {
                assert(self.lines_sq() =~= old(self).lines_sq().update(
                    row as int,
                    old(self).lines_sq()[row as int].remove(col - 1),
                ));
            }
            self.bump_gen(row);
            self.dirty = true;
            (row, col - 1)
        } else if row > 0 {
            let prev_len = self.lines[row - 1].len();
            self.join_line(row - 1);
            (row - 1, prev_len)
        } else {
            (0, 0)
        }
    }

    /// Deletes the character at column `col` of line `row`.  At the
    /// end of a line it instead joins the next line onto this one; at
    /// the end of the document it does nothing.  The deletion point
    /// does not move.
    pub fn delete_forward(&mut self, row: usize, col: usize)
        requires
            old(self).wf(),
            row < old(self).lines_sq().len(),
            col <= old(self).lines_sq()[row as int].len(),
        ensures
            final(self).wf(),
            col < old(self).lines_sq()[row as int].len() ==> {
                &&& final(self).lines_sq() == old(self).lines_sq().update(
                    row as int,
                    old(self).lines_sq()[row as int].remove(col as int),
                )
                &&& final(self).gens_sq() == old(self).gens_sq().update(
                    row as int,
                    bumped_gen(old(self).gens_sq()[row as int]),
                )
                &&& final(self).is_dirty()
            },
            col == old(self).lines_sq()[row as int].len() && row + 1 < old(self).lines_sq().len()
                ==> {
                &&& final(self).lines_sq() == old(self).lines_sq().update(
                    row as int,
                    old(self).lines_sq()[row as int] + old(self).lines_sq()[row + 1],
                ).remove(row + 1)
                &&& final(self).gens_sq() == old(self).gens_sq().update(
                    row as int,
                    bumped_gen(old(self).gens_sq()[row as int]),
                ).remove(row + 1)
                &&& final(self).is_dirty()
            },
            col == old(self).lines_sq()[row as int].len() && row + 1 == old(
                self,
            ).lines_sq().len() ==> *final(self) == *old(self),
            final(self).path_sq() == old(self).path_sq(),
            final(self).ending_spec() == old(self).ending_spec(),
    {
        proof {
            assert(self.lines.len() == self.lines@.len());
        }
        let line_len = self.lines[row].len();
        if col < line_len {
            let line = &mut self.lines[row];
            let _ = line.remove_char(col);
            proof {
                assert(self.lines_sq() =~= old(self).lines_sq().update(
                    row as int,
                    old(self).lines_sq()[row as int].remove(col as int),
                ));
            }
            self.bump_gen(row);
            self.dirty = true;
        } else if row + 1 < self.lines.len() {
            self.join_line(row);
        }
    }

    /// The document's dimensions fit the machine: both the number of
    /// lines and every line's length are held in `Vec`s.
    pub proof fn lemma_machine_bounds(&self)
        ensures
            self.lines_sq().len() <= usize::MAX,
            forall|i: int|
                0 <= i < self.lines_sq().len() ==> #[trigger] self.lines_sq()[i].len()
                    <= usize::MAX,
    {
        assert(self.lines.len() == self.lines@.len());
        assert forall|i: int|
            0 <= i < self.lines_sq().len() implies #[trigger] self.lines_sq()[i].len()
            <= usize::MAX by {
            assert(self.lines@[i].chars.len() == self.lines@[i].chars@.len());
        }
    }

    /// Inverse law: `split_line` at any point, followed immediately by
    /// `join_line` at the same row, restores the document's lines
    /// exactly, the split line's content included.
    pub proof fn lemma_split_join_inverse(lines: Seq<Seq<char>>, row: int, col: int)
        requires
            0 <= row < lines.len(),
            0 <= col <= lines[row].len(),
        ensures
            ({
                let pre = lines[row].subrange(0, col);
                let suf = lines[row].subrange(col, lines[row].len() as int);
                let split = lines.update(row, pre).insert(row + 1, suf);
                split.update(row, split[row] + split[row + 1]).remove(row + 1) == lines
            }),
    {
        let pre = lines[row].subrange(0, col);
        let suf = lines[row].subrange(col, lines[row].len() as int);
        let split = lines.update(row, pre).insert(row + 1, suf);
        assert(pre + suf =~= lines[row]);
        assert(split.update(row, split[row] + split[row + 1]).remove(row + 1) =~= lines);
    }

    /// Records that a save to the recorded path succeeded or failed:
    /// the dirty flag is cleared only on success.
    pub fn note_save_result(&mut self, ok: bool)
        ensures
            final(self).is_dirty() == (if ok {
                false
            } else {
                old(self).is_dirty()
            }),
            final(self).lines_sq() == old(self).lines_sq(),
            final(self).gens_sq() == old(self).gens_sq(),
            final(self).path_sq() == old(self).path_sq(),
            final(self).ending_spec() == old(self).ending_spec(),
    {
        if ok {
            self.dirty = false;
        }
    }
}

} // verus!
