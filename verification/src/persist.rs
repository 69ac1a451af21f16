//! The text codec and save preparation.  Loading splits the document's
//! text into lines on the detected line-ending convention; saving joins
//! them back with the same convention, so a load followed by a save
//! with no edits in between reproduces the text exactly.

use vstd::prelude::*;

use crate::buffer::{Line, LineEnding, TextBuffer};

verus! {

/// The separator that the convention puts between consecutive lines.
pub open spec fn sep_of(e: LineEnding) -> Seq<char> {
    match e {
        LineEnding::Lf => seq!['\n'],
        LineEnding::CrLf => seq!['\r', '\n'],
    }
}

/// The lines joined with `sep` between each pair of neighbours.  One
/// empty line joins to the empty text.
pub open spec fn joined_lines(lines: Seq<Seq<char>>, sep: Seq<char>) -> Seq<char>
    decreases lines.len(),
{
    if lines.len() == 0 {
        Seq::empty()
    } else if lines.len() == 1 {
        lines[0]
    } else {
        lines[0] + sep + joined_lines(lines.skip(1), sep)
    }
}

/// No occurrence of the convention's separator inside the line, so the
/// decomposition into lines is unambiguous.
pub open spec fn line_has_no_break(s: Seq<char>, e: LineEnding) -> bool {
    match e {
        LineEnding::Lf => forall|j: int| 0 <= j < s.len() ==> s[j] != '\n',
        LineEnding::CrLf => forall|j: int|
            0 <= j && j + 1 < s.len() ==> !(#[trigger] s[j] == '\r' && s[j + 1] == '\n'),
    }
}

/// The convention a text is read under: carriage-return line-feed if
/// that pair occurs anywhere in it, else bare line-feed.
pub open spec fn detected_ending(text: Seq<char>) -> LineEnding {
    if exists|j: int|
        0 <= j && j + 1 < text.len() && #[trigger] text[j] == '\r' && text[j + 1] == '\n' {
        LineEnding::CrLf
    } else {
        LineEnding::Lf
    }
}

/// The exact text a buffer saves to: its lines joined with the
/// recorded line-ending convention.
pub open spec fn serialized(buf: TextBuffer) -> Seq<char> {
    joined_lines(buf.lines_sq(), sep_of(buf.ending_spec()))
}

/// What loading `text` establishes: the convention was detected from
/// the text, and the lines join back to exactly that text.
pub open spec fn loaded_from(buf: TextBuffer, text: Seq<char>) -> bool {
    &&& buf.wf()
    &&& !buf.is_dirty()
    &&& buf.ending_spec() == detected_ending(text)
    &&& joined_lines(buf.lines_sq(), sep_of(buf.ending_spec())) == text
}

/// Joining after appending one more line appends one separator and
/// that line.
pub proof fn lemma_joined_push(lines: Seq<Seq<char>>, x: Seq<char>, sep: Seq<char>)
    requires
        lines.len() >= 1,
    ensures
        joined_lines(lines.push(x), sep) == joined_lines(lines, sep) + sep + x,
    decreases lines.len(),
{
    if lines.len() == 1 {
        assert(lines.push(x).skip(1) =~= seq![x]);
        assert(joined_lines(seq![x], sep) == x);
    } else {
        assert(lines.push(x).skip(1) =~= lines.skip(1).push(x));
        lemma_joined_push(lines.skip(1), x, sep);
        assert(lines[0] + sep + (joined_lines(lines.skip(1), sep) + sep + x) =~= (lines[0] + sep
            + joined_lines(lines.skip(1), sep)) + sep + x);
    }
}

/// Round trip: a buffer freshly loaded from `text` saves back to
/// exactly `text`, line-ending convention included.
pub proof fn lemma_load_save_round_trip(buf: TextBuffer, text: Seq<char>)
    requires
        loaded_from(buf, text),
    ensures
        serialized(buf) == text,
{
}

/// Detects the line-ending convention of a text.
pub fn detect_ending(text: &Vec<char>) -> (e: LineEnding)
    ensures
        e == detected_ending(text@),
{
    let n = text.len();
    let mut i: usize = 0;
    while i + 1 < n
        invariant
            n == text@.len(),
            i == 0 || i < n,
            forall|j: int| 0 <= j < i ==> !(#[trigger] text@[j] == '\r' && text@[j + 1] == '\n'),
        decreases n - i,
    {
        if text[i] == '\r' && text[i + 1] == '\n' {
            return LineEnding::CrLf;
        }
        i = i + 1;
    }
    LineEnding::Lf
}

/// Splits on bare line-feeds.
fn split_lf(text: &Vec<char>) -> (lines: Vec<Line>)
    ensures
        lines@.len() >= 1,
        joined_lines(lines@.map_values(|l: Line| l@), sep_of(LineEnding::Lf)) == text@,
        forall|k: int|
            0 <= k < lines@.len() ==> line_has_no_break(#[trigger] lines@[k]@, LineEnding::Lf),
{
    let ghost sep = sep_of(LineEnding::Lf);
    let mut done: Vec<Line> = Vec::new();
    let mut cur: Vec<char> = Vec::new();
    let n = text.len();
    let mut i: usize = 0;
    while i < n
        invariant
            i <= n,
            n == text@.len(),
            sep == sep_of(LineEnding::Lf),
            joined_lines(done@.map_values(|l: Line| l@).push(cur@), sep_of(LineEnding::Lf))
                == text@.take(i as int),
            forall|k: int|
                0 <= k < done@.len() ==> line_has_no_break(#[trigger] done@[k]@, LineEnding::Lf),
            line_has_no_break(cur@, LineEnding::Lf),
        decreases n - i,
    {
        let ghost dv = done@.map_values(|l: Line| l@);
        let ghost pc = cur@;
        let c = text[i];
        if c == '\n' {
            done.push(Line::from_chars(cur));
            cur = Vec::new();
            proof {
                assert(done@.map_values(|l: Line| l@) =~= dv.push(pc));
                lemma_joined_push(dv.push(pc), Seq::empty(), sep);
                assert((text@.take(i as int) + sep + Seq::<char>::empty()) =~= text@.take(
                    i as int + 1,
                ));
            }
        } else {
            cur.push(c);
            proof {
                if dv.len() == 0 {
                    assert(joined_lines(dv.push(pc), sep) == pc);
                    assert(joined_lines(dv.push(cur@), sep) == cur@);
                } else {
                    lemma_joined_push(dv, pc, sep);
                    lemma_joined_push(dv, cur@, sep);
                }
                assert(cur@ == pc.push(c));
                assert((text@.take(i as int)).push(c) =~= text@.take(i as int + 1));
                assert(joined_lines(dv.push(cur@), sep) =~= text@.take(i as int + 1));
            }
        }
        i = i + 1;
    }
    proof {
        assert(text@.take(n as int) =~= text@);
    }
    let ghost dv = done@.map_values(|l: Line| l@);
    let ghost pc = cur@;
    done.push(Line::from_chars(cur));
    proof {
        assert(done@.map_values(|l: Line| l@) =~= dv.push(pc));
    }
    done
}

/// Splits on carriage-return line-feed pairs.
fn split_crlf(text: &Vec<char>) -> (lines: Vec<Line>)
    ensures
        lines@.len() >= 1,
        joined_lines(lines@.map_values(|l: Line| l@), sep_of(LineEnding::CrLf)) == text@,
        forall|k: int|
            0 <= k < lines@.len() ==> line_has_no_break(#[trigger] lines@[k]@, LineEnding::CrLf),
{
    let ghost sep = sep_of(LineEnding::CrLf);
    let mut done: Vec<Line> = Vec::new();
    let mut cur: Vec<char> = Vec::new();
    let n = text.len();
    let mut i: usize = 0;
    while i < n
        invariant
            i <= n,
            n == text@.len(),
            sep == sep_of(LineEnding::CrLf),
            joined_lines(done@.map_values(|l: Line| l@).push(cur@), sep_of(LineEnding::CrLf))
                == text@.take(i as int),
            forall|k: int|
                0 <= k < done@.len() ==> line_has_no_break(#[trigger] done@[k]@, LineEnding::CrLf),
            line_has_no_break(cur@, LineEnding::CrLf),
            cur@.len() > 0 && cur@.last() == '\r' && i < n ==> text@[i as int] != '\n',
        decreases n - i,
    {
        let ghost dv = done@.map_values(|l: Line| l@);
        let ghost pc = cur@;
        let c = text[i];
        if c == '\r' && i + 1 < n && text[i + 1] == '\n' {
            done.push(Line::from_chars(cur));
            cur = Vec::new();
            proof {
                assert(done@.map_values(|l: Line| l@) =~= dv.push(pc));
                lemma_joined_push(dv.push(pc), Seq::empty(), sep);
                assert((text@.take(i as int) + sep + Seq::<char>::empty()) =~= text@.take(
                    i + 2,
                ));
            }
            i = i + 2;
        } else {
            cur.push(c);
            proof {
                if dv.len() == 0 {
                    assert(joined_lines(dv.push(pc), sep) == pc);
                    assert(joined_lines(dv.push(cur@), sep) == cur@);
                } else {
                    lemma_joined_push(dv, pc, sep);
                    lemma_joined_push(dv, cur@, sep);
                }
                assert(cur@ == pc.push(c));
                assert((text@.take(i as int)).push(c) =~= text@.take(i + 1));
                assert(joined_lines(dv.push(cur@), sep) =~= text@.take(i + 1));
                // No separator pair arises inside the line: a pair
                // would need the previous character to be a carriage
                // return followed by this line feed, and that pair
                // would have been consumed as a separator instead.
                if c == '\n' && pc.len() > 0 {
                    assert(pc.last() != '\r');
                }
                assert(line_has_no_break(cur@, LineEnding::CrLf));
            }
            i = i + 1;
        }
    }
    proof {
        assert(text@.take(n as int) =~= text@);
    }
    let ghost dv = done@.map_values(|l: Line| l@);
    let ghost pc = cur@;
    done.push(Line::from_chars(cur));
    proof {
        assert(done@.map_values(|l: Line| l@) =~= dv.push(pc));
    }
    done
}

/// Splits a text into lines under the given convention.
pub fn split_lines(text: &Vec<char>, e: LineEnding) -> (lines: Vec<Line>)
    ensures
        lines@.len() >= 1,
        joined_lines(lines@.map_values(|l: Line| l@), sep_of(e)) == text@,
        forall|k: int| 0 <= k < lines@.len() ==> line_has_no_break(#[trigger] lines@[k]@, e),
{
    match e {
        LineEnding::Lf => split_lf(text),
        LineEnding::CrLf => split_crlf(text),
    }
}

/// Builds a buffer from a document's text: detects the line-ending
/// convention, splits into lines, and records the path.  The resulting
/// buffer is clean and saves back to exactly the given text.
pub fn load_text(text: &Vec<char>, path: Option<Vec<char>>) -> (buf: TextBuffer)
    ensures
        loaded_from(buf, text@),
        serialized(buf) == text@,
        buf.path_sq() == (match path {
            Some(p) => Some::<Seq<char>>(p@),
            None => None::<Seq<char>>,
        }),
        forall|k: int|
            0 <= k < buf.lines_sq().len() ==> line_has_no_break(
                #[trigger] buf.lines_sq()[k],
                buf.ending_spec(),
            ),
        forall|i: int| 0 <= i < buf.gens_sq().len() ==> buf.gens_sq()[i] == 0u64,
{
    let e = detect_ending(text);
    let lines = split_lines(text, e);
    TextBuffer::from_parts(lines, path, e)
}

/// Appends a line's characters to the output.
fn append_chars(out: &mut Vec<char>, src: &Line)
    ensures
        final(out)@ == old(out)@ + src@,
{
    let n = src.len();
    let mut j: usize = 0;
    while j < n
        invariant
            j <= n,
            n == src@.len(),
            out@ == old(out)@ + src@.subrange(0, j as int),
        decreases n - j,
    {
        out.push(src.char_at(j));
        j = j + 1;
        proof {
            assert(old(out)@ + src@.subrange(0, j - 1) + seq![src@[j - 1]] =~= old(out)@
                + src@.subrange(0, j as int));
        }
    }
    proof {
        assert(old(out)@ + src@.subrange(0, n as int) =~= old(out)@ + src@);
    }
}

/// Serializes the buffer's lines with its recorded line-ending
/// convention; the file's bytes are the UTF-8 encoding of the result.
pub fn serialize(buf: &TextBuffer) -> (out: Vec<char>)
    requires
        buf.wf(),
    ensures
        out@ == serialized(*buf),
{
    let ghost sep = sep_of(buf.ending_spec());
    let mut out: Vec<char> = Vec::new();
    let count = buf.line_count();
    append_chars(&mut out, buf.line_at(0));
    proof {
        assert(buf.lines_sq().take(1) =~= seq![buf.lines_sq()[0]]);
        assert(joined_lines(buf.lines_sq().take(1), sep) == buf.lines_sq()[0]);
        assert(Seq::<char>::empty() + buf.lines_sq()[0] =~= buf.lines_sq()[0]);
    }
    let mut k: usize = 1;
    while k < count
        invariant
            1 <= k <= count,
            count == buf.lines_sq().len(),
            buf.wf(),
            sep == sep_of(buf.ending_spec()),
            out@ == joined_lines(buf.lines_sq().take(k as int), sep),
        decreases count - k,
    {
        let ghost before = out@;
        match buf.ending() {
            LineEnding::Lf => {
                out.push('\n');
            },
            LineEnding::CrLf => {
                out.push('\r');
                out.push('\n');
            },
        }
        proof {
            assert(out@ =~= before + sep);
        }
        append_chars(&mut out, buf.line_at(k));
        proof {
            lemma_joined_push(buf.lines_sq().take(k as int), buf.lines_sq()[k as int], sep);
            assert(buf.lines_sq().take(k as int).push(buf.lines_sq()[k as int])
                =~= buf.lines_sq().take(k + 1));
            assert(out@ =~= joined_lines(buf.lines_sq().take(k + 1), sep));
        }
        k = k + 1;
    }
    proof {
        assert(buf.lines_sq().take(count as int) =~= buf.lines_sq());
    }
    out
}

/// Why a save could not even be attempted.
#[derive(Clone, Copy, PartialEq, Eq, Structural, Debug)]
pub enum SaveError {
    /// The buffer has no recorded path to save to.
    NoPath,
}

/// Everything a save needs: the target path and the full serialized
/// text.  The write itself is the caller's: write to a temporary file
/// beside the target and rename over it only on full success.
pub struct SavePlan {
    pub path: Vec<char>,
    pub content: Vec<char>,
}

/// Prepares a save of the buffer to its recorded path.  Fails exactly
/// when no path is set, and reads the buffer without touching it, so
/// a failed save leaves the dirty flag as it was.
pub fn prepare_save(buf: &TextBuffer) -> (r: Result<SavePlan, SaveError>)
    requires
        buf.wf(),
    ensures
        r is Ok <==> buf.path_sq() is Some,
        match r {
            Ok(plan) => {
                &&& buf.path_sq() == Some(plan.path@)
                &&& plan.content@ == serialized(*buf)
            },
            Err(e) => e == SaveError::NoPath,
        },
{
    match buf.path_chars() {
        Some(p) => Ok(SavePlan { path: p, content: serialize(buf) }),
        None => Err(SaveError::NoPath),
    }
}

} // verus!
