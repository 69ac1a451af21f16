//! Render planning: the renderer remembers the visible rows it last
//! drew, and on each cycle emits either a full-window redraw (after a
//! scroll or a resize of the visible set) or exactly the rows whose
//! content changed.  The cursor glyph is always derived from the
//! cursor and the viewport, never tracked on its own.

use vstd::prelude::*;

use crate::cursor::Cursor;
use crate::highlight::{span_views, SpanView, StyledSpan};
use crate::viewport::Viewport;

verus! {

/// The views of a sequence of span rows.
pub open spec fn rows_views(rows: Seq<Vec<StyledSpan>>) -> Seq<Seq<SpanView>> {
    rows.map_values(|r: Vec<StyledSpan>| span_views(r@))
}

/// Character-for-character equality of two texts.
fn chars_eq(a: &Vec<char>, b: &Vec<char>) -> (r: bool)
    ensures
        r == (a@ == b@),
{
    if a.len() != b.len() {
        return false;
    }
    let mut i: usize = 0;
    while i < a.len()
        invariant
            i <= a.len(),
            a@.len() == b@.len(),
            forall|j: int| 0 <= j < i ==> a@[j] == b@[j],
        decreases a.len() - i,
    {
        if a[i] != b[i] {
            return false;
        }
        i = i + 1;
    }
    proof {
        assert(a@ =~= b@);
    }
    true
}

/// View equality of two spans: same style, same text.
fn span_eq(a: &StyledSpan, b: &StyledSpan) -> (r: bool)
    ensures
        r == (a@ == b@),
{
    if a.style == b.style {
        chars_eq(&a.text, &b.text)
    } else {
        false
    }
}

/// View equality of two rows of spans.
fn spans_row_eq(a: &Vec<StyledSpan>, b: &Vec<StyledSpan>) -> (r: bool)
    ensures
        r == (span_views(a@) == span_views(b@)),
{
    if a.len() != b.len() {
        proof {
            assert(span_views(a@).len() != span_views(b@).len());
        }
        return false;
    }
    let mut i: usize = 0;
    while i < a.len()
        invariant
            i <= a.len(),
            a@.len() == b@.len(),
            forall|j: int| 0 <= j < i ==> a@[j]@ == b@[j]@,
        decreases a.len() - i,
    {
        if !span_eq(&a[i], &b[i]) {
            proof {
                assert(span_views(a@)[i as int] != span_views(b@)[i as int]);
            }
            return false;
        }
        i = i + 1;
    }
    proof {
        assert(span_views(a@) =~= span_views(b@));
    }
    true
}

/// A fresh copy of a row of spans, view for view.
fn copy_row(src: &Vec<StyledSpan>) -> (r: Vec<StyledSpan>)
    ensures
        span_views(r@) == span_views(src@),
{
    let mut r: Vec<StyledSpan> = Vec::new();
    let mut i: usize = 0;
    while i < src.len()
        invariant
            i <= src.len(),
            r@.len() == i,
            forall|k: int| 0 <= k < i ==> r@[k]@ == src@[k]@,
        decreases src.len() - i,
    {
        r.push(src[i].duplicate());
        i = i + 1;
    }
    proof {
        assert(span_views(r@) =~= span_views(src@));
    }
    r
}

/// What the terminal must be told this cycle: clear and redraw the
/// whole window, or redraw just the listed window-relative rows.
pub struct RenderPlan {
    pub full: bool,
    pub rows: Vec<usize>,
}

/// Remembers the visible rows as they were last drawn and diffs the
/// current visible rows against them.
pub struct Renderer {
    prev: Vec<Vec<StyledSpan>>,
}

impl Renderer {
    /// The rows as last drawn.
    pub closed spec fn prev_views(&self) -> Seq<Seq<SpanView>> {
        rows_views(self.prev@)
    }

    /// A renderer that has drawn nothing yet.
    pub fn new() -> (r: Renderer)
        ensures
            r.prev_views() == Seq::<Seq<SpanView>>::empty(),
    {
        let r = Renderer { prev: Vec::new() };
        proof {
            assert(r.prev_views() =~= Seq::<Seq<SpanView>>::empty());
        }
        r
    }

    /// Diffs the current visible rows against the previous ones and
    /// remembers the current ones.  A scroll, or a change in how many
    /// rows are visible, forces a full redraw; otherwise the plan
    /// lists exactly the rows whose content changed, in order.
    pub fn plan(&mut self, visible: &Vec<Vec<StyledSpan>>, scrolled: bool) -> (p: RenderPlan)
        ensures
            final(self).prev_views() == rows_views(visible@),
            p.full == (scrolled || visible@.len() != old(self).prev_views().len()),
            !p.full ==> {
                &&& forall|i: usize|
                    (i as int) < visible@.len() ==> (p.rows@.contains(i) <==> span_views(
                        #[trigger] visible@[i as int]@,
                    ) != old(self).prev_views()[i as int])
                &&& forall|k: int| 0 <= k < p.rows@.len() ==> (#[trigger] p.rows@[k] as int)
                    < visible@.len()
                &&& forall|k1: int, k2: int|
                    0 <= k1 < k2 < p.rows@.len() ==> p.rows@[k1] < p.rows@[k2]
            },
            p.full ==> p.rows@.len() == 0,
    {
        let mut full = scrolled;
        if visible.len() != self.prev.len() {
            full = true;
        }
        let mut rows: Vec<usize> = Vec::new();
        if !full {
            let mut i: usize = 0;
            while i < visible.len()
                invariant
                    i <= visible@.len(),
                    visible@.len() == self.prev@.len(),
                    self == old(self),
                    forall|j: usize|
                        (j as int) < i ==> (rows@.contains(j) <==> span_views(
                            #[trigger] visible@[j as int]@,
                        ) != old(self).prev_views()[j as int]),
                    forall|k: int| 0 <= k < rows@.len() ==> (#[trigger] rows@[k] as int) < i,
                    forall|k1: int, k2: int|
                        0 <= k1 < k2 < rows@.len() ==> rows@[k1] < rows@[k2],
                decreases visible@.len() - i,
            {
                let ghost before = rows@;
                let differs = !spans_row_eq(&visible[i], &self.prev[i]);
                if differs {
                    rows.push(i);
                }
                proof {
                    if differs {
                        assert(rows@ == before.push(i));
                        assert(rows@[before.len() as int] == i);
                        assert(rows@.contains(i));
                        assert forall|j: usize| (j as int) < i implies (rows@.contains(j)
                            <==> before.contains(j)) by {
                            if rows@.contains(j) {
                                let k = choose|k: int| 0 <= k < rows@.len() && rows@[k] == j;
                                assert(k < before.len());
                                assert(before[k] == j);
                            }
                            if before.contains(j) {
                                let k = choose|k: int| 0 <= k < before.len() && before[k] == j;
                                assert(rows@[k] == j);
                            }
                        }
                    } else {
                        if rows@.contains(i) {
                            let k = choose|k: int| 0 <= k < rows@.len() && rows@[k] == i;
                            assert((rows@[k] as int) < i);
                        }
                        assert(!rows@.contains(i));
                    }
                }
                i = i + 1;
            }
        }
        let mut stored: Vec<Vec<StyledSpan>> = Vec::new();
        let mut i: usize = 0;
        while i < visible.len()
            invariant
                i <= visible@.len(),
                stored@.len() == i,
                forall|k: int|
                    0 <= k < i ==> span_views(#[trigger] stored@[k]@) == span_views(
                        visible@[k]@,
                    ),
            decreases visible@.len() - i,
        {
            stored.push(copy_row(&visible[i]));
            i = i + 1;
        }
        self.prev = stored;
        proof {
            assert(self.prev_views() =~= rows_views(visible@));
        }
        RenderPlan { full, rows }
    }
}

/// Where the cursor glyph sits on screen, in window-relative
/// coordinates: always derived from the cursor and the viewport.
pub fn cursor_glyph(cursor: Cursor, viewport: Viewport) -> (g: (usize, usize))
    requires
        viewport.contains(cursor.row),
    ensures
        g.0 == cursor.row - viewport.begin_row,
        g.1 == cursor.col,
{
    (cursor.row - viewport.begin_row, cursor.col)
}

/// The rows of the document that are actually on screen:
/// `begin .. end`, the window clamped to the document's length.
pub fn visible_range(viewport: &Viewport, line_count: usize) -> (r: (usize, usize))
    requires
        viewport.wf(),
        viewport.begin_row < line_count,
    ensures
        r.0 == viewport.begin_row,
        r.1 == (if viewport.begin_row + viewport.height <= line_count {
            viewport.begin_row + viewport.height
        } else {
            line_count as int
        }),
        r.0 < r.1 <= line_count,
        r.1 - r.0 <= viewport.height,
{
    let avail = line_count - viewport.begin_row;
    if avail <= viewport.height {
        (viewport.begin_row, line_count)
    } else {
        (viewport.begin_row, viewport.begin_row + viewport.height)
    }
}

} // verus!
