//! One editing session: the editor core, the highlight cache, the
//! highlight context and the renderer, driven one input event at a
//! time.  Each cycle runs to completion — resolve, apply, invalidate,
//! recompute the visible spans, plan the redraw — before the next
//! event is looked at.

use vstd::prelude::*;

use crate::buffer::TextBuffer;
use crate::dispatch::{
    apply_invalidation, apply_rel, neutral_outcome, resolved_command, ApplyOutcome, Editor,
    InputEvent,
};
use crate::highlight::{HighlightCache, HighlightContext, StyledSpan};
use crate::render::{cursor_glyph, visible_range, RenderPlan, Renderer};
use crate::viewport::Viewport;
use crate::cursor::Cursor;
use crate::dispatch::EditorMode;

verus! {

/// The first document row past the window: the window's lower edge
/// clamped to the document's length.
pub open spec fn visible_end(e: Editor) -> int {
    let count = e.buffer.lines_sq().len() as int;
    if e.viewport.begin_row + e.viewport.height <= count {
        e.viewport.begin_row + e.viewport.height
    } else {
        count
    }
}

/// What one dispatch cycle hands back to the terminal loop: the
/// command's outcome (save request, quit, scroll), the redraw plan,
/// and the window-relative cursor glyph position.
pub struct CycleResult {
    pub outcome: ApplyOutcome,
    pub plan: RenderPlan,
    pub glyph_row: usize,
    pub glyph_col: usize,
}

/// The state of one open buffer being edited.
pub struct EditorSession {
    pub editor: Editor,
    pub cache: HighlightCache,
    pub context: Option<HighlightContext>,
    pub renderer: Renderer,
}

impl EditorSession {
    /// A session over a loaded (or empty) buffer, with a window of the
    /// given height and an optional highlight context.
    pub fn new(buffer: TextBuffer, height: usize, context: Option<HighlightContext>) -> (s:
        EditorSession)
        requires
            buffer.wf(),
            height >= 1,
        ensures
            s.editor.wf(),
            s.editor.buffer == buffer,
            s.editor.cursor == (Cursor { row: 0usize, col: 0usize }),
            s.editor.viewport == (Viewport { begin_row: 0usize, height }),
            s.editor.mode == EditorMode::Editing,
            s.cache.recompute_count() == 0,
    {
        EditorSession {
            editor: Editor::new(buffer, height),
            cache: HighlightCache::new(),
            context,
            renderer: Renderer::new(),
        }
    }

    /// One full cycle: resolve the event, apply its command, drop the
    /// cache lines the command made stale, bring every visible row's
    /// spans up to date, and diff them against what was last drawn.
    pub fn handle_event(&mut self, ev: InputEvent) -> (res: CycleResult)
        requires
            old(self).editor.wf(),
        ensures
            final(self).editor.wf(),
            match resolved_command(ev) {
                Some(cmd) => apply_rel(old(self).editor, cmd, final(self).editor, res.outcome),
                None => final(self).editor == old(self).editor && res.outcome
                    == neutral_outcome(),
            },
            res.glyph_row == final(self).editor.cursor.row
                - final(self).editor.viewport.begin_row,
            res.glyph_col == final(self).editor.cursor.col,
            forall|r: int|
                final(self).editor.viewport.begin_row <= r < visible_end(final(self).editor)
                    ==> final(self).cache.entry_fresh(final(self).editor.buffer.gens_sq(), r),
            final(self).renderer.prev_views().len() == visible_end(final(self).editor)
                - final(self).editor.viewport.begin_row,
            forall|k: int|
                0 <= k < final(self).renderer.prev_views().len()
                    ==> final(self).renderer.prev_views()[k] == final(self).cache.entry_spans(
                    final(self).editor.viewport.begin_row + k,
                ),
            res.plan.full == (res.outcome.scrolled || visible_end(final(self).editor)
                - final(self).editor.viewport.begin_row != old(self).renderer.prev_views().len()),
            !res.plan.full ==> forall|i: usize|
                (i as int) < final(self).renderer.prev_views().len() ==> (#[trigger] res.plan.rows@.contains(
                    i,
                ) <==> final(self).cache.entry_spans(
                    final(self).editor.viewport.begin_row + i,
                ) != old(self).renderer.prev_views()[i as int]),
    {
        let out = self.editor.dispatch(ev);
        apply_invalidation(&mut self.cache, out.invalidation);
        let ghost ed = self.editor;
        let count = self.editor.buffer.line_count();
        let (begin, end) = visible_range(&self.editor.viewport, count);
        let mut visible: Vec<Vec<StyledSpan>> = Vec::new();
        let mut r = begin;
        while r < end
            invariant
                begin <= r <= end,
                self.editor == ed,
                self.context == old(self).context,
                self.renderer == old(self).renderer,
                ed.wf(),
                begin == ed.viewport.begin_row,
                end == visible_end(ed),
                visible@.len() == r - begin,
                forall|q: int|
                    begin <= q < r ==> self.cache.entry_fresh(ed.buffer.gens_sq(), q),
                forall|k: int|
                    0 <= k < visible@.len() ==> crate::highlight::span_views(
                        #[trigger] visible@[k]@,
                    ) == self.cache.entry_spans(begin + k),
            decreases end - r,
        {
            let ghost pre_cache = self.cache;
            let ghost pre_visible = visible@;
            let spans = self.cache.spans_for(&self.editor.buffer, r, self.context.as_ref());
            proof {
                if !pre_cache.entry_fresh(ed.buffer.gens_sq(), r as int) {
                    assert forall|q: int| begin <= q < r implies self.cache.entry_fresh(
                        ed.buffer.gens_sq(),
                        q,
                    ) by {
                        assert(pre_cache.entry_fresh(ed.buffer.gens_sq(), q));
                        assert(0 <= q < pre_cache.entries_sq().len());
                        assert(q != r as int);
                        assert(self.cache.entries_sq()[q] == pre_cache.entries_sq()[q]);
                    }
                    assert forall|k: int| 0 <= k < pre_visible.len() implies #[trigger] self.cache.entry_spans(
                        begin + k,
                    ) == pre_cache.entry_spans(begin + k) by {
                        assert(pre_cache.entry_fresh(ed.buffer.gens_sq(), begin + k));
                        assert(0 <= begin + k < pre_cache.entries_sq().len());
                        assert(begin + k != r as int);
                        assert(self.cache.entries_sq()[begin + k] == pre_cache.entries_sq()[begin
                            + k]);
                    }
                }
            }
            visible.push(spans);
            r = r + 1;
        }
        let plan = self.renderer.plan(&visible, out.scrolled);
        let (glyph_row, glyph_col) = cursor_glyph(self.editor.cursor, self.editor.viewport);
        proof {
            assert(crate::render::rows_views(visible@).len() == end - begin);
            assert forall|k: int| 0 <= k < visible@.len() implies crate::render::rows_views(
                visible@,
            )[k] == self.cache.entry_spans(begin + k) by {
                assert(crate::render::rows_views(visible@)[k] == crate::highlight::span_views(
                    visible@[k]@,
                ));
            }
            if !plan.full {
                assert forall|i: usize| (i as int) < visible@.len() implies (
                #[trigger] plan.rows@.contains(i) <==> self.cache.entry_spans(begin + i) != old(
                    self,
                ).renderer.prev_views()[i as int]) by {
                    assert(crate::highlight::span_views(visible@[i as int]@)
                        == self.cache.entry_spans(begin + i));
                }
            }
        }
        CycleResult { outcome: out, plan, glyph_row, glyph_col }
    }
}

} // verus!
