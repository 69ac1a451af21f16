//! Syntax highlighting: the styled-span data model, the narrow trusted
//! boundary to the highlighting collaborator, and the generation-stamped
//! per-line cache that keeps per-keystroke cost proportional to the
//! lines touched instead of the file size.

use vstd::prelude::*;

use crate::buffer::{bumped_gen, Line, TextBuffer};

use syntect::highlighting::{Theme, ThemeSet};
use syntect::parsing::{SyntaxReference, SyntaxSet};

verus! {

#[verifier::external_type_specification]
#[verifier::external_body]
pub struct ExSyntaxSet(SyntaxSet);

#[verifier::external_type_specification]
#[verifier::external_body]
pub struct ExSyntaxReference(SyntaxReference);

#[verifier::external_type_specification]
#[verifier::external_body]
pub struct ExTheme(Theme);

#[verifier::external_type_specification]
#[verifier::external_body]
pub struct ExThemeSet(ThemeSet);

/// A color as the terminal renders it.
#[derive(Clone, Copy, PartialEq, Eq, Structural, Debug)]
pub struct Rgba {
    pub r: u8,
    pub g: u8,
    pub b: u8,
    pub a: u8,
}

/// Display attributes of a run of text.  `font` holds the collaborator's
/// font flags: bit 0 bold, bit 1 underline, bit 2 italic.
#[derive(Clone, Copy, PartialEq, Eq, Structural, Debug)]
pub struct TextStyle {
    pub fg: Rgba,
    pub bg: Rgba,
    pub font: u8,
}

impl TextStyle {
    /// The style of unhighlighted text: opaque white on a transparent
    /// background, no font flags.
    pub fn plain() -> (s: TextStyle)
        ensures
            s == (TextStyle {
                fg: Rgba { r: 255u8, g: 255u8, b: 255u8, a: 255u8 },
                bg: Rgba { r: 0u8, g: 0u8, b: 0u8, a: 0u8 },
                font: 0u8,
            }),
    {
        TextStyle {
            fg: Rgba { r: 255, g: 255, b: 255, a: 255 },
            bg: Rgba { r: 0, g: 0, b: 0, a: 0 },
            font: 0,
        }
    }
}

/// What a styled span is: a run of text with one style.
pub ghost struct SpanView {
    pub style: TextStyle,
    pub text: Seq<char>,
}

/// A run of text tagged with the display attributes it is drawn with.
#[derive(Debug)]
pub struct StyledSpan {
    pub style: TextStyle,
    pub text: Vec<char>,
}

impl View for StyledSpan {
    type V = SpanView;

    open spec fn view(&self) -> SpanView {
        SpanView { style: self.style, text: self.text@ }
    }
}

impl StyledSpan {
    /// Assembles a span from the parts of a collaborator style and the
    /// span's text.
    pub fn from_parts(
        f_r: u8,
        f_g: u8,
        f_b: u8,
        f_a: u8,
        b_r: u8,
        b_g: u8,
        b_b: u8,
        b_a: u8,
        font: u8,
        text: Vec<char>,
    ) -> (s: StyledSpan)
        ensures
            s@ == (SpanView {
                style: TextStyle {
                    fg: Rgba { r: f_r, g: f_g, b: f_b, a: f_a },
                    bg: Rgba { r: b_r, g: b_g, b: b_b, a: b_a },
                    font,
                },
                text: text@,
            }),
    {
        StyledSpan {
            style: TextStyle {
                fg: Rgba { r: f_r, g: f_g, b: f_b, a: f_a },
                bg: Rgba { r: b_r, g: b_g, b: b_b, a: b_a },
                font,
            },
            text,
        }
    }

    /// A fresh span with the same style and text.
    pub fn duplicate(&self) -> (s: StyledSpan)
        ensures
            s@ == self@,
    {
        let mut text: Vec<char> = Vec::new();
        let mut i: usize = 0;
        while i < self.text.len()
            invariant
                i <= self.text.len(),
                text@ == self.text@.subrange(0, i as int),
            decreases self.text.len() - i,
        {
            text.push(self.text[i]);
            i = i + 1;
            proof {
                assert(text@ =~= self.text@.subrange(0, i as int));
            }
        }
        proof {
            assert(text@ =~= self.text@);
        }
        StyledSpan { style: self.style, text }
    }
}

/// The views of a row of spans.
pub open spec fn span_views(spans: Seq<StyledSpan>) -> Seq<SpanView> {
    spans.map_values(|s: StyledSpan| s@)
}

/// The text the spans spell out, in order.
pub open spec fn spans_text(spans: Seq<SpanView>) -> Seq<char>
    decreases spans.len(),
{
    if spans.len() == 0 {
        Seq::empty()
    } else {
        spans[0].text + spans_text(spans.skip(1))
    }
}

/// Everything a highlight call needs: the loaded syntax definitions,
/// the syntax picked for the document, and the theme.
pub struct HighlightContext {
    set: SyntaxSet,
    syntax: SyntaxReference,
    theme: Theme,
}

/// Relies on syntect::parsing::SyntaxSet::load_defaults_newlines: the
/// bundled syntax definitions, deserialized from data embedded in the
/// collaborator crate.
#[verifier::external_body]
fn load_default_syntaxes() -> SyntaxSet {
    SyntaxSet::load_defaults_newlines()
}

/// Relies on syntect::highlighting::ThemeSet::load_defaults: the
/// bundled themes, deserialized from data embedded in the collaborator
/// crate.
#[verifier::external_body]
fn load_default_themes() -> ThemeSet {
    ThemeSet::load_defaults()
}

/// Relies on syntect::parsing::SyntaxSet::find_syntax_by_extension:
/// picks the syntax whose file extensions include the given one, if
/// any; the reference is cloned out of the set.
#[verifier::external_body]
fn syntax_for_extension(set: &SyntaxSet, ext: &str) -> Option<SyntaxReference> {
    match set.find_syntax_by_extension(ext) {
        Some(s) => Some(s.clone()),
        None => None,
    }
}

/// Relies on std::collections::BTreeMap::get over ThemeSet's public
/// theme map: looks the theme up by name; the theme is cloned out.
#[verifier::external_body]
fn theme_named(themes: &ThemeSet, name: &str) -> Option<Theme> {
    match themes.themes.get(name) {
        Some(t) => Some(t.clone()),
        None => None,
    }
}

/// Relies on syntect::easy::HighlightLines (new, highlight_line): one
/// line of text goes in, styled regions of that line come out, and the
/// concatenation of the regions' text is documented to reproduce the
/// input line exactly.  A parse failure comes back as None.
#[verifier::external_body]
fn highlight_with(ctx: &HighlightContext, line: &Line) -> (r: Option<Vec<StyledSpan>>)
    ensures
        match r {
            Some(spans) => spans_text(span_views(spans@)) == line@,
            None => true,
        },
{
    let text: String = line.chars_vec().iter().collect();
    let mut hl = syntect::easy::HighlightLines::new(&ctx.syntax, &ctx.theme);
    match hl.highlight_line(&text, &ctx.set) {
        Ok(ranges) => Some(
            ranges.iter().map(|(s, t)| StyledSpan::from_parts(
                s.foreground.r, s.foreground.g, s.foreground.b, s.foreground.a,
                s.background.r, s.background.g, s.background.b, s.background.a,
                s.font_style.bits(), t.chars().collect(),
            )).collect(),
        ),
        Err(_) => None,
    }
}

impl HighlightContext {
    /// Loads the bundled syntaxes and themes and picks the syntax for
    /// a file extension and the theme by name.  None when either the
    /// extension or the theme name is unknown; the editor then renders
    /// plain spans.
    pub fn for_extension(ext: &str, theme_name: &str) -> (r: Option<HighlightContext>) {
        let set = load_default_syntaxes();
        let syntax = syntax_for_extension(&set, ext);
        match syntax {
            Some(syntax) => {
                let themes = load_default_themes();
                match theme_named(&themes, theme_name) {
                    Some(theme) => Some(HighlightContext { set, syntax, theme }),
                    None => None,
                }
            },
            None => None,
        }
    }
}

/// One whole line as a single unhighlighted span.
pub fn plain_spans(line: &Line) -> (spans: Vec<StyledSpan>)
    ensures
        span_views(spans@).len() == 1,
        spans_text(span_views(spans@)) == line@,
        span_views(spans@)[0].style == (TextStyle {
            fg: Rgba { r: 255u8, g: 255u8, b: 255u8, a: 255u8 },
            bg: Rgba { r: 0u8, g: 0u8, b: 0u8, a: 0u8 },
            font: 0u8,
        }),
{
    let text = line.to_chars();
    let mut spans: Vec<StyledSpan> = Vec::new();
    spans.push(StyledSpan { style: TextStyle::plain(), text });
    proof {
        assert(span_views(spans@).skip(1) =~= Seq::<SpanView>::empty());
        assert(spans_text(Seq::<SpanView>::empty()) == Seq::<char>::empty());
        assert(span_views(spans@)[0].text == line@);
        assert(spans_text(span_views(spans@)) =~= line@);
    }
    spans
}

/// A fresh copy of a row of spans, view for view.
fn copy_spans(spans: &Vec<StyledSpan>) -> (r: Vec<StyledSpan>)
    ensures
        span_views(r@) == span_views(spans@),
{
    let mut r: Vec<StyledSpan> = Vec::new();
    let mut i: usize = 0;
    while i < spans.len()
        invariant
            i <= spans.len(),
            r@.len() == i,
            forall|k: int| 0 <= k < i ==> r@[k]@ == spans@[k]@,
        decreases spans.len() - i,
    {
        r.push(spans[i].duplicate());
        i = i + 1;
    }
    proof {
        assert(span_views(r@) =~= span_views(spans@));
    }
    r
}

/// One cached line: the spans computed for it and the buffer edit
/// counter they were computed at.
pub struct CacheEntry {
    pub generation: u64,
    pub spans: Vec<StyledSpan>,
}

/// The per-line cache of computed spans.  An entry is valid only while
/// its stored generation matches the buffer's edit counter for that
/// line; `recompute_count` says how many times the collaborator has
/// been called.
pub struct HighlightCache {
    entries: Vec<Option<CacheEntry>>,
    recomputes: u64,
}

impl HighlightCache {
    pub closed spec fn entries_sq(&self) -> Seq<Option<CacheEntry>> {
        self.entries@
    }

    pub closed spec fn recompute_count(&self) -> u64 {
        self.recomputes
    }

    /// The cache holds spans for `row` computed at the line's current
    /// edit counter.
    pub open spec fn entry_fresh(&self, gens: Seq<u64>, row: int) -> bool {
        &&& 0 <= row < self.entries_sq().len()
        &&& self.entries_sq()[row] is Some
        &&& self.entries_sq()[row].unwrap().generation == gens[row]
    }

    /// The views of the spans cached for `row`.
    pub open spec fn entry_spans(&self, row: int) -> Seq<SpanView> {
        span_views(self.entries_sq()[row].unwrap().spans@)
    }

    pub fn new() -> (c: HighlightCache)
        ensures
            c.entries_sq() == Seq::<Option<CacheEntry>>::empty(),
            c.recompute_count() == 0,
    {
        HighlightCache { entries: Vec::new(), recomputes: 0 }
    }

    /// How many times the collaborator has been asked to highlight a
    /// line so far.
    pub fn recomputes_so_far(&self) -> (n: u64)
        ensures
            n == self.recompute_count(),
    {
        self.recomputes
    }

    /// Drops the cached spans for one line.
    pub fn invalidate(&mut self, row: usize)
        ensures
            final(self).recompute_count() == old(self).recompute_count(),
            (row as int) < old(self).entries_sq().len() ==> final(self).entries_sq() == old(
                self,
            ).entries_sq().update(row as int, None::<CacheEntry>),
            (row as int) >= old(self).entries_sq().len() ==> *final(self) == *old(self),
    {
        if row < self.entries.len() {
            let slot = &mut self.entries[row];
            *slot = None;
        }
    }

    /// Drops the cached spans for `row` and every line after it,
    /// as line identities shift when a line is split or joined.
    pub fn invalidate_from(&mut self, row: usize)
        ensures
            final(self).recompute_count() == old(self).recompute_count(),
            (row as int) <= old(self).entries_sq().len() ==> final(self).entries_sq() == old(
                self,
            ).entries_sq().take(row as int),
            (row as int) > old(self).entries_sq().len() ==> final(self).entries_sq() == old(
                self,
            ).entries_sq(),
    {
        self.entries.truncate(row);
    }

    /// The spans for line `row`, from the cache when its generation
    /// matches the buffer's edit counter for that line, otherwise
    /// recomputed through the collaborator (or as a plain span when no
    /// context is available or the collaborator fails) and stored at
    /// the current counter.  A fresh hit leaves the cache untouched
    /// and triggers no recomputation.
    pub fn spans_for(&mut self, buf: &TextBuffer, row: usize, ctx: Option<&HighlightContext>)
        -> (spans: Vec<StyledSpan>)
        requires
            buf.wf(),
            row < buf.lines_sq().len(),
        ensures
            old(self).entry_fresh(buf.gens_sq(), row as int) ==> {
                &&& *final(self) == *old(self)
                &&& span_views(spans@) == old(self).entry_spans(row as int)
            },
            !old(self).entry_fresh(buf.gens_sq(), row as int) ==> {
                &&& spans_text(span_views(spans@)) == buf.lines_sq()[row as int]
                &&& final(self).recompute_count() == bumped_gen(old(self).recompute_count())
                &&& final(self).entry_fresh(buf.gens_sq(), row as int)
                &&& final(self).entry_spans(row as int) == span_views(spans@)
                &&& final(self).entries_sq().len() == (if old(self).entries_sq().len() > row {
                    old(self).entries_sq().len() as int
                } else {
                    row + 1
                })
                &&& forall|k: int|
                    0 <= k < old(self).entries_sq().len() && k != row
                        ==> final(self).entries_sq()[k] == old(self).entries_sq()[k]
                &&& forall|k: int|
                    old(self).entries_sq().len() <= k < final(self).entries_sq().len() && k != row
                        ==> final(self).entries_sq()[k] is None
            },
    {
        let generation = buf.gen_of(row);
        let mut fresh: Option<Vec<StyledSpan>> = None;
        if row < self.entries.len() {
            match &self.entries[row] {
                Some(e) => {
                    if e.generation == generation {
                        fresh = Some(copy_spans(&e.spans));
                    }
                },
                None => {},
            }
        }
        match fresh {
            Some(spans) => spans,
            None => {
                let line = buf.line_at(row);
                let computed: Vec<StyledSpan> = match ctx {
                    Some(c) => {
                        match highlight_with(c, line) {
                            Some(v) => v,
                            None => plain_spans(line),
                        }
                    },
                    None => plain_spans(line),
                };
                while self.entries.len() <= row
                    invariant
                        self.entries@.len() >= old(self).entries_sq().len(),
                        old(self).entries_sq().len() > row ==> self.entries@.len() == old(
                            self,
                        ).entries_sq().len(),
                        old(self).entries_sq().len() <= row ==> self.entries@.len() <= row + 1,
                        self.recomputes == old(self).recomputes,
                        forall|k: int|
                            0 <= k < old(self).entries_sq().len() ==> self.entries@[k] == old(
                                self,
                            ).entries_sq()[k],
                        forall|k: int|
                            old(self).entries_sq().len() <= k < self.entries@.len()
                                ==> self.entries@[k] is None,
                    decreases row + 1 - self.entries@.len(),
                {
                    self.entries.push(None);
                }
                let stored = copy_spans(&computed);
                let slot = &mut self.entries[row];
                *slot = Some(CacheEntry { generation, spans: stored });
                self.recomputes = if self.recomputes == u64::MAX {
                    u64::MAX
                } else {
                    self.recomputes + 1
                };
                computed
            },
        }
    }

    /// Generation isolation: an edit that bumps one line's counter
    /// leaves a cache entry for any other line fresh, so `spans_for`
    /// on the other line keeps returning the cached spans without any
    /// recomputation.
    pub proof fn lemma_generation_isolation(
        &self,
        pre: Seq<u64>,
        post: Seq<u64>,
        edited: int,
        row: int,
    )
        requires
            0 <= edited < pre.len(),
            post == pre.update(edited, bumped_gen(pre[edited])),
            0 <= row < pre.len(),
            row != edited,
            self.entry_fresh(pre, row),
        ensures
            self.entry_fresh(post, row),
    {
    }
}

} // verus!
