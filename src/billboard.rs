//! Boxes of styled text: deterministic per-character layout, and hit-testing.
//!
//! Coordinates are milli-pixels. The layout is a pure function of the billboard; a
//! wave's vertical offset depends on the time, so hit-testing takes it per entry.
use crate::color::Color;
use crate::markup::{
    copy_range, lemma_spans_total_mono, markup_in_range, markup_spec, parse_markup, span_view,
    spans_total, spans_view, Font, Markup, MarkupError, TextSpan, Wave,
};
use crate::number::MAX_MILLI;
use vstd::prelude::*;
use vstd::string::StringSliceAdditionalSpecFns;

verus! {

/// Number of glyph slots in a font: the printable ASCII characters and one
/// non-printing glyph.
pub const CHARACTER_COUNT: usize = 96;

/// The glyph slot drawn for bytes outside printable ASCII.
pub const NON_PRINTING_SLOT: i64 = 95;

/// Most characters a billboard lays out.
pub const MAX_CHARS: usize = 1_000_000;

/// Bound on any coordinate that a layout produces.
pub const MAX_COORD: i64 = 4_000_000_000_000_000_000;

#[derive(Clone, Copy, Debug, PartialEq, Eq, Structural)]
pub struct Point {
    pub x: i64,
    pub y: i64,
}

/// An axis-aligned rectangle: upper-left corner, width and height.
#[derive(Clone, Copy, Debug, PartialEq, Eq, Structural)]
pub struct Rect {
    pub x: i64,
    pub y: i64,
    pub w: i64,
    pub h: i64,
}

/// One byte of a billboard, placed.
#[derive(Clone, Copy, Debug, PartialEq, Eq, Structural)]
pub struct CharEntry {
    pub ch: u8,
    /// Where the glyph lies in the font texture.
    pub src: Rect,
    /// Where the glyph is drawn, before any wave offset.
    pub dest: Rect,
    pub color: Color,
    pub font: Font,
    pub wave: Option<Wave>,
    /// Which span the byte is in.
    pub span_idx: usize,
    /// And its index in that span.
    pub char_idx: usize,
}

/// A box for drawing text and possibly user interaction.
#[derive(Clone, Debug)]
pub struct Billboard {
    /// All the pieces of text to be drawn.
    pub text: Vec<TextSpan>,
    /// The position of the upper-left corner of the billboard.
    pub pos: Point,
    /// The offset the lower-left corner of the first character has from
    /// the upper-left corner of the billboard.
    pub offset: Point,
    /// Which nine-patch texture the background is drawn with.
    pub patch9: u32,
    /// The size of a background tile.
    pub tile_size: i64,
    /// The width in tiles of the billboard.
    pub width: usize,
    /// The height in tiles of the billboard.
    pub height: usize,
}

/// The glyph slot of a byte.
pub open spec fn glyph_slot(b: u8) -> int {
    if 0x20 <= b <= 0x7e {
        b - 0x20
    } else {
        NON_PRINTING_SLOT as int
    }
}

/// The cursor after the byte `b` drawn with markup `m`; a newline returns to `sideline`.
pub open spec fn advance(c: (int, int), sideline: int, b: u8, m: Markup) -> (int, int) {
    if b == 0x0a {
        (sideline, c.1 + m.font.glyph_height + m.vert_space)
    } else {
        (c.0 + m.font.glyph_width + m.kerning, c.1)
    }
}

/// The cursor before byte `ci` of span `si`, the layout starting at `start`.
pub open spec fn cursor_at(spans: Seq<TextSpan>, start: (int, int), si: int, ci: int) -> (
    int,
    int,
)
    decreases si, ci,
{
    if si < 0 || ci < 0 || (si == 0 && ci == 0) {
        start
    } else if ci > 0 {
        advance(
            cursor_at(spans, start, si, ci - 1),
            start.0,
            spans[si].text@[ci - 1],
            spans[si].markup,
        )
    } else {
        cursor_at(spans, start, si - 1, spans[si - 1].text@.len() as int)
    }
}

/// The entry of byte `ci` of span `si`.
pub open spec fn entry_spec(spans: Seq<TextSpan>, start: (int, int), si: int, ci: int) -> CharEntry {
    let c = cursor_at(spans, start, si, ci);
    let m = spans[si].markup;
    let b = spans[si].text@[ci];
    let w = m.font.glyph_width;
    let h = m.font.glyph_height;
    CharEntry {
        ch: b,
        src: Rect { x: (glyph_slot(b) * w) as i64, y: 0, w, h },
        dest: Rect { x: c.0 as i64, y: (c.1 - h) as i64, w, h },
        color: m.color,
        font: m.font,
        wave: m.wave,
        span_idx: si as usize,
        char_idx: ci as usize,
    }
}

/// The entries of the first `n` spans, in order.
pub open spec fn layout_upto(spans: Seq<TextSpan>, start: (int, int), n: int) -> Seq<CharEntry>
    decreases n,
{
    if n <= 0 {
        Seq::empty()
    } else {
        layout_upto(spans, start, n - 1) + Seq::new(
            spans[n - 1].text@.len(),
            |ci: int| entry_spec(spans, start, n - 1, ci),
        )
    }
}

/// Whether entry `e`, moved down by `dy`, lies within `tol` of the point `p`.
/// A newline is never hit.
pub open spec fn hit_spec(e: CharEntry, dy: int, p: Point, tol: int) -> bool {
    &&& e.ch != 0x0a
    &&& e.dest.x - tol <= p.x <= e.dest.x + e.dest.w + tol
    &&& e.dest.y + dy - tol <= p.y <= e.dest.y + dy + e.dest.h + tol
}

/// Whether `p` lies on the border of the cell of `e` moved down by `dy`.
pub open spec fn on_cell_border(e: CharEntry, dy: int, p: Point) -> bool {
    let top = e.dest.y + dy;
    ||| (p.x == e.dest.x || p.x == e.dest.x + e.dest.w) && top <= p.y <= top + e.dest.h
    ||| (p.y == top || p.y == top + e.dest.h) && e.dest.x <= p.x <= e.dest.x + e.dest.w
}

/// Whether `p` is farther than `tol` from the cell of `e` moved down by `dy`, along
/// one axis or the other.
pub open spec fn beyond_tolerance(e: CharEntry, dy: int, p: Point, tol: int) -> bool {
    let top = e.dest.y + dy;
    ||| p.x < e.dest.x - tol || p.x > e.dest.x + e.dest.w + tol
    ||| p.y < top - tol || p.y > top + e.dest.h + tol
}

/// A point on the border of a character's cell is hit when the tolerance is not
/// negative; a point farther than the tolerance from the cell is missed.
pub proof fn lemma_hit_tolerance(e: CharEntry, dy: int, p: Point, tol: int)
    requires
        e.ch != 0x0a,
        e.dest.w >= 0,
        e.dest.h >= 0,
    ensures
        tol >= 0 && on_cell_border(e, dy, p) ==> hit_spec(e, dy, p, tol),
        beyond_tolerance(e, dy, p, tol) ==> !hit_spec(e, dy, p, tol),
{
}

/// The index of the first entry from `k` on that is hit, if any.
pub open spec fn first_hit(entries: Seq<CharEntry>, offsets: Seq<i64>, p: Point, tol: int, k: int) -> Option<int>
    decreases entries.len() - k,
{
    if k < 0 || k >= entries.len() {
        None
    } else if hit_spec(entries[k], offsets[k] as int, p, tol) {
        Some(k)
    } else {
        first_hit(entries, offsets, p, tol, k + 1)
    }
}

/// The character under `p`: `(span index, char index, byte)` of the first entry hit.
pub open spec fn char_at_spec(entries: Seq<CharEntry>, offsets: Seq<i64>, p: Point, tol: int) -> Option<(usize, usize, u8)> {
    match first_hit(entries, offsets, p, tol, 0) {
        Some(k) => Some((entries[k].span_idx, entries[k].char_idx, entries[k].ch)),
        None => None,
    }
}

/// The first hit from `k` on is hit, and no entry between `k` and it is.
pub proof fn lemma_first_hit(entries: Seq<CharEntry>, offsets: Seq<i64>, p: Point, tol: int, k: int)
    requires
        0 <= k <= entries.len(),
    ensures
        first_hit(entries, offsets, p, tol, k) is None <==> forall|j: int|
            k <= j < entries.len() ==> !hit_spec(#[trigger] entries[j], offsets[j] as int, p, tol),
        first_hit(entries, offsets, p, tol, k) is Some ==> {
            let f = first_hit(entries, offsets, p, tol, k)->0;
            &&& k <= f < entries.len()
            &&& hit_spec(entries[f], offsets[f] as int, p, tol)
            &&& forall|j: int| k <= j < f ==> !hit_spec(#[trigger] entries[j], offsets[j] as int, p, tol)
        },
    decreases entries.len() - k,
{
    if k < entries.len() && !hit_spec(entries[k], offsets[k] as int, p, tol) {
        lemma_first_hit(entries, offsets, p, tol, k + 1);
    }
}

impl Billboard {
    /// Where the cursor starts: the position plus the offset.
    pub open spec fn start(&self) -> (int, int) {
        (self.pos.x + self.offset.x, self.pos.y + self.offset.y)
    }

    /// The entries of all bytes of the text, in drawing order.
    pub open spec fn layout_spec(&self) -> Seq<CharEntry> {
        layout_upto(self.text@, self.start(), self.text@.len() as int)
    }

    /// Coordinates and spacings small enough for the layout to fit in `i64`.
    pub open spec fn wf(&self) -> bool {
        &&& spans_total(self.text@, self.text@.len() as int) <= MAX_CHARS
        &&& -MAX_MILLI < self.pos.x < MAX_MILLI && -MAX_MILLI < self.pos.y < MAX_MILLI
        &&& -MAX_MILLI < self.offset.x < MAX_MILLI && -MAX_MILLI < self.offset.y < MAX_MILLI
        &&& forall|i: int|
            0 <= i < self.text@.len() ==> markup_in_range((#[trigger] self.text@[i]).markup)
                && 0 <= self.text@[i].markup.font.glyph_width <= MAX_MILLI && 0
                <= self.text@[i].markup.font.glyph_height <= MAX_MILLI
    }

    pub fn new(
        text: Vec<TextSpan>,
        pos: Point,
        offset: Point,
        patch9: u32,
        tile_size: i64,
        width: usize,
        height: usize,
    ) -> (r: Self)
        ensures
            r.text@ == text@,
            r.pos == pos,
            r.offset == offset,
            r.patch9 == patch9,
            r.tile_size == tile_size,
            r.width == width,
            r.height == height,
    {
        Billboard { text, pos, offset, patch9, tile_size, width, height }
    }

    /// Whether the billboard can be laid out: the test of `wf` at run time.
    pub fn fits(&self) -> (r: bool)
        ensures
            r == self.wf(),
    {
        if !(-MAX_MILLI < self.pos.x && self.pos.x < MAX_MILLI && -MAX_MILLI < self.pos.y
            && self.pos.y < MAX_MILLI && -MAX_MILLI < self.offset.x && self.offset.x < MAX_MILLI
            && -MAX_MILLI < self.offset.y && self.offset.y < MAX_MILLI) {
            return false;
        }
        let mut total: usize = 0;
        let mut i: usize = 0;
        while i < self.text.len()
            invariant
                0 <= i <= self.text@.len(),
                total == spans_total(self.text@, i as int),
                total <= MAX_CHARS,
                forall|j: int|
                    0 <= j < i ==> markup_in_range((#[trigger] self.text@[j]).markup) && 0
                        <= self.text@[j].markup.font.glyph_width <= MAX_MILLI && 0
                        <= self.text@[j].markup.font.glyph_height <= MAX_MILLI,
            decreases self.text@.len() - i,
        {
            let t = &self.text[i];
            let m = t.markup;
            let spacing_ok = -MAX_MILLI < m.kerning && m.kerning < MAX_MILLI && -MAX_MILLI
                < m.vert_space && m.vert_space < MAX_MILLI;
            let wave_ok = match m.wave {
                Some(w) => -MAX_MILLI < w.cycle_time && w.cycle_time < MAX_MILLI && -MAX_MILLI
                    < w.magnitude && w.magnitude < MAX_MILLI && -MAX_MILLI < w.transverse
                    && w.transverse < MAX_MILLI,
                None => true,
            };
            let font_ok = 0 <= m.font.glyph_width && m.font.glyph_width <= MAX_MILLI && 0
                <= m.font.glyph_height && m.font.glyph_height <= MAX_MILLI;
            if !(spacing_ok && wave_ok && font_ok) {
                return false;
            }
            if t.text.len() > MAX_CHARS - total {
                proof {
                    lemma_spans_total_mono(self.text@, i + 1, self.text@.len() as int);
                }
                return false;
            }
            total = total + t.text.len();
            i = i + 1;
        }
        true
    }

    /// A copy of this billboard, for drawing while the original changes.
    pub fn snapshot(&self) -> (r: Self)
        ensures
            spans_view(r.text@) == spans_view(self.text@),
            r.pos == self.pos,
            r.offset == self.offset,
            r.patch9 == self.patch9,
            r.tile_size == self.tile_size,
            r.width == self.width,
            r.height == self.height,
    {
        let mut text: Vec<TextSpan> = Vec::new();
        let mut i: usize = 0;
        while i < self.text.len()
            invariant
                0 <= i <= self.text@.len(),
                spans_view(text@) == spans_view(self.text@.subrange(0, i as int)),
            decreases self.text@.len() - i,
        {
            let t = &self.text[i];
            let c = TextSpan::new(copy_range(t.text.as_slice(), 0, t.text.len()), t.markup);
            let ghost before = text@;
            text.push(c);
            proof {
                assert(t.text@.subrange(0, t.text@.len() as int) =~= t.text@);
                let pre = self.text@.subrange(0, i as int);
                assert(self.text@.subrange(0, i + 1) =~= pre.push(*t));
                assert(span_view(c) == span_view(*t));
                assert(spans_view(before.push(c)) =~= spans_view(before).push(span_view(c)));
                assert(spans_view(pre.push(*t)) =~= spans_view(pre).push(span_view(*t)));
            }
            i = i + 1;
        }
        proof {
            assert(self.text@.subrange(0, i as int) =~= self.text@);
        }
        Billboard {
            text,
            pos: self.pos,
            offset: self.offset,
            patch9: self.patch9,
            tile_size: self.tile_size,
            width: self.width,
            height: self.height,
        }
    }

    /// Lays out every byte of the text, left to right and top to bottom.
    pub fn layout(&self) -> (r: Vec<CharEntry>)
        requires
            self.wf(),
        ensures
            r@ == self.layout_spec(),
            forall|k: int|
                0 <= k < r@.len() ==> -MAX_COORD <= (#[trigger] r@[k]).dest.x <= MAX_COORD && -MAX_COORD
                    <= r@[k].dest.y <= MAX_COORD && 0 <= r@[k].dest.w <= MAX_MILLI && 0
                    <= r@[k].dest.h <= MAX_MILLI,
    {
        let ghost spans = self.text@;
        let ghost start = self.start();
        let sx = self.pos.x + self.offset.x;
        let sy = self.pos.y + self.offset.y;
        let mut x = sx;
        let mut y = sy;
        let mut out: Vec<CharEntry> = Vec::new();
        let mut si: usize = 0;
        while si < self.text.len()
            invariant
                self.wf(),
                spans == self.text@,
                start == self.start(),
                sx == start.0 && sy == start.1,
                0 <= si <= spans.len(),
                out@ == layout_upto(spans, start, si as int),
                (x as int, y as int) == cursor_at(spans, start, si as int, 0),
                -3_000_000_000_000 * spans_total(spans, si as int) <= x - sx <= 3_000_000_000_000
                    * spans_total(spans, si as int),
                -3_000_000_000_000 * spans_total(spans, si as int) <= y - sy <= 3_000_000_000_000
                    * spans_total(spans, si as int),
                forall|k: int|
                    0 <= k < out@.len() ==> -MAX_COORD <= (#[trigger] out@[k]).dest.x <= MAX_COORD
                        && -MAX_COORD <= out@[k].dest.y <= MAX_COORD && 0 <= out@[k].dest.w
                        <= MAX_MILLI && 0 <= out@[k].dest.h <= MAX_MILLI,
            decreases spans.len() - si,
        {
            let span = &self.text[si];
            let m = span.markup;
            let w = m.font.glyph_width;
            let h = m.font.glyph_height;
            proof {
                lemma_spans_total_mono(spans, si + 1, spans.len() as int);
                lemma_spans_total_mono(spans, 0, si as int);
                assert(markup_in_range(spans[si as int].markup));
            }
            let ghost base = out@;
            let ghost done = spans_total(spans, si as int);
            proof {
                assert(spans_total(spans, si + 1) == done + spans[si as int].text@.len());
                assert(done + span.text@.len() <= MAX_CHARS);
            }
            let mut ci: usize = 0;
            while ci < span.text.len()
                invariant
                    self.wf(),
                    spans == self.text@,
                    start == self.start(),
                    sx == start.0 && sy == start.1,
                    0 <= si < spans.len(),
                    *span == spans[si as int],
                    m == span.markup,
                    w == m.font.glyph_width,
                    h == m.font.glyph_height,
                    0 <= w <= MAX_MILLI,
                    0 <= h <= MAX_MILLI,
                    markup_in_range(m),
                    done == spans_total(spans, si as int),
                    0 <= done,
                    done + span.text@.len() <= MAX_CHARS,
                    0 <= ci <= span.text@.len(),
                    base == layout_upto(spans, start, si as int),
                    out@ == base + Seq::new(
                        ci as nat,
                        |j: int| entry_spec(spans, start, si as int, j),
                    ),
                    (x as int, y as int) == cursor_at(spans, start, si as int, ci as int),
                    -3_000_000_000_000 * (done + ci) <= x - sx <= 3_000_000_000_000 * (done + ci),
                    -3_000_000_000_000 * (done + ci) <= y - sy <= 3_000_000_000_000 * (done + ci),
                    forall|k: int|
                        0 <= k < out@.len() ==> -MAX_COORD <= (#[trigger] out@[k]).dest.x
                            <= MAX_COORD && -MAX_COORD <= out@[k].dest.y <= MAX_COORD && 0
                            <= out@[k].dest.w <= MAX_MILLI && 0 <= out@[k].dest.h <= MAX_MILLI,
                decreases span.text@.len() - ci,
            {
                let b = span.text[ci];
                proof {
                    let n = done + ci;
                    assert(MAX_CHARS == 1_000_000);
                    assert(0 <= n < 1_000_000);
                    assert(3_000_000_000_000 * n <= 2_999_997_000_000_000_000);
                }
                let slot: i64 = if 0x20 <= b && b <= 0x7e {
                    (b - 0x20) as i64
                } else {
                    NON_PRINTING_SLOT
                };
                assert(slot * w <= 95 * MAX_MILLI) by (nonlinear_arith)
                    requires
                        0 <= slot <= 95,
                        0 <= w <= MAX_MILLI,
                ;
                assert(0 <= slot * w) by (nonlinear_arith)
                    requires
                        0 <= slot <= 95,
                        0 <= w,
                ;
                let e = CharEntry {
                    ch: b,
                    src: Rect { x: slot * w, y: 0, w, h },
                    dest: Rect { x, y: y - h, w, h },
                    color: m.color,
                    font: m.font,
                    wave: m.wave,
                    span_idx: si,
                    char_idx: ci,
                };
                let ghost prev = out@;
                out.push(e);
                proof {
                    assert(e == entry_spec(spans, start, si as int, ci as int));
                    assert(out@ =~= base + Seq::new(
                        (ci + 1) as nat,
                        |j: int| entry_spec(spans, start, si as int, j),
                    ));
                }
                if b == 0x0a {
                    x = sx;
                    y = y + h + m.vert_space;
                } else {
                    x = x + w + m.kerning;
                }
                ci = ci + 1;
            }
            proof {
                assert(out@ =~= layout_upto(spans, start, si + 1));
            }
            si = si + 1;
        }
        out
    }

    /// The first character within `tolerance` of `pos`, as `(span index, char index,
    /// byte)`, each entry of the layout moved down by its entry of `wave_offsets`.
    ///
    /// Earlier entries win where glyphs overlap; newlines are never hit.
    pub fn get_char_at_pixel(&self, wave_offsets: &Vec<i64>, pos: Point, tolerance: i64) -> (r:
        Option<(usize, usize, u8)>)
        requires
            self.wf(),
            wave_offsets@.len() == self.layout_spec().len(),
            forall|k: int|
                0 <= k < wave_offsets@.len() ==> -MAX_MILLI < #[trigger] wave_offsets@[k]
                    < MAX_MILLI,
            -MAX_MILLI < tolerance < MAX_MILLI,
        ensures
            r == char_at_spec(self.layout_spec(), wave_offsets@, pos, tolerance as int),
            r is None <==> forall|k: int|
                0 <= k < self.layout_spec().len() ==> !hit_spec(
                    #[trigger] self.layout_spec()[k],
                    wave_offsets@[k] as int,
                    pos,
                    tolerance as int,
                ),
    {
        let entries = self.layout();
        proof {
            lemma_first_hit(entries@, wave_offsets@, pos, tolerance as int, 0);
        }
        let mut k: usize = 0;
        while k < entries.len()
            invariant
                entries@ == self.layout_spec(),
                wave_offsets@.len() == entries@.len(),
                forall|i: int|
                    0 <= i < wave_offsets@.len() ==> -MAX_MILLI < #[trigger] wave_offsets@[i]
                        < MAX_MILLI,
                -MAX_MILLI < tolerance < MAX_MILLI,
                forall|i: int|
                    0 <= i < entries@.len() ==> -MAX_COORD <= (#[trigger] entries@[i]).dest.x
                        <= MAX_COORD && -MAX_COORD <= entries@[i].dest.y <= MAX_COORD && 0
                        <= entries@[i].dest.w <= MAX_MILLI && 0 <= entries@[i].dest.h
                        <= MAX_MILLI,
                0 <= k <= entries@.len(),
                first_hit(entries@, wave_offsets@, pos, tolerance as int, k as int) == first_hit(
                    entries@,
                    wave_offsets@,
                    pos,
                    tolerance as int,
                    0,
                ),
            decreases entries@.len() - k,
        {
            let e = entries[k];
            let top = e.dest.y + wave_offsets[k];
            let hit = e.ch != 0x0a && e.dest.x - tolerance <= pos.x && pos.x <= e.dest.x
                + e.dest.w + tolerance && top - tolerance <= pos.y && pos.y <= top + e.dest.h
                + tolerance;
            if hit {
                return Some((e.span_idx, e.char_idx, e.ch));
            }
            k = k + 1;
        }
        None
    }

    /// Parses the markup string `markup` into spans drawn in `font`.
    pub fn from_markup(markup: &str, font: Font) -> (r: Result<Vec<TextSpan>, MarkupError>)
        ensures
            markup_spec(markup.spec_bytes(), font) is Ok <==> r is Ok,
            r is Ok ==> markup_spec(markup.spec_bytes(), font) == Ok::<
                Seq<(Seq<u8>, Markup)>,
                MarkupError,
            >(spans_view(r->Ok_0@)),
            r is Err ==> markup_spec(markup.spec_bytes(), font) == Err::<
                Seq<(Seq<u8>, Markup)>,
                MarkupError,
            >(r->Err_0),
            r is Ok ==> forall|i: int|
                0 <= i < r->Ok_0@.len() ==> markup_in_range((#[trigger] r->Ok_0@[i]).markup)
                    && r->Ok_0@[i].markup.font == font,
            r is Ok ==> spans_total(r->Ok_0@, r->Ok_0@.len() as int) <= markup.spec_bytes().len(),
    {
        let bytes = markup.as_bytes();
        parse_markup(bytes, font)
    }
}

} // verus!
