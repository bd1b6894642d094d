//! Styled text runs, and the parser of the tag grammar that produces them.
//!
//! Tags start with `[$xdata$` and end with `$x]`, where `x` is one character naming
//! the kind of the tag and `data` says what the tag sets:
//! - `c`: color, 6 or 8 hex digits (6 digits get an opaque alpha);
//! - `w`: wavy text, three comma-separated numbers: cycle time, magnitude, transverse;
//! - `k`: kerning, one number;
//! - `v`: vertical space, one number.
//!
//! Numbers are decimals with up to three places, held in thousandths (milli-pixels or
//! milliseconds). Every newline ends a span; the newline stays with the span it ends.
use crate::color::{color_of, hexcolor, Color, WHITE};
use crate::number::{parse_milli, parse_milli_spec, MAX_MILLI};
use vstd::prelude::*;

verus! {

/// A fixed-width bitmap font: which one, and the size of one glyph in milli-pixels.
#[derive(Clone, Copy, Debug, PartialEq, Eq, Structural)]
pub struct Font {
    pub id: u32,
    pub glyph_width: i64,
    pub glyph_height: i64,
}

/// Text that bobs up and down.
#[derive(Clone, Copy, Debug, PartialEq, Eq, Structural)]
pub struct Wave {
    /// One up-and-down cycle takes this many milliseconds.
    pub cycle_time: i64,
    /// How far the text moves up and down, in milli-pixels.
    pub magnitude: i64,
    /// Milliseconds of phase between neighbouring characters; zero bobs in unison.
    pub transverse: i64,
}

/// How a run of text is drawn.
#[derive(Clone, Copy, Debug, PartialEq, Eq, Structural)]
pub struct Markup {
    pub font: Font,
    pub color: Color,
    /// Space between characters horizontally, in milli-pixels.
    pub kerning: i64,
    /// Space between lines, in milli-pixels.
    pub vert_space: i64,
    pub wave: Option<Wave>,
}

/// A run of text that shares one markup.
#[derive(Clone, Debug)]
pub struct TextSpan {
    /// The bytes to draw. A newline moves to the next line; other control bytes
    /// draw the non-printing glyph.
    pub text: Vec<u8>,
    pub markup: Markup,
}

impl TextSpan {
    /// Make a new TextSpan.
    pub fn new(text: Vec<u8>, markup: Markup) -> (r: Self)
        ensures
            r.text@ == text@,
            r.markup == markup,
    {
        TextSpan { text, markup }
    }
}

/// A span as text and markup.
pub open spec fn span_view(t: TextSpan) -> (Seq<u8>, Markup) {
    (t.text@, t.markup)
}

pub open spec fn spans_view(v: Seq<TextSpan>) -> Seq<(Seq<u8>, Markup)> {
    v.map_values(|t: TextSpan| span_view(t))
}

pub open spec fn in_milli_range(v: i64) -> bool {
    -MAX_MILLI < v < MAX_MILLI
}

/// Spacing and wave values within the range of the number grammar.
pub open spec fn markup_in_range(m: Markup) -> bool {
    in_milli_range(m.kerning) && in_milli_range(m.vert_space) && (m.wave is Some ==> (
    in_milli_range(m.wave->0.cycle_time) && in_milli_range(m.wave->0.magnitude)
        && in_milli_range(m.wave->0.transverse)))
}

/// Total bytes of the first `n` spans.
pub open spec fn spans_total(spans: Seq<TextSpan>, n: int) -> int
    decreases n,
{
    if n <= 0 {
        0
    } else {
        spans_total(spans, n - 1) + spans[n - 1].text@.len()
    }
}

pub proof fn lemma_spans_total_mono(spans: Seq<TextSpan>, a: int, b: int)
    requires
        0 <= a <= b,
    ensures
        spans_total(spans, a) <= spans_total(spans, b),
    decreases b - a,
{
    if a < b {
        lemma_spans_total_mono(spans, a, b - 1);
    }
}

proof fn lemma_spans_total_prefix(x: Seq<TextSpan>, y: Seq<TextSpan>, n: int)
    requires
        0 <= n <= x.len(),
        n <= y.len(),
        forall|i: int| 0 <= i < n ==> x[i] == y[i],
    ensures
        spans_total(x, n) == spans_total(y, n),
    decreases n,
{
    if n > 0 {
        lemma_spans_total_prefix(x, y, n - 1);
    }
}

proof fn lemma_spans_total_push(v: Seq<TextSpan>, t: TextSpan)
    ensures
        spans_total(v.push(t), v.len() + 1int) == spans_total(v, v.len() as int) + t.text@.len(),
{
    lemma_spans_total_prefix(v, v.push(t), v.len() as int);
}

/// The kinds of tag.
#[derive(Clone, Copy, Debug, PartialEq, Eq, Structural)]
pub enum TagKind {
    Color,
    Wave,
    Kerning,
    VerticalSpace,
}

/// Why a markup string was refused.
#[derive(Clone, Copy, Debug, PartialEq, Eq, Structural)]
pub enum MarkupError {
    /// A tag names a kind that does not exist.
    UnknownTag(u8),
    /// A closing tag with no open tag of its kind.
    Unbalanced(TagKind),
    /// The data of a tag, at `start..end` of the input, is not what its kind needs.
    MalformedData(TagKind, usize, usize),
    /// The data of a wave tag holds this many commas instead of the two that separate
    /// its three values.
    WaveArity(usize),
}

pub open spec fn tag_kind_of(b: u8) -> Option<TagKind> {
    if b == 0x63 {
        Some(TagKind::Color)
    } else if b == 0x77 {
        Some(TagKind::Wave)
    } else if b == 0x6b {
        Some(TagKind::Kerning)
    } else if b == 0x76 {
        Some(TagKind::VerticalSpace)
    } else {
        None
    }
}

impl TagKind {
    /// The kind that the character `s` names: `c`, `w`, `k` or `v`.
    pub fn get(s: u8) -> (r: Result<TagKind, MarkupError>)
        ensures
            tag_kind_of(s) is Some ==> r == Ok::<TagKind, MarkupError>(tag_kind_of(s)->0),
            tag_kind_of(s) is None ==> r == Err::<TagKind, MarkupError>(
                MarkupError::UnknownTag(s),
            ),
    {
        if s == 0x63 {
            Ok(TagKind::Color)
        } else if s == 0x77 {
            Ok(TagKind::Wave)
        } else if s == 0x6b {
            Ok(TagKind::Kerning)
        } else if s == 0x76 {
            Ok(TagKind::VerticalSpace)
        } else {
            Err(MarkupError::UnknownTag(s))
        }
    }
}

// ---------------------------------------------------------------------------
// Finding tags
/// A character that may name a tag kind: an ASCII letter, digit or underscore.
pub open spec fn is_word(b: u8) -> bool {
    (0x30 <= b <= 0x39) || (0x41 <= b <= 0x5a) || (0x61 <= b <= 0x7a) || b == 0x5f
}

/// The first `$` at or after `j` that comes before any newline, or -1.
pub open spec fn dollar_end(s: Seq<u8>, j: int) -> int
    decreases s.len() - j,
{
    if j < 0 || j >= s.len() {
        -1
    } else if s[j] == 0x24 {
        j
    } else if s[j] == 0x0a {
        -1
    } else {
        dollar_end(s, j + 1)
    }
}

/// An opening tag `[$x...$` starts at `p`.
pub open spec fn open_at(s: Seq<u8>, p: int) -> bool {
    0 <= p && p + 2 < s.len() && s[p] == 0x5b && s[p + 1] == 0x24 && is_word(s[p + 2])
        && dollar_end(s, p + 3) >= 0
}

/// A closing tag `$x]` starts at `p`.
pub open spec fn close_at(s: Seq<u8>, p: int) -> bool {
    0 <= p && p + 2 < s.len() && s[p] == 0x24 && is_word(s[p + 1]) && s[p + 2] == 0x5d
}

/// Where the first tag at or after `p` starts, or `s.len()` if none does.
pub open spec fn next_tag(s: Seq<u8>, p: int) -> int
    decreases s.len() - p,
{
    if p < 0 || p >= s.len() {
        s.len() as int
    } else if open_at(s, p) || close_at(s, p) {
        p
    } else {
        next_tag(s, p + 1)
    }
}

proof fn lemma_dollar_end(s: Seq<u8>, j: int)
    requires
        0 <= j,
    ensures
        dollar_end(s, j) == -1 || (j <= dollar_end(s, j) < s.len() && s[dollar_end(s, j)]
            == 0x24),
    decreases s.len() - j,
{
    if j < s.len() && s[j] != 0x24 && s[j] != 0x0a {
        lemma_dollar_end(s, j + 1);
    }
}

proof fn lemma_next_tag(s: Seq<u8>, p: int)
    requires
        0 <= p <= s.len(),
    ensures
        p <= next_tag(s, p) <= s.len(),
        next_tag(s, p) < s.len() ==> open_at(s, next_tag(s, p)) || close_at(s, next_tag(s, p)),
    decreases s.len() - p,
{
    if p < s.len() && !(open_at(s, p) || close_at(s, p)) {
        lemma_next_tag(s, p + 1);
    }
}

fn is_word_byte(b: u8) -> (r: bool)
    ensures
        r == is_word(b),
{
    (0x30 <= b && b <= 0x39) || (0x41 <= b && b <= 0x5a) || (0x61 <= b && b <= 0x7a) || b == 0x5f
}

fn find_dollar_end(s: &[u8], j: usize) -> (r: Option<usize>)
    ensures
        r is Some <==> dollar_end(s@, j as int) >= 0,
        r is Some ==> r->0 == dollar_end(s@, j as int),
{
    let mut k = j;
    while k < s.len()
        invariant
            j <= k,
            dollar_end(s@, k as int) == dollar_end(s@, j as int),
        decreases s@.len() - k,
    {
        if s[k] == 0x24 {
            return Some(k);
        }
        if s[k] == 0x0a {
            return None;
        }
        k = k + 1;
    }
    None
}

fn find_next_tag(s: &[u8], p: usize) -> (r: usize)
    requires
        p <= s@.len(),
    ensures
        r == next_tag(s@, p as int),
{
    let mut q = p;
    while q < s.len()
        invariant
            p <= q <= s@.len(),
            next_tag(s@, q as int) == next_tag(s@, p as int),
        decreases s@.len() - q,
    {
        if s.len() - q > 2 {
            if s[q] == 0x5b && s[q + 1] == 0x24 && is_word_byte(s[q + 2]) {
                if find_dollar_end(s, q + 3).is_some() {
                    return q;
                }
            }
            if s[q] == 0x24 && is_word_byte(s[q + 1]) && s[q + 2] == 0x5d {
                return q;
            }
        }
        q = q + 1;
    }
    q
}

// ---------------------------------------------------------------------------
// Tag data
pub open spec fn is_hex(b: u8) -> bool {
    (0x30 <= b <= 0x39) || (0x41 <= b <= 0x46) || (0x61 <= b <= 0x66)
}

pub open spec fn hex_digit_val(b: u8) -> nat {
    if 0x30 <= b <= 0x39 {
        (b - 0x30) as nat
    } else if 0x41 <= b <= 0x46 {
        (b - 0x41 + 10) as nat
    } else {
        (b - 0x61 + 10) as nat
    }
}

/// The value of a string of hex digits.
pub open spec fn hex_val(s: Seq<u8>) -> nat
    decreases s.len(),
{
    if s.len() == 0 {
        0
    } else {
        hex_val(s.drop_last()) * 16 + hex_digit_val(s.last())
    }
}

/// The color code that the data of a color tag stands for: one to eight hex digits,
/// and six of them get an opaque alpha.
pub open spec fn color_code(s: Seq<u8>) -> Option<u32> {
    if 1 <= s.len() <= 8 && (forall|i: int| 0 <= i < s.len() ==> is_hex(#[trigger] s[i])) {
        if s.len() == 6 {
            Some((hex_val(s) * 256 + 255) as u32)
        } else {
            Some(hex_val(s) as u32)
        }
    } else {
        None
    }
}

/// `lo` moved past leading spaces of `s[lo..hi]`.
pub open spec fn trim_start(s: Seq<u8>, lo: int, hi: int) -> int
    decreases hi - lo,
{
    if lo < hi && s[lo] == 0x20 {
        trim_start(s, lo + 1, hi)
    } else {
        lo
    }
}

/// `hi` moved back past trailing spaces of `s[lo..hi]`.
pub open spec fn trim_end(s: Seq<u8>, lo: int, hi: int) -> int
    decreases hi - lo,
{
    if lo < hi && s[hi - 1] == 0x20 {
        trim_end(s, lo, hi - 1)
    } else {
        hi
    }
}

/// The color code of the data `s[lo..hi]`, surrounding spaces ignored.
pub open spec fn color_data(s: Seq<u8>, lo: int, hi: int) -> Option<u32> {
    let a = trim_start(s, lo, hi);
    color_code(s.subrange(a, trim_end(s, a, hi)))
}

/// The first index in `i..hi` where `s` holds `b`, or `hi`.
pub open spec fn find_in(s: Seq<u8>, b: u8, i: int, hi: int) -> int
    decreases hi - i,
{
    if i >= hi {
        hi
    } else if s[i] == b {
        i
    } else {
        find_in(s, b, i + 1, hi)
    }
}

/// How many times `s[i..hi]` holds `b`.
pub open spec fn count_in(s: Seq<u8>, b: u8, i: int, hi: int) -> nat
    decreases hi - i,
{
    if i >= hi {
        0
    } else {
        count_in(s, b, i + 1, hi) + if s[i] == b {
            1nat
        } else {
            0nat
        }
    }
}

/// The wave that the data `s[lo..hi]` of a wave tag describes.
pub open spec fn wave_data(s: Seq<u8>, lo: int, hi: int) -> Result<Wave, MarkupError> {
    let n = count_in(s, 0x2c, lo, hi);
    let c1 = find_in(s, 0x2c, lo, hi);
    let c2 = find_in(s, 0x2c, c1 + 1, hi);
    let a = parse_milli_spec(s.subrange(lo, c1));
    let b = parse_milli_spec(s.subrange(c1 + 1, c2));
    let c = parse_milli_spec(s.subrange(c2 + 1, hi));
    if n != 2 {
        Err(MarkupError::WaveArity(n as usize))
    } else if a is None {
        Err(MarkupError::MalformedData(TagKind::Wave, lo as usize, c1 as usize))
    } else if b is None {
        Err(MarkupError::MalformedData(TagKind::Wave, (c1 + 1) as usize, c2 as usize))
    } else if c is None {
        Err(MarkupError::MalformedData(TagKind::Wave, (c2 + 1) as usize, hi as usize))
    } else {
        Ok(Wave { cycle_time: a->0, magnitude: b->0, transverse: c->0 })
    }
}

/// The style stacks of the parser: the last entry of each is in effect.
pub struct StyleStacks {
    pub colors: Seq<Color>,
    pub waves: Seq<Wave>,
    pub kerns: Seq<i64>,
    pub verts: Seq<i64>,
}

/// The stacks before any tag: white, no wave, kerning and vertical space of one pixel.
pub open spec fn initial_stacks() -> StyleStacks {
    StyleStacks {
        colors: seq![color_of(WHITE)],
        waves: Seq::empty(),
        kerns: seq![1000i64],
        verts: seq![1000i64],
    }
}

/// The markup in effect.
pub open spec fn markup_of(font: Font, st: StyleStacks) -> Markup {
    Markup {
        font,
        color: st.colors.last(),
        kerning: st.kerns.last(),
        vert_space: st.verts.last(),
        wave: if st.waves.len() > 0 {
            Some(st.waves.last())
        } else {
            None
        },
    }
}

/// The stacks after an opening tag of kind `k` with data `s[lo..hi]`.
pub open spec fn open_tag(s: Seq<u8>, k: TagKind, lo: int, hi: int, st: StyleStacks) -> Result<
    StyleStacks,
    MarkupError,
> {
    let bad = MarkupError::MalformedData(k, lo as usize, hi as usize);
    match k {
        TagKind::Color => match color_data(s, lo, hi) {
            Some(c) => Ok(StyleStacks { colors: st.colors.push(color_of(c)), ..st }),
            None => Err(bad),
        },
        TagKind::Wave => match wave_data(s, lo, hi) {
            Ok(w) => Ok(StyleStacks { waves: st.waves.push(w), ..st }),
            Err(e) => Err(e),
        },
        TagKind::Kerning => match parse_milli_spec(s.subrange(lo, hi)) {
            Some(v) => Ok(StyleStacks { kerns: st.kerns.push(v), ..st }),
            None => Err(bad),
        },
        TagKind::VerticalSpace => match parse_milli_spec(s.subrange(lo, hi)) {
            Some(v) => Ok(StyleStacks { verts: st.verts.push(v), ..st }),
            None => Err(bad),
        },
    }
}

/// The stacks after a closing tag of kind `k`: an error where only the default
/// (or, for waves, nothing) is left to pop.
pub open spec fn close_tag(k: TagKind, st: StyleStacks) -> Result<StyleStacks, MarkupError> {
    let bad = MarkupError::Unbalanced(k);
    match k {
        TagKind::Color => if st.colors.len() >= 2 {
            Ok(StyleStacks { colors: st.colors.drop_last(), ..st })
        } else {
            Err(bad)
        },
        TagKind::Wave => if st.waves.len() >= 1 {
            Ok(StyleStacks { waves: st.waves.drop_last(), ..st })
        } else {
            Err(bad)
        },
        TagKind::Kerning => if st.kerns.len() >= 2 {
            Ok(StyleStacks { kerns: st.kerns.drop_last(), ..st })
        } else {
            Err(bad)
        },
        TagKind::VerticalSpace => if st.verts.len() >= 2 {
            Ok(StyleStacks { verts: st.verts.drop_last(), ..st })
        } else {
            Err(bad)
        },
    }
}

/// `s[lo..hi]` cut after each newline; the last piece has no newline and may be empty.
pub open spec fn lines(s: Seq<u8>, lo: int, hi: int) -> Seq<Seq<u8>>
    decreases hi - lo,
{
    let i = find_in(s, 0x0a, lo, hi);
    if lo < i + 1 && i < hi {
        seq![s.subrange(lo, i + 1)] + lines(s, i + 1, hi)
    } else {
        seq![s.subrange(lo, hi)]
    }
}

pub open spec fn with_markup(ls: Seq<Seq<u8>>, m: Markup) -> Seq<(Seq<u8>, Markup)> {
    ls.map_values(|t: Seq<u8>| (t, m))
}

/// The spans of `s` from `start` on, after the spans `acc` already made, with the
/// stacks `st` in effect.
pub open spec fn parse_from(
    s: Seq<u8>,
    font: Font,
    start: int,
    st: StyleStacks,
    acc: Seq<(Seq<u8>, Markup)>,
) -> Result<Seq<(Seq<u8>, Markup)>, MarkupError>
    decreases s.len() - start,
{
    let p = next_tag(s, start);
    let acc2 = acc + with_markup(lines(s, start, p), markup_of(font, st));
    if start < 0 || p < start || p + 2 >= s.len() {
        Ok(acc2)
    } else if s[p] == 0x5b {
        let e = dollar_end(s, p + 3);
        match tag_kind_of(s[p + 2]) {
            None => Err(MarkupError::UnknownTag(s[p + 2])),
            Some(k) => match open_tag(s, k, p + 3, e, st) {
                Err(x) => Err(x),
                Ok(st2) => if start < e + 1 <= s.len() {
                    parse_from(s, font, e + 1, st2, acc2)
                } else {
                    Ok(acc2)
                },
            },
        }
    } else {
        match tag_kind_of(s[p + 1]) {
            None => Err(MarkupError::UnknownTag(s[p + 1])),
            Some(k) => match close_tag(k, st) {
                Err(x) => Err(x),
                Ok(st2) => parse_from(s, font, p + 3, st2, acc2),
            },
        }
    }
}

/// The spans that the markup string `s` describes, drawn in `font`.
pub open spec fn markup_spec(s: Seq<u8>, font: Font) -> Result<
    Seq<(Seq<u8>, Markup)>,
    MarkupError,
> {
    parse_from(s, font, 0, initial_stacks(), Seq::empty())
}

// ---------------------------------------------------------------------------
// Reading tag data
pub open spec fn pow16(n: nat) -> nat
    decreases n,
{
    if n == 0 {
        1
    } else {
        16 * pow16((n - 1) as nat)
    }
}

proof fn lemma_pow16_mono(a: nat, b: nat)
    requires
        a <= b,
    ensures
        pow16(a) <= pow16(b),
    decreases b,
{
    if a < b {
        lemma_pow16_mono(a, (b - 1) as nat);
    }
}

proof fn lemma_trim_start(s: Seq<u8>, lo: int, hi: int)
    requires
        lo <= hi,
    ensures
        lo <= trim_start(s, lo, hi) <= hi,
    decreases hi - lo,
{
    if lo < hi && s[lo] == 0x20 {
        lemma_trim_start(s, lo + 1, hi);
    }
}

proof fn lemma_find_in(s: Seq<u8>, b: u8, i: int, hi: int)
    requires
        i <= hi,
    ensures
        i <= find_in(s, b, i, hi) <= hi,
        find_in(s, b, i, hi) < hi ==> count_in(s, b, i, hi) == 1 + count_in(
            s,
            b,
            find_in(s, b, i, hi) + 1,
            hi,
        ),
        find_in(s, b, i, hi) == hi ==> count_in(s, b, i, hi) == 0,
    decreases hi - i,
{
    if i < hi && s[i] != b {
        lemma_find_in(s, b, i + 1, hi);
    }
}

fn hex_digit(b: u8) -> (r: Option<u64>)
    ensures
        r is Some <==> is_hex(b),
        r is Some ==> r->0 == hex_digit_val(b) && r->0 < 16,
{
    if 0x30 <= b && b <= 0x39 {
        Some((b - 0x30) as u64)
    } else if 0x41 <= b && b <= 0x46 {
        Some((b - 0x41 + 10) as u64)
    } else if 0x61 <= b && b <= 0x66 {
        Some((b - 0x61 + 10) as u64)
    } else {
        None
    }
}

/// The color code of the data `s[lo..hi]` of a color tag.
fn read_color(s: &[u8], lo: usize, hi: usize) -> (r: Option<u32>)
    requires
        lo <= hi <= s@.len(),
    ensures
        r == color_data(s@, lo as int, hi as int),
{
    let mut a = lo;
    while a < hi && s[a] == 0x20
        invariant
            lo <= a <= hi <= s@.len(),
            trim_start(s@, a as int, hi as int) == trim_start(s@, lo as int, hi as int),
        decreases hi - a,
    {
        a = a + 1;
    }
    let mut b = hi;
    while b > a && s[b - 1] == 0x20
        invariant
            a <= b <= hi <= s@.len(),
            trim_end(s@, a as int, b as int) == trim_end(s@, a as int, hi as int),
        decreases b - a,
    {
        b = b - 1;
    }
    let ghost t = s@.subrange(a as int, b as int);
    if b - a < 1 || b - a > 8 {
        return None;
    }
    let mut acc: u64 = 0;
    let mut i = a;
    while i < b
        invariant
            a <= i <= b <= s@.len(),
            b - a <= 8,
            t == s@.subrange(a as int, b as int),
            trim_start(s@, lo as int, hi as int) == a,
            trim_end(s@, a as int, hi as int) == b,
            forall|j: int| 0 <= j < i - a ==> is_hex(#[trigger] t[j]),
            acc == hex_val(s@.subrange(a as int, i as int)),
            acc < pow16((i - a) as nat),
            pow16((i - a) as nat) <= 0x1_0000_0000,
        decreases b - i,
    {
        match hex_digit(s[i]) {
            None => {
                proof {
                    assert(t[i - a] == s@[i as int]);
                }
                return None;
            },
            Some(d) => {
                proof {
                    let x = s@.subrange(a as int, i as int);
                    let y = s@.subrange(a as int, i + 1);
                    assert(y.drop_last() =~= x);
                    assert(t[i - a] == s@[i as int]);
                    let p = pow16((i - a) as nat);
                    assert(pow16((i + 1 - a) as nat) == 16 * p);
                    assert(acc * 16 + d < 16 * p) by (nonlinear_arith)
                        requires
                            acc < p,
                            d < 16,
                    ;
                    reveal_with_fuel(pow16, 9);
                    lemma_pow16_mono((i + 1 - a) as nat, 8);
                }
                acc = acc * 16 + d;
                i = i + 1;
            },
        }
    }
    proof {
        assert(s@.subrange(a as int, i as int) =~= t);
        lemma_trim_start(s@, lo as int, hi as int);
    }
    if b - a == 6 {
        proof {
            reveal_with_fuel(pow16, 7);
        }
        Some((acc * 256 + 255) as u32)
    } else {
        Some(acc as u32)
    }
}

fn find_byte_in(s: &[u8], c: u8, i: usize, hi: usize) -> (r: usize)
    requires
        i <= hi <= s@.len(),
    ensures
        r == find_in(s@, c, i as int, hi as int),
{
    let mut k = i;
    while k < hi && s[k] != c
        invariant
            i <= k <= hi <= s@.len(),
            find_in(s@, c, k as int, hi as int) == find_in(s@, c, i as int, hi as int),
        decreases hi - k,
    {
        k = k + 1;
    }
    k
}

fn count_byte_in(s: &[u8], c: u8, lo: usize, hi: usize) -> (r: usize)
    requires
        lo <= hi <= s@.len(),
    ensures
        r == count_in(s@, c, lo as int, hi as int),
        r <= hi - lo,
{
    let mut n: usize = 0;
    let mut k = lo;
    while k < hi
        invariant
            lo <= k <= hi <= s@.len(),
            n <= k - lo,
            count_in(s@, c, lo as int, hi as int) == n + count_in(s@, c, k as int, hi as int),
        decreases hi - k,
    {
        if s[k] == c {
            n = n + 1;
        }
        k = k + 1;
    }
    n
}

/// The wave that the data `s[lo..hi]` of a wave tag describes.
fn read_wave(s: &[u8], lo: usize, hi: usize) -> (r: Result<Wave, MarkupError>)
    requires
        lo <= hi <= s@.len(),
    ensures
        r == wave_data(s@, lo as int, hi as int),
        r is Ok ==> in_milli_range(r->Ok_0.cycle_time) && in_milli_range(r->Ok_0.magnitude)
            && in_milli_range(r->Ok_0.transverse),
{
    let n = count_byte_in(s, 0x2c, lo, hi);
    if n != 2 {
        return Err(MarkupError::WaveArity(n));
    }
    let c1 = find_byte_in(s, 0x2c, lo, hi);
    proof {
        lemma_find_in(s@, 0x2c, lo as int, hi as int);
    }
    let c2 = find_byte_in(s, 0x2c, c1 + 1, hi);
    proof {
        lemma_find_in(s@, 0x2c, c1 + 1, hi as int);
    }
    let a = parse_milli(s, lo, c1);
    let b = parse_milli(s, c1 + 1, c2);
    let c = parse_milli(s, c2 + 1, hi);
    match (a, b, c) {
        (None, _, _) => Err(MarkupError::MalformedData(TagKind::Wave, lo, c1)),
        (_, None, _) => Err(MarkupError::MalformedData(TagKind::Wave, c1 + 1, c2)),
        (_, _, None) => Err(MarkupError::MalformedData(TagKind::Wave, c2 + 1, hi)),
        (Some(x), Some(y), Some(z)) => Ok(Wave { cycle_time: x, magnitude: y, transverse: z }),
    }
}

/// The parser's style stacks.
struct TagStacks {
    colors: Vec<Color>,
    waves: Vec<Wave>,
    kerns: Vec<i64>,
    verts: Vec<i64>,
}

impl TagStacks {
    spec fn view(&self) -> StyleStacks {
        StyleStacks { colors: self.colors@, waves: self.waves@, kerns: self.kerns@, verts: self.verts@ }
    }

    spec fn wf(&self) -> bool {
        &&& self.colors@.len() >= 1 && self.kerns@.len() >= 1 && self.verts@.len() >= 1
        &&& forall|i: int| 0 <= i < self.kerns@.len() ==> in_milli_range(#[trigger] self.kerns@[i])
        &&& forall|i: int| 0 <= i < self.verts@.len() ==> in_milli_range(#[trigger] self.verts@[i])
        &&& forall|i: int|
            0 <= i < self.waves@.len() ==> in_milli_range((#[trigger] self.waves@[i]).cycle_time)
                && in_milli_range(self.waves@[i].magnitude) && in_milli_range(
                self.waves@[i].transverse,
            )
    }

    fn markup(&self, font: Font) -> (m: Markup)
        requires
            self.wf(),
        ensures
            m == markup_of(font, self.view()),
            markup_in_range(m),
    {
        let wave = if self.waves.len() > 0 {
            Some(self.waves[self.waves.len() - 1])
        } else {
            None
        };
        Markup {
            font,
            color: self.colors[self.colors.len() - 1],
            kerning: self.kerns[self.kerns.len() - 1],
            vert_space: self.verts[self.verts.len() - 1],
            wave,
        }
    }

    /// Applies the opening tag of kind `k` with data `s[lo..hi]`.
    fn open(&mut self, s: &[u8], k: TagKind, lo: usize, hi: usize) -> (r: Result<(), MarkupError>)
        requires
            old(self).wf(),
            lo <= hi <= s@.len(),
        ensures
            final(self).wf(),
            r is Ok <==> open_tag(s@, k, lo as int, hi as int, old(self).view()) is Ok,
            r is Ok ==> open_tag(s@, k, lo as int, hi as int, old(self).view()) == Ok::<
                StyleStacks,
                MarkupError,
            >(final(self).view()),
            r is Err ==> open_tag(s@, k, lo as int, hi as int, old(self).view()) == Err::<
                StyleStacks,
                MarkupError,
            >(r->Err_0),
    {
        let bad = MarkupError::MalformedData(k, lo, hi);
        match k {
            TagKind::Color => match read_color(s, lo, hi) {
                Some(c) => {
                    self.colors.push(hexcolor(c));
                    Ok(())
                },
                None => Err(bad),
            },
            TagKind::Wave => match read_wave(s, lo, hi) {
                Ok(w) => {
                    self.waves.push(w);
                    Ok(())
                },
                Err(e) => Err(e),
            },
            TagKind::Kerning => match parse_milli(s, lo, hi) {
                Some(v) => {
                    self.kerns.push(v);
                    Ok(())
                },
                None => Err(bad),
            },
            TagKind::VerticalSpace => match parse_milli(s, lo, hi) {
                Some(v) => {
                    self.verts.push(v);
                    Ok(())
                },
                None => Err(bad),
            },
        }
    }

    /// Applies the closing tag of kind `k`.
    fn close(&mut self, k: TagKind) -> (r: Result<(), MarkupError>)
        requires
            old(self).wf(),
        ensures
            final(self).wf(),
            r is Ok <==> close_tag(k, old(self).view()) is Ok,
            r is Ok ==> close_tag(k, old(self).view()) == Ok::<StyleStacks, MarkupError>(
                final(self).view(),
            ),
            r is Err ==> close_tag(k, old(self).view()) == Err::<StyleStacks, MarkupError>(
                r->Err_0,
            ),
    {
        let bad = MarkupError::Unbalanced(k);
        match k {
            TagKind::Color => if self.colors.len() >= 2 {
                self.colors.pop();
                Ok(())
            } else {
                Err(bad)
            },
            TagKind::Wave => if self.waves.len() >= 1 {
                self.waves.pop();
                Ok(())
            } else {
                Err(bad)
            },
            TagKind::Kerning => if self.kerns.len() >= 2 {
                self.kerns.pop();
                Ok(())
            } else {
                Err(bad)
            },
            TagKind::VerticalSpace => if self.verts.len() >= 2 {
                self.verts.pop();
                Ok(())
            } else {
                Err(bad)
            },
        }
    }
}

// ---------------------------------------------------------------------------
// Parsing
pub(crate) fn copy_range(s: &[u8], lo: usize, hi: usize) -> (r: Vec<u8>)
    requires
        lo <= hi <= s@.len(),
    ensures
        r@ == s@.subrange(lo as int, hi as int),
{
    let mut r: Vec<u8> = Vec::new();
    let mut i = lo;
    while i < hi
        invariant
            lo <= i <= hi <= s@.len(),
            r@ == s@.subrange(lo as int, i as int),
        decreases hi - i,
    {
        r.push(s[i]);
        proof {
            assert(r@ =~= s@.subrange(lo as int, i + 1));
        }
        i = i + 1;
    }
    r
}

proof fn lemma_with_markup_concat(x: Seq<Seq<u8>>, y: Seq<Seq<u8>>, m: Markup)
    ensures
        with_markup(x + y, m) =~= with_markup(x, m) + with_markup(y, m),
{
}

/// Appends the lines of `s[lo..hi]` to `out`, each with markup `m`.
fn push_lines(out: &mut Vec<TextSpan>, s: &[u8], lo: usize, hi: usize, m: Markup)
    requires
        lo <= hi <= s@.len(),
    ensures
        spans_view(final(out)@) == spans_view(old(out)@) + with_markup(
            lines(s@, lo as int, hi as int),
            m,
        ),
        final(out)@.len() >= old(out)@.len(),
        forall|i: int| 0 <= i < old(out)@.len() ==> #[trigger] final(out)@[i] == old(out)@[i],
        forall|i: int|
            old(out)@.len() <= i < final(out)@.len() ==> (#[trigger] final(out)@[i]).markup == m,
        spans_total(final(out)@, final(out)@.len() as int) == spans_total(
            old(out)@,
            old(out)@.len() as int,
        ) + (hi - lo),
{
    let mut a = lo;
    loop
        invariant
            lo <= a <= hi <= s@.len(),
            spans_view(out@) + with_markup(lines(s@, a as int, hi as int), m) == spans_view(
                old(out)@,
            ) + with_markup(lines(s@, lo as int, hi as int), m),
            out@.len() >= old(out)@.len(),
            forall|i: int| 0 <= i < old(out)@.len() ==> #[trigger] out@[i] == old(out)@[i],
            forall|i: int| old(out)@.len() <= i < out@.len() ==> (#[trigger] out@[i]).markup == m,
            spans_total(out@, out@.len() as int) == spans_total(old(out)@, old(out)@.len() as int)
                + (a - lo),
        decreases hi - a,
    {
        let i = find_byte_in(s, 0x0a, a, hi);
        proof {
            lemma_find_in(s@, 0x0a, a as int, hi as int);
        }
        let ghost before = out@;
        if i < hi {
            let t = TextSpan { text: copy_range(s, a, i + 1), markup: m };
            out.push(t);
            proof {
                lemma_spans_total_push(before, t);
                assert(out@ == before.push(t));
                let head = seq![s@.subrange(a as int, i + 1)];
                let rest = lines(s@, i + 1, hi as int);
                assert(lines(s@, a as int, hi as int) == head + rest);
                lemma_with_markup_concat(head, rest, m);
                assert(spans_view(out@) =~= spans_view(before) + with_markup(head, m));
                assert(spans_view(out@) + with_markup(rest, m) =~= spans_view(before)
                    + with_markup(head + rest, m));
            }
            a = i + 1;
        } else {
            let t = TextSpan { text: copy_range(s, a, hi), markup: m };
            out.push(t);
            proof {
                lemma_spans_total_push(before, t);
                assert(out@ == before.push(t));
                assert(lines(s@, a as int, hi as int) == seq![s@.subrange(a as int, hi as int)]);
                assert(spans_view(out@) =~= spans_view(before) + with_markup(
                    lines(s@, a as int, hi as int),
                    m,
                ));
            }
            return;
        }
    }
}

/// Parses the markup string `s` into spans drawn in `font`.
pub fn parse_markup(s: &[u8], font: Font) -> (r: Result<Vec<TextSpan>, MarkupError>)
    ensures
        markup_spec(s@, font) is Ok <==> r is Ok,
        r is Ok ==> markup_spec(s@, font) == Ok::<Seq<(Seq<u8>, Markup)>, MarkupError>(
            spans_view(r->Ok_0@),
        ),
        r is Err ==> markup_spec(s@, font) == Err::<Seq<(Seq<u8>, Markup)>, MarkupError>(
            r->Err_0,
        ),
        r is Ok ==> forall|i: int|
            0 <= i < r->Ok_0@.len() ==> markup_in_range((#[trigger] r->Ok_0@[i]).markup)
                && r->Ok_0@[i].markup.font == font,
        r is Ok ==> spans_total(r->Ok_0@, r->Ok_0@.len() as int) <= s@.len(),
{
    let mut st = TagStacks {
        colors: vec![hexcolor(WHITE)],
        waves: Vec::new(),
        kerns: vec![1000],
        verts: vec![1000],
    };
    let mut out: Vec<TextSpan> = Vec::new();
    proof {
        assert(st.colors@ =~= seq![color_of(WHITE)]);
        assert(st.waves@ =~= Seq::<Wave>::empty());
        assert(st.kerns@ =~= seq![1000i64]);
        assert(st.verts@ =~= seq![1000i64]);
        assert(st.view() == initial_stacks());
        assert(spans_view(out@) =~= Seq::<(Seq<u8>, Markup)>::empty());
    }
    let mut start: usize = 0;
    loop
        invariant
            start <= s@.len(),
            st.wf(),
            parse_from(s@, font, start as int, st.view(), spans_view(out@)) == markup_spec(
                s@,
                font,
            ),
            forall|i: int|
                0 <= i < out@.len() ==> markup_in_range((#[trigger] out@[i]).markup)
                    && out@[i].markup.font == font,
            spans_total(out@, out@.len() as int) <= start,
        decreases s@.len() - start,
    {
        let p = find_next_tag(s, start);
        proof {
            lemma_next_tag(s@, start as int);
        }
        let m = st.markup(font);
        let ghost acc = spans_view(out@);
        let ghost st0 = st.view();
        let ghost before = out@;
        push_lines(&mut out, s, start, p, m);
        assert forall|i: int| 0 <= i < out@.len() implies markup_in_range(
            (#[trigger] out@[i]).markup,
        ) && out@[i].markup.font == font by {
            if i < before.len() {
                assert(out@[i] == before[i]);
            }
        }
        if s.len() - p <= 2 {
            return Ok(out);
        }
        if s[p] == 0x5b {
            proof {
                lemma_dollar_end(s@, p + 3);
            }
            let e = match find_dollar_end(s, p + 3) {
                Some(e) => e,
                None => {
                    return Ok(out);
                },
            };
            let k = match TagKind::get(s[p + 2]) {
                Ok(k) => k,
                Err(x) => {
                    return Err(x);
                },
            };
            match st.open(s, k, p + 3, e) {
                Ok(()) => {},
                Err(x) => {
                    return Err(x);
                },
            }
            start = e + 1;
        } else {
            let k = match TagKind::get(s[p + 1]) {
                Ok(k) => k,
                Err(x) => {
                    return Err(x);
                },
            };
            match st.close(k) {
                Ok(()) => {},
                Err(x) => {
                    return Err(x);
                },
            }
            start = p + 3;
        }
    }
}

// ---------------------------------------------------------------------------
// Laws
proof fn lemma_hex_val_bound(s: Seq<u8>)
    requires
        forall|i: int| 0 <= i < s.len() ==> is_hex(#[trigger] s[i]),
    ensures
        hex_val(s) < pow16(s.len()),
    decreases s.len(),
{
    if s.len() > 0 {
        let t = s.drop_last();
        assert forall|i: int| 0 <= i < t.len() implies is_hex(#[trigger] t[i]) by {
            assert(t[i] == s[i]);
        }
        lemma_hex_val_bound(t);
        assert(is_hex(s[s.len() - 1]));
        let p = pow16(t.len());
        assert(pow16(s.len()) == 16 * p);
        assert(hex_val(t) * 16 + hex_digit_val(s.last()) < 16 * p) by (nonlinear_arith)
            requires
                hex_val(t) < p,
                hex_digit_val(s.last()) < 16,
        ;
    }
}

/// Six hex digits name the same color as those digits followed by an opaque alpha
/// `ff`: the color with those red, green and blue values, fully opaque.
pub proof fn lemma_six_digit_color(s: Seq<u8>)
    requires
        s.len() == 6,
        forall|i: int| 0 <= i < s.len() ==> is_hex(#[trigger] s[i]),
    ensures
        color_code(s) is Some,
        color_code(s) == color_code(s + seq![0x66u8, 0x66u8]),
        color_of(color_code(s)->0).a == 0xff,
{
    let t = s + seq![0x66u8, 0x66u8];
    assert(t.drop_last() =~= s + seq![0x66u8]);
    assert((s + seq![0x66u8]).drop_last() =~= s);
    assert forall|i: int| 0 <= i < t.len() implies is_hex(#[trigger] t[i]) by {
        if i < 6 {
            assert(t[i] == s[i]);
        }
    }
    lemma_hex_val_bound(s);
    reveal_with_fuel(pow16, 7);
    let u = s + seq![0x66u8];
    assert(hex_val(u) == hex_val(s) * 16 + 15);
    assert(hex_val(t) == hex_val(u) * 16 + 15);
    assert(hex_val(t) == hex_val(s) * 256 + 255) by (nonlinear_arith)
        requires
            hex_val(t) == hex_val(u) * 16 + 15,
            hex_val(u) == hex_val(s) * 16 + 15,
    ;
}

proof fn lemma_no_tag(s: Seq<u8>, p: int)
    requires
        0 <= p <= s.len(),
        forall|i: int| 0 <= i < s.len() ==> #[trigger] s[i] != 0x24,
    ensures
        next_tag(s, p) == s.len(),
    decreases s.len() - p,
{
    if p < s.len() {
        assert(!open_at(s, p)) by {
            if p + 1 < s.len() {
                assert(s[p + 1] != 0x24);
            }
        }
        lemma_no_tag(s, p + 1);
    }
}

proof fn lemma_no_byte(s: Seq<u8>, b: u8, i: int, hi: int)
    requires
        0 <= i <= hi <= s.len(),
        forall|j: int| 0 <= j < s.len() ==> #[trigger] s[j] != b,
    ensures
        find_in(s, b, i, hi) == hi,
    decreases hi - i,
{
    if i < hi {
        lemma_no_byte(s, b, i + 1, hi);
    }
}

/// Text with no `$` and no newline is one span in the default markup: white, kerning
/// and vertical space of one pixel, no wave.
pub proof fn lemma_plain_text(s: Seq<u8>, font: Font)
    requires
        forall|i: int| 0 <= i < s.len() ==> #[trigger] s[i] != 0x24 && s[i] != 0x0a,
    ensures
        markup_spec(s, font) == Ok::<Seq<(Seq<u8>, Markup)>, MarkupError>(
            seq![
                (s, Markup {
                    font,
                    color: color_of(WHITE),
                    kerning: 1000,
                    vert_space: 1000,
                    wave: None,
                }),
            ],
        ),
{
    lemma_no_tag(s, 0);
    assert forall|j: int| 0 <= j < s.len() implies #[trigger] s[j] != 0x0a by {
        assert(s[j] != 0x24 && s[j] != 0x0a);
    }
    lemma_no_byte(s, 0x0a, 0, s.len() as int);
    assert(s.subrange(0, s.len() as int) =~= s);
    let m = markup_of(font, initial_stacks());
    assert(lines(s, 0, s.len() as int) == seq![s]);
    assert(with_markup(seq![s], m) =~= seq![(s, m)]);
    assert(Seq::<(Seq<u8>, Markup)>::empty() + seq![(s, m)] =~= seq![(s, m)]);
}

/// A closing tag before anything was opened is an error, whatever follows it.
pub proof fn lemma_close_without_open(s: Seq<u8>, font: Font)
    requires
        s.len() >= 3,
        s[0] == 0x24,
        s[2] == 0x5d,
        tag_kind_of(s[1]) is Some,
    ensures
        markup_spec(s, font) == Err::<Seq<(Seq<u8>, Markup)>, MarkupError>(
            MarkupError::Unbalanced(tag_kind_of(s[1])->0),
        ),
{
    assert(close_at(s, 0));
}

} // verus!
