//! The game modes: a logo screen, and a demo of billboards that it leads to.
use crate::billboard::{char_at_spec, Billboard, Point};
use crate::color::{color_of, hexcolor, Color, BLACK, GREEN, WHITE};
use crate::markup::{
    markup_in_range, markup_spec, parse_markup, spans_total, spans_view, Font, Markup, TextSpan,
    Wave,
};
use crate::number::{pow10, MAX_MILLI};
use crate::text::{
    char_utf8, decimal_spec, push_char, push_decimal, push_str, str_bytes,
};
use crate::transition::Transition;
use vstd::prelude::*;
use vstd::string::StringSliceAdditionalSpecFns;

verus! {

/// Milliseconds after which the logo gives way to the demo by itself.
pub const LOGO_DURATION_MS: u64 = 5000;

/// Background of the logo before the blades show.
pub const LOGO_BACKGROUND: u32 = 0x21181bff;

/// Milliseconds before the background takes the dark blade color.
pub const LOGO_DARKEN_MS: u64 = 520;

/// Milliseconds after which the spinning blades are drawn.
pub const LOGO_BLADES_MS: u64 = 1380;

/// Milliseconds before the banner starts to unfold.
pub const BANNER_START_MS: u64 = 250;

/// Milliseconds the banner takes to unfold.
pub const BANNER_UNFOLD_MS: u64 = 350;

/// Frames of the banner animation.
pub const BANNER_FRAMES: u64 = 8;

/// The logo screen.
#[derive(Clone, Copy, Debug, PartialEq, Eq, Structural)]
pub struct ModeLogo {
    /// When the logo was first updated, in milliseconds.
    pub start_time: u64,
    pub first_frame: bool,
    pub blades: usize,
    /// Rotation of the blades in milliradians per second.
    pub rotation_speed: i64,
    pub blade_dark: Color,
    pub blade_light: Color,
}

/// What a logo update asks of the outside world.
#[derive(Clone, Copy, Debug, PartialEq, Eq, Structural)]
pub struct LogoUpdate {
    /// Start the title jingle.
    pub play_jingle: bool,
    /// Stop the jingle and swap the logo for the demo.
    pub leave: bool,
}

/// How to draw the logo at one moment.
#[derive(Clone, Copy, Debug, PartialEq, Eq, Structural)]
pub struct LogoFrame {
    pub background: Color,
    /// Whether the spinning blades are drawn.
    pub show_blades: bool,
    pub blades: usize,
    pub blade_light: Color,
    pub rotation_speed: i64,
    /// Milliseconds since the logo started.
    pub elapsed_ms: u64,
    /// Which frame of the banner animation to draw.
    pub banner_frame: u64,
}

/// Milliseconds from `start` to `now`, zero if the clock went back.
pub open spec fn elapsed_spec(start: u64, now: u64) -> u64 {
    if now >= start {
        (now - start) as u64
    } else {
        0
    }
}

/// The banner frame `t` milliseconds after the logo started.
pub open spec fn banner_frame_spec(t: u64) -> u64 {
    if t < BANNER_START_MS {
        0
    } else if (t - BANNER_START_MS) * BANNER_FRAMES / BANNER_UNFOLD_MS as int >= BANNER_FRAMES
        - 1 {
        (BANNER_FRAMES - 1) as u64
    } else {
        ((t - BANNER_START_MS) * BANNER_FRAMES / BANNER_UNFOLD_MS as int) as u64
    }
}

impl ModeLogo {
    /// A logo with the given number of blades, speed and colors.
    pub fn new(blades: usize, rotation_speed: i64, blade_dark: Color, blade_light: Color) -> (r:
        Self)
        ensures
            r == (ModeLogo {
                start_time: 0,
                first_frame: true,
                blades,
                rotation_speed,
                blade_dark,
                blade_light,
            }),
    {
        ModeLogo { start_time: 0, first_frame: true, blades, rotation_speed, blade_dark, blade_light }
    }

    /// One update at `now_ms`: the first starts the clock and the jingle; the logo
    /// leaves once more than `LOGO_DURATION_MS` have passed or on a click.
    pub fn update(&mut self, now_ms: u64, clicked: bool) -> (r: LogoUpdate)
        ensures
            r.play_jingle == old(self).first_frame,
            final(self).start_time == (if old(self).first_frame {
                now_ms
            } else {
                old(self).start_time
            }),
            r.leave == (elapsed_spec(final(self).start_time, now_ms) > LOGO_DURATION_MS || clicked),
            *final(self) == (ModeLogo {
                start_time: final(self).start_time,
                first_frame: false,
                ..*old(self)
            }),
    {
        let play_jingle = self.first_frame;
        if self.first_frame {
            self.first_frame = false;
            self.start_time = now_ms;
        }
        let elapsed = if now_ms >= self.start_time {
            now_ms - self.start_time
        } else {
            0
        };
        LogoUpdate { play_jingle, leave: elapsed > LOGO_DURATION_MS || clicked }
    }

    /// How to draw the logo at `now_ms`.
    pub fn frame(&self, now_ms: u64) -> (r: LogoFrame)
        ensures
            r.elapsed_ms == elapsed_spec(self.start_time, now_ms),
            r.background == (if r.elapsed_ms < LOGO_DARKEN_MS {
                color_of(LOGO_BACKGROUND)
            } else {
                self.blade_dark
            }),
            r.show_blades == (r.elapsed_ms > LOGO_BLADES_MS),
            r.blades == self.blades,
            r.blade_light == self.blade_light,
            r.rotation_speed == self.rotation_speed,
            r.banner_frame == banner_frame_spec(r.elapsed_ms),
    {
        let t = if now_ms >= self.start_time {
            now_ms - self.start_time
        } else {
            0
        };
        let background = if t < LOGO_DARKEN_MS {
            hexcolor(LOGO_BACKGROUND)
        } else {
            self.blade_dark
        };
        let banner_frame = if t < BANNER_START_MS {
            0
        } else {
            let e = (t - BANNER_START_MS) as u128;
            assert(e * 8 <= 8 * 0xffff_ffff_ffff_ffffu128) by (nonlinear_arith)
                requires
                    e <= 0xffff_ffff_ffff_ffffu128,
            ;
            let d = e * BANNER_FRAMES as u128
                / BANNER_UNFOLD_MS as u128;
            if d >= (BANNER_FRAMES - 1) as u128 {
                BANNER_FRAMES - 1
            } else {
                d as u64
            }
        };
        LogoFrame {
            background,
            show_blades: t > LOGO_BLADES_MS,
            blades: self.blades,
            blade_light: self.blade_light,
            rotation_speed: self.rotation_speed,
            elapsed_ms: t,
            banner_frame,
        }
    }
}

/// Greeting of the main billboard.
pub const WELCOME: &'static str = "Welcome to the ";

/// Wavy title of the main billboard.
pub const DEMO_TITLE: &'static str = "Omegaquad Demo!\n";

/// Sample text in the medium font.
pub const PANGRAM: &'static str = "\n\nThe quick brown fox jumps over the lazy dog.";

/// Sample text in the small font.
pub const JACKDAWS: &'static str = "\nJackdaws love my big sphinx of quartz.\n\n";

/// Markup shown off on the second billboard.
pub const MARKED_UP: &'static str = "[$v4.0$Here is my [$cb00b69$fancy, [$w0.4,1.0,0.1$wavy [$cff000088$markup$w]\nthing$c]. How nice.$c] Cool demo?\n[$k3.0$!@#$%^&*()$k]$v]";

/// Start of the open counter's text, before the count.
pub const COUNTER_HEAD: &'static str = "YOU HAVE\nOPENED THIS\nDEMO [$c00ffff$";

/// End of the open counter's text, after the count.
pub const COUNTER_TAIL: &'static str = "$c]\nTIME(S) :)";

/// First text of the clickable billboard.
pub const CLICKER: &'static str = "Click on me!";

/// Reply to a click on a character, before the span index.
pub const CLICK_SPAN: &'static str = "You clicked on [$cff0000$Span #";

/// Reply to a click, between the span index and the character index.
pub const CLICK_CHAR: &'static str = "$c], [$c00ff00$Char #";

/// Reply to a click, before the character itself.
pub const CLICK_BYTE: &'static str = "$c],\nwhich was a `[$cffff00$";

/// End of the reply to a click on a character.
pub const CLICK_END: &'static str = "$c]`.";

/// Reply to a click beside every character.
pub const MISSED: &'static str = "You didn't click on [$cff0000$anything$c]...\nToo bad.";

/// Text that follows every reply to a click.
pub const FILLER: &'static str = "[$v6.0$\n$v]Anyways, here's some more [$w1,1,0$filler text$w].";

/// The texts above are ASCII and short.
proof fn lemma_text_lengths()
    ensures
        WELCOME.spec_bytes().len() <= 200,
        DEMO_TITLE.spec_bytes().len() <= 200,
        PANGRAM.spec_bytes().len() <= 200,
        JACKDAWS.spec_bytes().len() <= 200,
        MARKED_UP.spec_bytes().len() <= 200,
        COUNTER_HEAD.spec_bytes().len() <= 200,
        COUNTER_TAIL.spec_bytes().len() <= 200,
        CLICKER.spec_bytes().len() <= 200,
        CLICK_SPAN.spec_bytes().len() <= 200,
        CLICK_CHAR.spec_bytes().len() <= 200,
        CLICK_BYTE.spec_bytes().len() <= 200,
        CLICK_END.spec_bytes().len() <= 200,
        MISSED.spec_bytes().len() <= 200,
        FILLER.spec_bytes().len() <= 200,
{
    reveal_strlit("Welcome to the ");
    assert(vstd::string::is_ascii(WELCOME));
    vstd::string::is_ascii_spec_bytes(WELCOME);
    reveal_strlit("Omegaquad Demo!\n");
    assert(vstd::string::is_ascii(DEMO_TITLE));
    vstd::string::is_ascii_spec_bytes(DEMO_TITLE);
    reveal_strlit("\n\nThe quick brown fox jumps over the lazy dog.");
    assert(vstd::string::is_ascii(PANGRAM));
    vstd::string::is_ascii_spec_bytes(PANGRAM);
    reveal_strlit("\nJackdaws love my big sphinx of quartz.\n\n");
    assert(vstd::string::is_ascii(JACKDAWS));
    vstd::string::is_ascii_spec_bytes(JACKDAWS);
    reveal_strlit("[$v4.0$Here is my [$cb00b69$fancy, [$w0.4,1.0,0.1$wavy [$cff000088$markup$w]\nthing$c]. How nice.$c] Cool demo?\n[$k3.0$!@#$%^&*()$k]$v]");
    assert(vstd::string::is_ascii(MARKED_UP));
    vstd::string::is_ascii_spec_bytes(MARKED_UP);
    reveal_strlit("YOU HAVE\nOPENED THIS\nDEMO [$c00ffff$");
    assert(vstd::string::is_ascii(COUNTER_HEAD));
    vstd::string::is_ascii_spec_bytes(COUNTER_HEAD);
    reveal_strlit("$c]\nTIME(S) :)");
    assert(vstd::string::is_ascii(COUNTER_TAIL));
    vstd::string::is_ascii_spec_bytes(COUNTER_TAIL);
    reveal_strlit("Click on me!");
    assert(vstd::string::is_ascii(CLICKER));
    vstd::string::is_ascii_spec_bytes(CLICKER);
    reveal_strlit("You clicked on [$cff0000$Span #");
    assert(vstd::string::is_ascii(CLICK_SPAN));
    vstd::string::is_ascii_spec_bytes(CLICK_SPAN);
    reveal_strlit("$c], [$c00ff00$Char #");
    assert(vstd::string::is_ascii(CLICK_CHAR));
    vstd::string::is_ascii_spec_bytes(CLICK_CHAR);
    reveal_strlit("$c],\nwhich was a `[$cffff00$");
    assert(vstd::string::is_ascii(CLICK_BYTE));
    vstd::string::is_ascii_spec_bytes(CLICK_BYTE);
    reveal_strlit("$c]`.");
    assert(vstd::string::is_ascii(CLICK_END));
    vstd::string::is_ascii_spec_bytes(CLICK_END);
    reveal_strlit("You didn't click on [$cff0000$anything$c]...\nToo bad.");
    assert(vstd::string::is_ascii(MISSED));
    vstd::string::is_ascii_spec_bytes(MISSED);
    reveal_strlit("[$v6.0$\n$v]Anyways, here's some more [$w1,1,0$filler text$w].");
    assert(vstd::string::is_ascii(FILLER));
    vstd::string::is_ascii_spec_bytes(FILLER);
}

/// The fonts the demo draws with.
#[derive(Clone, Copy, Debug, PartialEq, Eq, Structural)]
pub struct Fonts {
    pub small: Font,
    pub medium: Font,
}

/// Fonts whose glyphs fit the layout's bounds.
pub open spec fn font_in_range(f: Font) -> bool {
    0 <= f.glyph_width <= MAX_MILLI && 0 <= f.glyph_height <= MAX_MILLI
}

/// Whether the glyphs of `f` fit the layout's bounds: the test of `font_in_range`
/// at run time.
pub fn font_fits(f: Font) -> (r: bool)
    ensures
        r == font_in_range(f),
{
    0 <= f.glyph_width && f.glyph_width <= MAX_MILLI && 0 <= f.glyph_height && f.glyph_height
        <= MAX_MILLI
}

/// The spans of the markup `s` in `font`, or none if it is malformed.
pub open spec fn parsed_or_empty(s: Seq<u8>, font: Font) -> Seq<(Seq<u8>, Markup)> {
    match markup_spec(s, font) {
        Ok(v) => v,
        Err(_) => Seq::empty(),
    }
}

/// Parses `s` in `font`; malformed markup gives no spans.
fn parse_or_empty(s: &Vec<u8>, font: Font) -> (r: Vec<TextSpan>)
    ensures
        spans_view(r@) == parsed_or_empty(s@, font),
        spans_total(r@, r@.len() as int) <= s@.len(),
        forall|i: int|
            0 <= i < r@.len() ==> markup_in_range((#[trigger] r@[i]).markup) && r@[i].markup.font
                == font,
{
    match parse_markup(s.as_slice(), font) {
        Ok(v) => v,
        Err(_) => {
            let v: Vec<TextSpan> = Vec::new();
            proof {
                assert(spans_view(v@) =~= Seq::<(Seq<u8>, Markup)>::empty());
            }
            v
        },
    }
}

/// The markup of plain one-pixel-spaced text.
pub open spec fn plain(font: Font, color: u32, wave: Option<Wave>) -> Markup {
    Markup { font, color: color_of(color), kerning: 1000, vert_space: 1000, wave }
}

/// The wave of the demo's title.
pub open spec fn title_wave() -> Wave {
    Wave { cycle_time: 500, magnitude: 2000, transverse: 100 }
}

/// The spans of the main billboard.
pub open spec fn main_spans(fonts: Fonts) -> Seq<(Seq<u8>, Markup)> {
    seq![
        (WELCOME.spec_bytes(), plain(fonts.medium, BLACK, None)),
        (DEMO_TITLE.spec_bytes(), plain(fonts.medium, GREEN, Some(title_wave()))),
        (PANGRAM.spec_bytes(), plain(fonts.medium, WHITE, None)),
        (JACKDAWS.spec_bytes(), plain(fonts.small, WHITE, None)),
    ]
}

/// The markup of the open counter showing `count`.
pub open spec fn counter_text(count: u64) -> Seq<u8> {
    COUNTER_HEAD.spec_bytes() + decimal_spec(count as nat) + COUNTER_TAIL.spec_bytes()
}

/// The markup of the reply to a click that hit `hit`, or nothing.
pub open spec fn click_reply(hit: Option<(usize, usize, u8)>) -> Seq<u8> {
    match hit {
        Some((span, idx, ch)) => CLICK_SPAN.spec_bytes() + decimal_spec(span as nat)
            + CLICK_CHAR.spec_bytes() + decimal_spec(idx as nat) + CLICK_BYTE.spec_bytes()
            + char_utf8(ch) + CLICK_END.spec_bytes() + FILLER.spec_bytes(),
        None => MISSED.spec_bytes() + FILLER.spec_bytes(),
    }
}

/// Example gamemode that draws a billboard demo.
#[derive(Clone, Debug)]
pub struct ModeExample {
    /// The main billboard, the markup showcase, the open counter and the clickable
    /// billboard, in that order.
    pub billboards: Vec<Billboard>,
    /// The font replies to clicks are set in.
    pub fonts: Fonts,
}

proof fn lemma_decimal_len(n: nat, k: nat)
    requires
        1 <= k,
        n < pow10(k),
    ensures
        1 <= decimal_spec(n).len() <= k,
    decreases n,
{
    if n >= 10 {
        let p = pow10((k - 1) as nat);
        if k == 1 {
            assert(pow10(1) == 10) by {
                reveal_with_fuel(pow10, 2);
            }
        }
        assert(pow10(k) == 10 * p);
        assert(n / 10 < p) by (nonlinear_arith)
            requires
                n < 10 * p,
        ;
        lemma_decimal_len(n / 10, (k - 1) as nat);
    }
}

/// Decimal numbers of `u64` values have at most twenty digits.
proof fn lemma_decimal_len_u64(n: u64)
    ensures
        1 <= decimal_spec(n as nat).len() <= 20,
{
    assert(pow10(20) == 100_000_000_000_000_000_000) by {
        reveal_with_fuel(pow10, 21);
    }
    lemma_decimal_len(n as nat, 20);
}

impl ModeExample {
    /// The billboards can be laid out.
    pub open spec fn wf(&self) -> bool {
        &&& self.billboards@.len() == 4
        &&& forall|i: int| 0 <= i < 4 ==> (#[trigger] self.billboards@[i]).wf()
        &&& font_in_range(self.fonts.medium)
    }

    /// The demo as it opens for the `open_count`-th time.
    pub fn new(open_count: u64, fonts: Fonts, patch9: u32) -> (r: Self)
        requires
            font_in_range(fonts.small),
            font_in_range(fonts.medium),
        ensures
            r.wf(),
            r.fonts == fonts,
            spans_view(r.billboards@[0].text@) == main_spans(fonts),
            spans_view(r.billboards@[1].text@) == parsed_or_empty(MARKED_UP.spec_bytes(), fonts.medium),
            spans_view(r.billboards@[2].text@) == parsed_or_empty(counter_text(open_count), fonts.small),
            spans_view(r.billboards@[3].text@) == parsed_or_empty(CLICKER.spec_bytes(), fonts.medium),
            r.billboards@[0].pos == (Point { x: 16000, y: 16000 }),
            r.billboards@[1].pos == (Point { x: 16000, y: 84000 }),
            r.billboards@[2].pos == (Point { x: 232000, y: 84000 }),
            r.billboards@[3].pos == (Point { x: 16000, y: 160000 }),
            forall|i: int| 0 <= i < 4 ==> (#[trigger] r.billboards@[i]).offset == (Point { x: 6000, y: 16000 })
                && r.billboards@[i].patch9 == patch9 && r.billboards@[i].tile_size == 16000,
            r.billboards@[0].width == 18 && r.billboards@[0].height == 4,
            r.billboards@[1].width == 13 && r.billboards@[1].height == 3,
            r.billboards@[2].width == 4 && r.billboards@[2].height == 3,
            r.billboards@[3].width == 15 && r.billboards@[3].height == 3,
    {
        proof {
            lemma_text_lengths();
            lemma_decimal_len_u64(open_count);
        }
        let offset = Point { x: 6000, y: 16000 };
        let medium = fonts.medium;
        let small = fonts.small;
        let mut main: Vec<TextSpan> = Vec::new();
        main.push(TextSpan::new(str_bytes(WELCOME), Markup { font: medium, color: hexcolor(BLACK), kerning: 1000, vert_space: 1000, wave: None }));
        main.push(TextSpan::new(str_bytes(DEMO_TITLE), Markup { font: medium, color: hexcolor(GREEN), kerning: 1000, vert_space: 1000, wave: Some(Wave { cycle_time: 500, magnitude: 2000, transverse: 100 }) }));
        main.push(TextSpan::new(str_bytes(PANGRAM), Markup { font: medium, color: hexcolor(WHITE), kerning: 1000, vert_space: 1000, wave: None }));
        main.push(TextSpan::new(str_bytes(JACKDAWS), Markup { font: small, color: hexcolor(WHITE), kerning: 1000, vert_space: 1000, wave: None }));
        proof {
            assert(spans_view(main@) =~= main_spans(fonts));
            reveal_with_fuel(spans_total, 5);
        }
        let marked = parse_or_empty(&str_bytes(MARKED_UP), medium);
        let mut counter_src: Vec<u8> = Vec::new();
        push_str(&mut counter_src, COUNTER_HEAD);
        push_decimal(&mut counter_src, open_count);
        push_str(&mut counter_src, COUNTER_TAIL);
        proof {
            assert(counter_src@ =~= counter_text(open_count));
        }
        let counter = parse_or_empty(&counter_src, small);
        let clicker = parse_or_empty(&str_bytes(CLICKER), medium);
        let mut billboards: Vec<Billboard> = Vec::new();
        billboards.push(Billboard::new(main, Point { x: 16000, y: 16000 }, offset, patch9, 16000, 18, 4));
        billboards.push(Billboard::new(marked, Point { x: 16000, y: 84000 }, offset, patch9, 16000, 13, 3));
        billboards.push(Billboard::new(counter, Point { x: 16000 * 14 + 8000, y: 84000 }, offset, patch9, 16000, 4, 3));
        billboards.push(Billboard::new(clicker, Point { x: 16000, y: 160000 }, offset, patch9, 16000, 15, 3));
        let r = ModeExample { billboards, fonts };
        proof {
            assert(r.billboards@[0].wf());
            assert(r.billboards@[1].wf());
            assert(r.billboards@[2].wf());
            assert(r.billboards@[3].wf());
        }
        r
    }
}

/// Tolerance of a click on a character, in milli-pixels.
pub const CLICK_TOLERANCE: i64 = 1000;

/// The spans the clickable billboard holds after a click that hit `hit`: the parsed
/// reply, or the spans it held before if the reply is malformed.
pub open spec fn reply_spans(
    before: Seq<(Seq<u8>, Markup)>,
    hit: Option<(usize, usize, u8)>,
    font: Font,
) -> Seq<(Seq<u8>, Markup)> {
    match markup_spec(click_reply(hit), font) {
        Ok(v) => v,
        Err(_) => before,
    }
}

impl ModeExample {
    /// One update: a click replaces the text of the clickable billboard by a reply
    /// that names the character clicked, each glyph of that billboard moved down by
    /// its entry of `wave_offsets`. The demo never leaves by itself.
    pub fn update(&mut self, clicked: bool, mouse: Point, wave_offsets: &Vec<i64>) -> (r:
        Transition<DispatchMode>)
        requires
            old(self).wf(),
            wave_offsets@.len() == old(self).billboards@[3].layout_spec().len(),
            forall|k: int|
                0 <= k < wave_offsets@.len() ==> -MAX_MILLI < #[trigger] wave_offsets@[k]
                    < MAX_MILLI,
        ensures
            r is Stay,
            final(self).wf(),
            final(self).fonts == old(self).fonts,
            !clicked ==> *final(self) == *old(self),
            clicked ==> {
                let b = final(self).billboards@[3];
                let a = old(self).billboards@[3];
                &&& forall|i: int| 0 <= i < 3 ==> final(self).billboards@[i] == old(self).billboards@[i]
                &&& spans_view(b.text@) == reply_spans(
                    spans_view(a.text@),
                    char_at_spec(a.layout_spec(), wave_offsets@, mouse, CLICK_TOLERANCE as int),
                    old(self).fonts.medium,
                )
                &&& b.pos == a.pos && b.offset == a.offset && b.patch9 == a.patch9
                &&& b.tile_size == a.tile_size && b.width == a.width && b.height == a.height
            },
    {
        if !clicked {
            return Transition::Stay;
        }
        let hit = self.billboards[3].get_char_at_pixel(wave_offsets, mouse, CLICK_TOLERANCE);
        let mut msg: Vec<u8> = Vec::new();
        proof {
            lemma_text_lengths();
        }
        match hit {
            Some((span, idx, ch)) => {
                proof {
                    lemma_decimal_len_u64(span as u64);
                    lemma_decimal_len_u64(idx as u64);
                }
                push_str(&mut msg, CLICK_SPAN);
                push_decimal(&mut msg, span as u64);
                push_str(&mut msg, CLICK_CHAR);
                push_decimal(&mut msg, idx as u64);
                push_str(&mut msg, CLICK_BYTE);
                push_char(&mut msg, ch);
                push_str(&mut msg, CLICK_END);
            },
            None => {
                push_str(&mut msg, MISSED);
            },
        }
        push_str(&mut msg, FILLER);
        proof {
            assert(msg@ =~= click_reply(hit));
        }
        let medium = self.fonts.medium;
        let ghost old_board = self.billboards@[3];
        match parse_markup(msg.as_slice(), medium) {
            Ok(spans) => {
                match self.billboards.pop() {
                    Some(mut board) => {
                        board.text = spans;
                        self.billboards.push(board);
                        proof {
                            assert(forall|i: int| 0 <= i < 3 ==> self.billboards@[i] == old(self).billboards@[i]);
                            assert(self.billboards@[3].wf());
                        }
                    },
                    None => {},
                }
            },
            Err(_) => {},
        }
        Transition::Stay
    }

    /// A copy of the demo, for drawing while the original is updated.
    pub fn snapshot(&self) -> (r: Self)
        ensures
            r.fonts == self.fonts,
            r.billboards@.len() == self.billboards@.len(),
            forall|i: int| 0 <= i < self.billboards@.len() ==> {
                let a = #[trigger] r.billboards@[i];
                let b = self.billboards@[i];
                &&& spans_view(a.text@) == spans_view(b.text@)
                &&& a.pos == b.pos && a.offset == b.offset && a.patch9 == b.patch9
                &&& a.tile_size == b.tile_size && a.width == b.width && a.height == b.height
            },
    {
        let mut billboards: Vec<Billboard> = Vec::new();
        let mut i: usize = 0;
        while i < self.billboards.len()
            invariant
                0 <= i <= self.billboards@.len(),
                billboards@.len() == i,
                forall|j: int| 0 <= j < i ==> {
                    let a = #[trigger] billboards@[j];
                    let b = self.billboards@[j];
                    &&& spans_view(a.text@) == spans_view(b.text@)
                    &&& a.pos == b.pos && a.offset == b.offset && a.patch9 == b.patch9
                    &&& a.tile_size == b.tile_size && a.width == b.width && a.height == b.height
                },
            decreases self.billboards@.len() - i,
        {
            billboards.push(self.billboards[i].snapshot());
            i = i + 1;
        }
        ModeExample { billboards, fonts: self.fonts }
    }
}

/// The modes the application can be in.
pub enum DispatchMode {
    ModeLogo(ModeLogo),
    ModeExample(ModeExample),
}

/// What is needed to draw a mode.
pub enum DispatchDrawer {
    ModeLogo(ModeLogo),
    ModeExample(ModeExample),
}

impl DispatchMode {
    /// Gather what is needed to draw this mode.
    pub fn get_draw_info(&self) -> (r: DispatchDrawer)
        ensures
            self is ModeLogo <==> r is ModeLogo,
            self is ModeLogo ==> r->ModeLogo_0 == self->ModeLogo_0,
            self is ModeExample ==> ({
                let a = r->ModeExample_0;
                let b = self->ModeExample_0;
                &&& a.fonts == b.fonts
                &&& a.billboards@.len() == b.billboards@.len()
                &&& forall|i: int|
                    0 <= i < b.billboards@.len() ==> {
                        let x = #[trigger] a.billboards@[i];
                        let y = b.billboards@[i];
                        &&& spans_view(x.text@) == spans_view(y.text@)
                        &&& x.pos == y.pos && x.offset == y.offset && x.patch9 == y.patch9
                        &&& x.tile_size == y.tile_size && x.width == y.width && x.height
                            == y.height
                    }
            }),
    {
        match self {
            DispatchMode::ModeLogo(m) => DispatchDrawer::ModeLogo(*m),
            DispatchMode::ModeExample(m) => DispatchDrawer::ModeExample(m.snapshot()),
        }
    }

    /// Called when the modes above this one are popped off; neither mode has
    /// anything to restart.
    pub fn on_resume(&mut self)
        ensures
            *final(self) == *old(self),
    {
    }
}

} // verus!
