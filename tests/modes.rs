use omegaquad::billboard::Point;
use omegaquad::color::{hexcolor, Color};
use omegaquad::markup::Font;
use omegaquad::modes::{DispatchDrawer, DispatchMode, Fonts, ModeExample, ModeLogo};
use omegaquad::transition::{GamemodeStack, Transition};

fn fonts() -> Fonts {
    Fonts {
        small: Font { id: 0, glyph_width: 4000, glyph_height: 6000 },
        medium: Font { id: 1, glyph_width: 5000, glyph_height: 8000 },
    }
}

fn logo() -> ModeLogo {
    ModeLogo::new(7, -1800, hexcolor(0xffee83ff), hexcolor(0xfffab3ff))
}

fn texts(b: &omegaquad::billboard::Billboard) -> Vec<String> {
    b.text.iter().map(|s| String::from_utf8(s.text.clone()).unwrap()).collect()
}

#[test]
fn logo_waits_then_leaves() {
    let mut m = logo();
    let u = m.update(1000, false);
    assert!(u.play_jingle);
    assert!(!u.leave);
    assert_eq!(m.start_time, 1000);
    let u = m.update(6000, false);
    assert!(!u.play_jingle);
    assert!(!u.leave);
    let u = m.update(6001, false);
    assert!(u.leave);
}

#[test]
fn logo_leaves_on_click() {
    let mut m = logo();
    m.update(0, false);
    assert!(m.update(10, true).leave);
}

#[test]
fn logo_scenario_keeps_depth_one() {
    let mut stack = GamemodeStack::new(DispatchMode::ModeLogo(logo()));
    let mut now = 0u64;
    loop {
        let up = match stack.top_mut() {
            DispatchMode::ModeLogo(m) => m.update(now, false),
            _ => panic!("the logo left too early"),
        };
        if up.leave {
            let demo = ModeExample::new(1, fonts(), 2);
            stack.advance(Transition::Swap(DispatchMode::ModeExample(demo)));
            break;
        }
        assert_eq!(stack.depth(), 1);
        now += 100;
    }
    assert_eq!(now, 5100);
    assert_eq!(stack.depth(), 1);
    assert!(matches!(stack.top(), DispatchMode::ModeExample(_)));
}

#[test]
fn logo_frames() {
    let mut m = logo();
    m.update(1000, false);
    let f = m.frame(1100);
    assert_eq!(f.background, hexcolor(0x21181bff));
    assert_eq!(f.banner_frame, 0);
    assert!(!f.show_blades);
    let f = m.frame(1000 + 425);
    assert_eq!(f.banner_frame, 4);
    let f = m.frame(1000 + 600);
    assert_eq!(f.background, hexcolor(0xffee83ff));
    assert_eq!(f.banner_frame, 7);
    let f = m.frame(1000 + 1381);
    assert!(f.show_blades);
    assert_eq!(f.elapsed_ms, 1381);
    assert_eq!(m.frame(0).elapsed_ms, 0);
}

#[test]
fn demo_counter_shows_open_count() {
    let d = ModeExample::new(3, fonts(), 2);
    assert_eq!(d.billboards.len(), 4);
    assert_eq!(
        texts(&d.billboards[2]),
        vec!["YOU HAVE\n", "OPENED THIS\n", "DEMO ", "3", "\n", "TIME(S) :)"]
    );
    assert_eq!(d.billboards[2].text[3].markup.color, Color { r: 0, g: 255, b: 255, a: 255 });
    assert_eq!(d.billboards[2].pos, Point { x: 232000, y: 84000 });
}

#[test]
fn demo_boards() {
    let d = ModeExample::new(12, fonts(), 2);
    assert_eq!(texts(&d.billboards[3]), vec!["Click on me!"]);
    assert_eq!(texts(&d.billboards[0])[1], "Omegaquad Demo!\n");
    assert!(d.billboards[0].text[1].markup.wave.is_some());
    let marked = texts(&d.billboards[1]);
    assert_eq!(marked.concat(), "Here is my fancy, wavy markup\nthing. How nice. Cool demo?\n!@#$%^&*()");
    assert_eq!(texts(&d.billboards[2])[3], "12");
}

#[test]
fn demo_reply_names_the_character_clicked() {
    let mut d = ModeExample::new(1, fonts(), 2);
    let offs = vec![0i64; d.billboards[3].layout().len()];
    // the first glyph of the clickable board starts at (22000, 168000)
    let t = d.update(true, Point { x: 23000, y: 170000 }, &offs);
    assert!(matches!(t, Transition::Stay));
    let reply = texts(&d.billboards[3]).concat();
    assert_eq!(
        reply,
        "You clicked on Span #0, Char #0,\nwhich was a `C`.\nAnyways, here's some more filler text."
    );
}

#[test]
fn demo_reply_to_a_miss() {
    let mut d = ModeExample::new(1, fonts(), 2);
    let offs = vec![0i64; d.billboards[3].layout().len()];
    d.update(true, Point { x: 0, y: 0 }, &offs);
    let reply = texts(&d.billboards[3]).concat();
    assert_eq!(reply, "You didn't click on anything...\nToo bad.\nAnyways, here's some more filler text.");
}

#[test]
fn demo_ignores_updates_without_click() {
    let mut d = ModeExample::new(1, fonts(), 2);
    let offs = vec![0i64; d.billboards[3].layout().len()];
    d.update(false, Point { x: 23000, y: 170000 }, &offs);
    assert_eq!(texts(&d.billboards[3]), vec!["Click on me!"]);
}

#[test]
fn draw_info_copies_the_mode() {
    let m = DispatchMode::ModeLogo(logo());
    match m.get_draw_info() {
        DispatchDrawer::ModeLogo(l) => assert_eq!(l, logo()),
        _ => panic!("wrong drawer"),
    }
    let d = DispatchMode::ModeExample(ModeExample::new(4, fonts(), 2));
    match d.get_draw_info() {
        DispatchDrawer::ModeExample(e) => assert_eq!(texts(&e.billboards[2])[3], "4"),
        _ => panic!("wrong drawer"),
    }
}
