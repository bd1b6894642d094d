use omegaquad::billboard::{Billboard, Point, Rect};
use omegaquad::color::hexcolor;
use omegaquad::markup::{Font, Markup, TextSpan};

fn font() -> Font {
    Font { id: 0, glyph_width: 5000, glyph_height: 8000 }
}

fn markup(kerning: i64, vert_space: i64) -> Markup {
    Markup { font: font(), color: hexcolor(0xffffffff), kerning, vert_space, wave: None }
}

fn board(spans: Vec<TextSpan>) -> Billboard {
    Billboard::new(spans, Point { x: 16000, y: 16000 }, Point { x: 6000, y: 16000 }, 3, 16000, 10, 2)
}

#[test]
fn layout_places_characters_left_to_right() {
    let b = board(vec![TextSpan::new(b"AB".to_vec(), markup(1000, 1000))]);
    let e = b.layout();
    assert_eq!(e.len(), 2);
    assert_eq!(e[0].dest, Rect { x: 22000, y: 24000, w: 5000, h: 8000 });
    assert_eq!(e[1].dest, Rect { x: 28000, y: 24000, w: 5000, h: 8000 });
    assert_eq!(e[0].src, Rect { x: (b'A' - 0x20) as i64 * 5000, y: 0, w: 5000, h: 8000 });
    assert_eq!((e[1].span_idx, e[1].char_idx, e[1].ch), (0, 1, b'B'));
}

#[test]
fn newline_returns_to_sideline_and_moves_down() {
    let b = board(vec![
        TextSpan::new(b"A\n".to_vec(), markup(1000, 2000)),
        TextSpan::new(b"B".to_vec(), markup(1000, 1000)),
    ]);
    let e = b.layout();
    assert_eq!(e.len(), 3);
    assert_eq!(e[1].ch, b'\n');
    assert_eq!(e[2].dest.x, 22000);
    assert_eq!(e[2].dest.y, 32000 + 8000 + 2000 - 8000);
    assert_eq!((e[2].span_idx, e[2].char_idx), (1, 0));
}

#[test]
fn control_bytes_use_the_non_printing_glyph() {
    let b = board(vec![TextSpan::new(vec![0x07, 0x7f], markup(1000, 1000))]);
    let e = b.layout();
    assert_eq!(e[0].src.x, 95 * 5000);
    assert_eq!(e[1].src.x, 95 * 5000);
}

#[test]
fn negative_kerning_overlaps() {
    let b = board(vec![TextSpan::new(b"ab".to_vec(), markup(-5000, 1000))]);
    let e = b.layout();
    assert_eq!(e[1].dest.x, e[0].dest.x);
    let offs = vec![0i64; e.len()];
    assert_eq!(b.get_char_at_pixel(&offs, Point { x: 23000, y: 25000 }, 0), Some((0, 0, b'a')));
}

#[test]
fn hit_inside_a_cell() {
    let b = board(vec![TextSpan::new(b"AB".to_vec(), markup(1000, 1000))]);
    let offs = vec![0i64; 2];
    assert_eq!(b.get_char_at_pixel(&offs, Point { x: 29000, y: 30000 }, 0), Some((0, 1, b'B')));
}

#[test]
fn boundary_point_is_hit_with_zero_tolerance() {
    let b = board(vec![TextSpan::new(b"A".to_vec(), markup(1000, 1000))]);
    let offs = vec![0i64; 1];
    // right edge and bottom edge of the cell
    assert_eq!(b.get_char_at_pixel(&offs, Point { x: 27000, y: 32000 }, 0), Some((0, 0, b'A')));
    // top-left corner
    assert_eq!(b.get_char_at_pixel(&offs, Point { x: 22000, y: 24000 }, 0), Some((0, 0, b'A')));
}

#[test]
fn tolerance_pads_the_cell() {
    let b = board(vec![TextSpan::new(b"A".to_vec(), markup(1000, 1000))]);
    let offs = vec![0i64; 1];
    let near = Point { x: 27500, y: 28000 };
    assert_eq!(b.get_char_at_pixel(&offs, near, 0), None);
    assert_eq!(b.get_char_at_pixel(&offs, near, 499), None);
    assert_eq!(b.get_char_at_pixel(&offs, near, 500), Some((0, 0, b'A')));
    assert_eq!(b.get_char_at_pixel(&offs, near, 1000), Some((0, 0, b'A')));
}

#[test]
fn wave_offsets_move_cells() {
    let b = board(vec![TextSpan::new(b"A".to_vec(), markup(1000, 1000))]);
    let p = Point { x: 23000, y: 34000 };
    assert_eq!(b.get_char_at_pixel(&vec![0], p, 0), None);
    assert_eq!(b.get_char_at_pixel(&vec![3000], p, 0), Some((0, 0, b'A')));
}

#[test]
fn newlines_are_never_hit() {
    let b = board(vec![TextSpan::new(b"\n".to_vec(), markup(1000, 1000))]);
    let offs = vec![0i64; 1];
    assert_eq!(b.get_char_at_pixel(&offs, Point { x: 22000, y: 24000 }, 1000), None);
}

#[test]
fn snapshot_keeps_everything() {
    let b = board(vec![TextSpan::new(b"hi".to_vec(), markup(1000, 1000))]);
    let c = b.snapshot();
    assert_eq!(c.text[0].text, b"hi".to_vec());
    assert_eq!(c.pos, b.pos);
    assert_eq!(c.width, 10);
    assert_eq!(c.layout(), b.layout());
}
