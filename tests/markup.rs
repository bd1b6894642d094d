use omegaquad::billboard::Billboard;
use omegaquad::color::{hexcolor, Color};
use omegaquad::markup::{parse_markup, Font, MarkupError, TagKind, TextSpan, Wave};
use omegaquad::number::parse_milli;

fn font() -> Font {
    Font { id: 1, glyph_width: 5000, glyph_height: 8000 }
}

fn white() -> Color {
    Color { r: 255, g: 255, b: 255, a: 255 }
}

fn red() -> Color {
    Color { r: 255, g: 0, b: 0, a: 255 }
}

fn texts(spans: &[TextSpan]) -> Vec<String> {
    spans.iter().map(|s| String::from_utf8(s.text.clone()).unwrap()).collect()
}

#[test]
fn plain_text_is_one_default_span() {
    let spans = Billboard::from_markup("plain text", font()).unwrap();
    assert_eq!(spans.len(), 1);
    assert_eq!(spans[0].text, b"plain text".to_vec());
    assert_eq!(spans[0].markup.color, white());
    assert_eq!(spans[0].markup.kerning, 1000);
    assert_eq!(spans[0].markup.vert_space, 1000);
    assert_eq!(spans[0].markup.wave, None);
    assert_eq!(spans[0].markup.font, font());
}

#[test]
fn nested_tags_keep_color_across_wave() {
    let spans = Billboard::from_markup(
        "[$c ff0000$red [$w0.5,2.0,0.1$wavy red$w] still red$c]",
        font(),
    )
    .unwrap();
    assert_eq!(texts(&spans), vec!["", "red ", "wavy red", " still red", ""]);
    let wave = Wave { cycle_time: 500, magnitude: 2000, transverse: 100 };
    assert_eq!(spans[0].markup.color, white());
    assert_eq!(spans[1].markup.color, red());
    assert_eq!(spans[1].markup.wave, None);
    assert_eq!(spans[2].markup.color, red());
    assert_eq!(spans[2].markup.wave, Some(wave));
    assert_eq!(spans[3].markup.color, red());
    assert_eq!(spans[3].markup.wave, None);
    assert_eq!(spans[4].markup.color, white());
}

#[test]
fn unbalanced_close_fails() {
    let r = Billboard::from_markup("$c]", font());
    assert_eq!(r.unwrap_err(), MarkupError::Unbalanced(TagKind::Color));
}

#[test]
fn unbalanced_wave_close_fails() {
    let r = Billboard::from_markup("a$w]", font());
    assert_eq!(r.unwrap_err(), MarkupError::Unbalanced(TagKind::Wave));
}

#[test]
fn six_and_eight_digit_colors_agree() {
    let a = Billboard::from_markup("[$cff0000$x", font()).unwrap();
    let b = Billboard::from_markup("[$cff0000ff$x", font()).unwrap();
    assert_eq!(a[1].markup.color, red());
    assert_eq!(a[1].markup.color, b[1].markup.color);
}

#[test]
fn eight_digit_color_keeps_alpha() {
    let a = Billboard::from_markup("[$cff000088$x$c]", font()).unwrap();
    assert_eq!(a[1].markup.color, Color { r: 255, g: 0, b: 0, a: 0x88 });
    assert_eq!(a[1].markup.color, hexcolor(0xff000088));
}

#[test]
fn unknown_tag_fails() {
    let r = Billboard::from_markup("ab[$x1$cd", font());
    assert_eq!(r.unwrap_err(), MarkupError::UnknownTag(b'x'));
}

#[test]
fn malformed_color_fails() {
    let r = Billboard::from_markup("[$czz$x", font());
    assert_eq!(r.unwrap_err(), MarkupError::MalformedData(TagKind::Color, 3, 5));
}

#[test]
fn too_long_color_fails() {
    let r = Billboard::from_markup("[$c123456789$x", font());
    assert_eq!(r.unwrap_err(), MarkupError::MalformedData(TagKind::Color, 3, 12));
}

#[test]
fn wave_needs_three_values() {
    let r = Billboard::from_markup("[$w1,2$x$w]", font());
    assert_eq!(r.unwrap_err(), MarkupError::WaveArity(1));
    let r = Billboard::from_markup("[$w1,2,3,4$x$w]", font());
    assert_eq!(r.unwrap_err(), MarkupError::WaveArity(3));
}

#[test]
fn malformed_wave_value_fails() {
    let r = Billboard::from_markup("[$w1,x,3$y$w]", font());
    assert_eq!(r.unwrap_err(), MarkupError::MalformedData(TagKind::Wave, 5, 6));
}

#[test]
fn malformed_kerning_fails() {
    let r = Billboard::from_markup("[$k1.2345$x", font());
    assert_eq!(r.unwrap_err(), MarkupError::MalformedData(TagKind::Kerning, 3, 9));
}

#[test]
fn kerning_and_vertical_space_apply() {
    let spans = Billboard::from_markup("[$k3.0$a[$v-0.5$b$v]$k]c", font()).unwrap();
    assert_eq!(texts(&spans), vec!["", "a", "b", "", "c"]);
    assert_eq!(spans[1].markup.kerning, 3000);
    assert_eq!(spans[2].markup.kerning, 3000);
    assert_eq!(spans[2].markup.vert_space, -500);
    assert_eq!(spans[3].markup.vert_space, 1000);
    assert_eq!(spans[4].markup.kerning, 1000);
}

#[test]
fn default_kerning_cannot_be_closed() {
    let r = Billboard::from_markup("$k]", font());
    assert_eq!(r.unwrap_err(), MarkupError::Unbalanced(TagKind::Kerning));
    let r = Billboard::from_markup("$v]", font());
    assert_eq!(r.unwrap_err(), MarkupError::Unbalanced(TagKind::VerticalSpace));
}

#[test]
fn newlines_end_spans() {
    let spans = Billboard::from_markup("ab\ncd\n", font()).unwrap();
    assert_eq!(texts(&spans), vec!["ab\n", "cd\n", ""]);
}

#[test]
fn unterminated_tag_is_not_an_error() {
    let spans = Billboard::from_markup("[$c00ff00$green forever", font()).unwrap();
    assert_eq!(texts(&spans), vec!["", "green forever"]);
    assert_eq!(spans[1].markup.color, Color { r: 0, g: 255, b: 0, a: 255 });
}

#[test]
fn open_tag_does_not_cross_newline() {
    let spans = Billboard::from_markup("[$c\nff0000$x", font()).unwrap();
    assert_eq!(texts(&spans), vec!["[$c\n", "ff0000$x"]);
}

#[test]
fn empty_markup_is_one_empty_span() {
    let spans = Billboard::from_markup("", font()).unwrap();
    assert_eq!(texts(&spans), vec![""]);
}

#[test]
fn parse_markup_on_bytes() {
    let spans = parse_markup(b"x[$k2$y", font()).unwrap();
    assert_eq!(texts(&spans), vec!["x", "y"]);
    assert_eq!(spans[1].markup.kerning, 2000);
}

#[test]
fn numbers_in_thousandths() {
    let cases: Vec<(&str, Option<i64>)> = vec![
        ("0.5", Some(500)),
        ("2.0", Some(2000)),
        ("-2", Some(-2000)),
        ("+1.25", Some(1250)),
        (".5", Some(500)),
        ("1.", Some(1000)),
        ("999999999.999", Some(999_999_999_999)),
        ("", None),
        (".", None),
        ("-", None),
        ("1e3", None),
        ("1.2345", None),
        ("1234567890", None),
        ("1,5", None),
    ];
    for (s, expected) in cases {
        let b = s.as_bytes();
        assert_eq!(parse_milli(b, 0, b.len()), expected, "{}", s);
    }
}

#[test]
fn unknown_closing_tag_fails() {
    let r = Billboard::from_markup("a$x]", font());
    assert_eq!(r.unwrap_err(), MarkupError::UnknownTag(b'x'));
}
