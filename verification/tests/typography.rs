use embedded_graphics::pixelcolor::BinaryColor;
use rustmix_wave::fonts::{ClipRect, Point};
use rustmix_wave::typography::{BitmapFont, Glyph, TextBounds, UiTextRole, UiTextStyle};

fn glyph_table() -> &'static [Glyph; 95] {
    let mut glyphs = [Glyph {
        offset: 0,
        width: 6,
        height: 8,
        advance: 7,
        left: 0,
        top: -8,
    }; 95];
    glyphs[usize::from(b'W' - 32)].advance = 11;
    glyphs[usize::from(b'?' - 32)].advance = 5;
    Box::leak(Box::new(glyphs))
}

fn font() -> &'static BitmapFont {
    Box::leak(Box::new(BitmapFont {
        glyphs: glyph_table(),
        bitmap: &[],
        line_height: 20,
    }))
}

#[test]
fn glyph_lookup_falls_back_to_question_mark() {
    let font = font();
    assert_eq!(font.glyph('W').advance, 11);
    assert_eq!(font.glyph('a').advance, 7);
    assert_eq!(font.glyph('中').advance, 5);
    assert_eq!(font.glyph('\u{7f}').advance, 5);
}

#[test]
fn text_bounds_are_half_open() {
    let bounds = TextBounds::new(0, 0, 10, 64);
    assert_eq!(bounds.width(), 10);
    assert!(bounds.contains(Point { x: 9, y: 63 }));
    assert!(!bounds.contains(Point { x: 10, y: 0 }));
    assert!(!bounds.contains(Point { x: 0, y: 64 }));
    assert_eq!(
        bounds.clip(),
        ClipRect {
            left: 0,
            top: 0,
            right: 10,
            bottom: 64
        }
    );
    assert_ne!(UiTextRole::Body, UiTextRole::Heading);
}

#[test]
fn style_scales_line_height_and_advances() {
    let style = UiTextStyle::new(font(), BinaryColor::On);
    assert_eq!(style.line_height(), 20);
    assert_eq!(style.cjk_px(), 20);
    assert_eq!(style.latin_advance('W'), 11);
    let doubled = style.with_scale(2);
    assert_eq!(doubled.line_height(), 40);
    assert_eq!(doubled.cjk_px(), 32);
    assert_eq!(doubled.latin_advance('W'), 22);
    assert_eq!(style.with_scale(0).line_height(), 20);
    assert_eq!(style.with_scale(20).line_height(), 255);
    assert_eq!(style.with_cjk_px(24).cjk_px(), 24);
    assert_eq!(style.text_color(), BinaryColor::On);
}

#[test]
fn style_measures_and_truncates_mixed_text() {
    let style = UiTextStyle::new(font(), BinaryColor::Off);
    assert_eq!(style.text_width(&[], "aW中"), 7 + 11 + 20);
    assert_eq!(style.text_width(&[], "a\nb"), 14);
    assert_eq!(style.truncate(&[], "aaaaaaaa", 40, 40), "aa...");
    assert_eq!(style.truncate(&[], "aaa", 40, 40), "aaa");
}

#[test]
fn cursor_moves_by_the_applied_advance() {
    let style = UiTextStyle::new(font(), BinaryColor::On);
    let cursor = Point { x: 30, y: 40 };
    assert_eq!(
        style.next_cursor(5, cursor, '\n', None),
        Some(Point { x: 5, y: 60 })
    );
    assert_eq!(
        style.next_cursor(5, cursor, 'W', None),
        Some(Point { x: 41, y: 40 })
    );
    assert_eq!(
        style.next_cursor(5, cursor, '中', Some(16)),
        Some(Point { x: 46, y: 40 })
    );
    assert_eq!(
        style.next_cursor(5, Point { x: i32::MAX, y: 0 }, 'W', None),
        None
    );
}
