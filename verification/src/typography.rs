//! Bitmap-font metrics and text bounds of the user-interface typography.
use vstd::prelude::*;

use crate::fonts::{
    follows, measure_chars, mixed_width, pack_well_formed, truncate_chars, truncated, ui_cjk_px,
    ClipRect, LatinAdvance, Point, UI_CJK_MAX_PX, UI_CJK_MIN_PX,
};
use crate::fonts::clamp_u8;
use crate::fonts::paint::{
    all_painted, block_painted, fits_exec, layout_fits, paint_blocks, BlockLayout,
};

verus! {

/// One rasterized printable-ASCII glyph relative to its text baseline.
#[derive(Clone, Copy, Debug, PartialEq, Eq, Structural)]
pub struct Glyph {
    pub offset: u32,
    pub width: u8,
    pub height: u8,
    pub advance: u8,
    pub left: i8,
    pub top: i8,
}

/// One complete printable-ASCII bitmap-font strike.
#[derive(Clone, Copy, Debug)]
pub struct BitmapFont {
    pub glyphs: &'static [Glyph; 95],
    pub bitmap: &'static [u8],
    pub line_height: u8,
}

/// Index of a character's glyph: printable ASCII maps to itself, anything else to `?`.
pub open spec fn glyph_index(character: char) -> int {
    if 32 <= (character as u32) <= 126 {
        (character as u32) - 32
    } else {
        ('?' as u32) - 32
    }
}

impl BitmapFont {
    pub fn glyph(self, character: char) -> (glyph: Glyph)
        ensures
            glyph == self.glyphs@[glyph_index(character)],
    {
        let code = character as u32;
        let index: usize = if 32 <= code && code <= 126 {
            (code - 32) as usize
        } else {
            31
        };
        self.glyphs[index]
    }
}

/// Semantic UI text role. A size profile selects the concrete raster strike.
#[derive(Clone, Copy, Debug, PartialEq, Eq, Structural)]
pub enum UiTextRole {
    /// Dense diagnostics, paths and compact values.
    Detail,
    /// Standard labels, descriptions, header subtitles and footers.
    Body,
    /// Menu titles, section headings and selected-row emphasis.
    Heading,
    /// Product titles and large sensor values.
    Large,
}

/// Half-open clipping rectangle for bounded text drawing.
#[derive(Clone, Copy, Debug, PartialEq, Eq, Structural)]
pub struct TextBounds {
    pub left: i32,
    pub top: i32,
    pub right: i32,
    pub bottom: i32,
}

impl TextBounds {
    pub fn new(left: i32, top: i32, right: i32, bottom: i32) -> (bounds: Self)
        ensures
            bounds == (TextBounds { left, top, right, bottom }),
    {
        TextBounds { left, top, right, bottom }
    }

    pub fn width(self) -> (width: i32)
        requires
            i32::MIN <= self.right - self.left <= i32::MAX,
        ensures
            width == self.right - self.left,
    {
        self.right - self.left
    }

    pub fn contains(self, point: Point) -> (inside: bool)
        ensures
            inside == (self.left <= point.x < self.right && self.top <= point.y < self.bottom),
    {
        point.x >= self.left && point.x < self.right && point.y >= self.top && point.y < self.bottom
    }

    pub fn clip(self) -> (clip: ClipRect)
        ensures
            clip == (ClipRect {
                left: self.left,
                top: self.top,
                right: self.right,
                bottom: self.bottom,
            }),
    {
        ClipRect { left: self.left, top: self.top, right: self.right, bottom: self.bottom }
    }
}

/// Declares embedded-graphics' `BinaryColor`, the panel's two colours, so a
/// text style can carry it to the drawing code; nothing is claimed of its
/// values, which no verified code reads.
#[verifier::external_type_specification]
#[verifier::external_body]
pub struct ExBinaryColor(embedded_graphics::pixelcolor::BinaryColor);

/// Transparent user-interface text style: a bitmap strike, its colour, an
/// integer pixel scale and the size of CJK fallback cells (zero: follow the
/// line height).
#[derive(Clone, Copy, Debug)]
pub struct UiTextStyle {
    font: &'static BitmapFont,
    color: embedded_graphics::pixelcolor::BinaryColor,
    pixel_scale: u8,
    cjk_px: u8,
}

/// What a style's measurements depend on.
pub struct StyleView {
    pub glyphs: Seq<Glyph>,
    pub bitmap: Seq<u8>,
    pub font_line_height: u8,
    pub pixel_scale: u8,
    pub cjk_px: u8,
}

impl View for UiTextStyle {
    type V = StyleView;

    closed spec fn view(&self) -> StyleView {
        StyleView {
            glyphs: self.font.glyphs@,
            bitmap: self.font.bitmap@,
            font_line_height: self.font.line_height,
            pixel_scale: self.pixel_scale,
            cjk_px: self.cjk_px,
        }
    }
}

/// `a * b`, or 255 where the product does not fit a byte.
pub open spec fn saturating_mul_u8(a: u8, b: u8) -> u8 {
    if a * b > 255 {
        255
    } else {
        (a * b) as u8
    }
}

fn mul_u8(a: u8, b: u8) -> (product: u8)
    ensures
        product == saturating_mul_u8(a, b),
{
    assert(a * b <= 255 * 255) by (nonlinear_arith)
        requires
            a <= 255,
            b <= 255,
    ;
    let wide: u16 = (a as u16) * (b as u16);
    if wide > 255 {
        255
    } else {
        wide as u8
    }
}

pub open spec fn effective_scale(style: StyleView) -> u8 {
    if style.pixel_scale == 0 {
        1
    } else {
        style.pixel_scale
    }
}

pub open spec fn style_line_height(style: StyleView) -> u8 {
    saturating_mul_u8(style.font_line_height, effective_scale(style))
}

pub open spec fn style_cjk_px(style: StyleView) -> u8 {
    if style.cjk_px == 0 {
        clamp_u8(style_line_height(style), UI_CJK_MIN_PX, UI_CJK_MAX_PX)
    } else {
        style.cjk_px
    }
}

pub open spec fn style_latin_advance(style: StyleView, character: char) -> u8 {
    saturating_mul_u8(style.glyphs[glyph_index(character)].advance, effective_scale(style))
}

impl UiTextStyle {
    pub fn new(font: &'static BitmapFont, color: embedded_graphics::pixelcolor::BinaryColor) -> (style: Self)
        ensures
            style@ == (StyleView {
                glyphs: font.glyphs@,
                bitmap: font.bitmap@,
                font_line_height: font.line_height,
                pixel_scale: 1,
                cjk_px: 0,
            }),
            style.color() == color,
    {
        UiTextStyle { font, color, pixel_scale: 1, cjk_px: 0 }
    }

    pub closed spec fn color(self) -> embedded_graphics::pixelcolor::BinaryColor {
        self.color
    }

    /// The colour the text is drawn in.
    pub fn text_color(self) -> (color: embedded_graphics::pixelcolor::BinaryColor)
        ensures
            color == self.color(),
    {
        self.color
    }

    /// The bitmap strike.
    pub fn font(self) -> (font: &'static BitmapFont)
        ensures
            font.glyphs@ == self@.glyphs,
            font.bitmap@ == self@.bitmap,
            font.line_height == self@.font_line_height,
    {
        self.font
    }

    /// The integer pixel scale, at least one.
    pub fn scale(self) -> (scale: u8)
        ensures
            scale == effective_scale(self@),
    {
        if self.pixel_scale == 0 {
            1
        } else {
            self.pixel_scale
        }
    }

    /// The same style drawn `pixel_scale` times larger; zero means one.
    pub fn with_scale(self, pixel_scale: u8) -> (style: Self)
        ensures
            style@ == (StyleView {
                pixel_scale: if pixel_scale == 0 {
                    1
                } else {
                    pixel_scale
                },
                ..self@
            }),
            style.color() == self.color(),
    {
        UiTextStyle {
            font: self.font,
            color: self.color,
            pixel_scale: if pixel_scale == 0 {
                1
            } else {
                pixel_scale
            },
            cjk_px: self.cjk_px,
        }
    }

    /// The same style with CJK cells of `cjk_px` pixels; zero follows the
    /// line height.
    pub fn with_cjk_px(self, cjk_px: u8) -> (style: Self)
        ensures
            style@ == (StyleView { cjk_px, ..self@ }),
            style.color() == self.color(),
    {
        UiTextStyle { font: self.font, color: self.color, pixel_scale: self.pixel_scale, cjk_px }
    }

    pub fn line_height(self) -> (height: u8)
        ensures
            height == style_line_height(self@),
    {
        let scale = if self.pixel_scale == 0 {
            1
        } else {
            self.pixel_scale
        };
        mul_u8(self.font.line_height, scale)
    }

    pub fn cjk_px(self) -> (px: u8)
        ensures
            px == style_cjk_px(self@),
    {
        if self.cjk_px == 0 {
            ui_cjk_px(self.line_height())
        } else {
            self.cjk_px
        }
    }

    pub fn latin_advance(self, character: char) -> (advance: u8)
        ensures
            advance == style_latin_advance(self@, character),
    {
        let scale = if self.pixel_scale == 0 {
            1
        } else {
            self.pixel_scale
        };
        mul_u8(self.font.glyph(character).advance, scale)
    }

    /// Width of mixed Latin and CJK text: ASCII from the bitmap strike, CJK
    /// from the fallback cell.
    pub fn text_width(self, pack: &[u8], text: &str) -> (width: i32)
        requires
            pack_well_formed(pack@),
        ensures
            width == mixed_width(pack@, text@, style_cjk_px(self@), style_advances(self@)) as i32,
    {
        let chars = crate::text::text_chars(text);
        let total = measure_chars(pack, &chars, self.cjk_px(), &self);
        assert(follows(self, style_advances(self@)));
        #[verifier::truncate]
        (total as i32)
    }

    /// Truncate mixed text to `max_chars` characters and `max_px` pixels,
    /// ending a cut text with `...`.
    pub fn truncate(self, pack: &[u8], text: &str, max_chars: usize, max_px: i32) -> (clipped: String)
        requires
            pack_well_formed(pack@),
        ensures
            clipped@ == truncated(
                pack@,
                text@,
                max_chars,
                max_px,
                style_cjk_px(self@),
                style_advances(self@),
            ),
    {
        let clipped = truncate_chars(pack, text, max_chars, max_px, self.cjk_px(), &self);
        assert(follows(self, style_advances(self@)));
        clipped
    }
}

/// The Latin advances of a style, as a specification function.
pub open spec fn style_advances(style: StyleView) -> spec_fn(char) -> u8 {
    |c: char| style_latin_advance(style, c)
}

impl LatinAdvance for UiTextStyle {
    open spec fn ready(&self) -> bool {
        true
    }

    open spec fn gives(&self, character: char, width: u8) -> bool {
        width == style_latin_advance(self@, character)
    }

    fn advance(&self, character: char) -> (width: u8) {
        self.latin_advance(character)
    }
}

/// An optional text clip as a glyph clip.
pub open spec fn bounds_clip(bounds: Option<TextBounds>) -> Option<ClipRect> {
    match bounds {
        Some(b) => Some(ClipRect { left: b.left, top: b.top, right: b.right, bottom: b.bottom }),
        None => None,
    }
}

/// Where a strike glyph is painted: its rows in the strike's bitmap, in
/// blocks of the style's scale, offset from the baseline by its bearings.
pub open spec fn strike_layout(
    style: StyleView,
    glyph: Glyph,
    baseline: Point,
    bounds: Option<TextBounds>,
) -> BlockLayout {
    let s = effective_scale(style) as int;
    BlockLayout {
        bitmap: style.bitmap,
        offset: glyph.offset as int,
        stride: (glyph.width as int + 7) / 8,
        width: glyph.width as int,
        height: glyph.height as int,
        origin_x: baseline.x + glyph.left * s,
        origin_y: baseline.y + glyph.top * s,
        scale: s,
        clip: bounds_clip(bounds),
    }
}

/// A glyph's rows lie inside the strike's bitmap.
pub open spec fn glyph_in_strike(style: StyleView, glyph: Glyph) -> bool {
    glyph.width == 0 || glyph.height == 0 || glyph.offset + glyph.height * ((glyph.width as int
        + 7) / 8) <= style.bitmap.len()
}

impl UiTextStyle {
    /// Whether `glyph_points` accepts this glyph at this baseline.
    pub fn glyph_fits(self, glyph: Glyph, baseline: Point, bounds: Option<TextBounds>) -> (fits: bool)
        ensures
            fits == (glyph_in_strike(self@, glyph) && layout_fits(
                strike_layout(self@, glyph, baseline, bounds),
            )),
    {
        let s = self.scale();
        let stride = (glyph.width as usize + 7) / 8;
        if glyph.width != 0 && glyph.height != 0 {
            assert(glyph.height * stride <= 255 * 32) by (nonlinear_arith)
                requires
                    glyph.height <= 255,
                    stride <= 32,
            ;
            let rows = (glyph.height as usize) * stride;
            if glyph.offset as usize > self.font.bitmap.len() || rows > self.font.bitmap.len()
                - glyph.offset as usize {
                return false;
            }
        }
        assert(-128 * 255 <= glyph.left * s <= 127 * 255) by (nonlinear_arith)
            requires
                -128 <= glyph.left <= 127,
                1 <= s <= 255,
        ;
        assert(-128 * 255 <= glyph.top * s <= 127 * 255) by (nonlinear_arith)
            requires
                -128 <= glyph.top <= 127,
                1 <= s <= 255,
        ;
        let origin_x = baseline.x as i64 + (glyph.left as i64) * (s as i64);
        let origin_y = baseline.y as i64 + (glyph.top as i64) * (s as i64);
        fits_exec(glyph.offset as usize, stride, glyph.width, glyph.height, origin_x, origin_y, s)
    }

    /// The points a strike glyph covers at `baseline` in this style,
    /// discarding those outside `bounds`.
    pub fn glyph_points(self, glyph: Glyph, baseline: Point, bounds: Option<TextBounds>) -> (points: Vec<Point>)
        requires
            glyph_in_strike(self@, glyph),
            layout_fits(strike_layout(self@, glyph, baseline, bounds)),
        ensures
            all_painted(strike_layout(self@, glyph, baseline, bounds), points@),
            forall|p: Point|
                block_painted(strike_layout(self@, glyph, baseline, bounds), p) ==> points@.contains(p),
    {
        let s = self.scale();
        assert(-128 * 255 <= glyph.left * s <= 127 * 255) by (nonlinear_arith)
            requires
                -128 <= glyph.left <= 127,
                1 <= s <= 255,
        ;
        assert(-128 * 255 <= glyph.top * s <= 127 * 255) by (nonlinear_arith)
            requires
                -128 <= glyph.top <= 127,
                1 <= s <= 255,
        ;
        let origin = Point {
            x: baseline.x + (glyph.left as i32) * (s as i32),
            y: baseline.y + (glyph.top as i32) * (s as i32),
        };
        let clip = match bounds {
            Some(b) => Some(b.clip()),
            None => None,
        };
        let stride = (glyph.width as usize + 7) / 8;
        paint_blocks(
            self.font.bitmap,
            glyph.offset as usize,
            stride,
            glyph.width,
            glyph.height,
            origin,
            s,
            clip,
        )
    }
}

/// Where the text cursor stands after `character`: a line feed returns to
/// `start_x` one line lower; otherwise the cursor moves right by the
/// fallback advance when a fallback glyph was drawn, else by the Latin
/// advance.
pub open spec fn cursor_after(
    style: StyleView,
    start_x: i32,
    cursor: Point,
    character: char,
    fallback_advance: Option<u8>,
) -> (int, int) {
    if character == '\n' {
        (start_x as int, cursor.y + style_line_height(style))
    } else {
        match fallback_advance {
            Some(a) => (cursor.x + a, cursor.y as int),
            None => (cursor.x + style_latin_advance(style, character), cursor.y as int),
        }
    }
}

impl UiTextStyle {
    /// The cursor after drawing `character`; none where it would leave the
    /// `i32` coordinate range.
    pub fn next_cursor(self, start_x: i32, cursor: Point, character: char, fallback_advance: Option<u8>) -> (next: Option<Point>)
        ensures
            ({
                let (x, y) = cursor_after(self@, start_x, cursor, character, fallback_advance);
                match next {
                    Some(p) => p.x == x && p.y == y,
                    None => !(i32::MIN <= x <= i32::MAX && i32::MIN <= y <= i32::MAX),
                }
            }),
    {
        if character == '\n' {
            let height = self.line_height() as i32;
            if cursor.y > i32::MAX - height {
                return None;
            }
            return Some(Point { x: start_x, y: cursor.y + height });
        }
        let advance: i32 = match fallback_advance {
            Some(a) => a as i32,
            None => self.latin_advance(character) as i32,
        };
        if cursor.x > i32::MAX - advance {
            return None;
        }
        Some(Point { x: cursor.x + advance, y: cursor.y })
    }
}

} // verus!
