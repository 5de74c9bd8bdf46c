//! Unicode / CJK text support for Reader pages, titles and filenames.
use vstd::prelude::*;

pub mod cache;
pub mod paint;
pub mod scan_order;
pub mod sd_ttf;
pub mod unifont;

use cache::{total_bytes, touched, lookup, inserted, CacheEntry, CacheKey, GlyphCache, DEFAULT_MAX_BYTES, DEFAULT_MAX_ENTRIES};

verus! {

#[derive(Clone, Copy, Debug, PartialEq, Eq, Hash, Structural)]
pub enum FaceId {
    Unifont,
    Sd(u8),
}

/// A glyph as seen by specifications.
pub struct GlyphView {
    pub width: u8,
    pub height: u8,
    pub advance: u8,
    pub left: i8,
    pub top: i8,
    pub bitmap: Seq<u8>,
}

/// One rasterized one-bit glyph: rows of `stride()` bytes, most significant bit first.
#[derive(Debug)]
pub struct RasterGlyph {
    pub width: u8,
    pub height: u8,
    pub advance: u8,
    pub left: i8,
    pub top: i8,
    pub bitmap: Vec<u8>,
}

impl View for RasterGlyph {
    type V = GlyphView;

    open spec fn view(&self) -> GlyphView {
        GlyphView {
            width: self.width,
            height: self.height,
            advance: self.advance,
            left: self.left,
            top: self.top,
            bitmap: self.bitmap@,
        }
    }
}

impl RasterGlyph {
    /// A copy with the same metrics and bitmap.
    pub fn duplicate(&self) -> (copy: RasterGlyph)
        ensures
            copy@ == self@,
    {
        let mut bitmap: Vec<u8> = Vec::new();
        let mut i: usize = 0;
        while i < self.bitmap.len()
            invariant
                i <= self.bitmap.len(),
                bitmap@ == self.bitmap@.take(i as int),
            decreases self.bitmap.len() - i,
        {
            bitmap.push(self.bitmap[i]);
            i = i + 1;
            assert(bitmap@ =~= self.bitmap@.take(i as int));
        }
        assert(bitmap@ =~= self.bitmap@);
        RasterGlyph {
            width: self.width,
            height: self.height,
            advance: self.advance,
            left: self.left,
            top: self.top,
            bitmap,
        }
    }
}

} // verus!


verus! {

/// A display position in pixels.
#[derive(Clone, Copy, Debug, PartialEq, Eq, Structural)]
pub struct Point {
    pub x: i32,
    pub y: i32,
}

/// Half-open clip rectangle used by mixed CJK/Latin drawing.
#[derive(Clone, Copy, Debug, PartialEq, Eq, Structural)]
pub struct ClipRect {
    pub left: i32,
    pub top: i32,
    pub right: i32,
    pub bottom: i32,
}

impl ClipRect {
    pub fn contains(self, point: Point) -> (inside: bool)
        ensures
            inside == (self.left <= point.x < self.right && self.top <= point.y < self.bottom),
    {
        point.x >= self.left && point.x < self.right && point.y >= self.top && point.y < self.bottom
    }
}

/// Bytes per bitmap row of a glyph `width` pixels wide.
pub open spec fn stride_of(width: u8) -> nat {
    (width as nat + 7) / 8
}

/// Whether pixel `(x, y)` of a glyph is set.
pub open spec fn glyph_bit(glyph: GlyphView, x: u8, y: u8) -> bool {
    if x >= glyph.width || y >= glyph.height {
        false
    } else {
        let index = y as nat * stride_of(glyph.width) + x as nat / 8;
        index < glyph.bitmap.len() && glyph.bitmap[index as int] & (0x80u8 >> (x % 8)) != 0
    }
}

impl RasterGlyph {
    pub fn stride(&self) -> (stride: usize)
        ensures
            stride == stride_of(self.width),
    {
        (self.width as usize + 7) / 8
    }

    pub fn bit(&self, x: u8, y: u8) -> (set: bool)
        ensures
            set == glyph_bit(self@, x, y),
    {
        if x >= self.width || y >= self.height {
            return false;
        }
        let stride = self.stride();
        assert(y as nat * stride_of(self.width) <= 255 * 32) by (nonlinear_arith)
            requires
                y < 256,
                stride_of(self.width) <= 32,
        ;
        let index = (y as usize) * stride + (x as usize) / 8;
        if index < self.bitmap.len() {
            self.bitmap[index] & (0x80u8 >> (x % 8)) != 0
        } else {
            false
        }
    }
}

/// Reader book-body pixel sizes. These are the only accepted steps.
pub const READER_FONT_SIZE_STEPS: [u8; 6] = [16, 20, 24, 32, 48, 72];

pub const UI_CJK_MIN_PX: u8 = 16;

pub const UI_CJK_MAX_PX: u8 = 32;

pub open spec fn reader_steps() -> Seq<u8> {
    seq![16u8, 20u8, 24u8, 32u8, 48u8, 72u8]
}

pub open spec fn abs_diff(a: u8, b: u8) -> int {
    if a >= b {
        a - b
    } else {
        b - a
    }
}

/// `step` is the reader size nearest to `px`, the smaller one on a tie.
pub open spec fn is_nearest_step(px: u8, step: u8) -> bool {
    &&& reader_steps().contains(step)
    &&& forall|i: int|
        0 <= i < 6 ==> abs_diff(reader_steps()[i], px) > abs_diff(step, px) || (abs_diff(
            reader_steps()[i],
            px,
        ) == abs_diff(step, px) && step <= reader_steps()[i])
}

pub fn clamp_reader_px(px: u8) -> (step: u8)
    ensures
        is_nearest_step(px, step),
{
    let steps = READER_FONT_SIZE_STEPS;
    assert(steps@ == reader_steps());
    let mut best: u8 = steps[0];
    let mut best_diff: u8 = if best >= px {
        best - px
    } else {
        px - best
    };
    let mut i: usize = 1;
    while i < 6
        invariant
            1 <= i <= 6,
            steps@ == reader_steps(),
            reader_steps().contains(best),
            best_diff == abs_diff(best, px),
            forall|j: int| i <= j < 6 ==> best <= reader_steps()[j],
            forall|j: int|
                0 <= j < i ==> abs_diff(reader_steps()[j], px) > abs_diff(best, px) || (abs_diff(
                    reader_steps()[j],
                    px,
                ) == abs_diff(best, px) && best <= reader_steps()[j]),
        decreases 6 - i,
    {
        let step = steps[i];
        let diff: u8 = if step >= px {
            step - px
        } else {
            px - step
        };
        if diff < best_diff {
            best = step;
            best_diff = diff;
        }
        i = i + 1;
    }
    best
}

pub open spec fn clamp_u8(value: u8, low: u8, high: u8) -> u8 {
    if value < low {
        low
    } else if value > high {
        high
    } else {
        value
    }
}

pub fn ui_cjk_px(line_height: u8) -> (px: u8)
    ensures
        px == clamp_u8(line_height, UI_CJK_MIN_PX, UI_CJK_MAX_PX),
        UI_CJK_MIN_PX <= px <= UI_CJK_MAX_PX,
{
    if line_height < UI_CJK_MIN_PX {
        UI_CJK_MIN_PX
    } else if line_height > UI_CJK_MAX_PX {
        UI_CJK_MAX_PX
    } else {
        line_height
    }
}

pub open spec fn in_range(code: u32, low: u32, high: u32) -> bool {
    low <= code <= high
}

/// CJK radicals, punctuation, kana, bopomofo, ideographs, compatibility,
/// vertical/small forms, fullwidth forms and the supplementary ideograph planes.
pub open spec fn cjk_code(code: u32) -> bool {
    in_range(code, 0x2E80, 0x2EFF) || in_range(code, 0x2F00, 0x2FDF) || in_range(
        code,
        0x3000,
        0x303F,
    ) || in_range(code, 0x3040, 0x30FF) || in_range(code, 0x3100, 0x312F) || in_range(
        code,
        0x31A0,
        0x31BF,
    ) || in_range(code, 0x31C0, 0x31EF) || in_range(code, 0x3400, 0x4DBF) || in_range(
        code,
        0x4E00,
        0x9FFF,
    ) || in_range(code, 0xF900, 0xFAFF) || in_range(code, 0xFE10, 0xFE1F) || in_range(
        code,
        0xFE30,
        0xFE4F,
    ) || in_range(code, 0xFF00, 0xFFEF) || in_range(code, 0x20000, 0x2FA1F)
}

/// General punctuation dashes, quotes and bullets rendered by the CJK faces.
pub open spec fn cjk_punctuation_code(code: u32) -> bool {
    in_range(code, 0x2010, 0x2027)
}

pub fn is_cjk_codepoint(character: char) -> (cjk: bool)
    ensures
        cjk == cjk_code(character as u32),
{
    let code = character as u32;
    (0x2E80 <= code && code <= 0x2EFF) || (0x2F00 <= code && code <= 0x2FDF) || (0x3000 <= code
        && code <= 0x303F) || (0x3040 <= code && code <= 0x30FF) || (0x3100 <= code && code
        <= 0x312F) || (0x31A0 <= code && code <= 0x31BF) || (0x31C0 <= code && code <= 0x31EF)
        || (0x3400 <= code && code <= 0x4DBF) || (0x4E00 <= code && code <= 0x9FFF) || (0xF900
        <= code && code <= 0xFAFF) || (0xFE10 <= code && code <= 0xFE1F) || (0xFE30 <= code && code
        <= 0xFE4F) || (0xFF00 <= code && code <= 0xFFEF) || (0x20000 <= code && code <= 0x2FA1F)
}

pub open spec fn is_ascii_char(character: char) -> bool {
    (character as u32) < 128
}

/// Characters a Reader page keeps from a book: whitespace controls, printable
/// ASCII, CJK and general punctuation.
pub open spec fn preserved_book_char(character: char) -> bool {
    character == '\n' || character == '\r' || character == '\t' || character == ' ' || (0x21
        <= (character as u32) <= 0x7E) || cjk_code(character as u32) || cjk_punctuation_code(
        character as u32,
    )
}

pub fn is_preserved_book_character(character: char) -> (preserved: bool)
    ensures
        preserved == preserved_book_char(character),
        0x2010 <= character as u32 <= 0x2027 ==> preserved,
{
    proof {
        lemma_kept_book_characters_are_drawable(Seq::empty(), character);
    }
    let code = character as u32;
    character == '\n' || character == '\r' || character == '\t' || character == ' ' || (0x21
        <= code && code <= 0x7E) || is_cjk_codepoint(character) || (0x2010 <= code && code
        <= 0x2027)
}

/// A Reader page keeps every character that the CJK faces draw on their own,
/// without the embedded bitmap pack, and every non-ASCII character it keeps
/// is one that they draw. In particular the whole general-punctuation block
/// U+2010..=U+2027 (dashes, curly quotes, the ellipsis) is kept. Of ASCII, it
/// keeps the printable characters, the space, tab, carriage return and line
/// feed.
pub proof fn lemma_kept_book_characters_are_drawable(pack: Seq<u8>, character: char)
    ensures
        renders_unicode(pack, character) && !unifont_holds(pack, character)
            ==> preserved_book_char(character),
        preserved_book_char(character) && !is_ascii_char(character) ==> renders_unicode(
            pack,
            character,
        ),
        0x2010 <= character as u32 <= 0x2027 ==> preserved_book_char(character),
        is_ascii_char(character) ==> (preserved_book_char(character) <==> (character == '\n'
            || character == '\r' || character == '\t' || (0x20 <= character as u32 <= 0x7E))),
{
}

/// Whether the fallback CJK faces can draw a non-ASCII character.
pub open spec fn renders_unicode(pack: Seq<u8>, character: char) -> bool {
    !is_ascii_char(character) && (cjk_code(character as u32) || cjk_punctuation_code(
        character as u32,
    ) || unifont_holds(pack, character))
}

/// The embedded pack has a bitmap for the character.
pub open spec fn unifont_holds(pack: Seq<u8>, character: char) -> bool {
    (character as u32) <= 0xFFFF && unifont::pack_complete(pack) && unifont::codes_contain(
        unifont::pack_codes(pack),
        character as u32 as int,
    )
}

/// A pack whose code table is in strictly ascending order, as generated.
pub open spec fn pack_well_formed(pack: Seq<u8>) -> bool {
    unifont::pack_complete(pack) ==> unifont::codes_sorted(unifont::pack_codes(pack))
}

fn pack_code(pack: &[u8], index: usize) -> (code: u32)
    requires
        unifont::pack_complete(pack@),
        index < unifont::pack_count(pack@),
    ensures
        code == unifont::code_at(unifont::pack_codes(pack@), index as int),
{
    let len = pack.len();
    assert(unifont::HEADER_LEN + 2 * index + 1 < len);
    let at = 8 + 2 * index;
    pack[at] as u32 + pack[at + 1] as u32 * 256
}

/// Whether a pack meets what the lookups need: a complete pack lists its
/// code points in ascending order.
pub fn pack_is_well_formed(pack: &[u8]) -> (well_formed: bool)
    ensures
        well_formed == pack_well_formed(pack@),
{
    let count = unifont::pack_glyph_count(pack) as u64;
    assert(count <= 0xFFFF_FFFF) by {
        if unifont::has_magic(pack@) {
            assert(pack@[4] <= 255 && pack@[5] <= 255 && pack@[6] <= 255 && pack@[7] <= 255);
        }
    }
    if count == 0 {
        return true;
    }
    let needed: u64 = 8 + 34 * count;
    if (pack.len() as u64) < needed {
        return true;
    }
    let count = count as usize;
    let mut i: usize = 1;
    while i < count
        invariant
            1 <= i <= count,
            count == unifont::pack_count(pack@),
            unifont::pack_complete(pack@),
            forall|a: int, b: int|
                0 <= a < b < i ==> unifont::code_at(unifont::pack_codes(pack@), a)
                    < unifont::code_at(unifont::pack_codes(pack@), b),
        decreases count - i,
    {
        if pack_code(pack, i - 1) >= pack_code(pack, i) {
            return false;
        }
        i = i + 1;
    }
    assert(unifont::pack_codes(pack@).len() / 2 == count);
    true
}

pub fn can_render_unicode(pack: &[u8], character: char) -> (renders: bool)
    requires
        pack_well_formed(pack@),
    ensures
        renders == renders_unicode(pack@, character),
{
    let code = character as u32;
    if code < 128 {
        return false;
    }
    is_cjk_codepoint(character) || (0x2010 <= code && code <= 0x2027) || unifont::contains(
        pack,
        character,
    )
}

/// Horizontal advance of a non-ASCII character in mixed text.
pub open spec fn unicode_advance_of(
    pack: Seq<u8>,
    character: char,
    px: u8,
    latin_fallback: u8,
) -> int {
    if character == '\n' || character == '\r' {
        0
    } else if renders_unicode(pack, character) {
        px as int
    } else {
        latin_fallback as int
    }
}

pub fn unicode_advance(pack: &[u8], character: char, px: u8, latin_fallback: u8) -> (advance: i32)
    requires
        pack_well_formed(pack@),
    ensures
        advance == unicode_advance_of(pack@, character, px, latin_fallback),
{
    if character == '\n' || character == '\r' {
        0
    } else if can_render_unicode(pack, character) {
        px as i32
    } else {
        latin_fallback as i32
    }
}

/// The measuring function can be called on every ASCII character, the only
/// characters measuring and truncation ask it about.
pub open spec fn ascii_callable<F: Fn(char) -> u8>(latin_advance: F) -> bool {
    forall|c: char| is_ascii_char(c) ==> call_requires(latin_advance, (c,))
}

/// On ASCII characters, every answer of the measuring function is `adv`'s.
pub open spec fn measures_by<F: Fn(char) -> u8>(latin_advance: F, adv: spec_fn(char) -> u8) -> bool {
    forall|c: char, w: u8|
        is_ascii_char(c) && #[trigger] call_ensures(latin_advance, (c,), w) ==> w == adv(c)
}

/// A source of Latin advances for the measuring and truncating loops.
pub trait LatinAdvance {
    /// The source can be asked about any ASCII character.
    spec fn ready(&self) -> bool;

    /// The source may answer `width` for `character`.
    spec fn gives(&self, character: char, width: u8) -> bool;

    fn advance(&self, character: char) -> (width: u8)
        requires
            self.ready(),
            is_ascii_char(character),
        ensures
            self.gives(character, width),
    ;
}

/// On ASCII characters, every answer of the source is `adv`'s.
pub open spec fn follows<A: LatinAdvance>(source: A, adv: spec_fn(char) -> u8) -> bool {
    forall|c: char, w: u8| is_ascii_char(c) && #[trigger] source.gives(c, w) ==> w == adv(c)
}

/// A caller's measuring function as a source of advances.
pub struct ClosureAdvance<F: Fn(char) -> u8> {
    pub measure: F,
}

impl<F: Fn(char) -> u8> LatinAdvance for ClosureAdvance<F> {
    open spec fn ready(&self) -> bool {
        ascii_callable(self.measure)
    }

    open spec fn gives(&self, character: char, width: u8) -> bool {
        call_ensures(self.measure, (character,), width)
    }

    fn advance(&self, character: char) -> (width: u8) {
        (self.measure)(character)
    }
}

/// Advance of one character of mixed text: ASCII uses the Latin strike,
/// everything else the CJK cell (or the Latin `?` advance without a glyph).
pub open spec fn mixed_advance(
    pack: Seq<u8>,
    character: char,
    px: u8,
    latin_advance: spec_fn(char) -> u8,
) -> int {
    if is_ascii_char(character) {
        latin_advance(character) as int
    } else {
        unicode_advance_of(pack, character, px, latin_advance('?'))
    }
}

/// Width of mixed text; line feeds take no space.
pub open spec fn mixed_width(
    pack: Seq<u8>,
    text: Seq<char>,
    px: u8,
    latin_advance: spec_fn(char) -> u8,
) -> int
    decreases text.len(),
{
    if text.len() == 0 {
        0
    } else {
        mixed_width(pack, text.drop_last(), px, latin_advance) + if text.last() == '\n' {
            0
        } else {
            mixed_advance(pack, text.last(), px, latin_advance)
        }
    }
}

/// Measuring is additive: the width of two texts one after the other is the
/// sum of their widths; the empty text measures zero.
pub proof fn lemma_mixed_width_concat(
    pack: Seq<u8>,
    a: Seq<char>,
    b: Seq<char>,
    px: u8,
    latin_advance: spec_fn(char) -> u8,
)
    ensures
        mixed_width(pack, a + b, px, latin_advance) == mixed_width(pack, a, px, latin_advance)
            + mixed_width(pack, b, px, latin_advance),
        mixed_width(pack, Seq::empty(), px, latin_advance) == 0,
    decreases b.len(),
{
    if b.len() == 0 {
        assert(a + b =~= a);
    } else {
        lemma_mixed_width_concat(pack, a, b.drop_last(), px, latin_advance);
        assert((a + b).drop_last() =~= a + b.drop_last());
        assert((a + b).last() == b.last());
    }
}

/// How a character of mixed text is drawn.
#[derive(Clone, Copy, Debug, PartialEq, Eq, Structural)]
pub enum MixedDraw {
    /// ASCII, or no fallback glyph: the Latin strike draws it.
    Latin,
    /// The SD face's glyph, advancing by at least one pixel.
    SdFace { advance: u8 },
    /// The Unifont bitmap resampled to the cell, advancing by the cell size.
    Unifont { advance: u8 },
}

/// Whether a character is drawn by the Latin strike without any fallback
/// lookup.
pub fn is_latin_char(character: char) -> (latin: bool)
    ensures
        latin == is_ascii_char(character),
{
    (character as u32) < 128
}

/// The drawing choice for `character` given what the lookups found: the SD
/// face's glyph (and its advance) first, then a Unifont bitmap; ASCII always
/// goes to the Latin strike.
pub fn mixed_draw(character: char, sd_advance: Option<u8>, has_unifont: bool, px: u8) -> (draw: MixedDraw)
    ensures
        draw == (if is_ascii_char(character) {
            MixedDraw::Latin
        } else {
            match sd_advance {
                Some(a) => MixedDraw::SdFace { advance: if a == 0 { 1 } else { a } },
                None => if has_unifont {
                    MixedDraw::Unifont { advance: if px == 0 { 1 } else { px } }
                } else {
                    MixedDraw::Latin
                },
            }
        }),
{
    if (character as u32) < 128 {
        return MixedDraw::Latin;
    }
    match sd_advance {
        Some(a) => MixedDraw::SdFace { advance: if a == 0 { 1 } else { a } },
        None => if has_unifont {
            MixedDraw::Unifont { advance: if px == 0 { 1 } else { px } }
        } else {
            MixedDraw::Latin
        },
    }
}

proof fn lemma_mixed_advance_bounds(
    pack: Seq<u8>,
    character: char,
    px: u8,
    latin_advance: spec_fn(char) -> u8,
)
    ensures
        0 <= mixed_advance(pack, character, px, latin_advance) <= 255,
{
}

proof fn lemma_mixed_width_bounds(
    pack: Seq<u8>,
    text: Seq<char>,
    px: u8,
    latin_advance: spec_fn(char) -> u8,
)
    ensures
        0 <= mixed_width(pack, text, px, latin_advance) <= 255 * text.len(),
    decreases text.len(),
{
    if text.len() > 0 {
        lemma_mixed_width_bounds(pack, text.drop_last(), px, latin_advance);
        lemma_mixed_advance_bounds(pack, text.last(), px, latin_advance);
    }
}

fn advance_of<A: LatinAdvance>(pack: &[u8], character: char, px: u8, source: &A) -> (advance: i32)
    requires
        pack_well_formed(pack@),
        source.ready(),
    ensures
        forall|adv: spec_fn(char) -> u8|
            #[trigger] follows(*source, adv) ==> advance == mixed_advance(pack@, character, px, adv),
        0 <= advance <= 255,
{
    if (character as u32) < 128 {
        let width = source.advance(character);
        proof {
            assert forall|adv: spec_fn(char) -> u8| #[trigger] follows(*source, adv) implies width
                == adv(character) by {
                assert(source.gives(character, width));
            }
        }
        width as i32
    } else {
        let fallback = source.advance('?');
        proof {
            assert forall|adv: spec_fn(char) -> u8| #[trigger] follows(*source, adv) implies fallback
                == adv('?') by {
                assert(source.gives('?', fallback));
            }
        }
        unicode_advance(pack, character, px, fallback)
    }
}

pub(crate) fn measure_chars<A: LatinAdvance>(pack: &[u8], chars: &Vec<char>, px: u8, source: &A) -> (width: i128)
    requires
        pack_well_formed(pack@),
        source.ready(),
    ensures
        forall|adv: spec_fn(char) -> u8|
            #[trigger] follows(*source, adv) ==> width == mixed_width(pack@, chars@, px, adv),
        0 <= width <= 255 * chars@.len(),
{
    let mut width: i128 = 0;
    let mut i: usize = 0;
    while i < chars.len()
        invariant
            i <= chars@.len(),
            chars@.len() == chars.len(),
            pack_well_formed(pack@),
            source.ready(),
            0 <= width <= 255 * i,
            forall|adv: spec_fn(char) -> u8|
                #[trigger] follows(*source, adv) ==> width == mixed_width(
                    pack@,
                    chars@.take(i as int),
                    px,
                    adv,
                ),
        decreases chars.len() - i,
    {
        let character = chars[i];
        proof {
            assert(chars@.take(i + 1).drop_last() =~= chars@.take(i as int));
        }
        if character != '\n' {
            let advance = advance_of(pack, character, px, source);
            width = width + advance as i128;
        }
        i = i + 1;
    }
    assert(chars@.take(i as int) =~= chars@);
    width
}

/// Measure mixed Latin + CJK text. ASCII uses `latin_advance`; everything else
/// uses the CJK cell size when a fallback glyph exists. The width is stated
/// over any specification `adv` that the measuring function follows on ASCII
/// characters, the only ones it is asked about. The sum is an `i32`, taken
/// modulo 2^32 where it leaves that range.
pub fn measure_mixed(pack: &[u8], text: &str, px: u8, latin_advance: impl Fn(char) -> u8) -> (width: i32)
    requires
        pack_well_formed(pack@),
        ascii_callable(latin_advance),
    ensures
        forall|adv: spec_fn(char) -> u8|
            #[trigger] measures_by(latin_advance, adv) ==> width == mixed_width(
                pack@,
                text@,
                px,
                adv,
            ) as i32,
{
    let chars = crate::text::text_chars(text);
    let source = ClosureAdvance { measure: latin_advance };
    let total = measure_chars(pack, &chars, px, &source);
    proof {
        assert forall|adv: spec_fn(char) -> u8| #[trigger] measures_by(latin_advance, adv) implies total
            == mixed_width(pack@, text@, px, adv) by {
            assert(follows(source, adv));
        }
    }
    #[verifier::truncate]
    (total as i32)
}

/// What `measure_mixed` returns adds up over concatenation: where the two
/// widths together fit an `i32`, the measure of `a + b` is the measure of `a`
/// plus the measure of `b`; the empty text measures zero.
pub proof fn lemma_measured_width_additive(
    pack: Seq<u8>,
    a: Seq<char>,
    b: Seq<char>,
    px: u8,
    latin_advance: spec_fn(char) -> u8,
)
    requires
        mixed_width(pack, a, px, latin_advance) + mixed_width(pack, b, px, latin_advance)
            <= i32::MAX,
    ensures
        mixed_width(pack, a + b, px, latin_advance) as i32 == (mixed_width(
            pack,
            a,
            px,
            latin_advance,
        ) as i32) + (mixed_width(pack, b, px, latin_advance) as i32),
        mixed_width(pack, Seq::empty(), px, latin_advance) as i32 == 0,
{
    lemma_mixed_width_concat(pack, a, b, px, latin_advance);
    lemma_mixed_width_bounds(pack, a, px, latin_advance);
    lemma_mixed_width_bounds(pack, b, px, latin_advance);
}

} // verus!

verus! {

pub open spec fn ellipsis() -> Seq<char> {
    seq!['.', '.', '.']
}

pub open spec fn saturating_sub(a: usize, b: usize) -> int {
    if a >= b {
        a - b
    } else {
        0
    }
}

/// Width of the first `count` characters as truncation accumulates it
/// (line feeds included).
pub open spec fn running_width(
    pack: Seq<u8>,
    text: Seq<char>,
    px: u8,
    latin_advance: spec_fn(char) -> u8,
    count: int,
) -> int
    decreases count,
{
    if count <= 0 {
        0
    } else {
        running_width(pack, text, px, latin_advance, count - 1) + mixed_advance(
            pack,
            text[count - 1],
            px,
            latin_advance,
        )
    }
}

/// Truncation stops before character `index` when keeping it would leave no
/// room for the ellipsis within the character or pixel budget.
pub open spec fn cut_before(
    pack: Seq<u8>,
    text: Seq<char>,
    max_chars: usize,
    max_px: i32,
    px: u8,
    latin_advance: spec_fn(char) -> u8,
    index: int,
) -> bool {
    index + 1 > saturating_sub(max_chars, 3) || running_width(
        pack,
        text,
        px,
        latin_advance,
        index,
    ) + mixed_advance(pack, text[index], px, latin_advance) + mixed_width(
        pack,
        ellipsis(),
        px,
        latin_advance,
    ) > max_px
}

/// The first position at or after `from` where truncation stops.
pub open spec fn first_cut(
    pack: Seq<u8>,
    text: Seq<char>,
    max_chars: usize,
    max_px: i32,
    px: u8,
    latin_advance: spec_fn(char) -> u8,
    from: int,
) -> Option<int>
    decreases text.len() - from,
{
    if from < 0 || from >= text.len() {
        None
    } else if cut_before(pack, text, max_chars, max_px, px, latin_advance, from) {
        Some(from)
    } else {
        first_cut(pack, text, max_chars, max_px, px, latin_advance, from + 1)
    }
}

/// Text that fits both budgets is kept; otherwise it is cut before the first
/// character that leaves no room and `...` is appended.
pub open spec fn truncated(
    pack: Seq<u8>,
    text: Seq<char>,
    max_chars: usize,
    max_px: i32,
    px: u8,
    latin_advance: spec_fn(char) -> u8,
) -> Seq<char> {
    if text.len() <= max_chars && mixed_width(pack, text, px, latin_advance) <= max_px {
        text
    } else {
        match first_cut(pack, text, max_chars, max_px, px, latin_advance, 0) {
            Some(cut) => text.take(cut) + ellipsis(),
            None => text,
        }
    }
}

proof fn lemma_running_width_bounds(
    pack: Seq<u8>,
    text: Seq<char>,
    px: u8,
    latin_advance: spec_fn(char) -> u8,
    count: int,
)
    requires
        0 <= count <= text.len(),
    ensures
        0 <= running_width(pack, text, px, latin_advance, count) <= 255 * count,
    decreases count,
{
    if count > 0 {
        lemma_running_width_bounds(pack, text, px, latin_advance, count - 1);
        lemma_mixed_advance_bounds(pack, text[count - 1], px, latin_advance);
    }
}

pub(crate) fn truncate_chars<A: LatinAdvance>(
    pack: &[u8],
    text: &str,
    max_chars: usize,
    max_px: i32,
    px: u8,
    source: &A,
) -> (clipped: String)
    requires
        pack_well_formed(pack@),
        source.ready(),
    ensures
        forall|adv: spec_fn(char) -> u8|
            #[trigger] follows(*source, adv) ==> clipped@ == truncated(
                pack@,
                text@,
                max_chars,
                max_px,
                px,
                adv,
            ),
{
    let chars = crate::text::text_chars(text);
    if chars.len() <= max_chars && measure_chars(pack, &chars, px, source) <= max_px as i128 {
        return text.to_owned();
    }
    let dots: Vec<char> = vec!['.', '.', '.'];
    assert(dots@ =~= ellipsis());
    let ellipsis_px = measure_chars(pack, &dots, px, source);
    let limit: usize = if max_chars >= 3 {
        max_chars - 3
    } else {
        0
    };
    let ghost spec_text = chars@;
    let mut output = String::new();
    let mut width: i128 = 0;
    let mut count: usize = 0;
    while count < chars.len()
        invariant
            chars@ == spec_text,
            spec_text == text@,
            count <= spec_text.len(),
            spec_text.len() == chars.len(),
            pack_well_formed(pack@),
            source.ready(),
            limit == saturating_sub(max_chars, 3),
            dots@ == ellipsis(),
            0 <= ellipsis_px <= 765,
            0 <= width <= 255 * count,
            forall|adv: spec_fn(char) -> u8|
                #[trigger] follows(*source, adv) ==> {
                    &&& ellipsis_px == mixed_width(pack@, ellipsis(), px, adv)
                    &&& width == running_width(pack@, spec_text, px, adv, count as int)
                    &&& first_cut(pack@, spec_text, max_chars, max_px, px, adv, 0) == first_cut(
                        pack@,
                        spec_text,
                        max_chars,
                        max_px,
                        px,
                        adv,
                        count as int,
                    )
                    &&& !(spec_text.len() <= max_chars && mixed_width(pack@, spec_text, px, adv)
                        <= max_px)
                },
            output@ == spec_text.take(count as int),
        decreases chars.len() - count,
    {
        let character = chars[count];
        let advance = advance_of(pack, character, px, source);
        if count + 1 > limit || width + advance as i128 + ellipsis_px > max_px as i128 {
            proof {
                assert forall|adv: spec_fn(char) -> u8| #[trigger] follows(*source, adv) implies first_cut(
                    pack@,
                    spec_text,
                    max_chars,
                    max_px,
                    px,
                    adv,
                    0,
                ) == Some(count as int) by {
                    assert(cut_before(pack@, spec_text, max_chars, max_px, px, adv, count as int));
                }
            }
            crate::text::push_chars(&mut output, &dots);
            assert(output@ =~= spec_text.take(count as int) + ellipsis());
            return output;
        }
        crate::text::push_char(&mut output, character);
        width = width + advance as i128;
        count = count + 1;
        assert(output@ =~= spec_text.take(count as int));
    }
    assert(output@ =~= spec_text);
    output
}

pub fn truncate_to_width(
    pack: &[u8],
    text: &str,
    max_chars: usize,
    max_px: i32,
    px: u8,
    latin_advance: impl Fn(char) -> u8,
) -> (clipped: String)
    requires
        pack_well_formed(pack@),
        ascii_callable(latin_advance),
    ensures
        forall|adv: spec_fn(char) -> u8|
            #[trigger] measures_by(latin_advance, adv) ==> clipped@ == truncated(
                pack@,
                text@,
                max_chars,
                max_px,
                px,
                adv,
            ),
{
    let source = ClosureAdvance { measure: latin_advance };
    let clipped = truncate_chars(pack, text, max_chars, max_px, px, &source);
    proof {
        assert forall|adv: spec_fn(char) -> u8| #[trigger] measures_by(latin_advance, adv) implies clipped@
            == truncated(pack@, text@, max_chars, max_px, px, adv) by {
            assert(follows(source, adv));
        }
    }
    clipped
}

} // verus!

verus! {

/// Truncation keeps the text whole or keeps a prefix followed by `...`; the
/// kept prefix never exceeds the character budget less the ellipsis, and a
/// nonempty prefix plus the ellipsis fits the pixel budget.
pub proof fn lemma_truncation_shape(
    pack: Seq<u8>,
    text: Seq<char>,
    max_chars: usize,
    max_px: i32,
    px: u8,
    latin_advance: spec_fn(char) -> u8,
)
    ensures
        truncated(pack, text, max_chars, max_px, px, latin_advance) == text || exists|cut: int|
            0 <= cut < text.len() && cut <= saturating_sub(max_chars, 3) && truncated(
                pack,
                text,
                max_chars,
                max_px,
                px,
                latin_advance,
            ) == text.take(cut) + ellipsis() && (cut > 0 ==> running_width(
                pack,
                text,
                px,
                latin_advance,
                cut,
            ) + mixed_width(pack, ellipsis(), px, latin_advance) <= max_px),
{
    lemma_first_cut_facts(pack, text, max_chars, max_px, px, latin_advance, 0);
    if !(text.len() <= max_chars && mixed_width(pack, text, px, latin_advance) <= max_px) {
        if let Some(cut) = first_cut(pack, text, max_chars, max_px, px, latin_advance, 0) {
            if cut > 0 {
                assert(!cut_before(pack, text, max_chars, max_px, px, latin_advance, cut - 1));
            }
            assert(0 <= cut < text.len() && cut <= saturating_sub(max_chars, 3));
        }
    }
}

proof fn lemma_first_cut_facts(
    pack: Seq<u8>,
    text: Seq<char>,
    max_chars: usize,
    max_px: i32,
    px: u8,
    latin_advance: spec_fn(char) -> u8,
    from: int,
)
    requires
        0 <= from,
    ensures
        first_cut(pack, text, max_chars, max_px, px, latin_advance, from) matches Some(cut) ==> {
            &&& from <= cut < text.len()
            &&& cut_before(pack, text, max_chars, max_px, px, latin_advance, cut)
            &&& forall|j: int|
                from <= j < cut ==> !cut_before(
                    pack,
                    text,
                    max_chars,
                    max_px,
                    px,
                    latin_advance,
                    j,
                )
        },
    decreases text.len() - from,
{
    if from < text.len() && !cut_before(pack, text, max_chars, max_px, px, latin_advance, from) {
        lemma_first_cut_facts(pack, text, max_chars, max_px, px, latin_advance, from + 1);
    }
}

} // verus!

verus! {

/// One TTF/OTF face loaded from the SD card.
#[derive(Debug)]
pub struct SdFontFace {
    pub index: u8,
    pub file_name: String,
    pub label: String,
    pub bytes: usize,
}

impl SdFontFace {
    /// A copy with equal fields.
    pub fn duplicate(&self) -> (copy: SdFontFace)
        ensures
            copy == *self,
    {
        SdFontFace {
            index: self.index,
            file_name: self.file_name.clone(),
            label: self.label.clone(),
            bytes: self.bytes,
        }
    }
}

#[derive(Clone, Copy, Debug, PartialEq, Eq, Structural)]
pub struct FontEngineStatus {
    pub unifont_glyphs: usize,
    pub unifont_bytes: usize,
    pub sd_faces: usize,
    pub cache_entries: usize,
    pub cache_bytes: usize,
}

/// Lower-case form of an ASCII letter; other characters are unchanged.
pub open spec fn ascii_lower(c: char) -> char {
    if 'A' <= c <= 'Z' {
        ((c as u32) + 32) as char
    } else {
        c
    }
}

/// Equality up to ASCII letter case.
pub open spec fn eq_ignore_ascii_case(a: Seq<char>, b: Seq<char>) -> bool {
    a.len() == b.len() && forall|i: int| 0 <= i < a.len() ==> ascii_lower(a[i]) == ascii_lower(b[i])
}

pub(crate) fn lower(c: char) -> (l: char)
    ensures
        l == ascii_lower(c),
{
    if 'A' <= c && c <= 'Z' {
        let code = (c as u32) + 32;
        assert(0x61 <= code <= 0x7A);
        char_from_ascii(code as u8)
    } else {
        c
    }
}

/// The ASCII character with code `code`.
fn char_from_ascii(code: u8) -> (c: char)
    requires
        code < 128,
    ensures
        c as u32 == code as u32,
{
    code as char
}

pub fn chars_eq_ignore_ascii_case(a: &Vec<char>, b: &Vec<char>) -> (equal: bool)
    ensures
        equal == eq_ignore_ascii_case(a@, b@),
{
    if a.len() != b.len() {
        return false;
    }
    let mut i: usize = 0;
    while i < a.len()
        invariant
            a.len() == b.len(),
            i <= a.len(),
            forall|j: int| 0 <= j < i ==> ascii_lower(a@[j]) == ascii_lower(b@[j]),
        decreases a.len() - i,
    {
        if lower(a[i]) != lower(b[i]) {
            return false;
        }
        i = i + 1;
    }
    true
}

/// Index of the first face whose file name matches `wanted` up to ASCII case.
pub open spec fn first_matching_face(faces: Seq<SdFontFace>, wanted: Seq<char>, from: int) -> Option<u8>
    decreases faces.len() - from,
{
    if from < 0 || from >= faces.len() {
        None
    } else if eq_ignore_ascii_case(faces[from].file_name@, wanted) {
        Some(faces[from].index)
    } else {
        first_matching_face(faces, wanted, from + 1)
    }
}

/// The SD face used for CJK glyphs: the preferred one, else the first loaded.
pub open spec fn active_face_spec(faces: Seq<SdFontFace>, preferred: Option<u8>) -> Option<u8> {
    match preferred {
        Some(index) => Some(index),
        None => if faces.len() > 0 {
            Some(faces[0].index)
        } else {
            None
        },
    }
}

/// Result of looking up an SD-face glyph in the cache.
#[derive(Debug)]
pub enum GlyphLookup {
    /// No SD face is loaded; the Unifont fallback applies.
    NoSdFace,
    /// The glyph was cached.
    Cached(RasterGlyph),
    /// The glyph must be rasterized from the SD face named in the key and then stored.
    Missing(CacheKey),
}

/// SD faces, glyph cache, preferred face and load notes of the text engine.
pub struct FontEngine {
    sd_faces: Vec<SdFontFace>,
    cache: GlyphCache,
    preferred_sd: Option<u8>,
    notes: Vec<String>,
}

impl FontEngine {
    pub closed spec fn faces(&self) -> Seq<SdFontFace> {
        self.sd_faces@
    }

    pub closed spec fn preferred(&self) -> Option<u8> {
        self.preferred_sd
    }

    pub closed spec fn notes_view(&self) -> Seq<String> {
        self.notes@
    }

    pub closed spec fn cached(&self) -> Seq<CacheEntry> {
        self.cache@
    }

    pub closed spec fn wf(&self) -> bool {
        &&& self.cache.wf()
        &&& self.cache.byte_budget() == DEFAULT_MAX_BYTES
        &&& self.cache.entry_budget() == DEFAULT_MAX_ENTRIES
    }

    /// An engine with no SD faces, an empty default-size cache and no preference.
    pub fn new() -> (engine: FontEngine)
        ensures
            engine.wf(),
            engine.faces().len() == 0,
            engine.preferred() is None,
            engine.notes_view().len() == 0,
            engine.cached().len() == 0,
    {
        FontEngine {
            sd_faces: Vec::new(),
            cache: GlyphCache::default(),
            preferred_sd: None,
            notes: Vec::new(),
        }
    }

    /// The SD face that CJK glyphs are rasterized from, if any.
    pub fn active_face(&self) -> (face: Option<u8>)
        ensures
            face == active_face_spec(self.faces(), self.preferred()),
    {
        match self.preferred_sd {
            Some(index) => Some(index),
            None => if self.sd_faces.len() > 0 {
                Some(self.sd_faces[0].index)
            } else {
                None
            },
        }
    }

    /// Look up the active SD face's glyph for `character` at `px` in the cache.
    pub fn lookup_sd_glyph(&mut self, character: char, px: u8) -> (found: GlyphLookup)
        requires
            old(self).wf(),
        ensures
            final(self).wf(),
            final(self).faces() == old(self).faces(),
            final(self).preferred() == old(self).preferred(),
            final(self).notes_view() == old(self).notes_view(),
            match active_face_spec(old(self).faces(), old(self).preferred()) {
                None => found is NoSdFace && final(self).cached() == old(self).cached(),
                Some(index) => {
                    let key = CacheKey { face: FaceId::Sd(index), px, character };
                    &&& final(self).cached() == touched(old(self).cached(), key)
                    &&& match found {
                        GlyphLookup::Cached(glyph) => lookup(old(self).cached(), key) == Some(
                            glyph@,
                        ),
                        GlyphLookup::Missing(missing) => missing == key && lookup(
                            old(self).cached(),
                            key,
                        ) is None,
                        GlyphLookup::NoSdFace => false,
                    }
                },
            },
    {
        let index = match self.active_face() {
            Some(index) => index,
            None => return GlyphLookup::NoSdFace,
        };
        let key = CacheKey { face: FaceId::Sd(index), px, character };
        match self.cache.get(key) {
            Some(glyph) => GlyphLookup::Cached(glyph),
            None => GlyphLookup::Missing(key),
        }
    }

    /// Remember a freshly rasterized glyph.
    pub fn store_glyph(&mut self, key: CacheKey, glyph: RasterGlyph)
        requires
            old(self).wf(),
        ensures
            final(self).wf(),
            final(self).faces() == old(self).faces(),
            final(self).preferred() == old(self).preferred(),
            final(self).notes_view() == old(self).notes_view(),
            final(self).cached() == inserted(
                old(self).cached(),
                key,
                glyph@,
                DEFAULT_MAX_BYTES as nat,
                DEFAULT_MAX_ENTRIES as nat,
            ),
    {
        self.cache.insert(key, glyph);
    }
}

/// Status counters of the text engine.
pub open spec fn status_spec(engine: &FontEngine, pack: Seq<u8>) -> FontEngineStatus {
    FontEngineStatus {
        unifont_glyphs: unifont::pack_count(pack) as usize,
        unifont_bytes: (unifont::pack_count(pack) * 32 + 8) as usize,
        sd_faces: engine.faces().len() as usize,
        cache_entries: engine.cached().len() as usize,
        cache_bytes: total_bytes(engine.cached()) as usize,
    }
}

/// The pack header's glyph count leaves room for the status byte estimate.
pub open spec fn pack_status_fits(pack: Seq<u8>) -> bool {
    unifont::pack_count(pack) * 32 + 8 <= usize::MAX
}

/// What a directory scan yields: at most four faces, each with a TTF/OTF
/// file name, at most the PSRAM cap of bytes, and its position as its index.
pub open spec fn faces_installable(faces: Seq<SdFontFace>) -> bool {
    &&& faces.len() <= sd_ttf::MAX_SD_FACES
    &&& forall|i: int|
        0 <= i < faces.len() ==> {
            &&& (#[trigger] faces[i]).index == i
            &&& sd_ttf::is_open_font_name(faces[i].file_name@)
            &&& faces[i].bytes <= sd_ttf::MAX_SD_FONT_BYTES
        }
}

/// Whether `init_from_sd` accepts these faces.
pub fn check_faces(faces: &Vec<SdFontFace>) -> (installable: bool)
    ensures
        installable == faces_installable(faces@),
{
    if faces.len() > sd_ttf::MAX_SD_FACES {
        return false;
    }
    let mut i: usize = 0;
    while i < faces.len()
        invariant
            i <= faces@.len() <= sd_ttf::MAX_SD_FACES,
            forall|j: int|
                0 <= j < i ==> {
                    &&& (#[trigger] faces@[j]).index == j
                    &&& sd_ttf::is_open_font_name(faces@[j].file_name@)
                    &&& faces@[j].bytes <= sd_ttf::MAX_SD_FONT_BYTES
                },
        decreases faces.len() - i,
    {
        let face = &faces[i];
        if face.index as usize != i || !sd_ttf::is_open_font_path(face.file_name.as_str())
            || face.bytes > sd_ttf::MAX_SD_FONT_BYTES {
            return false;
        }
        i = i + 1;
    }
    true
}

/// Install freshly scanned SD faces and their load notes, drop all cached
/// glyphs, and forget a preferred face index that no longer exists. The faces
/// are those a scan driven by `sd_ttf::font_scan_step` loads: at most four,
/// each with a TTF/OTF file name and its position as its index.
pub fn init_from_sd(
    engine: &mut FontEngine,
    pack: &[u8],
    faces: Vec<SdFontFace>,
    notes: Vec<String>,
) -> (status: FontEngineStatus)
    requires
        old(engine).wf(),
        pack_status_fits(pack@),
        faces_installable(faces@),
    ensures
        final(engine).wf(),
        final(engine).faces() == faces@,
        final(engine).notes_view() == notes@,
        final(engine).cached().len() == 0,
        final(engine).preferred() == (match old(engine).preferred() {
            Some(index) => if index < faces@.len() {
                Some(index)
            } else {
                None
            },
            None => None,
        }),
        status == status_spec(final(engine), pack@),
{
    engine.cache.clear();
    engine.sd_faces = faces;
    engine.notes = notes;
    if let Some(index) = engine.preferred_sd {
        if index as usize >= engine.sd_faces.len() {
            engine.preferred_sd = None;
        }
    }
    status(engine, pack)
}

/// Prefer the SD face whose file name matches `file_name` up to ASCII case;
/// no name, or no match, clears the preference.
pub fn set_preferred_sd_file(engine: &mut FontEngine, file_name: Option<&str>)
    requires
        old(engine).wf(),
    ensures
        final(engine).wf(),
        final(engine).faces() == old(engine).faces(),
        final(engine).notes_view() == old(engine).notes_view(),
        final(engine).cached() == old(engine).cached(),
        final(engine).preferred() == (match file_name {
            Some(wanted) => first_matching_face(old(engine).faces(), wanted@, 0),
            None => None,
        }),
{
    let wanted = match file_name {
        Some(wanted) => wanted,
        None => {
            engine.preferred_sd = None;
            return ;
        },
    };
    let wanted_chars = crate::text::text_chars(wanted);
    let mut found: Option<u8> = None;
    let mut i: usize = 0;
    while i < engine.sd_faces.len()
        invariant_except_break
            found is None,
            first_matching_face(engine.sd_faces@, wanted@, 0) == first_matching_face(
                engine.sd_faces@,
                wanted@,
                i as int,
            ),
        invariant
            i <= engine.sd_faces@.len(),
            wanted_chars@ == wanted@,
        ensures
            first_matching_face(engine.sd_faces@, wanted@, 0) == found,
        decreases engine.sd_faces.len() - i,
    {
        let name = crate::text::text_chars(engine.sd_faces[i].file_name.as_str());
        if chars_eq_ignore_ascii_case(&name, &wanted_chars) {
            found = Some(engine.sd_faces[i].index);
            break;
        }
        i = i + 1;
    }
    engine.preferred_sd = found;
}

/// Copies of the loaded SD faces.
pub fn sd_faces(engine: &FontEngine) -> (faces: Vec<SdFontFace>)
    ensures
        faces@ == engine.faces(),
{
    let mut faces: Vec<SdFontFace> = Vec::new();
    let mut i: usize = 0;
    while i < engine.sd_faces.len()
        invariant
            i <= engine.sd_faces@.len(),
            faces@ == engine.sd_faces@.take(i as int),
        decreases engine.sd_faces.len() - i,
    {
        faces.push(engine.sd_faces[i].duplicate());
        i = i + 1;
        assert(faces@ =~= engine.sd_faces@.take(i as int));
    }
    assert(faces@ =~= engine.sd_faces@);
    faces
}

pub fn status(engine: &FontEngine, pack: &[u8]) -> (status: FontEngineStatus)
    requires
        engine.wf(),
        pack_status_fits(pack@),
    ensures
        status == status_spec(engine, pack@),
{
    let count = unifont::pack_glyph_count(pack);
    FontEngineStatus {
        unifont_glyphs: count,
        unifont_bytes: count * 32 + 8,
        sd_faces: engine.sd_faces.len(),
        cache_entries: engine.cache.len(),
        cache_bytes: engine.cache.bytes(),
    }
}

/// Copies of the notes recorded while loading SD faces.
pub fn load_notes(engine: &FontEngine) -> (notes: Vec<String>)
    ensures
        notes@ == engine.notes_view(),
{
    let mut notes: Vec<String> = Vec::new();
    let mut i: usize = 0;
    while i < engine.notes.len()
        invariant
            i <= engine.notes@.len(),
            notes@ == engine.notes@.take(i as int),
        decreases engine.notes.len() - i,
    {
        notes.push(engine.notes[i].clone());
        i = i + 1;
        assert(notes@ =~= engine.notes@.take(i as int));
    }
    assert(notes@ =~= engine.notes@);
    notes
}

} // verus!
