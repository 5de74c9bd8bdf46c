//! Rules for the optional TTF/OTF faces on the SD card: which files are
//! loaded, how a face is named, what the load notes say, and how a
//! rasterizer's coverage map becomes a one-bit glyph.
use vstd::prelude::*;

use super::{eq_ignore_ascii_case, glyph_bit, stride_of, GlyphView, RasterGlyph, SdFontFace};
use crate::text::{decimal, push_chars, push_decimal, push_str, text_chars};

verus! {

/// Directories searched, in order: the documented card-root install path,
/// then the product tree that the transfer portal writes to.
pub const SD_FONT_DIRECTORIES: [&'static str; 2] = ["/sdcard/fonts", "/sdcard/RUSTMIX/FONTS"];

/// At most this many faces are loaded.
pub const MAX_SD_FACES: usize = 4;

/// Larger font files are skipped to protect PSRAM.
pub const MAX_SD_FONT_BYTES: usize = 2 * 1024 * 1024;

/// Coverage at or above this value sets a pixel.
pub const INK_THRESHOLD: u8 = 96;

/// Note recorded when the face limit stops the scan.
pub const FACE_LIMIT_NOTE: &'static str = "sd-font-limit-reached";

/// Name used when a path has no printable file name.
pub const FALLBACK_FILE_NAME: &'static str = "FONT.TTF";

/// Index of the last `c` in `text[..end]`.
pub open spec fn last_index_of(text: Seq<char>, c: char, end: int) -> Option<int>
    decreases end,
{
    if end <= 0 || end > text.len() {
        None
    } else if text[end - 1] == c {
        Some(end - 1)
    } else {
        last_index_of(text, c, end - 1)
    }
}

/// The extension of a file name as paths define it: the text after the last
/// dot, where something precedes that dot and the name is not `..`.
pub open spec fn file_extension(name: Seq<char>) -> Option<Seq<char>> {
    if name == ".."@ {
        None
    } else {
        match last_index_of(name, '.', name.len() as int) {
            None => None,
            Some(i) => if i == 0 {
                None
            } else {
                Some(name.skip(i + 1))
            },
        }
    }
}

/// Whether a file extension is `ttf` or `otf`, in any letter case.
pub open spec fn is_open_font_extension(ext: Seq<char>) -> bool {
    eq_ignore_ascii_case(ext, "ttf"@) || eq_ignore_ascii_case(ext, "otf"@)
}

/// Whether a file name ends in `.ttf` or `.otf`, in any letter case.
pub open spec fn is_open_font_name(name: Seq<char>) -> bool {
    match file_extension(name) {
        Some(ext) => is_open_font_extension(ext),
        None => false,
    }
}

/// What the directory scan does with the next file.
#[derive(Clone, Copy, Debug, PartialEq, Eq, Structural)]
pub enum FontScanStep {
    /// The face limit is reached: note it and stop scanning this directory.
    LimitReached,
    /// Not a TTF/OTF file: go on with the next one.
    Skip,
    /// Load the file as the face with this index.
    Load { index: u8 },
}

/// The scan step for the next file, with `loaded` faces loaded so far,
/// given the file's extension as text (none where the path has no extension
/// or it is not valid text).
pub fn font_scan_step(loaded: usize, extension: Option<&str>) -> (step: FontScanStep)
    ensures
        loaded >= MAX_SD_FACES ==> step == FontScanStep::LimitReached,
        loaded < MAX_SD_FACES && !(extension matches Some(e) && is_open_font_extension(e@)) ==> step
            == FontScanStep::Skip,
        loaded < MAX_SD_FACES && (extension matches Some(e) && is_open_font_extension(e@)) ==> step
            == (FontScanStep::Load { index: loaded as u8 }),
{
    if loaded >= MAX_SD_FACES {
        return FontScanStep::LimitReached;
    }
    match extension {
        Some(ext) => if is_open_font_ext(ext) {
            FontScanStep::Load { index: loaded as u8 }
        } else {
            FontScanStep::Skip
        },
        None => FontScanStep::Skip,
    }
}

/// Whether an extension is `ttf` or `otf`, in any letter case.
pub fn is_open_font_ext(ext: &str) -> (open: bool)
    ensures
        open == is_open_font_extension(ext@),
{
    let chars = text_chars(ext);
    proof {
        reveal_strlit("ttf");
        reveal_strlit("otf");
        assert(chars@.skip(0) =~= chars@);
    }
    extension_is(&chars, 0, "ttf") || extension_is(&chars, 0, "otf")
}

/// The label of a face: its file name without the part after the last dot.
pub open spec fn face_label_text(name: Seq<char>) -> Seq<char> {
    match last_index_of(name, '.', name.len() as int) {
        Some(i) => name.take(i),
        None => name,
    }
}

fn last_dot(chars: &Vec<char>) -> (found: Option<usize>)
    ensures
        match found {
            Some(i) => i < chars@.len() && last_index_of(chars@, '.', chars@.len() as int) == Some(
                i as int,
            ),
            None => last_index_of(chars@, '.', chars@.len() as int) is None,
        },
{
    let mut end: usize = chars.len();
    while end > 0
        invariant
            end <= chars@.len(),
            last_index_of(chars@, '.', chars@.len() as int) == last_index_of(chars@, '.', end as int),
        decreases end,
    {
        if chars[end - 1] == '.' {
            return Some(end - 1);
        }
        end = end - 1;
    }
    None
}

fn extension_is(chars: &Vec<char>, from: usize, wanted: &str) -> (equal: bool)
    requires
        from <= chars@.len(),
        forall|i: int| 0 <= i < wanted@.len() ==> 'a' <= #[trigger] wanted@[i] <= 'z',
    ensures
        equal == eq_ignore_ascii_case(chars@.skip(from as int), wanted@),
{
    let target = text_chars(wanted);
    let ghost ext = chars@.skip(from as int);
    if chars.len() - from != target.len() {
        return false;
    }
    let mut i: usize = 0;
    while i < target.len()
        invariant
            i <= target@.len(),
            from <= chars@.len(),
            target@ == wanted@,
            from + target.len() == chars.len(),
            ext == chars@.skip(from as int),
            forall|k: int| 0 <= k < wanted@.len() ==> 'a' <= #[trigger] wanted@[k] <= 'z',
            forall|k: int|
                0 <= k < i ==> super::ascii_lower(#[trigger] ext[k]) == super::ascii_lower(
                    target@[k],
                ),
        decreases target.len() - i,
    {
        if super::lower(chars[from + i]) != target[i] {
            assert(super::ascii_lower(target@[i as int]) == target@[i as int]);
            return false;
        }
        i = i + 1;
    }
    true
}

/// Whether a file, given by its final path component, is a TTF or OTF font.
pub fn is_open_font_path(file_name: &str) -> (open: bool)
    ensures
        open == is_open_font_name(file_name@),
{
    let chars = text_chars(file_name);
    proof {
        reveal_strlit("..");
        reveal_strlit("ttf");
        reveal_strlit("otf");
    }
    if chars.len() == 2 && chars[0] == '.' && chars[1] == '.' {
        assert(chars@ =~= ".."@);
        return false;
    }
    assert(chars@ != ".."@) by {
        if chars@ == ".."@ {
            assert(chars@[0] == '.' && chars@[1] == '.');
        }
    }
    match last_dot(&chars) {
        None => false,
        Some(i) => {
            if i == 0 {
                false
            } else {
                extension_is(&chars, i + 1, "ttf") || extension_is(&chars, i + 1, "otf")
            }
        },
    }
}

/// The label shown for a face with this file name.
pub fn face_label(file_name: &str) -> (label: String)
    ensures
        label@ == face_label_text(file_name@),
{
    let chars = text_chars(file_name);
    let end = match last_dot(&chars) {
        Some(i) => i,
        None => chars.len(),
    };
    let mut stem: Vec<char> = Vec::new();
    let mut i: usize = 0;
    while i < end
        invariant
            i <= end <= chars@.len(),
            stem@ == chars@.take(i as int),
        decreases end - i,
    {
        stem.push(chars[i]);
        i = i + 1;
        assert(stem@ =~= chars@.take(i as int));
    }
    assert(chars@ =~= chars@.take(chars@.len() as int));
    let mut label = String::new();
    push_chars(&mut label, &stem);
    assert(label@ =~= face_label_text(file_name@));
    label
}

/// Description of a face loaded as the `index`-th face from `file_name`.
pub fn sd_font_face(index: u8, file_name: &str, bytes: usize) -> (face: SdFontFace)
    ensures
        face.index == index,
        face.file_name@ == file_name@,
        face.label@ == face_label_text(file_name@),
        face.bytes == bytes,
{
    SdFontFace { index, file_name: String::from_str(file_name), label: face_label(file_name), bytes }
}

/// Why a font file of `len` bytes is skipped, if it is.
pub fn oversize_error(len: usize) -> (error: Option<String>)
    ensures
        match error {
            Some(text) => len > MAX_SD_FONT_BYTES && text@ == "skipped ("@ + decimal(len as nat)
                + " bytes > "@ + decimal(MAX_SD_FONT_BYTES as nat) + " PSRAM cap)"@,
            None => len <= MAX_SD_FONT_BYTES,
        },
{
    if len <= MAX_SD_FONT_BYTES {
        return None;
    }
    let mut text = String::new();
    push_str(&mut text, "skipped (");
    push_decimal(&mut text, len as u64);
    push_str(&mut text, " bytes > ");
    push_decimal(&mut text, MAX_SD_FONT_BYTES as u64);
    push_str(&mut text, " PSRAM cap)");
    Some(text)
}

/// Load note for a face that was read and parsed.
pub fn loaded_note(face: &SdFontFace) -> (note: String)
    ensures
        note@ == "loaded "@ + face.file_name@ + " bytes="@ + decimal(face.bytes as nat),
{
    let mut text = String::new();
    push_str(&mut text, "loaded ");
    push_str(&mut text, face.file_name.as_str());
    push_str(&mut text, " bytes=");
    push_decimal(&mut text, face.bytes as u64);
    text
}

/// What the rasterizer reports of one glyph, with the advance already
/// rounded to whole pixels and clamped to `1..=255`.
#[derive(Clone, Copy, Debug, PartialEq, Eq, Structural)]
pub struct GlyphMetrics {
    pub xmin: i32,
    pub ymin: i32,
    pub width: usize,
    pub height: usize,
    pub advance_px: u8,
}

/// Coverage of pixel `(x, y)` in a row-major map `width` pixels wide; zero
/// past the end of the map.
pub open spec fn coverage_at(coverage: Seq<u8>, width: nat, x: nat, y: nat) -> u8 {
    if y * width + x < coverage.len() {
        coverage[(y * width + x) as int]
    } else {
        0
    }
}

/// Whether pixel `(x, y)` of a `width` x `height` coverage map is inked.
pub open spec fn inked(coverage: Seq<u8>, width: nat, height: nat, x: nat, y: nat) -> bool {
    x < width && y < height && coverage_at(coverage, width, x, y) >= INK_THRESHOLD
}

/// The first `n` pixels of byte `column` of row `y`, most significant first.
pub open spec fn byte_bits(
    coverage: Seq<u8>,
    width: nat,
    height: nat,
    y: nat,
    column: nat,
    n: nat,
) -> nat
    decreases n,
{
    if n == 0 {
        0
    } else {
        2 * byte_bits(coverage, width, height, y, column, (n - 1) as nat) + (if inked(
            coverage,
            width,
            height,
            column * 8 + (n - 1) as nat,
            y,
        ) {
            1nat
        } else {
            0nat
        })
    }
}

/// Rows of whole bytes, at least one row.
pub open spec fn packed_bitmap(coverage: Seq<u8>, width: nat, height: nat) -> Seq<u8> {
    let stride = stride_of(width as u8);
    let rows: nat = if height == 0 {
        1
    } else {
        height
    };
    Seq::new(
        stride * rows,
        |i: int| byte_bits(coverage, width, height, (i / stride as int) as nat, (i % stride as int) as nat, 8) as u8,
    )
}

pub open spec fn clamp_i8(value: i32) -> i8 {
    if value < -128 {
        -128i8
    } else if value > 127 {
        127i8
    } else {
        value as i8
    }
}

/// The one-bit glyph made from a coverage map.
pub open spec fn packed_glyph(metrics: GlyphMetrics, coverage: Seq<u8>, px: u8) -> GlyphView {
    let advance: u8 = if metrics.advance_px >= px / 4 {
        metrics.advance_px
    } else {
        px / 4
    };
    GlyphView {
        width: if metrics.width == 0 {
            1
        } else {
            metrics.width as u8
        },
        height: if metrics.height == 0 {
            1
        } else {
            metrics.height as u8
        },
        advance: if advance == 0 {
            1
        } else {
            advance
        },
        left: clamp_i8(metrics.xmin),
        top: clamp_i8(metrics.ymin),
        bitmap: packed_bitmap(coverage, metrics.width as nat, metrics.height as nat),
    }
}

/// Whether a coverage map fits a one-bit glyph, whose sides are bytes.
pub open spec fn fits_glyph(metrics: GlyphMetrics) -> bool {
    metrics.width <= 255 && metrics.height <= 255
}

proof fn lemma_byte_bit(b0: u8, b1: u8, b2: u8, b3: u8, b4: u8, b5: u8, b6: u8, b7: u8, v: u8, k: u8)
    by (bit_vector)
    requires
        b0 <= 1 && b1 <= 1 && b2 <= 1 && b3 <= 1 && b4 <= 1 && b5 <= 1 && b6 <= 1 && b7 <= 1,
        v == ((((((b0 * 2 + b1) * 2 + b2) * 2 + b3) * 2 + b4) * 2 + b5) * 2 + b6) * 2 + b7,
        k < 8,
    ensures
        (v & (0x80u8 >> k) != 0) == (if k == 0 {
            b0 == 1
        } else if k == 1 {
            b1 == 1
        } else if k == 2 {
            b2 == 1
        } else if k == 3 {
            b3 == 1
        } else if k == 4 {
            b4 == 1
        } else if k == 5 {
            b5 == 1
        } else if k == 6 {
            b6 == 1
        } else {
            b7 == 1
        }),
{
}

/// Each pixel of a packed glyph is set exactly where the coverage map is
/// inked.
proof fn lemma_packed_pixels(metrics: GlyphMetrics, coverage: Seq<u8>, px: u8, x: u8, y: u8)
    requires
        fits_glyph(metrics),
    ensures
        glyph_bit(packed_glyph(metrics, coverage, px), x, y) == inked(
            coverage,
            metrics.width as nat,
            metrics.height as nat,
            x as nat,
            y as nat,
        ),
{
    let g = packed_glyph(metrics, coverage, px);
    let w = metrics.width as nat;
    let h = metrics.height as nat;
    if x < g.width && y < g.height && x < w && y < h {
        let stride = stride_of(w as u8);
        assert(stride_of(g.width) == stride);
        let column: nat = x as nat / 8;
        let k: u8 = x % 8;
        assert(column * 8 + k == x);
        assert(stride >= 1);
        let index = y as nat * stride + column;
        assert(column < stride);
        assert(index < stride * h) by (nonlinear_arith)
            requires
                y < h,
                column < stride,
                index == y as nat * stride + column,
        ;
        vstd::arithmetic::div_mod::lemma_fundamental_div_mod_converse(
            index as int,
            stride as int,
            y as int,
            column as int,
        );
        let bit = |n: nat|
            if inked(coverage, w, h, column * 8 + n, y as nat) {
                1u8
            } else {
                0u8
            };
        assert(g.bitmap[index as int] == byte_bits(coverage, w, h, y as nat, column, 8) as u8);
        reveal_with_fuel(byte_bits, 9);
        assert(byte_bits(coverage, w, h, y as nat, column, 8) == ((((((bit(0) * 2 + bit(1)) * 2 + bit(2)) * 2 + bit(3)) * 2 + bit(4)) * 2 + bit(5)) * 2 + bit(6)) * 2 + bit(7));
        lemma_byte_bit(bit(0), bit(1), bit(2), bit(3), bit(4), bit(5), bit(6), bit(7), g.bitmap[index as int], k);
        assert(bit(k as nat) == 1 <==> inked(coverage, w, h, x as nat, y as nat));
        assert(glyph_bit(g, x, y) == (g.bitmap[index as int] & (0x80u8 >> k) != 0));
        assert(glyph_bit(g, x, y) == inked(coverage, w, h, x as nat, y as nat));
    } else if x < g.width && y < g.height {
        // A glyph with an empty side keeps one byte-less or blank row.
        let stride = stride_of(w as u8);
        let column: nat = x as nat / 8;
        let index = y as nat * stride + column;
        if index < g.bitmap.len() {
            assert(w == 0 || h == 0);
            if w == 0 {
                assert(stride == 0);
            } else {
                assert(y == 0 && h == 0);
                assert(column < stride);
                vstd::arithmetic::div_mod::lemma_fundamental_div_mod_converse(
                    index as int,
                    stride as int,
                    0,
                    column as int,
                );
                lemma_blank_byte(coverage, w, h, 0, column, 8);
                assert(g.bitmap[index as int] == 0u8);
                let mask: u8 = 0x80u8 >> (x % 8);
                assert(0u8 & mask == 0u8) by (bit_vector);
            }
        }
        assert(!inked(coverage, w, h, x as nat, y as nat));
        assert(!glyph_bit(g, x, y));
    } else {
        assert(!inked(coverage, w, h, x as nat, y as nat));
        assert(!glyph_bit(g, x, y));
    }
}

proof fn lemma_blank_byte(coverage: Seq<u8>, width: nat, height: nat, y: nat, column: nat, n: nat)
    requires
        height == 0,
    ensures
        byte_bits(coverage, width, height, y, column, n) == 0,
    decreases n,
{
    if n > 0 {
        lemma_blank_byte(coverage, width, height, y, column, (n - 1) as nat);
    }
}

fn ink_bit(coverage: &[u8], width: usize, height: usize, x: usize, y: usize) -> (bit: u8)
    requires
        width <= 255,
        height <= 255,
        x <= 263,
        y <= 255,
    ensures
        bit == (if inked(coverage@, width as nat, height as nat, x as nat, y as nat) {
            1u8
        } else {
            0u8
        }),
{
    if x >= width || y >= height {
        return 0;
    }
    assert(y * width + x <= 255 * 255 + 263) by (nonlinear_arith)
        requires
            y <= 255,
            width <= 255,
            x <= 263,
    ;
    let i = y * width + x;
    let alpha = if i < coverage.len() {
        coverage[i]
    } else {
        0
    };
    if alpha >= INK_THRESHOLD {
        1
    } else {
        0
    }
}

/// Pack a coverage map into a one-bit glyph: rows of whole bytes, a pixel
/// set where coverage reaches the ink threshold, sides of at least one pixel,
/// an advance of at least a quarter of the pixel size, and offsets clamped to
/// the `i8` range.
pub fn pack_coverage(metrics: GlyphMetrics, coverage: &[u8], px: u8) -> (glyph: Option<RasterGlyph>)
    requires
        fits_glyph(metrics),
    ensures
        glyph matches Some(g) && g@ == packed_glyph(metrics, coverage@, px),
        forall|x: u8, y: u8|
            #![trigger glyph_bit(packed_glyph(metrics, coverage@, px), x, y)]
            glyph_bit(packed_glyph(metrics, coverage@, px), x, y) == inked(
                coverage@,
                metrics.width as nat,
                metrics.height as nat,
                x as nat,
                y as nat,
            ),
{
    let width = metrics.width;
    let height = metrics.height;
    let stride = (width + 7) / 8;
    let rows: usize = if height == 0 {
        1
    } else {
        height
    };
    let ghost expected = packed_bitmap(coverage@, width as nat, height as nat);
    assert(stride == stride_of(width as u8));
    let mut bitmap: Vec<u8> = Vec::new();
    let mut y: usize = 0;
    while y < rows
        invariant
            fits_glyph(metrics),
            width == metrics.width,
            height == metrics.height,
            stride == stride_of(width as u8),
            rows == (if height == 0 {
                1
            } else {
                height
            }),
            y <= rows,
            expected == packed_bitmap(coverage@, width as nat, height as nat),
            bitmap@ == expected.take(y * stride),
        decreases rows - y,
    {
        let mut column: usize = 0;
        while column < stride
            invariant
                fits_glyph(metrics),
                width == metrics.width,
                height == metrics.height,
                stride == stride_of(width as u8),
                rows == (if height == 0 {
                    1
                } else {
                    height
                }),
                y < rows,
                column <= stride,
                expected == packed_bitmap(coverage@, width as nat, height as nat),
                bitmap@ == expected.take(y * stride + column),
            decreases stride - column,
        {
            let mut byte: u8 = 0;
            let mut k: usize = 0;
            while k < 8
                invariant
                    width <= 255,
                    height <= 255,
                    y <= 255,
                    column < stride,
                    stride == stride_of(width as u8),
                    k <= 8,
                    byte == byte_bits(coverage@, width as nat, height as nat, y as nat, column as nat, k as nat),
                    byte_bits(coverage@, width as nat, height as nat, y as nat, column as nat, k as nat) < pow2_nat(k as nat),
                decreases 8 - k,
            {
                let bit = ink_bit(coverage, width, height, column * 8 + k, y);
                proof {
                    lemma_pow2_step(k as nat);
                }
                byte = byte * 2 + bit;
                k = k + 1;
            }
            proof {
                let index = y * stride + column;
                assert(index < stride * rows) by (nonlinear_arith)
                    requires
                        y < rows,
                        column < stride,
                        index == y * stride + column,
                ;
                vstd::arithmetic::div_mod::lemma_fundamental_div_mod_converse(
                    index as int,
                    stride as int,
                    y as int,
                    column as int,
                );
                assert(expected[index as int] == byte);
            }
            bitmap.push(byte);
            column = column + 1;
            assert(bitmap@ =~= expected.take(y * stride + column));
        }
        y = y + 1;
        assert(y * stride == (y - 1) * stride + stride) by (nonlinear_arith);
    }
    assert(y * stride == stride * rows) by (nonlinear_arith)
        requires
            y == rows,
    ;
    assert(bitmap@ =~= expected);
    let advance = if metrics.advance_px >= px / 4 {
        metrics.advance_px
    } else {
        px / 4
    };
    let glyph = RasterGlyph {
        width: if width == 0 {
            1
        } else {
            width as u8
        },
        height: if height == 0 {
            1
        } else {
            height as u8
        },
        advance: if advance == 0 {
            1
        } else {
            advance
        },
        left: clamp_to_i8(metrics.xmin),
        top: clamp_to_i8(metrics.ymin),
        bitmap,
    };
    proof {
        assert forall|x: u8, y: u8|
            #![trigger glyph_bit(packed_glyph(metrics, coverage@, px), x, y)]
            glyph_bit(packed_glyph(metrics, coverage@, px), x, y) == inked(
                coverage@,
                metrics.width as nat,
                metrics.height as nat,
                x as nat,
                y as nat,
            ) by {
            lemma_packed_pixels(metrics, coverage@, px, x, y);
        }
    }
    Some(glyph)
}

fn clamp_to_i8(value: i32) -> (clamped: i8)
    ensures
        clamped == clamp_i8(value),
{
    if value < -128 {
        -128
    } else if value > 127 {
        127
    } else {
        value as i8
    }
}

spec fn pow2_nat(n: nat) -> nat
    decreases n,
{
    if n == 0 {
        1
    } else {
        2 * pow2_nat((n - 1) as nat)
    }
}

proof fn lemma_pow2_step(n: nat)
    ensures
        pow2_nat(n + 1) == 2 * pow2_nat(n),
        n <= 7 ==> pow2_nat(n) <= 128,
    decreases n,
{
    reveal_with_fuel(pow2_nat, 9);
}

/// The glyph a face yields for `character`, given what its rasterizer
/// reported: none where the face has no glyph for it (the NUL character is
/// always tried) or the coverage map is empty, else the packed coverage.
pub fn raster_glyph(
    has_glyph: bool,
    character: char,
    metrics: GlyphMetrics,
    coverage: &[u8],
    px: u8,
) -> (glyph: Option<RasterGlyph>)
    requires
        fits_glyph(metrics),
    ensures
        match glyph {
            Some(g) => (has_glyph || character == '\0') && metrics.width != 0 && metrics.height
                != 0 && coverage@.len() != 0 && g@ == packed_glyph(metrics, coverage@, px),
            None => !(has_glyph || character == '\0') || metrics.width == 0 || metrics.height == 0
                || coverage@.len() == 0,
        },
{
    if !has_glyph && character != '\0' {
        return None;
    }
    if metrics.width == 0 || metrics.height == 0 || coverage.len() == 0 {
        return None;
    }
    pack_coverage(metrics, coverage, px)
}

} // verus!
