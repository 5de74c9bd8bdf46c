//! Which display pixels a glyph covers. Drawing targets only receive the
//! points computed here: a one-bit bitmap is painted as blocks of `scale`
//! pixels per source pixel, the Unifont fallback is resampled to the cell
//! size, and an optional clip rectangle discards points outside it.
use vstd::prelude::*;

use super::unifont::{bit_at, bit_at_spec};
use super::{glyph_bit, stride_of, ClipRect, GlyphView, Point, RasterGlyph};

verus! {

/// Whether a point survives an optional half-open clip rectangle.
pub open spec fn clip_holds(clip: Option<ClipRect>, x: int, y: int) -> bool {
    match clip {
        None => true,
        Some(c) => c.left <= x < c.right && c.top <= y < c.bottom,
    }
}

fn clip_allows(clip: Option<ClipRect>, point: Point) -> (inside: bool)
    ensures
        inside == clip_holds(clip, point.x as int, point.y as int),
{
    match clip {
        None => true,
        Some(c) => c.contains(point),
    }
}

/// Bit `(x, y)` of a one-bit bitmap whose rows of `stride` bytes start at
/// `offset`, most significant bit first; bits past the end are clear.
pub open spec fn source_bit(bitmap: Seq<u8>, offset: int, stride: int, x: int, y: int) -> bool {
    let index = offset + y * stride + x / 8;
    0 <= index < bitmap.len() && bitmap[index] & (0x80u8 >> ((x % 8) as u8)) != 0
}

/// A bitmap painted in blocks: its placement and clip.
pub struct BlockLayout {
    pub bitmap: Seq<u8>,
    pub offset: int,
    pub stride: int,
    pub width: int,
    pub height: int,
    pub origin_x: int,
    pub origin_y: int,
    pub scale: int,
    pub clip: Option<ClipRect>,
}

/// Pixel `(dx, dy)` of the block of source pixel `(x, y)` is painted.
pub open spec fn paints_block(layout: BlockLayout, x: int, y: int, dx: int, dy: int) -> bool {
    &&& 0 <= x < layout.width
    &&& 0 <= y < layout.height
    &&& 0 <= dx < layout.scale
    &&& 0 <= dy < layout.scale
    &&& source_bit(layout.bitmap, layout.offset, layout.stride, x, y)
    &&& clip_holds(
        layout.clip,
        layout.origin_x + x * layout.scale + dx,
        layout.origin_y + y * layout.scale + dy,
    )
}

/// Some block pixel lands on `point`.
pub open spec fn block_painted(layout: BlockLayout, point: Point) -> bool {
    exists|x: int, y: int, dx: int, dy: int|
        #[trigger] paints_block(layout, x, y, dx, dy) && point.x == layout.origin_x + x
            * layout.scale + dx && point.y == layout.origin_y + y * layout.scale + dy
}

/// `(y, x, dy, dx)` comes before `(y0, x0, dy0, dx0)` in painting order.
pub open spec fn painted_earlier(
    y: int,
    x: int,
    dy: int,
    dx: int,
    y0: int,
    x0: int,
    dy0: int,
    dx0: int,
) -> bool {
    y < y0 || (y == y0 && x < x0) || (y == y0 && x == x0 && dy < dy0) || (y == y0 && x == x0 && dy
        == dy0 && dx < dx0)
}

pub open spec fn covered_before(
    layout: BlockLayout,
    points: Seq<Point>,
    y0: int,
    x0: int,
    dy0: int,
    dx0: int,
) -> bool {
    forall|x: int, y: int, dx: int, dy: int|
        #[trigger] paints_block(layout, x, y, dx, dy) && painted_earlier(y, x, dy, dx, y0, x0, dy0, dx0)
            ==> points.contains(
            Point {
                x: (layout.origin_x + x * layout.scale + dx) as i32,
                y: (layout.origin_y + y * layout.scale + dy) as i32,
            },
        )
}

pub open spec fn all_painted(layout: BlockLayout, points: Seq<Point>) -> bool {
    forall|i: int| 0 <= i < points.len() ==> block_painted(layout, #[trigger] points[i])
}

/// The placement fits `i32` coordinates.
pub open spec fn layout_fits(layout: BlockLayout) -> bool {
    &&& 1 <= layout.scale <= 255
    &&& 0 <= layout.width <= 255
    &&& 0 <= layout.height <= 255
    &&& 0 <= layout.stride <= 64
    &&& 0 <= layout.offset
    &&& layout.offset + layout.height * layout.stride + 64 <= usize::MAX
    &&& i32::MIN <= layout.origin_x
    &&& layout.origin_x + layout.width * layout.scale <= i32::MAX
    &&& i32::MIN <= layout.origin_y
    &&& layout.origin_y + layout.height * layout.scale <= i32::MAX
}

fn read_bit(bitmap: &[u8], offset: usize, stride: usize, x: usize, y: usize) -> (set: bool)
    requires
        x < 256,
        y < 256,
        stride <= 64,
        offset + y * stride + 64 <= usize::MAX,
    ensures
        set == source_bit(bitmap@, offset as int, stride as int, x as int, y as int),
{
    let index = offset + y * stride + x / 8;
    if index < bitmap.len() {
        let shift: u8 = (x % 8) as u8;
        bitmap[index] & (0x80u8 >> shift) != 0
    } else {
        false
    }
}

/// The points painted for a one-bit bitmap: every set source pixel becomes a
/// `scale` x `scale` block at `origin + (x, y) * scale`, minus what the clip
/// discards, in row order.
pub fn paint_blocks(
    bitmap: &[u8],
    offset: usize,
    stride: usize,
    width: u8,
    height: u8,
    origin: Point,
    scale: u8,
    clip: Option<ClipRect>,
) -> (points: Vec<Point>)
    requires
        layout_fits(
            BlockLayout {
                bitmap: bitmap@,
                offset: offset as int,
                stride: stride as int,
                width: width as int,
                height: height as int,
                origin_x: origin.x as int,
                origin_y: origin.y as int,
                scale: scale as int,
                clip,
            },
        ),
    ensures
        ({
            let layout = BlockLayout {
                bitmap: bitmap@,
                offset: offset as int,
                stride: stride as int,
                width: width as int,
                height: height as int,
                origin_x: origin.x as int,
                origin_y: origin.y as int,
                scale: scale as int,
                clip,
            };
            &&& all_painted(layout, points@)
            &&& forall|p: Point| block_painted(layout, p) ==> points@.contains(p)
        }),
{
    let ghost layout = BlockLayout {
        bitmap: bitmap@,
        offset: offset as int,
        stride: stride as int,
        width: width as int,
        height: height as int,
        origin_x: origin.x as int,
        origin_y: origin.y as int,
        scale: scale as int,
        clip,
    };
    let mut points: Vec<Point> = Vec::new();
    let mut y: u8 = 0;
    while y < height
        invariant
            layout_fits(layout),
            layout.bitmap == bitmap@,
            layout.offset == offset,
            layout.stride == stride,
            layout.width == width,
            layout.height == height,
            layout.origin_x == origin.x,
            layout.origin_y == origin.y,
            layout.scale == scale,
            layout.clip == clip,
            y <= height,
            all_painted(layout, points@),
            covered_before(layout, points@, y as int, 0, 0, 0),
        decreases height - y,
    {
        let mut x: u8 = 0;
        while x < width
            invariant
                layout_fits(layout),
                layout.bitmap == bitmap@,
                layout.offset == offset,
                layout.stride == stride,
                layout.width == width,
                layout.height == height,
                layout.origin_x == origin.x,
                layout.origin_y == origin.y,
                layout.scale == scale,
                layout.clip == clip,
                y < height,
                x <= width,
                all_painted(layout, points@),
                covered_before(layout, points@, y as int, x as int, 0, 0),
            decreases width - x,
        {
            proof {
                assert(offset + y * stride + 64 <= usize::MAX) by (nonlinear_arith)
                    requires
                        offset + height * stride + 64 <= usize::MAX,
                        y < height,
                        0 <= stride,
                ;
            }
            let set = read_bit(bitmap, offset, stride, x as usize, y as usize);
            if set {
                proof {
                    assert(x * scale + scale <= width * scale) by (nonlinear_arith)
                        requires
                            x < width,
                    ;
                    assert(y * scale + scale <= height * scale) by (nonlinear_arith)
                        requires
                            y < height,
                    ;
                    assert(x * scale <= 255 * 255) by (nonlinear_arith)
                        requires
                            x <= 255,
                            scale <= 255,
                    ;
                    assert(y * scale <= 255 * 255) by (nonlinear_arith)
                        requires
                            y <= 255,
                            scale <= 255,
                    ;
                }
                let base_x: i32 = origin.x + (x as i32) * (scale as i32);
                let base_y: i32 = origin.y + (y as i32) * (scale as i32);
                let mut dy: u8 = 0;
                while dy < scale
                    invariant
                        layout_fits(layout),
                        layout.bitmap == bitmap@,
                        layout.offset == offset,
                        layout.stride == stride,
                        layout.width == width,
                        layout.height == height,
                        layout.origin_x == origin.x,
                        layout.origin_y == origin.y,
                        layout.scale == scale,
                        layout.clip == clip,
                        y < height,
                        x < width,
                        set == source_bit(bitmap@, offset as int, stride as int, x as int, y as int),
                        set,
                        base_x == origin.x + x * scale,
                        base_y == origin.y + y * scale,
                        x * scale + scale <= width * scale,
                        y * scale + scale <= height * scale,
                        dy <= scale,
                        all_painted(layout, points@),
                        covered_before(layout, points@, y as int, x as int, dy as int, 0),
                    decreases scale - dy,
                {
                    let mut dx: u8 = 0;
                    while dx < scale
                        invariant
                            layout_fits(layout),
                            layout.bitmap == bitmap@,
                            layout.offset == offset,
                            layout.stride == stride,
                            layout.width == width,
                            layout.height == height,
                            layout.origin_x == origin.x,
                            layout.origin_y == origin.y,
                            layout.scale == scale,
                            layout.clip == clip,
                            y < height,
                            x < width,
                            set == source_bit(
                                bitmap@,
                                offset as int,
                                stride as int,
                                x as int,
                                y as int,
                            ),
                            set,
                            base_x == origin.x + x * scale,
                            base_y == origin.y + y * scale,
                            x * scale + scale <= width * scale,
                            y * scale + scale <= height * scale,
                            dy < scale,
                            dx <= scale,
                            all_painted(layout, points@),
                            covered_before(layout, points@, y as int, x as int, dy as int, dx as int),
                        decreases scale - dx,
                    {
                        let point = Point { x: base_x + dx as i32, y: base_y + dy as i32 };
                        if clip_allows(clip, point) {
                            let ghost before = points@;
                            points.push(point);
                            proof {
                                assert(paints_block(layout, x as int, y as int, dx as int, dy as int));
                                assert(points@[before.len() as int] == point);
                                assert forall|i: int| 0 <= i < points@.len() implies block_painted(
                                    layout,
                                    #[trigger] points@[i],
                                ) by {
                                    if i < before.len() {
                                        assert(points@[i] == before[i]);
                                    }
                                }
                                assert forall|x1: int, y1: int, dx1: int, dy1: int|
                                    #[trigger] paints_block(layout, x1, y1, dx1, dy1)
                                        && painted_earlier(
                                        y1,
                                        x1,
                                        dy1,
                                        dx1,
                                        y as int,
                                        x as int,
                                        dy as int,
                                        dx + 1,
                                    ) implies points@.contains(
                                    Point {
                                        x: (layout.origin_x + x1 * layout.scale + dx1) as i32,
                                        y: (layout.origin_y + y1 * layout.scale + dy1) as i32,
                                    },
                                ) by {
                                    if painted_earlier(
                                        y1,
                                        x1,
                                        dy1,
                                        dx1,
                                        y as int,
                                        x as int,
                                        dy as int,
                                        dx as int,
                                    ) {
                                        let q = Point {
                                            x: (layout.origin_x + x1 * layout.scale + dx1) as i32,
                                            y: (layout.origin_y + y1 * layout.scale + dy1) as i32,
                                        };
                                        let k = choose|k: int| 0 <= k < before.len() && before[k] == q;
                                        assert(points@[k] == q);
                                    } else {
                                        assert(points@[before.len() as int] == point);
                                    }
                                }
                            }
                        } else {
                            proof {
                                assert forall|x1: int, y1: int, dx1: int, dy1: int|
                                    #[trigger] paints_block(layout, x1, y1, dx1, dy1)
                                        && painted_earlier(
                                        y1,
                                        x1,
                                        dy1,
                                        dx1,
                                        y as int,
                                        x as int,
                                        dy as int,
                                        dx + 1,
                                    ) implies points@.contains(
                                    Point {
                                        x: (layout.origin_x + x1 * layout.scale + dx1) as i32,
                                        y: (layout.origin_y + y1 * layout.scale + dy1) as i32,
                                    },
                                ) by {
                                    if !painted_earlier(
                                        y1,
                                        x1,
                                        dy1,
                                        dx1,
                                        y as int,
                                        x as int,
                                        dy as int,
                                        dx as int,
                                    ) {
                                        assert(x1 == x && y1 == y && dy1 == dy && dx1 == dx);
                                    }
                                }
                            }
                        }
                        dx = dx + 1;
                    }
                    proof {
                        assert forall|x1: int, y1: int, dx1: int, dy1: int|
                            #[trigger] paints_block(layout, x1, y1, dx1, dy1) && painted_earlier(
                                y1,
                                x1,
                                dy1,
                                dx1,
                                y as int, x as int, dy + 1, 0,
                            ) implies points@.contains(
                            Point {
                                x: (layout.origin_x + x1 * layout.scale + dx1) as i32,
                                y: (layout.origin_y + y1 * layout.scale + dy1) as i32,
                            },
                        ) by {
                            assert(painted_earlier(y1, x1, dy1, dx1, y as int, x as int, dy as int, dx as int));
                        }
                    }
                    dy = dy + 1;
                }
                proof {
                    assert forall|x1: int, y1: int, dx1: int, dy1: int|
                        #[trigger] paints_block(layout, x1, y1, dx1, dy1) && painted_earlier(
                            y1,
                            x1,
                            dy1,
                            dx1,
                            y as int, x + 1, 0, 0,
                        ) implies points@.contains(
                        Point {
                            x: (layout.origin_x + x1 * layout.scale + dx1) as i32,
                            y: (layout.origin_y + y1 * layout.scale + dy1) as i32,
                        },
                    ) by {
                        assert(painted_earlier(y1, x1, dy1, dx1, y as int, x as int, dy as int, 0));
                    }
                }
            } else {
                proof {
                    assert forall|x1: int, y1: int, dx1: int, dy1: int|
                        #[trigger] paints_block(layout, x1, y1, dx1, dy1) && painted_earlier(
                            y1,
                            x1,
                            dy1,
                            dx1,
                            y as int,
                            x + 1,
                            0,
                            0,
                        ) implies points@.contains(
                        Point {
                            x: (layout.origin_x + x1 * layout.scale + dx1) as i32,
                            y: (layout.origin_y + y1 * layout.scale + dy1) as i32,
                        },
                    ) by {
                        if !painted_earlier(y1, x1, dy1, dx1, y as int, x as int, 0, 0) {
                            assert(x1 == x && y1 == y);
                        }
                    }
                }
            }
            x = x + 1;
        }
        proof {
            assert forall|x1: int, y1: int, dx1: int, dy1: int|
                #[trigger] paints_block(layout, x1, y1, dx1, dy1) && painted_earlier(
                    y1,
                    x1,
                    dy1,
                    dx1,
                    y + 1, 0, 0, 0,
                ) implies points@.contains(
                Point {
                    x: (layout.origin_x + x1 * layout.scale + dx1) as i32,
                    y: (layout.origin_y + y1 * layout.scale + dy1) as i32,
                },
            ) by {
                assert(painted_earlier(y1, x1, dy1, dx1, y as int, x as int, 0, 0));
            }
        }
        y = y + 1;
    }
    proof {
        assert forall|p: Point| block_painted(layout, p) implies points@.contains(p) by {
            let (x1, y1, dx1, dy1) = choose|x1: int, y1: int, dx1: int, dy1: int|
                #[trigger] paints_block(layout, x1, y1, dx1, dy1) && p.x == layout.origin_x + x1
                    * layout.scale + dx1 && p.y == layout.origin_y + y1 * layout.scale + dy1;
            assert(painted_earlier(y1, x1, dy1, dx1, height as int, 0, 0, 0));
            assert(p == Point {
                x: (layout.origin_x + x1 * layout.scale + dx1) as i32,
                y: (layout.origin_y + y1 * layout.scale + dy1) as i32,
            });
        }
    }
    points
}

/// Where a rasterized glyph is painted: its bitmap in `scale` x `scale`
/// blocks, offset from the baseline by its left and top bearings.
pub open spec fn glyph_layout(
    glyph: GlyphView,
    baseline: Point,
    scale: u8,
    clip: Option<ClipRect>,
) -> BlockLayout {
    let s: int = if scale == 0 {
        1
    } else {
        scale as int
    };
    BlockLayout {
        bitmap: glyph.bitmap,
        offset: 0,
        stride: stride_of(glyph.width) as int,
        width: glyph.width as int,
        height: glyph.height as int,
        origin_x: baseline.x + glyph.left * s,
        origin_y: baseline.y + glyph.top * s,
        scale: s,
        clip,
    }
}

/// A glyph layout reads exactly the glyph's own pixels.
pub proof fn lemma_glyph_layout_bits(glyph: GlyphView, baseline: Point, scale: u8, clip: Option<ClipRect>, x: u8, y: u8)
    requires
        x < glyph.width,
        y < glyph.height,
    ensures
        ({
            let layout = glyph_layout(glyph, baseline, scale, clip);
            source_bit(layout.bitmap, layout.offset, layout.stride, x as int, y as int) == glyph_bit(
                glyph,
                x,
                y,
            )
        }),
{
}

/// The points a rasterized glyph covers at `baseline`, drawn `scale` times
/// larger (zero counts as one) and clipped.
pub fn glyph_points(glyph: &RasterGlyph, baseline: Point, scale: u8, clip: Option<ClipRect>) -> (points: Vec<Point>)
    requires
        layout_fits(glyph_layout(glyph@, baseline, scale, clip)),
    ensures
        all_painted(glyph_layout(glyph@, baseline, scale, clip), points@),
        forall|p: Point|
            block_painted(glyph_layout(glyph@, baseline, scale, clip), p) ==> points@.contains(p),
{
    let s: u8 = if scale == 0 {
        1
    } else {
        scale
    };
    assert(-128 * 255 <= glyph.left * s <= 127 * 255) by (nonlinear_arith)
        requires
            -128 <= glyph.left <= 127,
            1 <= s <= 255,
    ;
    assert(-128 * 255 <= glyph.top * s <= 127 * 255) by (nonlinear_arith)
        requires
            -128 <= glyph.top <= 127,
            1 <= s <= 255,
    ;
    let origin = Point {
        x: baseline.x + (glyph.left as i32) * (s as i32),
        y: baseline.y + (glyph.top as i32) * (s as i32),
    };
    let stride = glyph.stride();
    paint_blocks(glyph.bitmap.as_slice(), 0, stride, glyph.width, glyph.height, origin, s, clip)
}

/// The Unifont cell: `px` x `px` (zero counts as one), its top `px - 2`
/// pixels above the baseline.
pub open spec fn cell_px(px: u8) -> int {
    if px == 0 {
        1
    } else {
        px as int
    }
}

/// Cell pixel `(x, y)` samples native pixel `(x * 16 / px, y * 16 / px)`.
pub open spec fn paints_cell(bitmap: Seq<u8>, baseline: Point, px: u8, clip: Option<ClipRect>, x: int, y: int) -> bool {
    &&& 0 <= x < cell_px(px)
    &&& 0 <= y < cell_px(px)
    &&& bit_at_spec(bitmap, (x * 16 / cell_px(px)) as u8, (y * 16 / cell_px(px)) as u8)
    &&& clip_holds(clip, baseline.x + x, baseline.y + 2 - cell_px(px) + y)
}

pub open spec fn cell_painted(bitmap: Seq<u8>, baseline: Point, px: u8, clip: Option<ClipRect>, point: Point) -> bool {
    exists|x: int, y: int|
        #[trigger] paints_cell(bitmap, baseline, px, clip, x, y) && point.x == baseline.x + x
            && point.y == baseline.y + 2 - cell_px(px) + y
}

/// The points a native 16 x 16 Unifont bitmap covers when resampled to a
/// `px` cell at `baseline`, clipped.
pub fn unifont_points(bitmap: &[u8], baseline: Point, px: u8, clip: Option<ClipRect>) -> (points: Vec<Point>)
    requires
        baseline.x + cell_px(px) <= i32::MAX,
        i32::MIN <= baseline.y + 2 - cell_px(px),
        baseline.y + 2 <= i32::MAX,
    ensures
        forall|i: int| 0 <= i < points@.len() ==> cell_painted(bitmap@, baseline, px, clip, #[trigger] points@[i]),
        forall|p: Point| cell_painted(bitmap@, baseline, px, clip, p) ==> points@.contains(p),
{
    let cell: u8 = if px == 0 {
        1
    } else {
        px
    };
    let top: i32 = 2 - (cell as i32);
    let mut points: Vec<Point> = Vec::new();
    let mut y: u8 = 0;
    while y < cell
        invariant
            cell == cell_px(px),
            top == 2 - cell_px(px),
            baseline.x + cell_px(px) <= i32::MAX,
            i32::MIN <= baseline.y + 2 - cell_px(px),
            baseline.y + 2 <= i32::MAX,
            y <= cell,
            forall|i: int| 0 <= i < points@.len() ==> cell_painted(bitmap@, baseline, px, clip, #[trigger] points@[i]),
            forall|x1: int, y1: int|
                #[trigger] paints_cell(bitmap@, baseline, px, clip, x1, y1) && y1 < y ==> points@.contains(
                    Point { x: (baseline.x + x1) as i32, y: (baseline.y + 2 - cell_px(px) + y1) as i32 },
                ),
        decreases cell - y,
    {
        let source_y: u8 = ((y as u16) * 16 / (cell as u16)) as u8;
        let mut x: u8 = 0;
        while x < cell
            invariant
                cell == cell_px(px),
                top == 2 - cell_px(px),
                baseline.x + cell_px(px) <= i32::MAX,
                i32::MIN <= baseline.y + 2 - cell_px(px),
                baseline.y + 2 <= i32::MAX,
                y < cell,
                x <= cell,
                source_y == (y * 16 / cell_px(px)) as u8,
                forall|i: int| 0 <= i < points@.len() ==> cell_painted(bitmap@, baseline, px, clip, #[trigger] points@[i]),
                forall|x1: int, y1: int|
                    #[trigger] paints_cell(bitmap@, baseline, px, clip, x1, y1) && (y1 < y || (y1 == y && x1 < x)) ==> points@.contains(
                        Point { x: (baseline.x + x1) as i32, y: (baseline.y + 2 - cell_px(px) + y1) as i32 },
                    ),
            decreases cell - x,
        {
            let source_x: u8 = ((x as u16) * 16 / (cell as u16)) as u8;
            let point = Point { x: baseline.x + x as i32, y: baseline.y + top + y as i32 };
            if bit_at(bitmap, source_x, source_y) && clip_allows(clip, point) {
                let ghost before = points@;
                points.push(point);
                proof {
                    assert(paints_cell(bitmap@, baseline, px, clip, x as int, y as int));
                    assert forall|i: int| 0 <= i < points@.len() implies cell_painted(
                        bitmap@,
                        baseline,
                        px,
                        clip,
                        #[trigger] points@[i],
                    ) by {
                        if i < before.len() {
                            assert(points@[i] == before[i]);
                        }
                    }
                    assert forall|x1: int, y1: int|
                        #[trigger] paints_cell(bitmap@, baseline, px, clip, x1, y1) && (y1 < y || (y1
                            == y && x1 < x + 1)) implies points@.contains(
                        Point { x: (baseline.x + x1) as i32, y: (baseline.y + 2 - cell_px(px) + y1) as i32 },
                    ) by {
                        if y1 < y || x1 < x {
                            let q = Point { x: (baseline.x + x1) as i32, y: (baseline.y + 2 - cell_px(px) + y1) as i32 };
                            let k = choose|k: int| 0 <= k < before.len() && before[k] == q;
                            assert(points@[k] == q);
                        } else {
                            assert(points@[before.len() as int] == point);
                        }
                    }
                }
            }
            x = x + 1;
        }
        y = y + 1;
    }
    proof {
        assert forall|p: Point| cell_painted(bitmap@, baseline, px, clip, p) implies points@.contains(p) by {
            let (x1, y1) = choose|x1: int, y1: int|
                #[trigger] paints_cell(bitmap@, baseline, px, clip, x1, y1) && p.x == baseline.x + x1
                    && p.y == baseline.y + 2 - cell_px(px) + y1;
            assert(p == Point { x: (baseline.x + x1) as i32, y: (baseline.y + 2 - cell_px(px) + y1) as i32 });
        }
    }
    points
}

/// Whether a block layout fits, from exact integer inputs.
pub(crate) fn fits_exec(offset: usize, stride: usize, width: u8, height: u8, origin_x: i64, origin_y: i64, scale: u8) -> (fits: bool)
    requires
        -0x1_0000_0000 <= origin_x <= 0x1_0000_0000,
        -0x1_0000_0000 <= origin_y <= 0x1_0000_0000,
    ensures
        fits == (1 <= scale && stride <= 64 && offset + height * stride + 64 <= usize::MAX
            && i32::MIN <= origin_x && origin_x + width * scale <= i32::MAX && i32::MIN <= origin_y
            && origin_y + height * scale <= i32::MAX),
{
    if scale == 0 || stride > 64 {
        return false;
    }
    assert(height * stride <= 255 * 64) by (nonlinear_arith)
        requires
            height <= 255,
            stride <= 64,
    ;
    assert(width * scale <= 255 * 255) by (nonlinear_arith)
        requires
            width <= 255,
            scale <= 255,
    ;
    assert(height * scale <= 255 * 255) by (nonlinear_arith)
        requires
            height <= 255,
            scale <= 255,
    ;
    let rows = (height as usize) * stride;
    if offset > usize::MAX - 64 - rows {
        return false;
    }
    let span_x = (width as i64) * (scale as i64);
    let span_y = (height as i64) * (scale as i64);
    origin_x >= i32::MIN as i64 && origin_x + span_x <= i32::MAX as i64 && origin_y >= i32::MIN as i64
        && origin_y + span_y <= i32::MAX as i64
}

/// Whether `glyph_points` accepts this glyph at this baseline and scale.
pub fn glyph_fits(glyph: &RasterGlyph, baseline: Point, scale: u8, clip: Option<ClipRect>) -> (fits: bool)
    ensures
        fits == layout_fits(glyph_layout(glyph@, baseline, scale, clip)),
{
    let s: u8 = if scale == 0 {
        1
    } else {
        scale
    };
    assert(-128 * 255 <= glyph.left * s <= 127 * 255) by (nonlinear_arith)
        requires
            -128 <= glyph.left <= 127,
            1 <= s <= 255,
    ;
    assert(-128 * 255 <= glyph.top * s <= 127 * 255) by (nonlinear_arith)
        requires
            -128 <= glyph.top <= 127,
            1 <= s <= 255,
    ;
    let origin_x = baseline.x as i64 + (glyph.left as i64) * (s as i64);
    let origin_y = baseline.y as i64 + (glyph.top as i64) * (s as i64);
    fits_exec(0, glyph.stride(), glyph.width, glyph.height, origin_x, origin_y, s)
}

/// Whether `unifont_points` accepts this cell size at this baseline.
pub fn cell_fits(baseline: Point, px: u8) -> (fits: bool)
    ensures
        fits == (baseline.x + cell_px(px) <= i32::MAX && i32::MIN <= baseline.y + 2 - cell_px(px)
            && baseline.y + 2 <= i32::MAX),
{
    let cell: i64 = if px == 0 {
        1
    } else {
        px as i64
    };
    baseline.x as i64 + cell <= i32::MAX as i64 && baseline.y as i64 + 2 - cell >= i32::MIN as i64
        && baseline.y as i64 + 2 <= i32::MAX as i64
}

} // verus!
