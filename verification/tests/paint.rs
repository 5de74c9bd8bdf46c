use rustmix_wave::fonts::paint::{cell_fits, glyph_fits, glyph_points, unifont_points};
use rustmix_wave::fonts::{ClipRect, Point, RasterGlyph};

fn sorted(mut points: Vec<Point>) -> Vec<(i32, i32)> {
    let mut pairs: Vec<(i32, i32)> = points.drain(..).map(|p| (p.x, p.y)).collect();
    pairs.sort();
    pairs
}

#[test]
fn glyph_pixels_are_offset_by_bearings_and_scaled() {
    let glyph = RasterGlyph {
        width: 2,
        height: 2,
        advance: 3,
        left: 1,
        top: -2,
        bitmap: vec![0x80, 0x40],
    };
    let baseline = Point { x: 10, y: 20 };
    assert!(glyph_fits(&glyph, baseline, 1, None));
    assert_eq!(
        sorted(glyph_points(&glyph, baseline, 1, None)),
        vec![(11, 18), (12, 19)]
    );
    assert_eq!(
        sorted(glyph_points(&glyph, baseline, 2, None)),
        vec![
            (12, 16),
            (12, 17),
            (13, 16),
            (13, 17),
            (14, 18),
            (14, 19),
            (15, 18),
            (15, 19)
        ]
    );
    assert_eq!(
        sorted(glyph_points(&glyph, baseline, 0, None)),
        vec![(11, 18), (12, 19)]
    );
    let clip = ClipRect {
        left: 0,
        top: 0,
        right: 12,
        bottom: 100,
    };
    assert_eq!(
        sorted(glyph_points(&glyph, baseline, 1, Some(clip))),
        vec![(11, 18)]
    );
    assert!(!glyph_fits(&glyph, Point { x: i32::MAX, y: 0 }, 1, None));
}

#[test]
fn unifont_cells_resample_the_native_bitmap() {
    let mut bitmap = vec![0_u8; 32];
    bitmap[0] = 0x80;
    let baseline = Point { x: 0, y: 16 };
    assert!(cell_fits(baseline, 16));
    assert_eq!(sorted(unifont_points(&bitmap, baseline, 16, None)), vec![(0, 2)]);
    assert_eq!(
        sorted(unifont_points(&bitmap, baseline, 32, None)),
        vec![(0, -14), (0, -13), (1, -14), (1, -13)]
    );
    assert!(unifont_points(&[0xFF; 31], baseline, 16, None).is_empty());
    assert!(!cell_fits(Point { x: i32::MAX, y: 0 }, 16));
}
