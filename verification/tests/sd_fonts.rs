use rustmix_wave::fonts::scan_order::{directory_order, name_le};
use rustmix_wave::fonts::sd_ttf::{
    face_label, font_scan_step, is_open_font_path, FontScanStep, loaded_note, oversize_error, pack_coverage, raster_glyph,
    sd_font_face, GlyphMetrics, MAX_SD_FACES, MAX_SD_FONT_BYTES, SD_FONT_DIRECTORIES,
};

#[test]
fn accepts_open_ttf_otf_names() {
    assert!(is_open_font_path("NOTOSC.TTF"));
    assert!(is_open_font_path("source.otf"));
    assert!(!is_open_font_path("README.TXT"));
}

#[test]
fn extension_rules_follow_paths() {
    assert!(is_open_font_path("a.b.Ttf"));
    assert!(!is_open_font_path(".ttf"));
    assert!(is_open_font_path("..ttf"));
    assert!(!is_open_font_path("ttf"));
    assert!(!is_open_font_path("font.ttf2"));
    assert!(!is_open_font_path(".."));
    assert!(!is_open_font_path(""));
}

#[test]
fn faces_are_named_after_their_file() {
    assert_eq!(face_label("NotoSansSC.otf"), "NotoSansSC");
    assert_eq!(face_label("a.b.ttf"), "a.b");
    assert_eq!(face_label("NOEXT"), "NOEXT");
    let face = sd_font_face(2, "Wen.TTF", 1234);
    assert_eq!(face.index, 2);
    assert_eq!(face.file_name, "Wen.TTF");
    assert_eq!(face.label, "Wen");
    assert_eq!(face.bytes, 1234);
    assert_eq!(loaded_note(&face), "loaded Wen.TTF bytes=1234");
}

#[test]
fn oversized_fonts_are_skipped() {
    assert_eq!(oversize_error(MAX_SD_FONT_BYTES), None);
    assert_eq!(
        oversize_error(MAX_SD_FONT_BYTES + 1).as_deref(),
        Some("skipped (2097153 bytes > 2097152 PSRAM cap)")
    );
    assert_eq!(MAX_SD_FACES, 4);
    assert_eq!(SD_FONT_DIRECTORIES, ["/sdcard/fonts", "/sdcard/RUSTMIX/FONTS"]);
}

#[test]
fn coverage_is_packed_into_msb_first_rows() {
    let metrics = GlyphMetrics {
        xmin: -1,
        ymin: -300,
        width: 3,
        height: 2,
        advance_px: 2,
    };
    let glyph = pack_coverage(metrics, &[0, 100, 200, 95, 96, 0], 16).unwrap();
    assert_eq!(glyph.width, 3);
    assert_eq!(glyph.height, 2);
    assert_eq!(glyph.advance, 4);
    assert_eq!(glyph.left, -1);
    assert_eq!(glyph.top, -128);
    assert_eq!(glyph.bitmap, vec![0x60, 0x40]);
    assert!(glyph.bit(1, 0));
    assert!(!glyph.bit(0, 1));
}

#[test]
fn wide_coverage_spans_several_bytes_per_row() {
    let metrics = GlyphMetrics {
        xmin: 0,
        ymin: 0,
        width: 10,
        height: 1,
        advance_px: 11,
    };
    let mut coverage = vec![255_u8; 10];
    coverage[1] = 0;
    let glyph = pack_coverage(metrics, &coverage, 8).unwrap();
    assert_eq!(glyph.bitmap, vec![0xBF, 0xC0]);
    assert_eq!(glyph.advance, 11);
    let short = pack_coverage(metrics, &[255], 8).unwrap();
    assert_eq!(short.bitmap, vec![0x80, 0x00]);
}

#[test]
fn raster_glyph_needs_a_glyph_and_coverage() {
    let metrics = GlyphMetrics {
        xmin: 0,
        ymin: -8,
        width: 8,
        height: 8,
        advance_px: 9,
    };
    let coverage = vec![200_u8; 64];
    assert!(raster_glyph(false, '中', metrics, &coverage, 16).is_none());
    assert!(raster_glyph(false, '\0', metrics, &coverage, 16).is_some());
    assert!(raster_glyph(true, '中', metrics, &[], 16).is_none());
    let empty = GlyphMetrics { width: 0, ..metrics };
    assert!(raster_glyph(true, '中', empty, &coverage, 16).is_none());
    let glyph = raster_glyph(true, '中', metrics, &coverage, 16).unwrap();
    assert_eq!(glyph.bitmap, vec![0xFF; 8]);
    assert_eq!(glyph.top, -8);
}

#[test]
fn scan_loads_at_most_four_open_fonts_in_order() {
    assert_eq!(
        font_scan_step(0, Some("TTF")),
        FontScanStep::Load { index: 0 }
    );
    assert_eq!(
        font_scan_step(3, Some("otf")),
        FontScanStep::Load { index: 3 }
    );
    assert_eq!(font_scan_step(2, Some("TXT")), FontScanStep::Skip);
    assert_eq!(font_scan_step(2, None), FontScanStep::Skip);
    assert_eq!(font_scan_step(4, Some("ttf")), FontScanStep::LimitReached);
    assert_eq!(font_scan_step(9, None), FontScanStep::LimitReached);
    assert_eq!(font_scan_step(1, Some("tTf2")), FontScanStep::Skip);
    assert_eq!(font_scan_step(1, Some("")), FontScanStep::Skip);
}

#[test]
fn directory_files_are_visited_by_name_bytes() {
    let names: Vec<Vec<u8>> = vec![
        b"b.ttf".to_vec(),
        b"a.ttf".to_vec(),
        b"B.ttf".to_vec(),
        b"a.tt".to_vec(),
        vec![0xff, b'.', b't', b't', b'f'],
        Vec::new(),
    ];
    assert_eq!(directory_order(&names), vec![5, 2, 3, 1, 0, 4]);
    assert_eq!(directory_order(&Vec::new()), Vec::<usize>::new());
}

#[test]
fn equal_names_keep_their_order() {
    let names: Vec<Vec<u8>> = vec![b"x".to_vec(), b"a".to_vec(), b"x".to_vec()];
    assert_eq!(directory_order(&names), vec![1, 0, 2]);
}

#[test]
fn names_compare_byte_by_byte() {
    assert!(name_le(b"abc", b"abd"));
    assert!(!name_le(b"abd", b"abc"));
    assert!(name_le(b"ab", b"abc"));
    assert!(!name_le(b"abc", b"ab"));
    assert!(name_le(b"same", b"same"));
    assert!(name_le(b"Z", b"a"));
    assert!(name_le(b"", b""));
}
