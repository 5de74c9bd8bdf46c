use rustmix_wave::fonts::{is_latin_char, mixed_draw, MixedDraw};
use rustmix_wave::fonts::cache::{CacheKey, GlyphCache};
use rustmix_wave::fonts::unifont::{binary_search_u16, bit_at, contains, native_bitmap, pack_glyph_count};
use rustmix_wave::fonts::{
    can_render_unicode, clamp_reader_px, init_from_sd, is_cjk_codepoint,
    is_preserved_book_character, load_notes, measure_mixed, sd_faces, set_preferred_sd_file,
    status, truncate_to_width, ui_cjk_px, unicode_advance, ClipRect, FaceId, FontEngine,
    GlyphLookup, Point, RasterGlyph, SdFontFace, READER_FONT_SIZE_STEPS,
};

fn sample(width: u8) -> RasterGlyph {
    RasterGlyph {
        width,
        height: width,
        advance: width,
        left: 0,
        top: -i8::try_from(width.saturating_sub(2)).unwrap_or(1),
        bitmap: vec![0xFF; ((usize::from(width) + 7) / 8) * usize::from(width)],
    }
}

#[test]
fn evicts_oldest_entries_when_byte_budget_is_exceeded() {
    let mut cache = GlyphCache::new(64, 8);
    cache.insert(
        CacheKey {
            face: FaceId::Unifont,
            px: 16,
            character: '中',
        },
        sample(16),
    );
    cache.insert(
        CacheKey {
            face: FaceId::Unifont,
            px: 16,
            character: '文',
        },
        sample(16),
    );
    assert!(cache.len() <= 2);
    assert!(cache.bytes() <= 64);
}

#[test]
fn cache_keeps_the_newest_entry_and_finds_it() {
    let mut cache = GlyphCache::new(64, 8);
    let first = CacheKey {
        face: FaceId::Unifont,
        px: 16,
        character: '中',
    };
    let second = CacheKey {
        face: FaceId::Unifont,
        px: 16,
        character: '文',
    };
    cache.insert(first, sample(16));
    assert_eq!(cache.len(), 1);
    assert_eq!(cache.bytes(), 32);
    cache.insert(second, sample(16));
    assert_eq!(cache.len(), 2);
    assert_eq!(cache.bytes(), 64);
    cache.insert(
        CacheKey {
            face: FaceId::Unifont,
            px: 16,
            character: '件',
        },
        sample(16),
    );
    assert_eq!(cache.len(), 2);
    assert!(cache.get(first).is_none());
    let found = cache.get(second).unwrap();
    assert_eq!(found.width, 16);
    assert_eq!(found.bitmap.len(), 32);
    cache.clear();
    assert_eq!(cache.len(), 0);
    assert_eq!(cache.bytes(), 0);
}

#[test]
fn cache_entry_budget_evicts_least_recently_used() {
    let mut cache = GlyphCache::new(1024, 2);
    let key = |character| CacheKey {
        face: FaceId::Sd(0),
        px: 8,
        character,
    };
    cache.insert(key('a'), sample(8));
    cache.insert(key('b'), sample(8));
    assert!(cache.get(key('a')).is_some());
    cache.insert(key('c'), sample(8));
    assert!(cache.get(key('a')).is_some());
    assert!(cache.get(key('b')).is_none());
    assert!(cache.get(key('c')).is_some());
}

#[test]
fn reader_size_steps_are_exact() {
    assert_eq!(READER_FONT_SIZE_STEPS, [16, 20, 24, 32, 48, 72]);
    assert_eq!(clamp_reader_px(23), 24);
    assert_eq!(clamp_reader_px(70), 72);
}

#[test]
fn reader_size_ties_take_the_smaller_step() {
    assert_eq!(clamp_reader_px(18), 16);
    assert_eq!(clamp_reader_px(0), 16);
    assert_eq!(clamp_reader_px(255), 72);
    assert_eq!(clamp_reader_px(40), 32);
}

#[test]
fn ui_cjk_size_is_clamped() {
    assert_eq!(ui_cjk_px(10), 16);
    assert_eq!(ui_cjk_px(20), 20);
    assert_eq!(ui_cjk_px(40), 32);
}

#[test]
fn measures_wide_cells_without_a_pack() {
    assert!(is_cjk_codepoint('中'));
    assert!(is_preserved_book_character('汉'));
    assert!(!is_cjk_codepoint('A'));
    assert!(is_preserved_book_character('\t'));
    assert!(!is_preserved_book_character('\u{7}'));
    let width = measure_mixed(&[], "中A文", 16, |ch| if ch == 'A' { 8 } else { 10 });
    assert_eq!(width, 16 + 8 + 16);
}

#[test]
fn newlines_take_no_width_and_unknown_characters_use_the_question_mark() {
    let width = measure_mixed(&[], "A\nB", 16, |_| 8);
    assert_eq!(width, 16);
    assert_eq!(unicode_advance(&[], 'é', 16, 9), 9);
    assert_eq!(unicode_advance(&[], '中', 16, 9), 16);
    assert_eq!(unicode_advance(&[], '\r', 16, 9), 0);
    assert!(!can_render_unicode(&[], 'A'));
    assert!(can_render_unicode(&[], '—'));
}

#[test]
fn truncates_mixed_titles_on_pixel_budget() {
    let text = "中文文件名很长ABCDEFG";
    let clipped = truncate_to_width(&[], text, 40, 48, 16, |_| 8);
    assert!(clipped.ends_with("..."));
    assert!(clipped.chars().count() < text.chars().count());
}

#[test]
fn truncation_keeps_what_fits_before_the_ellipsis() {
    let text = "中文文件名很长ABCDEFG";
    assert_eq!(truncate_to_width(&[], text, 40, 48, 16, |_| 8), "中...");
    assert_eq!(truncate_to_width(&[], "short", 40, 48, 16, |_| 8), "short");
    assert_eq!(truncate_to_width(&[], "ABCDEFGH", 5, 1000, 16, |_| 8), "AB...");
}

/// A pack holding the given sorted code points, each glyph's first row set.
fn pack_of(codes: &[u16]) -> Vec<u8> {
    let mut pack = b"UGB1".to_vec();
    pack.extend_from_slice(&(codes.len() as u32).to_le_bytes());
    for code in codes {
        pack.extend_from_slice(&code.to_le_bytes());
    }
    for _ in codes {
        let mut bitmap = vec![0_u8; 32];
        bitmap[0] = 0xFF;
        bitmap[1] = 0x01;
        pack.extend_from_slice(&bitmap);
    }
    pack
}

#[test]
fn pack_lookup_finds_its_glyphs() {
    let pack = pack_of(&[0x4E2D, 0x6587, 0xFF0C]);
    assert_eq!(pack_glyph_count(&pack), 3);
    assert!(contains(&pack, '中'));
    assert!(contains(&pack, '文'));
    assert!(contains(&pack, '，'));
    assert!(!contains(&pack, '件'));
    let bitmap = native_bitmap(&pack, '中').unwrap();
    assert_eq!(bitmap.len(), 32);
    assert!(bit_at(bitmap, 0, 0));
    assert!(bit_at(bitmap, 15, 0));
    assert!(!bit_at(bitmap, 8, 0));
    assert!(!bit_at(bitmap, 0, 1));
    assert!(native_bitmap(&pack, 'A').is_none());
    assert_eq!(pack_glyph_count(&[]), 0);
    assert_eq!(pack_glyph_count(b"XXXX\x01\x00\x00\x00"), 0);
}

#[test]
fn binary_search_reports_the_index() {
    let codes = [0x10, 0x00, 0x20, 0x00, 0x00, 0x01];
    assert_eq!(binary_search_u16(&codes, 0x20), Some(1));
    assert_eq!(binary_search_u16(&codes, 0x100), Some(2));
    assert_eq!(binary_search_u16(&codes, 0x15), None);
}

#[test]
fn raster_glyph_bits_and_clip() {
    let glyph = sample(9);
    assert_eq!(glyph.stride(), 2);
    assert!(glyph.bit(8, 8));
    assert!(!glyph.bit(9, 0));
    let clip = ClipRect {
        left: 0,
        top: 0,
        right: 10,
        bottom: 5,
    };
    assert!(clip.contains(Point { x: 9, y: 4 }));
    assert!(!clip.contains(Point { x: 10, y: 4 }));
    assert!(!clip.contains(Point { x: -1, y: 0 }));
}

fn face(index: u8, name: &str) -> SdFontFace {
    SdFontFace {
        index,
        file_name: name.into(),
        label: name.into(),
        bytes: 100,
    }
}

#[test]
fn engine_prefers_named_face_and_caches_its_glyphs() {
    let mut engine = FontEngine::new();
    assert!(matches!(engine.lookup_sd_glyph('中', 16), GlyphLookup::NoSdFace));
    let pack = pack_of(&[0x4E2D]);
    let loaded = init_from_sd(
        &mut engine,
        &pack,
        vec![face(0, "A.TTF"), face(1, "Noto.otf")],
        vec!["loaded".into()],
    );
    assert_eq!(loaded.sd_faces, 2);
    assert_eq!(loaded.unifont_glyphs, 1);
    assert_eq!(loaded.unifont_bytes, 40);
    assert_eq!(engine.active_face(), Some(0));
    set_preferred_sd_file(&mut engine, Some("noto.OTF"));
    assert_eq!(engine.active_face(), Some(1));
    let key = match engine.lookup_sd_glyph('中', 16) {
        GlyphLookup::Missing(key) => key,
        other => panic!("unexpected lookup {other:?}"),
    };
    assert_eq!(key.face, FaceId::Sd(1));
    engine.store_glyph(key, sample(16));
    assert!(matches!(engine.lookup_sd_glyph('中', 16), GlyphLookup::Cached(_)));
    assert_eq!(status(&engine, &pack).cache_entries, 1);
    set_preferred_sd_file(&mut engine, Some("missing.ttf"));
    assert_eq!(engine.active_face(), Some(0));
    assert_eq!(sd_faces(&engine).len(), 2);
    assert_eq!(load_notes(&engine), vec!["loaded".to_string()]);
}

#[test]
fn scan_results_are_checked_before_installing() {
    use_check(vec![face(0, "A.TTF"), face(1, "b.otf")], true);
    use_check(vec![face(1, "A.TTF")], false);
    use_check(vec![face(0, "A.TXT")], false);
    let mut big = face(0, "A.TTF");
    big.bytes = 2 * 1024 * 1024 + 1;
    use_check(vec![big], false);
    use_check((0..5).map(|i| face(i, "A.TTF")).collect(), false);
}

fn use_check(faces: Vec<SdFontFace>, expected: bool) {
    assert_eq!(rustmix_wave::fonts::check_faces(&faces), expected);
}

#[test]
fn pack_well_formedness_requires_ascending_codes() {
    assert!(rustmix_wave::fonts::pack_is_well_formed(&pack_of(&[0x4E2D, 0x6587])));
    assert!(!rustmix_wave::fonts::pack_is_well_formed(&pack_of(&[0x6587, 0x4E2D])));
    assert!(!rustmix_wave::fonts::pack_is_well_formed(&pack_of(&[0x4E2D, 0x4E2D])));
    assert!(rustmix_wave::fonts::pack_is_well_formed(&[]));
    let mut truncated = pack_of(&[0x6587, 0x4E2D]);
    truncated.pop();
    assert!(rustmix_wave::fonts::pack_is_well_formed(&truncated));
}

#[test]
fn fallback_choice_prefers_the_sd_face() {
    assert!(is_latin_char('A'));
    assert!(!is_latin_char('中'));
    assert_eq!(mixed_draw('A', Some(9), true, 16), MixedDraw::Latin);
    assert_eq!(mixed_draw('中', Some(0), true, 16), MixedDraw::SdFace { advance: 1 });
    assert_eq!(mixed_draw('中', None, true, 16), MixedDraw::Unifont { advance: 16 });
    assert_eq!(mixed_draw('中', None, true, 0), MixedDraw::Unifont { advance: 1 });
    assert_eq!(mixed_draw('中', None, false, 16), MixedDraw::Latin);
}

#[test]
fn measured_width_adds_over_concatenation() {
    let f = |ch: char| if ch == 'A' { 8 } else { 10 };
    let whole = measure_mixed(&[], "中A\n文B", 16, f);
    let left = measure_mixed(&[], "中A", 16, f);
    let right = measure_mixed(&[], "\n文B", 16, f);
    assert_eq!(whole, left + right);
    assert_eq!(measure_mixed(&[], "", 16, f), 0);
}
