//! Embedded GNU Unifont GB2312 16x16 fallback pack.
//!
//! Pack layout: the magic `UGB1`, a little-endian `u32` glyph count, then
//! `count` little-endian `u16` code points in ascending order, then `count`
//! 32-byte bitmaps (16 rows of 2 bytes, most significant bit first) in the
//! same order.
use vstd::prelude::*;

verus! {

pub const HEADER_LEN: usize = 8;

pub const BITMAP_BYTES: usize = 32;

pub const NATIVE_PX: u8 = 16;

pub open spec fn has_magic(pack: Seq<u8>) -> bool {
    pack.len() >= HEADER_LEN && pack[0] == 0x55u8 && pack[1] == 0x47u8 && pack[2] == 0x42u8
        && pack[3] == 0x31u8
}

/// Glyph count stored in a pack header; zero without a valid header.
pub open spec fn pack_count(pack: Seq<u8>) -> nat {
    if has_magic(pack) {
        pack[4] as nat + pack[5] as nat * 256 + pack[6] as nat * 65536 + pack[7] as nat
            * 16777216
    } else {
        0
    }
}

/// The `index`-th little-endian `u16` of a code table.
pub open spec fn code_at(codes: Seq<u8>, index: int) -> int {
    codes[2 * index] + codes[2 * index + 1] * 256
}

/// Code points in the table strictly ascend.
pub open spec fn codes_sorted(codes: Seq<u8>) -> bool {
    forall|i: int, j: int| 0 <= i < j < codes.len() / 2 ==> code_at(codes, i) < code_at(codes, j)
}

pub open spec fn codes_contain(codes: Seq<u8>, needle: int) -> bool {
    exists|i: int| 0 <= i < codes.len() / 2 && code_at(codes, i) == needle
}

/// Byte offset where the code table ends and the bitmaps start.
pub open spec fn codes_end(pack: Seq<u8>) -> int {
    HEADER_LEN + 2 * pack_count(pack)
}

/// The pack is long enough for its header's count of codes and bitmaps.
pub open spec fn pack_complete(pack: Seq<u8>) -> bool {
    pack_count(pack) > 0 && pack.len() >= codes_end(pack) + BITMAP_BYTES * pack_count(pack)
}

pub open spec fn pack_codes(pack: Seq<u8>) -> Seq<u8> {
    pack.subrange(HEADER_LEN as int, codes_end(pack))
}

/// The 32-byte bitmap of glyph `index`.
pub open spec fn bitmap_at(pack: Seq<u8>, index: int) -> Seq<u8> {
    pack.subrange(
        codes_end(pack) + index * BITMAP_BYTES,
        codes_end(pack) + index * BITMAP_BYTES + BITMAP_BYTES,
    )
}

pub fn pack_glyph_count(pack: &[u8]) -> (count: usize)
    ensures
        count == pack_count(pack@),
{
    if pack.len() < HEADER_LEN || pack[0] != 0x55u8 || pack[1] != 0x47u8 || pack[2] != 0x42u8
        || pack[3] != 0x31u8 {
        return 0;
    }
    let value: u32 = pack[4] as u32 + pack[5] as u32 * 256 + pack[6] as u32 * 65536 + pack[7] as u32
        * 16777216;
    value as usize
}

/// Binary search for `needle` in a table of little-endian `u16` codes.
pub fn binary_search_u16(codes: &[u8], needle: u16) -> (index: Option<usize>)
    ensures
        index matches Some(i) ==> i < codes@.len() / 2 && code_at(codes@, i as int) == needle,
        codes_sorted(codes@) ==> (index is None <==> !codes_contain(codes@, needle as int)),
{
    let n = codes.len();
    let mut lo: usize = 0;
    let mut hi: usize = n / 2;
    while lo < hi
        invariant
            n == codes@.len(),
            lo <= hi <= n / 2,
            codes_sorted(codes@) ==> forall|i: int|
                0 <= i < codes@.len() / 2 && code_at(codes@, i) == needle ==> lo <= i < hi,
        decreases hi - lo,
    {
        let mid = lo + (hi - lo) / 2;
        assert(mid * 2 + 1 < codes@.len());
        let value: u16 = codes[mid * 2] as u16 + codes[mid * 2 + 1] as u16 * 256;
        assert(value == code_at(codes@, mid as int));
        if value < needle {
            lo = mid + 1;
        } else if value > needle {
            hi = mid;
        } else {
            return Some(mid);
        }
    }
    None
}

/// The native 16x16 bitmap of a character, if the pack holds one.
pub fn native_bitmap(pack: &[u8], character: char) -> (bitmap: Option<&[u8]>)
    ensures
        bitmap matches Some(b) ==> {
            &&& (character as u32) <= 0xFFFF
            &&& pack_complete(pack@)
            &&& exists|i: int|
                0 <= i < pack_count(pack@) && code_at(pack_codes(pack@), i) == character as u32
                    && b@ == bitmap_at(pack@, i)
        },
        bitmap is None && (character as u32) <= 0xFFFF && pack_complete(pack@) && codes_sorted(
            pack_codes(pack@),
        ) ==> !codes_contain(pack_codes(pack@), character as u32 as int),
        (character as u32) <= 0xFFFF && pack_complete(pack@) && codes_sorted(pack_codes(pack@))
            && codes_contain(pack_codes(pack@), character as u32 as int) ==> bitmap is Some,
{
    let code = character as u32;
    if code > 0xFFFF {
        return None;
    }
    let pack_len = pack.len();
    let count = pack_glyph_count(pack);
    if count == 0 {
        return None;
    }
    let codes_len = match count.checked_mul(2) {
        Some(v) => v,
        None => return None,
    };
    let codes_end = match HEADER_LEN.checked_add(codes_len) {
        Some(v) => v,
        None => return None,
    };
    let bitmaps_len = match count.checked_mul(BITMAP_BYTES) {
        Some(v) => v,
        None => return None,
    };
    let needed = match codes_end.checked_add(bitmaps_len) {
        Some(v) => v,
        None => return None,
    };
    if pack.len() < needed {
        return None;
    }
    let codes = &pack[HEADER_LEN..codes_end];
    assert(codes@ == pack_codes(pack@));
    let index = match binary_search_u16(codes, code as u16) {
        Some(i) => i,
        None => return None,
    };
    assert(index < count);
    let offset = codes_end + index * BITMAP_BYTES;
    let bitmap = &pack[offset..offset + BITMAP_BYTES];
    assert(bitmap@ == bitmap_at(pack@, index as int));
    assert(code_at(pack_codes(pack@), index as int) == character as u32);
    Some(bitmap)
}

pub fn contains(pack: &[u8], character: char) -> (found: bool)
    ensures
        found ==> (character as u32) <= 0xFFFF && pack_complete(pack@) && codes_contain(
            pack_codes(pack@),
            character as u32 as int,
        ),
        (character as u32) <= 0xFFFF && pack_complete(pack@) && codes_sorted(pack_codes(pack@))
            ==> (found <==> codes_contain(pack_codes(pack@), character as u32 as int)),
{
    let bitmap = native_bitmap(pack, character);
    proof {
        if bitmap is Some {
            let i = choose|i: int|
                0 <= i < pack_count(pack@) && code_at(pack_codes(pack@), i) == character as u32
                    && bitmap->0@ == bitmap_at(pack@, i);
            assert(0 <= i < pack_codes(pack@).len() / 2);
        }
    }
    bitmap.is_some()
}

pub fn native_px() -> (px: u8)
    ensures
        px == NATIVE_PX,
{
    NATIVE_PX
}

/// Whether pixel `(x, y)` of a native 16x16 bitmap is set.
pub open spec fn bit_at_spec(bitmap: Seq<u8>, x: u8, y: u8) -> bool {
    if x >= NATIVE_PX || y >= NATIVE_PX || bitmap.len() < BITMAP_BYTES {
        false
    } else {
        bitmap[y * 2 + x / 8] & (0x80u8 >> (x % 8)) != 0
    }
}

pub fn bit_at(bitmap: &[u8], x: u8, y: u8) -> (set: bool)
    ensures
        set == bit_at_spec(bitmap@, x, y),
{
    if x >= NATIVE_PX || y >= NATIVE_PX || bitmap.len() < BITMAP_BYTES {
        return false;
    }
    let byte_index = (y as usize) * 2 + (x / 8) as usize;
    let mask: u8 = 0x80u8 >> (x % 8);
    bitmap[byte_index] & mask != 0
}

} // verus!
