//! Bounded glyph bitmap cache with least-recently-used eviction.
//!
//! Entries are kept oldest first. A lookup moves the entry to the back; an
//! insert replaces any entry with the same key, evicts from the front while
//! the entry count or byte budget would be exceeded, and appends the new
//! entry. The byte counter always equals the total bitmap size held.
use vstd::prelude::*;

use super::{FaceId, GlyphView, RasterGlyph};

verus! {

/// Byte budget of the engine's default cache.
pub const DEFAULT_MAX_BYTES: usize = 524288;

/// Entry budget of the engine's default cache.
pub const DEFAULT_MAX_ENTRIES: usize = 768;

#[derive(Clone, Copy, Debug, PartialEq, Eq, Hash, Structural)]
pub struct CacheKey {
    pub face: FaceId,
    pub px: u8,
    pub character: char,
}

/// One cached glyph as seen by specifications.
pub type CacheEntry = (CacheKey, GlyphView);

struct Entry {
    key: CacheKey,
    glyph: RasterGlyph,
}

impl Entry {
    spec fn view(&self) -> CacheEntry {
        (self.key, self.glyph@)
    }
}

/// Total bitmap bytes held by a sequence of entries.
pub open spec fn total_bytes(entries: Seq<CacheEntry>) -> nat
    decreases entries.len(),
{
    if entries.len() == 0 {
        0
    } else {
        entries[0].1.bitmap.len() + total_bytes(entries.drop_first())
    }
}

/// No key occurs twice.
pub open spec fn keys_unique(entries: Seq<CacheEntry>) -> bool {
    forall|i: int, j: int|
        0 <= i < entries.len() && 0 <= j < entries.len() && i != j ==> entries[i].0
            != entries[j].0
}

pub open spec fn has_key(entries: Seq<CacheEntry>, key: CacheKey) -> bool {
    exists|i: int| 0 <= i < entries.len() && entries[i].0 == key
}

/// The position of `key`, meaningful when `has_key(entries, key)`.
pub open spec fn key_index(entries: Seq<CacheEntry>, key: CacheKey) -> int {
    choose|i: int| 0 <= i < entries.len() && entries[i].0 == key
}

/// The entries without the one stored under `key`.
pub open spec fn without_key(entries: Seq<CacheEntry>, key: CacheKey) -> Seq<CacheEntry> {
    if has_key(entries, key) {
        entries.remove(key_index(entries, key))
    } else {
        entries
    }
}

/// Whether the oldest entry must go before a glyph of `incoming` bytes is added.
pub open spec fn must_evict(
    entries: Seq<CacheEntry>,
    incoming: nat,
    max_bytes: nat,
    max_entries: nat,
) -> bool {
    entries.len() > 0 && (entries.len() >= max_entries || total_bytes(entries) + incoming
        > max_bytes)
}

/// Drop entries from the front until a glyph of `incoming` bytes fits.
pub open spec fn evict(
    entries: Seq<CacheEntry>,
    incoming: nat,
    max_bytes: nat,
    max_entries: nat,
) -> Seq<CacheEntry>
    decreases entries.len(),
{
    if must_evict(entries, incoming, max_bytes, max_entries) {
        evict(entries.drop_first(), incoming, max_bytes, max_entries)
    } else {
        entries
    }
}

/// Entries after inserting `glyph` under `key`.
pub open spec fn inserted(
    entries: Seq<CacheEntry>,
    key: CacheKey,
    glyph: GlyphView,
    max_bytes: nat,
    max_entries: nat,
) -> Seq<CacheEntry> {
    evict(without_key(entries, key), glyph.bitmap.len(), max_bytes, max_entries).push(
        (key, glyph),
    )
}

/// Entries after a lookup of `key`: a hit moves the entry to the back.
pub open spec fn touched(entries: Seq<CacheEntry>, key: CacheKey) -> Seq<CacheEntry> {
    if has_key(entries, key) {
        without_key(entries, key).push(entries[key_index(entries, key)])
    } else {
        entries
    }
}

/// The glyph stored under `key`, if any.
pub open spec fn lookup(entries: Seq<CacheEntry>, key: CacheKey) -> Option<GlyphView> {
    if has_key(entries, key) {
        Some(entries[key_index(entries, key)].1)
    } else {
        None
    }
}

pub proof fn lemma_total_push(entries: Seq<CacheEntry>, entry: CacheEntry)
    ensures
        total_bytes(entries.push(entry)) == total_bytes(entries) + entry.1.bitmap.len(),
    decreases entries.len(),
{
    let pushed = entries.push(entry);
    if entries.len() > 0 {
        assert(pushed.drop_first() =~= entries.drop_first().push(entry));
        assert(pushed[0] == entries[0]);
        lemma_total_push(entries.drop_first(), entry);
    } else {
        assert(pushed.drop_first() =~= Seq::<CacheEntry>::empty());
        assert(total_bytes(pushed.drop_first()) == 0);
        assert(pushed[0] == entry);
    }
}

pub proof fn lemma_total_remove(entries: Seq<CacheEntry>, index: int)
    requires
        0 <= index < entries.len(),
    ensures
        total_bytes(entries.remove(index)) + entries[index].1.bitmap.len() == total_bytes(
            entries,
        ),
    decreases entries.len(),
{
    if index > 0 {
        assert(entries.remove(index).drop_first() =~= entries.drop_first().remove(index - 1));
        lemma_total_remove(entries.drop_first(), index - 1);
    } else {
        assert(entries.remove(0) =~= entries.drop_first());
    }
}

/// Evicting keeps a suffix of the entries, so the oldest go first.
pub proof fn lemma_evict_is_suffix(
    entries: Seq<CacheEntry>,
    incoming: nat,
    max_bytes: nat,
    max_entries: nat,
)
    ensures
        exists|k: int|
            0 <= k <= entries.len() && #[trigger] evict(entries, incoming, max_bytes, max_entries)
                == entries.skip(k),
        !must_evict(evict(entries, incoming, max_bytes, max_entries), incoming, max_bytes, max_entries),
    decreases entries.len(),
{
    if must_evict(entries, incoming, max_bytes, max_entries) {
        let rest = entries.drop_first();
        lemma_evict_is_suffix(rest, incoming, max_bytes, max_entries);
        let k = choose|k: int|
            0 <= k <= rest.len() && #[trigger] evict(rest, incoming, max_bytes, max_entries)
                == rest.skip(k);
        assert(rest.skip(k) =~= entries.skip(k + 1));
    } else {
        assert(entries.skip(0) =~= entries);
    }
}

proof fn lemma_without_key_unique(entries: Seq<CacheEntry>, key: CacheKey)
    requires
        keys_unique(entries),
    ensures
        keys_unique(without_key(entries, key)),
        !has_key(without_key(entries, key), key),
        has_key(entries, key) ==> total_bytes(without_key(entries, key)) + entries[key_index(
            entries,
            key,
        )].1.bitmap.len() == total_bytes(entries),
        forall|k: CacheKey|
            k != key ==> (has_key(without_key(entries, key), k) <==> has_key(entries, k)),
{
    if has_key(entries, key) {
        let i = key_index(entries, key);
        let r = entries.remove(i);
        lemma_total_remove(entries, i);
        assert forall|k: CacheKey| k != key implies (has_key(r, k) <==> has_key(entries, k)) by {
            if has_key(entries, k) {
                let j = choose|j: int| 0 <= j < entries.len() && entries[j].0 == k;
                if j < i {
                    assert(r[j].0 == k);
                } else {
                    assert(r[j - 1].0 == k);
                }
            }
            if has_key(r, k) {
                let j = choose|j: int| 0 <= j < r.len() && r[j].0 == k;
                if j < i {
                    assert(entries[j].0 == k);
                } else {
                    assert(entries[j + 1].0 == k);
                }
            }
        }
        if has_key(r, key) {
            let j = choose|j: int| 0 <= j < r.len() && r[j].0 == key;
            if j < i {
                assert(entries[j].0 == key);
            } else {
                assert(entries[j + 1].0 == key);
            }
        }
    }
}

proof fn lemma_suffix_unique(entries: Seq<CacheEntry>, k: int, key: CacheKey)
    requires
        keys_unique(entries),
        !has_key(entries, key),
        0 <= k <= entries.len(),
    ensures
        keys_unique(entries.skip(k)),
        !has_key(entries.skip(k), key),
{
    if has_key(entries.skip(k), key) {
        let j = choose|j: int| 0 <= j < entries.skip(k).len() && entries.skip(k)[j].0 == key;
        assert(entries[j + k].0 == key);
    }
    let s = entries.skip(k);
    assert forall|i: int, j: int| 0 <= i < s.len() && 0 <= j < s.len() && i != j implies s[i].0
        != s[j].0 by {
        assert(s[i] == entries[i + k]);
        assert(s[j] == entries[j + k]);
    }
}

proof fn lemma_push_fresh_unique(entries: Seq<CacheEntry>, entry: CacheEntry)
    requires
        keys_unique(entries),
        !has_key(entries, entry.0),
    ensures
        keys_unique(entries.push(entry)),
        has_key(entries.push(entry), entry.0),
        key_index(entries.push(entry), entry.0) == entries.len(),
{
    let s = entries.push(entry);
    assert forall|i: int, j: int| 0 <= i < s.len() && 0 <= j < s.len() && i != j implies s[i].0
        != s[j].0 by {
        if i == entries.len() {
            assert(!(entries[j].0 == entry.0));
        } else if j == entries.len() {
            assert(!(entries[i].0 == entry.0));
        }
    }
    assert(s[entries.len() as int].0 == entry.0);
}

/// Looking up a key right after inserting it yields the inserted glyph, and
/// the insert leaves every key stored at most once.
pub proof fn lemma_insert_then_lookup(
    entries: Seq<CacheEntry>,
    key: CacheKey,
    glyph: GlyphView,
    max_bytes: nat,
    max_entries: nat,
)
    requires
        keys_unique(entries),
    ensures
        keys_unique(inserted(entries, key, glyph, max_bytes, max_entries)),
        lookup(inserted(entries, key, glyph, max_bytes, max_entries), key) == Some(glyph),
{
    let w = without_key(entries, key);
    lemma_without_key_unique(entries, key);
    lemma_evict_is_suffix(w, glyph.bitmap.len(), max_bytes, max_entries);
    let e = evict(w, glyph.bitmap.len(), max_bytes, max_entries);
    let k = choose|k: int| 0 <= k <= w.len() && #[trigger] evict(w, glyph.bitmap.len(), max_bytes, max_entries) == w.skip(k);
    lemma_suffix_unique(w, k, key);
    lemma_push_fresh_unique(e, (key, glyph));
}

/// After an insert the cache respects its entry budget and its byte budget,
/// except that a single glyph larger than the byte budget is still kept alone.
pub proof fn lemma_insert_respects_budget(
    entries: Seq<CacheEntry>,
    key: CacheKey,
    glyph: GlyphView,
    max_bytes: nat,
    max_entries: nat,
)
    ensures
        inserted(entries, key, glyph, max_bytes, max_entries).len() <= max_entries || inserted(
            entries,
            key,
            glyph,
            max_bytes,
            max_entries,
        ).len() == 1,
        total_bytes(inserted(entries, key, glyph, max_bytes, max_entries)) <= max_bytes
            || inserted(entries, key, glyph, max_bytes, max_entries).len() == 1,
{
    let w = without_key(entries, key);
    lemma_evict_is_suffix(w, glyph.bitmap.len(), max_bytes, max_entries);
    let e = evict(w, glyph.bitmap.len(), max_bytes, max_entries);
    lemma_total_push(e, (key, glyph));
}

/// Bounded least-recently-used glyph cache.
pub struct GlyphCache {
    entries: Vec<Entry>,
    bytes: usize,
    max_bytes: usize,
    max_entries: usize,
}

impl View for GlyphCache {
    type V = Seq<CacheEntry>;

    closed spec fn view(&self) -> Seq<CacheEntry> {
        self.entries@.map_values(|entry: Entry| entry.view())
    }
}

impl GlyphCache {
    /// The byte budget the cache was made with.
    pub closed spec fn byte_budget(&self) -> nat {
        self.max_bytes as nat
    }

    /// The entry budget the cache was made with.
    pub closed spec fn entry_budget(&self) -> nat {
        self.max_entries as nat
    }

    /// Keys are unique and the byte counter matches the stored bitmaps.
    pub closed spec fn wf(&self) -> bool {
        &&& keys_unique(self@)
        &&& self.bytes as nat == total_bytes(self@)
    }

    pub fn new(max_bytes: usize, max_entries: usize) -> (cache: Self)
        ensures
            cache.wf(),
            cache@ == Seq::<CacheEntry>::empty(),
            cache.byte_budget() == max_bytes,
            cache.entry_budget() == max_entries,
    {
        let cache = GlyphCache { entries: Vec::new(), bytes: 0, max_bytes, max_entries };
        assert(cache@ =~= Seq::<CacheEntry>::empty());
        cache
    }

    pub fn bytes(&self) -> (bytes: usize)
        requires
            self.wf(),
        ensures
            bytes == total_bytes(self@),
    {
        self.bytes
    }

    pub fn len(&self) -> (len: usize)
        ensures
            len == self@.len(),
    {
        self.entries.len()
    }

    fn position(&self, key: CacheKey) -> (index: Option<usize>)
        requires
            self.wf(),
        ensures
            index is None <==> !has_key(self@, key),
            index matches Some(i) ==> i == key_index(self@, key) && i < self@.len(),
    {
        let mut i: usize = 0;
        while i < self.entries.len()
            invariant
                self.wf(),
                i <= self@.len(),
                self@.len() == self.entries.len(),
                forall|j: int| 0 <= j < i ==> self@[j].0 != key,
            decreases self.entries.len() - i,
        {
            if self.entries[i].key == key {
                assert(self@[i as int].0 == key);
                return Some(i);
            }
            i = i + 1;
        }
        None
    }

    pub fn get(&mut self, key: CacheKey) -> (glyph: Option<RasterGlyph>)
        requires
            old(self).wf(),
        ensures
            final(self).wf(),
            final(self)@ == touched(old(self)@, key),
            final(self).byte_budget() == old(self).byte_budget(),
            final(self).entry_budget() == old(self).entry_budget(),
            glyph is Some <==> lookup(old(self)@, key) is Some,
            glyph matches Some(g) ==> Some(g@) == lookup(old(self)@, key),
    {
        let index = match self.position(key) {
            Some(index) => index,
            None => return None,
        };
        let ghost before = self@;
        let entry = self.entries.remove(index);
        assert(self@ =~= before.remove(index as int));
        let glyph = entry.glyph.duplicate();
        self.entries.push(entry);
        assert(self@ =~= before.remove(index as int).push(before[index as int]));
        proof {
            lemma_without_key_unique(before, key);
            lemma_total_remove(before, index as int);
            lemma_push_fresh_unique(before.remove(index as int), before[index as int]);
            lemma_total_push(before.remove(index as int), before[index as int]);
        }
        Some(glyph)
    }

    pub fn insert(&mut self, key: CacheKey, glyph: RasterGlyph)
        requires
            old(self).wf(),
        ensures
            final(self).wf(),
            final(self)@ == inserted(
                old(self)@,
                key,
                glyph@,
                old(self).byte_budget(),
                old(self).entry_budget(),
            ),
            final(self).byte_budget() == old(self).byte_budget(),
            final(self).entry_budget() == old(self).entry_budget(),
    {
        let ghost start = self@;
        if let Some(index) = self.position(key) {
            let old_entry = self.entries.remove(index);
            proof {
                lemma_total_remove(start, index as int);
            }
            self.bytes = self.bytes - old_entry.glyph.bitmap.len();
            assert(self@ =~= start.remove(index as int));
        }
        proof {
            lemma_without_key_unique(start, key);
        }
        assert(self@ == without_key(start, key));
        let incoming = glyph.bitmap.len();
        let ghost target = evict(without_key(start, key), incoming as nat, self.max_bytes as nat, self.max_entries as nat);
        while self.entries.len() > 0 && (self.entries.len() >= self.max_entries || self.bytes
            > self.max_bytes || incoming > self.max_bytes - self.bytes)
            invariant
                self.wf(),
                evict(self@, incoming as nat, self.max_bytes as nat, self.max_entries as nat)
                    == target,
                self.max_bytes == old(self).max_bytes,
                self.max_entries == old(self).max_entries,
            decreases self.entries.len(),
        {
            let ghost before = self@;
            let old_entry = self.entries.remove(0);
            proof {
                lemma_total_remove(before, 0);
                assert(before.remove(0) =~= before.drop_first());
            }
            self.bytes = self.bytes - old_entry.glyph.bitmap.len();
            assert(self@ =~= before.drop_first());
            proof {
                assert forall|i: int, j: int|
                    0 <= i < self@.len() && 0 <= j < self@.len() && i != j implies self@[i].0
                    != self@[j].0 by {
                    assert(self@[i] == before[i + 1]);
                    assert(self@[j] == before[j + 1]);
                }
            }
        }
        assert(self@ == target);
        proof {
            lemma_evict_is_suffix(without_key(start, key), incoming as nat, self.max_bytes as nat, self.max_entries as nat);
            let w = without_key(start, key);
            let k = choose|k: int| 0 <= k <= w.len() && #[trigger] evict(w, incoming as nat, self.max_bytes as nat, self.max_entries as nat) == w.skip(k);
            lemma_suffix_unique(w, k, key);
            lemma_push_fresh_unique(self@, (key, glyph@));
            lemma_total_push(self@, (key, glyph@));
        }
        self.bytes = self.bytes + incoming;
        let ghost before_push = self@;
        self.entries.push(Entry { key, glyph });
        assert(self@ =~= before_push.push((key, glyph@)));
    }

    pub fn clear(&mut self)
        ensures
            final(self).wf(),
            final(self)@ == Seq::<CacheEntry>::empty(),
            final(self).byte_budget() == old(self).byte_budget(),
            final(self).entry_budget() == old(self).entry_budget(),
    {
        self.entries.clear();
        self.bytes = 0;
        assert(self@ =~= Seq::<CacheEntry>::empty());
    }
}

/// A well-formed cache, as every cache made by `new` and changed by
/// `insert`, `get` and `clear` is, holds each key once; each held entry is
/// what a lookup of its key finds, and every key a lookup finds is held. So
/// `bytes()` is the sum of the bitmap sizes over the distinct cached keys and
/// `len()` their number.
pub proof fn lemma_cached_keys_are_distinct(cache: GlyphCache)
    requires
        cache.wf(),
    ensures
        keys_unique(cache@),
        forall|i: int|
            0 <= i < cache@.len() ==> lookup(cache@, #[trigger] cache@[i].0) == Some(cache@[i].1),
        forall|key: CacheKey|
            #[trigger] lookup(cache@, key) is Some ==> exists|i: int|
                0 <= i < cache@.len() && cache@[i].0 == key,
{
    assert forall|i: int| 0 <= i < cache@.len() implies lookup(cache@, #[trigger] cache@[i].0) == Some(
        cache@[i].1,
    ) by {
        let key = cache@[i].0;
        assert(has_key(cache@, key));
        let j = key_index(cache@, key);
        assert(cache@[j].0 == key);
        assert(j == i);
    }
}

impl Default for GlyphCache {
    fn default() -> (cache: Self)
        ensures
            cache.wf(),
            cache@ == Seq::<CacheEntry>::empty(),
            cache.byte_budget() == DEFAULT_MAX_BYTES,
            cache.entry_budget() == DEFAULT_MAX_ENTRIES,
    {
        GlyphCache::new(DEFAULT_MAX_BYTES, DEFAULT_MAX_ENTRIES)
    }
}

} // verus!
