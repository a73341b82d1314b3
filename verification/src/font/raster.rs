//! Bounded cache of A8 glyph bitmaps.

use vstd::prelude::*;
use crate::lru::{added, holds_id, touched, CacheKey, Entry, Lru};

verus! {

/// Glyph bitmap cache capacity in entries.
///
/// One desktop frame draws well under 1000 distinct glyphs, so this covers two
/// such frames before any eviction.
pub const GLYPH_CACHE_CAPACITY: usize = 2048;

/// Weight, glyph and size of one cached bitmap. The size is the bits of a
/// physical pixel value.
#[derive(Clone, Copy, Debug, PartialEq, Eq, Structural)]
pub struct GlyphKey {
    pub bold: bool,
    pub glyph: u32,
    pub size_bits: u32,
}

impl CacheKey for GlyphKey {
    type Id = GlyphKey;

    open spec fn id(&self) -> GlyphKey {
        *self
    }

    fn matches(&self, other: &Self) -> (result: bool) {
        *self == *other
    }
}

/// One rasterized A8 bitmap and its placement relative to the pen origin: the
/// top-left pixel lands at `(pen.x + left, baseline - top)`.
pub struct CachedGlyph {
    pub left: i32,
    pub top: i32,
    pub width: u32,
    pub height: u32,
    pub data: Vec<u8>,
}

/// Least-recently-used glyph bitmap store.
pub struct GlyphCache {
    glyphs: Lru<GlyphKey, CachedGlyph>,
}

impl GlyphCache {
    /// The stored bitmaps with the access at which each was last used.
    pub closed spec fn entries(self) -> Seq<Entry<GlyphKey, CachedGlyph>> {
        self.glyphs.entries()
    }

    /// Accesses counted so far.
    pub closed spec fn ticks(self) -> int {
        self.glyphs.ticks()
    }

    /// The store is consistent and within its capacity.
    pub closed spec fn wf(self) -> bool {
        self.glyphs.wf() && self.glyphs.entries().len() <= GLYPH_CACHE_CAPACITY
    }

    /// The store never holds more bitmaps than its capacity.
    pub proof fn within_capacity(self)
        requires
            self.wf(),
        ensures
            self.entries().len() <= GLYPH_CACHE_CAPACITY,
    {
    }

    /// An empty store.
    pub fn new() -> (result: Self)
        ensures
            result.wf(),
            result.entries() == Seq::<Entry<GlyphKey, CachedGlyph>>::empty(),
            result.ticks() == 0,
    {
        GlyphCache { glyphs: Lru::new() }
    }

    /// Number of stored bitmaps.
    pub fn len(&self) -> (result: usize)
        ensures
            result == self.entries().len(),
    {
        self.glyphs.len()
    }

    /// Reads one bitmap and marks it as the most recently used one.
    pub fn get(&mut self, key: GlyphKey) -> (result: Option<&CachedGlyph>)
        requires
            old(self).wf(),
            old(self).ticks() < u64::MAX,
        ensures
            final(self).wf(),
            final(self).ticks() == old(self).ticks() + 1,
            match result {
                None => !holds_id(old(self).entries(), key) && final(self).entries() == old(
                    self,
                ).entries(),
                Some(glyph) => touched(
                    old(self).entries(),
                    key,
                    final(self).ticks(),
                    *glyph,
                    final(self).entries(),
                ),
            },
    {
        self.glyphs.get(&key)
    }

    /// Stores a bitmap; a key that has one keeps it.
    pub fn insert(&mut self, key: GlyphKey, glyph: CachedGlyph)
        requires
            old(self).wf(),
            old(self).ticks() < u64::MAX,
        ensures
            final(self).wf(),
            final(self).ticks() == old(self).ticks() + 1,
            holds_id(old(self).entries(), key) ==> final(self).entries() == old(self).entries(),
            !holds_id(old(self).entries(), key) ==> added(
                old(self).entries(),
                key,
                GLYPH_CACHE_CAPACITY as int,
                final(self).ticks(),
                glyph,
                final(self).entries(),
            ),
    {
        self.glyphs.insert_if_absent(key, glyph, GLYPH_CACHE_CAPACITY);
    }
}

} // verus!
