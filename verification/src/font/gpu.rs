//! Persistent A8 glyph atlas and glyph quad geometry.

use vstd::prelude::*;
use crate::font::raster::CachedGlyph;
use crate::font::FaceKind;
use crate::gpu_list::Glyph;
use crate::kernel::cell;
use crate::rect::{high, low, PhysicalRect, Rect, Size};

verus! {

/// Width of the atlas in texels.
pub const ATLAS_WIDTH: usize = 2048;

/// Number of packed bitmaps at which the next frame starts over.
pub const MAX_ATLAS_GLYPHS: usize = 4096;

/// Stable raster identity inside one renderer's atlas.
#[derive(Clone, Copy, Debug, PartialEq, Eq, Structural)]
pub enum AtlasKey {
    Ui { face: FaceKind, glyph: u32, size_bits: u32, italic: bool },
    Terminal { bold: bool, glyph: u32 },
}

/// Where one bitmap is packed.
#[derive(Clone, Copy, Debug, PartialEq, Eq, Structural)]
pub struct Placement {
    pub key: AtlasKey,
    pub x: usize,
    pub y: usize,
    pub width: usize,
    pub height: usize,
}

impl Placement {
    /// The texel `(x, y)` belongs to the bitmap.
    pub open spec fn holds(self, x: int, y: int) -> bool {
        self.x <= x < self.x + self.width && self.y <= y < self.y + self.height
    }

    /// The source rectangle that display commands carry.
    pub open spec fn rect(self) -> Rect {
        Rect {
            x: self.x as i32,
            y: self.y as i32,
            width: self.width as u32,
            height: self.height as u32,
        }
    }

    fn source(self) -> (result: Rect)
        ensures
            result == self.rect(),
    {
        Rect {
            x: #[verifier::truncate] (self.x as i32),
            y: #[verifier::truncate] (self.y as i32),
            width: #[verifier::truncate] (self.width as u32),
            height: #[verifier::truncate] (self.height as u32),
        }
    }
}

/// One renderer's tightly packed A8 glyph coverage texture.
pub struct GlyphAtlas {
    bytes: Vec<u8>,
    x: usize,
    y: usize,
    row_height: usize,
    placements: Vec<Placement>,
    dirty: bool,
}

/// What a [`GlyphAtlas`] holds.
pub struct AtlasView {
    /// Coverage, row by row.
    pub bytes: Seq<u8>,
    /// Where the next bitmap starts in the current row.
    pub x: int,
    /// Top of the current row.
    pub y: int,
    /// Height of the tallest bitmap in the current row.
    pub row_height: int,
    /// Packed bitmaps in packing order.
    pub placements: Seq<Placement>,
    /// The texture has changed since it was last uploaded.
    pub dirty: bool,
}

impl View for GlyphAtlas {
    type V = AtlasView;

    closed spec fn view(&self) -> AtlasView {
        AtlasView {
            bytes: self.bytes@,
            x: self.x as int,
            y: self.y as int,
            row_height: self.row_height as int,
            placements: self.placements@,
            dirty: self.dirty,
        }
    }
}

/// `at` is the position of the bitmap packed for `key`.
pub open spec fn packed_at(placements: Seq<Placement>, key: AtlasKey, at: int) -> bool {
    0 <= at < placements.len() && placements[at].key == key
}

/// Some bitmap is packed for `key`.
pub open spec fn packed(placements: Seq<Placement>, key: AtlasKey) -> bool {
    exists|at: int| packed_at(placements, key, at)
}

/// Two bitmaps share no texel.
pub open spec fn apart(a: Placement, b: Placement) -> bool {
    forall|x: int, y: int| !(#[trigger] a.holds(x, y) && b.holds(x, y))
}

impl AtlasView {
    /// The packing is consistent: the texture ends with the current row, every
    /// bitmap lies inside it, above the current row or left of its end, and no
    /// two bitmaps share a texel or a key.
    pub open spec fn wf(self) -> bool {
        &&& 0 <= self.x <= ATLAS_WIDTH
        &&& self.bytes.len() == (self.y + self.row_height) * ATLAS_WIDTH
        &&& 0 <= self.y
        &&& 0 <= self.row_height
        &&& forall|i: int|
            0 <= i < self.placements.len() ==> self.inside(#[trigger] self.placements[i])
        &&& forall|i: int, j: int|
            0 <= i < j < self.placements.len() ==> apart(
                #[trigger] self.placements[i],
                #[trigger] self.placements[j],
            ) && self.placements[i].key != self.placements[j].key
    }

    /// One bitmap lies in the used part of the texture.
    pub open spec fn inside(self, p: Placement) -> bool {
        &&& p.width > 0
        &&& p.height > 0
        &&& p.x + p.width <= ATLAS_WIDTH
        &&& p.y + p.height <= self.y + self.row_height
        &&& p.y + p.height <= self.y || p.x + p.width <= self.x
    }

    /// Where a bitmap of this width goes: right of the last one, or at the
    /// start of a new row when the current one is too short.
    pub open spec fn slot(self, width: int) -> (int, int, int) {
        if self.x + width > ATLAS_WIDTH {
            (0, self.y + self.row_height, 0)
        } else {
            (self.x, self.y, self.row_height)
        }
    }

    /// A bitmap of these dimensions and this many bytes can be packed.
    pub open spec fn accepts(self, width: int, height: int, length: int) -> bool {
        &&& 0 < width <= ATLAS_WIDTH
        &&& height > 0
        &&& length == height * width
        &&& (self.slot(width).1 + height) * ATLAS_WIDTH <= usize::MAX
    }
}

/// The data of `p` stands at its place in `bytes`.
pub open spec fn shows(bytes: Seq<u8>, p: Placement, data: Seq<u8>) -> bool {
    forall|row: int, col: int|
        0 <= row < p.height && 0 <= col < p.width ==> bytes[cell(
            ATLAS_WIDTH as int,
            p.y + row,
            p.x + col,
        )] == data[#[trigger] cell(p.width as int, row, col)]
}

/// What inserting a bitmap does to the atlas, and the source rectangle that it
/// returns.
pub open spec fn inserted(
    before: AtlasView,
    after: AtlasView,
    key: AtlasKey,
    width: usize,
    height: usize,
    data: Seq<u8>,
    result: Option<Rect>,
) -> bool {
    let (x, y, row_height) = before.slot(width as int);
    let p = Placement { key, x: x as usize, y: y as usize, width, height };
    &&& after.wf()
    &&& packed(before.placements, key) ==> after == before && exists|at: int|
        #[trigger] packed_at(before.placements, key, at) && result == Some(
            before.placements[at].rect(),
        )
    &&& !packed(before.placements, key) ==> (result is Some <==> before.accepts(
        width as int,
        height as int,
        data.len() as int,
    ))
    &&& !packed(before.placements, key) && result is None ==> {
        &&& after.placements == before.placements
        &&& after.bytes == before.bytes
        &&& after.dirty == before.dirty
        &&& if 0 < width <= ATLAS_WIDTH && height > 0 && data.len() == height * width {
            after.x == x && after.y == y && after.row_height == row_height
        } else {
            after == before
        }
    }
    &&& !packed(before.placements, key) && result is Some ==> {
        &&& result == Some(p.rect())
        &&& after.placements == before.placements.push(p)
        &&& after.x == x + width
        &&& after.y == y
        &&& after.row_height == high(row_height, height as int)
        &&& after.dirty
        &&& shows(after.bytes, p, data)
        &&& forall|row: int, col: int|
            0 <= row && 0 <= col < ATLAS_WIDTH && #[trigger] cell(ATLAS_WIDTH as int, row, col)
                < before.bytes.len() && !p.holds(col, row) ==> after.bytes[cell(
                ATLAS_WIDTH as int,
                row,
                col,
            )] == before.bytes[cell(ATLAS_WIDTH as int, row, col)]
    }
}

proof fn data_cell(width: int, height: int, row: int, col: int)
    requires
        0 <= row < height,
        0 <= col < width,
    ensures
        0 <= cell(width, row, col) < height * width,
        row * width + width <= height * width,
{
    assert(0 <= row * width && row * width + width <= height * width) by (nonlinear_arith)
        requires
            0 <= row < height,
            0 <= width,
    ;
}

impl GlyphAtlas {
    /// An empty atlas.
    pub fn new() -> (result: Self)
        ensures
            result@.wf(),
            result@.placements == Seq::<Placement>::empty(),
            result@.bytes == Seq::<u8>::empty(),
            result@.x == 0,
            result@.y == 0,
            result@.row_height == 0,
            !result@.dirty,
    {
        GlyphAtlas {
            bytes: Vec::new(),
            x: 0,
            y: 0,
            row_height: 0,
            placements: Vec::new(),
            dirty: false,
        }
    }

    /// Starts one paint pass. An atlas that has grown to its bound is emptied,
    /// so that texture and memory stay bounded over an unbounded session.
    pub fn begin_frame(&mut self)
        requires
            old(self)@.wf(),
        ensures
            final(self)@.wf(),
            old(self)@.placements.len() < MAX_ATLAS_GLYPHS ==> final(self)@ == old(self)@,
            old(self)@.placements.len() >= MAX_ATLAS_GLYPHS ==> {
                &&& final(self)@.placements == Seq::<Placement>::empty()
                &&& final(self)@.bytes == Seq::<u8>::empty()
                &&& final(self)@.x == 0
                &&& final(self)@.y == 0
                &&& final(self)@.row_height == 0
                &&& final(self)@.dirty
            },
    {
        if self.placements.len() < MAX_ATLAS_GLYPHS {
            return ;
        }
        self.bytes.clear();
        self.x = 0;
        self.y = 0;
        self.row_height = 0;
        self.placements.clear();
        self.dirty = true;
    }

    fn find(&self, key: AtlasKey) -> (result: Option<usize>)
        ensures
            match result {
                Some(at) => packed_at(self@.placements, key, at as int),
                None => !packed(self@.placements, key),
            },
    {
        let mut i: usize = 0;
        while i < self.placements.len()
            invariant
                i <= self.placements@.len(),
                forall|k: int| 0 <= k < i ==> (#[trigger] self.placements@[k]).key != key,
            decreases self.placements@.len() - i,
        {
            if self.placements[i].key == key {
                return Some(i);
            }
            i = i + 1;
        }
        None
    }

    /// Reuses or packs one stable bitmap and returns its source rectangle.
    ///
    /// A key that is packed already keeps its first bitmap. A bitmap that is
    /// empty, wider than the atlas or not `width * height` bytes long is
    /// refused and changes nothing; one that the texture cannot grow for is
    /// refused too.
    pub fn insert(&mut self, key: AtlasKey, width: usize, height: usize, data: &[u8]) -> (result:
        Option<Rect>)
        requires
            old(self)@.wf(),
        ensures
            inserted(old(self)@, final(self)@, key, width, height, data@, result),
    {
        if let Some(at) = self.find(key) {
            return Some(self.placements[at].source());
        }
        assert(height * width == width * height) by (nonlinear_arith);
        if width == 0 || height == 0 || width > ATLAS_WIDTH {
            return None;
        }
        let length: usize = data.len();
        match height.checked_mul(width) {
            Some(area) => {
                if length != area {
                    return None;
                }
            },
            None => {
                return None;
            },
        }
        let ghost before = self@;
        let ghost (slot_x, slot_y, slot_h) = before.slot(width as int);
        if self.x + width > ATLAS_WIDTH {
            assert(self.bytes.len() == self.bytes@.len());
            self.y = self.y + self.row_height;
            self.x = 0;
            self.row_height = 0;
        }
        assert(self@.wf()) by {
            assert forall|i: int| 0 <= i < self@.placements.len() implies self@.inside(
                #[trigger] self@.placements[i],
            ) by {
                assert(before.inside(before.placements[i]));
            }
            assert forall|i: int, j: int| 0 <= i < j < self@.placements.len() implies apart(
                #[trigger] self@.placements[i],
                #[trigger] self@.placements[j],
            ) && self@.placements[i].key != self@.placements[j].key by {
                assert(apart(before.placements[i], before.placements[j]));
            }
        }
        let bottom: usize = match self.y.checked_add(height) {
            Some(bottom) => bottom,
            None => return None,
        };
        let required: usize = match bottom.checked_mul(ATLAS_WIDTH) {
            Some(required) => required,
            None => return None,
        };
        let ghost start = self.bytes@;
        if required > self.bytes.len() {
            self.bytes.resize(required, 0);
            assert forall|i: int| 0 <= i < start.len() implies self.bytes@[i] == start[i] by {
                assert(self.bytes@.subrange(0, start.len() as int)[i] == start[i]);
            }
        }
        let p = Placement { key, x: self.x, y: self.y, width, height };
        copy_rows(&mut self.bytes, p, data);
        let source = p.source();
        self.x = self.x + width;
        if height > self.row_height {
            self.row_height = height;
        }
        self.placements.push(p);
        self.dirty = true;
        proof {
            assert forall|i: int| 0 <= i < self@.placements.len() implies self@.inside(
                #[trigger] self@.placements[i],
            ) by {
                if i < before.placements.len() {
                    assert(before.inside(before.placements[i]));
                }
            }
            assert forall|i: int, j: int| 0 <= i < j < self@.placements.len() implies apart(
                #[trigger] self@.placements[i],
                #[trigger] self@.placements[j],
            ) && self@.placements[i].key != self@.placements[j].key by {
                if j < before.placements.len() {
                    assert(apart(before.placements[i], before.placements[j]));
                } else {
                    assert(before.inside(before.placements[i]));
                    if before.placements[i].key == key {
                        assert(packed_at(before.placements, key, i));
                    }
                }
            }
        }
        Some(source)
    }

    /// Whether the texture has changed since [`mark_clean`](Self::mark_clean).
    pub fn dirty(&self) -> (result: bool)
        ensures
            result == self@.dirty,
    {
        self.dirty
    }

    /// Records that the texture was uploaded.
    pub fn mark_clean(&mut self)
        ensures
            final(self)@ == (AtlasView { dirty: false, ..old(self)@ }),
    {
        self.dirty = false;
    }

    /// The texture to upload, unless it is empty.
    pub fn upload(&self) -> (result: Option<(Size, Vec<u8>)>)
        requires
            self@.wf(),
        ensures
            result is Some <==> self@.y + self@.row_height != 0,
            result matches Some((size, bytes)) ==> {
                &&& size.width == ATLAS_WIDTH
                &&& size.height == (self@.y + self@.row_height) as u32
                &&& bytes@ == self@.bytes
                &&& bytes@.len() == (self@.y + self@.row_height) * size.width
            },
    {
        assert(self.bytes.len() == self.bytes@.len());
        let height: usize = self.y + self.row_height;
        if height != 0 {
            Some(
                (
                    Size { width: 2048, height: #[verifier::truncate] (height as u32) },
                    vstd::slice::slice_to_vec(self.bytes.as_slice()),
                ),
            )
        } else {
            None
        }
    }
}

fn copy_rows(bytes: &mut Vec<u8>, p: Placement, data: &[u8])
    requires
        data@.len() == p.height * p.width,
        p.x + p.width <= ATLAS_WIDTH,
        (p.y + p.height) * ATLAS_WIDTH <= old(bytes)@.len(),
    ensures
        final(bytes)@.len() == old(bytes)@.len(),
        shows(final(bytes)@, p, data@),
        forall|row: int, col: int|
            0 <= row && 0 <= col < ATLAS_WIDTH && #[trigger] cell(ATLAS_WIDTH as int, row, col) < old(
                bytes,
            )@.len() && !p.holds(col, row) ==> final(bytes)@[cell(ATLAS_WIDTH as int, row, col)]
                == old(bytes)@[cell(ATLAS_WIDTH as int, row, col)],
{
    let mut row: usize = 0;
    while row < p.height
        invariant
            row <= p.height,
            data@.len() == p.height * p.width,
            data@.len() == data.len(),
            p.x + p.width <= ATLAS_WIDTH,
            (p.y + p.height) * ATLAS_WIDTH <= bytes.len(),
            bytes@.len() == old(bytes)@.len(),
            forall|r: int, c: int|
                0 <= r < row && 0 <= c < p.width ==> bytes@[cell(
                    ATLAS_WIDTH as int,
                    p.y + r,
                    p.x + c,
                )] == data@[#[trigger] cell(p.width as int, r, c)],
            forall|r: int, c: int|
                0 <= r && 0 <= c < ATLAS_WIDTH && #[trigger] cell(ATLAS_WIDTH as int, r, c) < old(
                    bytes,
                )@.len() && !p.holds(c, r) ==> bytes@[cell(ATLAS_WIDTH as int, r, c)] == old(
                    bytes,
                )@[cell(ATLAS_WIDTH as int, r, c)],
        decreases p.height - row,
    {
        let mut col: usize = 0;
        while col < p.width
            invariant
                row < p.height,
                col <= p.width,
                data@.len() == p.height * p.width,
                data@.len() == data.len(),
                p.x + p.width <= ATLAS_WIDTH,
                (p.y + p.height) * ATLAS_WIDTH <= bytes.len(),
                bytes@.len() == old(bytes)@.len(),
                forall|r: int, c: int|
                    (0 <= r < row && 0 <= c < p.width) || (r == row && 0 <= c < col) ==> bytes@[cell(
                        ATLAS_WIDTH as int,
                        p.y + r,
                        p.x + c,
                    )] == data@[#[trigger] cell(p.width as int, r, c)],
                forall|r: int, c: int|
                    0 <= r && 0 <= c < ATLAS_WIDTH && #[trigger] cell(ATLAS_WIDTH as int, r, c) < old(
                        bytes,
                    )@.len() && !p.holds(c, r) ==> bytes@[cell(ATLAS_WIDTH as int, r, c)] == old(
                        bytes,
                    )@[cell(ATLAS_WIDTH as int, r, c)],
            decreases p.width - col,
        {
            proof {
                data_cell(p.width as int, p.height as int, row as int, col as int);
            }
            let at: usize = (p.y + row) * ATLAS_WIDTH + p.x + col;
            assert(at == cell(ATLAS_WIDTH as int, p.y + row, p.x + col));
            let value: u8 = data[row * p.width + col];
            bytes.set(at, value);
            col = col + 1;
        }
        row = row + 1;
    }
}

/// Packing keeps earlier bitmaps intact: what a consistent atlas showed of an
/// already packed bitmap it still shows after another one was added.
pub proof fn earlier_bitmaps_stay(
    before: AtlasView,
    after: AtlasView,
    at: int,
    data: Seq<u8>,
)
    requires
        before.wf(),
        after.wf(),
        after.placements.len() == before.placements.len() + 1,
        after.placements.drop_last() == before.placements,
        0 <= at < before.placements.len(),
        shows(before.bytes, before.placements[at], data),
        forall|row: int, col: int|
            0 <= row && 0 <= col < ATLAS_WIDTH && #[trigger] cell(ATLAS_WIDTH as int, row, col)
                < before.bytes.len() && !after.placements.last().holds(col, row)
                ==> after.bytes[cell(ATLAS_WIDTH as int, row, col)] == before.bytes[cell(
                ATLAS_WIDTH as int,
                row,
                col,
            )],
    ensures
        shows(after.bytes, before.placements[at], data),
{
    let p = before.placements[at];
    let new = after.placements.last();
    assert(after.placements[at] == after.placements.drop_last()[at]);
    assert(after.placements[at] == p);
    assert(before.inside(p));
    assert(apart(p, new));
    assert forall|row: int, col: int| 0 <= row < p.height && 0 <= col < p.width implies after.bytes[cell(
        ATLAS_WIDTH as int,
        p.y + row,
        p.x + col,
    )] == data[#[trigger] cell(p.width as int, row, col)] by {
        assert(p.holds(p.x + col, p.y + row));
        assert(!new.holds(p.x + col, p.y + row));
        assert(cell(ATLAS_WIDTH as int, p.y + row, p.x + col) < before.bytes.len());
    }
}

/// Division by five that rounds toward zero.
pub open spec fn fifth(value: int) -> int {
    if value >= 0 {
        value / 5
    } else {
        -((-value) / 5)
    }
}

/// Shear of one bitmap row of an oblique glyph.
pub open spec fn shear(top: int, row: int) -> int {
    fifth(top - row)
}

fn divide_by_five(value: i32) -> (result: i32)
    requires
        value > i32::MIN,
    ensures
        result == fifth(value as int),
{
    if value >= 0 {
        value / 5
    } else {
        -((-value) / 5)
    }
}

/// Smallest and largest shear of a glyph; both are zero for one without rows.
pub open spec fn shear_range(top: int, height: int) -> (int, int) {
    if height == 0 {
        (0, 0)
    } else {
        (shear(top, height - 1), shear(top, 0))
    }
}

/// Every row's shear lies between the smallest and the largest one.
pub proof fn shear_stays_in_range(top: int, height: int, row: int)
    requires
        0 <= row < height,
    ensures
        shear_range(top, height).0 <= shear(top, row) <= shear_range(top, height).1,
{
}

/// The rows of the glyph can be numbered and sheared in 32 bits.
pub open spec fn shearable(top: int, width: int, height: int) -> bool {
    &&& height <= i32::MAX
    &&& top - height > i32::MIN
    &&& width + height <= u32::MAX
    &&& (width + height) * height <= usize::MAX
}

/// Width and horizontal offset of a glyph bitmap, sheared when italic.
pub fn oblique_geometry(glyph: &CachedGlyph, italic: bool) -> (result: (usize, i32))
    requires
        italic ==> shearable(glyph.top as int, glyph.width as int, glyph.height as int),
    ensures
        !italic ==> result == (glyph.width as usize, 0i32),
        italic ==> {
            let range = shear_range(glyph.top as int, glyph.height as int);
            &&& result.0 == glyph.width + (range.1 - range.0)
            &&& result.1 == range.0
        },
{
    if !italic {
        return (glyph.width as usize, 0);
    }
    if glyph.height == 0 {
        return (glyph.width as usize, 0);
    }
    let minimum: i32 = divide_by_five(glyph.top - (glyph.height - 1) as i32);
    let maximum: i32 = divide_by_five(glyph.top);
    (glyph.width as usize + (maximum - minimum) as usize, minimum)
}

/// `output` is the bitmap with every row moved right by its shear and zero
/// elsewhere.
pub open spec fn sheared(glyph: CachedGlyph, output: Seq<u8>) -> bool {
    let range = shear_range(glyph.top as int, glyph.height as int);
    let width = glyph.width + (range.1 - range.0);
    &&& output.len() == glyph.height * width
    &&& forall|row: int, col: int|
        0 <= row < glyph.height && 0 <= col < width ==> output[#[trigger] cell(width, row, col)]
            == ({
            let from = col - (shear(glyph.top as int, row) - range.0);
            if 0 <= from < glyph.width {
                glyph.data@[cell(glyph.width as int, row, from)]
            } else {
                0
            }
        })
}

/// Shears a glyph bitmap.
pub fn oblique_bitmap(glyph: &CachedGlyph) -> (result: Vec<u8>)
    requires
        shearable(glyph.top as int, glyph.width as int, glyph.height as int),
        glyph.data@.len() >= glyph.height * glyph.width,
    ensures
        sheared(*glyph, result@),
{
    let (width, minimum) = oblique_geometry(glyph, true);
    let height: usize = glyph.height as usize;
    let mut output: Vec<u8> = Vec::new();
    let ghost range = shear_range(glyph.top as int, glyph.height as int);
    assert(range.1 - range.0 <= glyph.height);
    assert(0 * width == 0) by (nonlinear_arith);
    let mut row: usize = 0;
    while row < height
        invariant
            shearable(glyph.top as int, glyph.width as int, glyph.height as int),
            glyph.data@.len() >= glyph.height * glyph.width,
            glyph.data@.len() == glyph.data.len(),
            range == shear_range(glyph.top as int, glyph.height as int),
            height == glyph.height,
            width == glyph.width + (range.1 - range.0),
            minimum == range.0,
            row <= height,
            output@.len() == row * width,
            forall|r: int, c: int|
                0 <= r < row && 0 <= c < width ==> output@[#[trigger] cell(width as int, r, c)] == ({
                    let from = c - (shear(glyph.top as int, r) - range.0);
                    if 0 <= from < glyph.width {
                        glyph.data@[cell(glyph.width as int, r, from)]
                    } else {
                        0
                    }
                }),
        decreases height - row,
    {
        proof {
            shear_stays_in_range(glyph.top as int, glyph.height as int, row as int);
        }
        let offset: usize = (divide_by_five(glyph.top - row as i32) - minimum) as usize;
        let mut col: usize = 0;
        while col < width
            invariant
                glyph.data@.len() >= glyph.height * glyph.width,
                glyph.data@.len() == glyph.data.len(),
                row < height,
                height == glyph.height,
                col <= width,
                offset == shear(glyph.top as int, row as int) - range.0,
                output@.len() == row * width + col,
                forall|r: int, c: int|
                    (0 <= r < row && 0 <= c < width) || (r == row && 0 <= c < col)
                        ==> output@[#[trigger] cell(width as int, r, c)] == ({
                        let from = c - (shear(glyph.top as int, r) - range.0);
                        if 0 <= from < glyph.width {
                            glyph.data@[cell(glyph.width as int, r, from)]
                        } else {
                            0
                        }
                    }),
            decreases width - col,
        {
            let ghost before = output@;
            if col >= offset && col - offset < glyph.width as usize {
                let from: usize = col - offset;
                proof {
                    data_cell(glyph.width as int, glyph.height as int, row as int, from as int);
                    assert(row * glyph.width + glyph.width <= glyph.data.len());
                }
                output.push(glyph.data[row * glyph.width as usize + from]);
            } else {
                output.push(0);
            }
            assert forall|r: int, c: int|
                (0 <= r < row && 0 <= c < width) || (r == row && 0 <= c < col) implies output@[#[trigger] cell(
                width as int,
                r,
                c,
            )] == before[cell(width as int, r, c)] by {
                if r < row {
                    data_cell(width as int, row as int, r, c);
                } else {
                    assert(0 <= r * width) by (nonlinear_arith)
                        requires
                            0 <= r,
                            0 <= width,
                    ;
                }
            }
            col = col + 1;
        }
        assert((row + 1) * width == row * width + width) by (nonlinear_arith);
        row = row + 1;
    }
    output
}

/// The rectangle a destination covers, cut at the largest coordinate.
pub open spec fn far_edge(origin: int, extent: int) -> int {
    low(origin + extent, i32::MAX as int)
}

/// Corners of the visible part of a destination.
pub open spec fn visible_part(destination: Rect, clip: PhysicalRect) -> (int, int, int, int) {
    (
        high(destination.x as int, clip.x1 as int),
        high(destination.y as int, clip.y1 as int),
        low(far_edge(destination.x as int, destination.width as int), clip.x2 as int),
        low(far_edge(destination.y as int, destination.height as int), clip.y2 as int),
    )
}

fn saturating_far(origin: i32, extent: u32) -> (result: i32)
    ensures
        result == far_edge(origin as int, extent as int),
{
    let sum: i64 = origin as i64 + extent as i64;
    if sum > 0x7fff_ffff {
        0x7fff_ffff
    } else {
        sum as i32
    }
}

fn max_i32(a: i32, b: i32) -> (result: i32)
    ensures
        result == high(a as int, b as int),
{
    if a >= b {
        a
    } else {
        b
    }
}

fn min_i32(a: i32, b: i32) -> (result: i32)
    ensures
        result == low(a as int, b as int),
{
    if a <= b {
        a
    } else {
        b
    }
}

/// Cuts a glyph quad to the clip: the destination keeps its visible part and
/// the source moves along with it. Nothing is left of an invisible quad.
pub fn crop(source: Rect, destination: Rect, clip: PhysicalRect) -> (result: Option<(Rect, Rect)>)
    requires
        clip.x1 <= i32::MAX,
        clip.y1 <= i32::MAX,
        clip.x2 <= i32::MAX,
        clip.y2 <= i32::MAX,
        destination.width <= i32::MAX,
        destination.height <= i32::MAX,
        source.x + destination.width <= i32::MAX,
        source.y + destination.height <= i32::MAX,
    ensures
        ({
            let (x1, y1, x2, y2) = visible_part(destination, clip);
            match result {
                None => x2 <= x1 || y2 <= y1,
                Some((from, to)) => {
                    &&& x1 < x2
                    &&& y1 < y2
                    &&& to.x == x1
                    &&& to.y == y1
                    &&& to.width == x2 - x1
                    &&& to.height == y2 - y1
                    &&& from.x == source.x + (x1 - destination.x)
                    &&& from.y == source.y + (y1 - destination.y)
                    &&& from.width == to.width
                    &&& from.height == to.height
                },
            }
        }),
{
    let x1: i32 = max_i32(destination.x, clip.x1 as i32);
    let y1: i32 = max_i32(destination.y, clip.y1 as i32);
    let x2: i32 = min_i32(saturating_far(destination.x, destination.width), clip.x2 as i32);
    let y2: i32 = min_i32(saturating_far(destination.y, destination.height), clip.y2 as i32);
    if x2 <= x1 || y2 <= y1 {
        return None;
    }
    let dx: i32 = x1 - destination.x;
    let dy: i32 = y1 - destination.y;
    let width: u32 = (x2 - x1) as u32;
    let height: u32 = (y2 - y1) as u32;
    Some(
        (
            Rect { x: source.x + dx, y: source.y + dy, width, height },
            Rect { x: x1, y: y1, width, height },
        ),
    )
}

/// The visible quad of a glyph, if there is one.
pub open spec fn quad(source: Rect, destination: Rect, clip: PhysicalRect) -> Seq<Glyph> {
    let (x1, y1, x2, y2) = visible_part(destination, clip);
    if x2 <= x1 || y2 <= y1 {
        Seq::empty()
    } else {
        seq![
            Glyph {
                source: Rect {
                    x: (source.x + (x1 - destination.x)) as i32,
                    y: (source.y + (y1 - destination.y)) as i32,
                    width: (x2 - x1) as u32,
                    height: (y2 - y1) as u32,
                },
                destination: Rect {
                    x: x1 as i32,
                    y: y1 as i32,
                    width: (x2 - x1) as u32,
                    height: (y2 - y1) as u32,
                },
            },
        ]
    }
}

/// The width of a glyph's bitmap and its offset, as they are drawn.
pub open spec fn drawn_geometry(glyph: CachedGlyph, italic: bool) -> (int, int) {
    let range = shear_range(glyph.top as int, glyph.height as int);
    if italic {
        (glyph.width + (range.1 - range.0), range.0)
    } else {
        (glyph.width as int, 0)
    }
}

/// The bitmap of a glyph, as it is drawn.
pub open spec fn drawn(glyph: CachedGlyph, italic: bool, data: Seq<u8>) -> bool {
    if italic {
        sheared(glyph, data)
    } else {
        data == glyph.data@
    }
}

/// Where a glyph is drawn for a pen on a baseline.
pub open spec fn drawn_at(glyph: CachedGlyph, italic: bool, pen: int, baseline: int) -> Rect {
    let (width, offset) = drawn_geometry(glyph, italic);
    Rect {
        x: (pen + glyph.left + offset) as i32,
        y: (baseline - glyph.top) as i32,
        width: width as u32,
        height: glyph.height,
    }
}

/// All numbers of a drawn glyph fit.
pub open spec fn drawable(
    atlas: AtlasView,
    glyph: CachedGlyph,
    italic: bool,
    pen: int,
    baseline: int,
) -> bool {
    let (width, offset) = drawn_geometry(glyph, italic);
    &&& shearable(glyph.top as int, glyph.width as int, glyph.height as int)
    &&& glyph.data@.len() == glyph.height * glyph.width
    &&& i32::MIN <= pen + glyph.left <= i32::MAX
    &&& i32::MIN <= pen + glyph.left + offset <= i32::MAX
    &&& i32::MIN <= baseline - glyph.top <= i32::MAX
    &&& width <= i32::MAX - ATLAS_WIDTH
    &&& atlas.y + atlas.row_height + glyph.height <= i32::MAX
}

/// Draws one glyph: its bitmap goes to the atlas, and its visible quad to the
/// list. Nothing is drawn of a bitmap that the atlas refuses. Returns where the
/// bitmap is packed.
pub fn gpu_glyph(
    atlas: &mut GlyphAtlas,
    output: &mut Vec<Glyph>,
    clip: PhysicalRect,
    key: AtlasKey,
    glyph: &CachedGlyph,
    pen: i32,
    baseline: i32,
    italic: bool,
) -> (result: Option<Rect>)
    requires
        old(atlas)@.wf(),
        drawable(old(atlas)@, *glyph, italic, pen as int, baseline as int),
        clip.x1 <= i32::MAX,
        clip.y1 <= i32::MAX,
        clip.x2 <= i32::MAX,
        clip.y2 <= i32::MAX,
    ensures
        exists|data: Seq<u8>| #[trigger]
            drawn(*glyph, italic, data) && inserted(
                old(atlas)@,
                final(atlas)@,
                key,
                drawn_geometry(*glyph, italic).0 as usize,
                glyph.height as usize,
                data,
                result,
            ),
        final(output)@ == old(output)@ + (match result {
            Some(source) => quad(
                source,
                drawn_at(*glyph, italic, pen as int, baseline as int),
                clip,
            ),
            None => Seq::empty(),
        }),
{
    let ghost before = atlas@;
    let ghost listed = output@;
    let (width, offset): (usize, i32) = oblique_geometry(glyph, italic);
    let height: usize = glyph.height as usize;
    let result = if italic {
        let bitmap = oblique_bitmap(glyph);
        let result = atlas.insert(key, width, height, bitmap.as_slice());
        assert(drawn(*glyph, italic, bitmap@));
        result
    } else {
        let result = atlas.insert(key, width, height, glyph.data.as_slice());
        assert(drawn(*glyph, italic, glyph.data@));
        result
    };
    let source = match result {
        Some(source) => source,
        None => {
            assert(output@ =~= listed + Seq::<Glyph>::empty());
            return None;
        },
    };
    let destination = Rect {
        x: pen + glyph.left + offset,
        y: baseline - glyph.top,
        width: width as u32,
        height: glyph.height,
    };
    proof {
        if packed(before.placements, key) {
            let at = choose|at: int| #[trigger]
                packed_at(before.placements, key, at) && result == Some(
                    before.placements[at].rect(),
                );
            assert(before.inside(before.placements[at]));
        }
    }
    if let Some((from, to)) = crop(source, destination, clip) {
        output.push(Glyph { source: from, destination: to });
    }
    assert(output@ =~= listed + quad(
        source,
        drawn_at(*glyph, italic, pen as int, baseline as int),
        clip,
    ));
    Some(source)
}

/// One run of glyphs in one color.
pub struct GpuTextRun {
    pub color: u32,
    pub glyphs: Vec<Glyph>,
}

/// The glyphs of a list of runs, one after the other.
pub open spec fn run_glyphs(runs: Seq<GpuTextRun>) -> Seq<Glyph>
    decreases runs.len(),
{
    if runs.len() == 0 {
        Seq::empty()
    } else {
        run_glyphs(runs.drop_last()) + runs.last().glyphs@
    }
}

/// Splits glyphs into runs of at most `limit`: all runs but the last are full,
/// and together they are the glyphs.
pub fn text_runs(glyphs: &Vec<Glyph>, color: u32, limit: usize) -> (result: Vec<GpuTextRun>)
    requires
        limit > 0,
    ensures
        run_glyphs(result@) == glyphs@,
        forall|i: int| 0 <= i < result@.len() ==> (#[trigger] result@[i]).color == color,
        forall|i: int|
            0 <= i < result@.len() ==> 0 < (#[trigger] result@[i]).glyphs@.len() <= limit,
        forall|i: int| 0 <= i < result@.len() - 1 ==> (#[trigger] result@[i]).glyphs@.len() == limit,
{
    let mut runs: Vec<GpuTextRun> = Vec::new();
    let length: usize = glyphs.len();
    let mut start: usize = 0;
    assert(run_glyphs(runs@) =~= glyphs@.take(0));
    while start < length
        invariant
            limit > 0,
            length == glyphs@.len(),
            start <= length,
            run_glyphs(runs@) == glyphs@.take(start as int),
            forall|i: int| 0 <= i < runs@.len() ==> (#[trigger] runs@[i]).color == color,
            forall|i: int|
                0 <= i < runs@.len() ==> 0 < (#[trigger] runs@[i]).glyphs@.len() <= limit,
            start < length ==> forall|i: int|
                0 <= i < runs@.len() ==> (#[trigger] runs@[i]).glyphs@.len() == limit,
            forall|i: int| 0 <= i < runs@.len() - 1 ==> (#[trigger] runs@[i]).glyphs@.len() == limit,
        decreases length - start,
    {
        let count: usize = if length - start > limit {
            limit
        } else {
            length - start
        };
        let part = vstd::slice::slice_to_vec(
            vstd::slice::slice_subrange(glyphs.as_slice(), start, start + count),
        );
        let ghost before = runs@;
        runs.push(GpuTextRun { color, glyphs: part });
        assert(runs@.drop_last() =~= before);
        assert(glyphs@.take(start as int) + part@ =~= glyphs@.take(start + count));
        start = start + count;
    }
    assert(glyphs@.take(start as int) =~= glyphs@);
    runs
}

} // verus!
