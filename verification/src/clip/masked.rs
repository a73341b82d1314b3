//! Painting through rounded clips.
//!
//! On rows where a rounded corner differs from the clip's rectangle, paint lies
//! aside in one reusable row, and only what the clips cover of it reaches the
//! target. Straight rows are painted directly.

use vstd::prelude::*;
use crate::clip::{ClipStack, RasterClip};
use crate::kernel::{row_of, row_order};
use crate::raster::{row_bounds, zeros, PixelBuffer};

verus! {

/// The pixels of a row that clips cover: all of `full_start..full_end`, and a
/// part of the pixels of `first..last` beside them.
#[derive(Clone, Copy, Debug, PartialEq, Eq, Structural)]
pub struct RowCoverage {
    pub first: usize,
    pub full_start: usize,
    pub full_end: usize,
    pub last: usize,
}

impl RowCoverage {
    /// At most one pixel on either side is covered in part.
    pub open spec fn wf(self, width: int) -> bool {
        &&& self.first <= self.full_start <= self.first + 1
        &&& self.full_end <= self.last <= self.full_end + 1
        &&& self.last <= width
        &&& self.last > self.first + 1 ==> self.full_start <= self.full_end
    }
}

/// The pixels that are covered in part.
#[derive(Clone, Copy, Debug, PartialEq, Eq, Structural)]
pub enum Edge {
    /// The only pixel.
    Only,
    /// The first of several.
    First,
    /// The last of several.
    Last,
}

/// `mix` may be called on all pixels.
pub open spec fn total_mix<M: Fn(u32, u32, Edge) -> u32>(mix: &M) -> bool {
    forall|below: u32, above: u32, edge: Edge| #[trigger]
        call_requires(*mix, (below, above, edge))
}

/// `pixel` is what becomes of a pixel `below` under the paint `above`: it stays
/// where nothing is covered, and `mix` blends the pixels that are covered in part.
pub open spec fn masked_pixel<M: Fn(u32, u32, Edge) -> u32>(
    coverage: RowCoverage,
    x: int,
    below: u32,
    above: u32,
    mix: &M,
    pixel: u32,
) -> bool {
    if x < coverage.first || x >= coverage.last {
        pixel == below
    } else if coverage.last == coverage.first + 1 {
        call_ensures(*mix, (below, above, Edge::Only), pixel)
    } else if x < coverage.full_start {
        call_ensures(*mix, (below, above, Edge::First), pixel)
    } else if x >= coverage.full_end {
        call_ensures(*mix, (below, above, Edge::Last), pixel)
    } else {
        pixel == above
    }
}

/// A row that is being painted, and what clips cover of it.
#[derive(Clone, Copy, Debug, PartialEq, Eq, Structural)]
pub struct ActiveRow {
    pub row: usize,
    pub coverage: Option<RowCoverage>,
}

/// Lets paint through to a target only where the clips cover it.
pub struct ClipRaster {
    pub clips: ClipStack,
    pub active: Option<ActiveRow>,
    pub scratch: Vec<u32>,
}

/// `after` are the target's pixels once the open row is let through.
pub open spec fn lets_through<M: Fn(u32, u32, Edge) -> u32>(
    active: Option<ActiveRow>,
    scratch: Seq<u32>,
    target: PixelBuffer,
    mix: &M,
    after: Seq<u32>,
) -> bool {
    match active {
        Some(ActiveRow { row, coverage: Some(coverage) }) => {
            let start = row * target.width;
            &&& after.len() == target.pixels@.len()
            &&& forall|i: int|
                0 <= i < after.len() ==> if start <= i < start + target.width {
                    masked_pixel(
                        coverage,
                        i - start,
                        target.pixels@[i],
                        scratch[i - start],
                        mix,
                        #[trigger] after[i],
                    )
                } else {
                    after[i] == target.pixels@[i]
                }
        },
        _ => after == target.pixels@,
    }
}

impl ClipRaster {
    /// The open row is one of the target's, and what is covered of it lies in its
    /// width.
    pub open spec fn fits(self, target: PixelBuffer) -> bool {
        &&& target.wf()
        &&& self.scratch@.len() == target.width
        &&& self.active matches Some(active) ==> {
            &&& active.row < target.height
            &&& active.coverage matches Some(coverage) ==> coverage.wf(target.width as int)
        }
    }

    /// No clip applies to a target, and no row is open.
    pub fn new(target: &PixelBuffer) -> (result: Self)
        requires
            target.wf(),
        ensures
            result.fits(*target),
            result.active is None,
            result.clips.clips@ == Seq::<RasterClip>::empty(),
    {
        ClipRaster {
            clips: ClipStack::new(),
            active: None,
            scratch: zeros(target.width),
        }
    }

    /// Lets the open row through.
    pub fn flush<M: Fn(u32, u32, Edge) -> u32>(&mut self, target: &mut PixelBuffer, mix: &M)
        requires
            old(self).fits(*old(target)),
            total_mix(mix),
        ensures
            lets_through(
                old(self).active,
                old(self).scratch@,
                *old(target),
                mix,
                final(target).pixels@,
            ),
            final(target).width == old(target).width,
            final(target).height == old(target).height,
            final(self).clips == old(self).clips,
            final(self).scratch == old(self).scratch,
            final(self).active is None,
            final(self).fits(*final(target)),
    {
        let active = self.active;
        self.active = None;
        let (row, coverage) = match active {
            Some(ActiveRow { row, coverage: Some(coverage) }) => (row, coverage),
            _ => return,
        };
        let ghost before = *target;
        let width: usize = target.width;
        let total: usize = target.pixels.len();
        proof {
            row_bounds(width as int, target.height as int, row as int);
        }
        let start: usize = row * width;
        let mut x: usize = coverage.first;
        while x < coverage.last
            invariant
                coverage.wf(width as int),
                coverage.first <= x,
                x <= coverage.last || coverage.last < coverage.first,
                coverage.last < coverage.first ==> x == coverage.first,
                total == before.pixels@.len(),
                total == target.pixels@.len(),
                start + width <= total,
                width == before.width,
                start == row * width,
                self.scratch@.len() == width,
                total_mix(mix),
                target.width == before.width,
                target.height == before.height,
                forall|i: int|
                    0 <= i < total ==> if start <= i < start + x {
                        masked_pixel(
                            coverage,
                            i - start,
                            before.pixels@[i],
                            self.scratch@[i - start],
                            mix,
                            #[trigger] target.pixels@[i],
                        )
                    } else {
                        target.pixels@[i] == before.pixels@[i]
                    },
            decreases coverage.last - x,
        {
            let below = target.pixels[start + x];
            let above = self.scratch[x];
            let pixel: u32 = if coverage.last == coverage.first + 1 {
                mix(below, above, Edge::Only)
            } else if x < coverage.full_start {
                mix(below, above, Edge::First)
            } else if x >= coverage.full_end {
                mix(below, above, Edge::Last)
            } else {
                above
            };
            target.pixels.set(start + x, pixel);
            x = x + 1;
        }
    }

    /// A row as it is painted so far: the one that lies aside, if it is open, else
    /// the target's.
    pub fn row<'a>(&'a self, target: &'a PixelBuffer, row: usize) -> (result: &'a [u32])
        requires
            self.fits(*target),
            row < target.height,
        ensures
            result@ == (if opened(*self, row) {
                self.scratch@
            } else {
                row_of(target.pixels@, target.width as int, row as int)
            }),
    {
        let open = match self.active {
            Some(active) => active.row == row,
            None => false,
        };
        if open {
            self.scratch.as_slice()
        } else {
            target.row(row)
        }
    }

    /// One more clip applies from here on.
    pub fn push_clip<M: Fn(u32, u32, Edge) -> u32>(
        &mut self,
        target: &mut PixelBuffer,
        clip: RasterClip,
        mix: &M,
    )
        requires
            old(self).fits(*old(target)),
            total_mix(mix),
        ensures
            lets_through(
                old(self).active,
                old(self).scratch@,
                *old(target),
                mix,
                final(target).pixels@,
            ),
            final(target).width == old(target).width,
            final(target).height == old(target).height,
            final(self).clips.clips@ == old(self).clips.clips@.push(clip),
            final(self).active is None,
            final(self).fits(*final(target)),
    {
        self.flush(target, mix);
        self.clips.push_clip(clip);
    }

    /// The innermost clip no longer applies.
    pub fn pop_clip<M: Fn(u32, u32, Edge) -> u32>(&mut self, target: &mut PixelBuffer, mix: &M)
        requires
            old(self).fits(*old(target)),
            old(self).clips.clips@.len() > 0,
            total_mix(mix),
        ensures
            lets_through(
                old(self).active,
                old(self).scratch@,
                *old(target),
                mix,
                final(target).pixels@,
            ),
            final(target).width == old(target).width,
            final(target).height == old(target).height,
            final(self).clips.clips@ == old(self).clips.clips@.drop_last(),
            final(self).active is None,
            final(self).fits(*final(target)),
    {
        self.flush(target, mix);
        self.clips.pop_clip();
    }

    /// Opens a row for painting and tells whether it is painted directly. With
    /// clips, a row goes aside unless it is straight, that is unless rounding
    /// leaves as much of it as the rectangles do.
    pub fn open_row<M: Fn(u32, u32, Edge) -> u32>(
        &mut self,
        target: &mut PixelBuffer,
        row: usize,
        coverage: Option<RowCoverage>,
        straight: bool,
        mix: &M,
    ) -> (result: bool)
        requires
            old(self).fits(*old(target)),
            old(self).clips.clips@.len() == 0 ==> old(self).active is None,
            row < old(target).height,
            coverage matches Some(covered) ==> covered.wf(old(target).width as int),
            total_mix(mix),
        ensures
            result == (straight || old(self).clips.clips@.len() == 0),
            final(self).clips == old(self).clips,
            final(self).fits(*final(target)),
            final(target).width == old(target).width,
            final(target).height == old(target).height,
            result ==> final(self).active is None,
            !result ==> final(self).active is Some && final(self).active->0.row == row,
            !result && opened(*old(self), row) ==> *final(self) == *old(self)
                && final(target).pixels == old(target).pixels,
            result || !opened(*old(self), row) ==> lets_through(
                old(self).active,
                old(self).scratch@,
                *old(target),
                mix,
                final(target).pixels@,
            ),
            !result && !opened(*old(self), row) ==> {
                &&& final(self).active->0.coverage == coverage
                &&& forall|x: int|
                    0 <= x < final(self).scratch@.len() ==> #[trigger] final(self).scratch@[x] == (
                    if covers(coverage, x) {
                        final(target).pixels@[row * final(target).width + x]
                    } else {
                        old(self).scratch@[x]
                    })
            },
    {
        if self.clips.clips.len() == 0 || straight {
            self.flush(target, mix);
            return true;
        }
        let open = match self.active {
            Some(active) => active.row == row,
            None => false,
        };
        if open {
            return false;
        }
        self.flush(target, mix);
        let ghost kept = self.scratch@;
        let ghost clips = self.clips;
        if let Some(covered) = coverage {
            let width: usize = target.width;
            proof {
                row_bounds(width as int, target.height as int, row as int);
            }
            let total: usize = target.pixels.len();
            let start: usize = row * width;
            let mut x: usize = covered.first;
            while x < covered.last
                invariant
                    covered.wf(width as int),
                    covered.first <= x,
                    x <= covered.last || covered.last < covered.first,
                    covered.last < covered.first ==> x == covered.first,
                    total == target.pixels@.len(),
                    start + width <= total,
                    start == row * width,
                    self.clips == clips,
                    self.scratch@.len() == width,
                    kept.len() == width,
                    forall|k: int|
                        0 <= k < width ==> #[trigger] self.scratch@[k] == (if covered.first <= k
                            < x {
                            target.pixels@[start + k]
                        } else {
                            kept[k]
                        }),
                decreases covered.last - x,
            {
                self.scratch.set(x, target.pixels[start + x]);
                x = x + 1;
            }
        }
        self.active = Some(ActiveRow { row, coverage });
        false
    }
}

/// The row is open.
pub open spec fn opened(raster: ClipRaster, row: usize) -> bool {
    raster.active matches Some(active) && active.row == row
}

/// A pixel is covered, if only in part.
pub open spec fn covers(coverage: Option<RowCoverage>, x: int) -> bool {
    coverage matches Some(covered) && covered.first <= x < covered.last
}

/// Paint never reaches a pixel that the clips do not cover: a square child keeps
/// the rounded corners of its parent.
pub proof fn uncovered_pixels_stay<M: Fn(u32, u32, Edge) -> u32>(
    active: ActiveRow,
    scratch: Seq<u32>,
    target: PixelBuffer,
    mix: &M,
    after: Seq<u32>,
    x: int,
    y: int,
)
    requires
        target.wf(),
        lets_through(Some(active), scratch, target, mix, after),
        0 <= x < target.width,
        0 <= y < target.height,
        y != active.row || !covers(active.coverage, x),
    ensures
        after[y * target.width + x] == target.pixels@[y * target.width + x],
{
    let width = target.width as int;
    row_bounds(width, target.height as int, y);
    if active.row < y {
        row_order(width, y, active.row as int);
    } else if y < active.row {
        row_order(width, active.row as int, y);
    }
}

} // verus!
