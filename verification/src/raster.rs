//! Pixel targets of the paint walk.

use vstd::prelude::*;
use crate::damage::damaged;
use crate::kernel::{cell, cell_bounds, row_of, row_order};
use crate::rect::PhysicalRect;

verus! {

/// A plane of pixels, row after row.
pub struct PixelBuffer {
    pub pixels: Vec<u32>,
    pub width: usize,
    pub height: usize,
}

/// A plane with one row replaced.
pub open spec fn with_row(plane: Seq<u32>, width: int, y: int, row: Seq<u32>) -> Seq<u32> {
    plane.subrange(0, y * width) + row + plane.subrange(y * width + width, plane.len() as int)
}

/// So many transparent pixels.
pub fn zeros(count: usize) -> (result: Vec<u32>)
    ensures
        result@ == Seq::new(count as nat, |i: int| 0u32),
{
    let mut out: Vec<u32> = Vec::new();
    let mut i: usize = 0;
    while i < count
        invariant
            i <= count,
            out@ == Seq::new(i as nat, |k: int| 0u32),
        decreases count - i,
    {
        out.push(0);
        assert(out@ =~= Seq::new((i + 1) as nat, |k: int| 0u32));
        i = i + 1;
    }
    out
}

impl PixelBuffer {
    /// The plane has a pixel for each place.
    pub open spec fn wf(self) -> bool {
        self.pixels@.len() == self.height * self.width
    }

    /// The row at a position.
    pub fn row(&self, row: usize) -> (result: &[u32])
        requires
            self.wf(),
            row < self.height,
        ensures
            result@ == row_of(self.pixels@, self.width as int, row as int),
    {
        proof {
            row_bounds(self.width as int, self.height as int, row as int);
        }
        assert(self.pixels.len() == self.pixels@.len());
        let start: usize = row * self.width;
        vstd::slice::slice_subrange(self.pixels.as_slice(), start, start + self.width)
    }
}

/// A row of a plane lies in it.
pub proof fn row_bounds(width: int, height: int, y: int)
    requires
        0 <= y < height,
        0 <= width,
    ensures
        0 <= y * width,
        y * width + width <= height * width,
        (y + 1) * width == y * width + width,
{
    assert(0 <= y * width && (y + 1) * width == y * width + width && (y + 1) * width <= height
        * width) by (nonlinear_arith)
        requires
            0 <= y < height,
            0 <= width,
    ;
}

/// Every rectangle that has rows lies within the width.
pub open spec fn spans_fit(damage: Seq<PhysicalRect>, width: int) -> bool {
    forall|k: int|
        0 <= k < damage.len() && (#[trigger] damage[k]).y1 < damage[k].y2 ==> damage[k].x1
            <= damage[k].x2 <= width
}

/// One row of `below` with the damaged pixels of `above` on it.
pub open spec fn merged(
    below: Seq<u32>,
    above: Seq<u32>,
    damage: Seq<PhysicalRect>,
    y: int,
) -> Seq<u32> {
    Seq::new(
        below.len(),
        |x: int|
            if damaged(damage, x, y) {
                above[x]
            } else {
                below[x]
            },
    )
}

fn merge_row(
    plane: &mut Vec<u32>,
    width: usize,
    Ghost(height): Ghost<int>,
    row: usize,
    above: &[u32],
    damage: &Vec<PhysicalRect>,
)
    requires
        old(plane)@.len() == height * width,
        row < height,
        above@.len() == width,
        spans_fit(damage@, width as int),
    ensures
        final(plane)@ == with_row(
            old(plane)@,
            width as int,
            row as int,
            merged(row_of(old(plane)@, width as int, row as int), above@, damage@, row as int),
        ),
{
    proof {
        row_bounds(width as int, height, row as int);
    }
    let ghost before = plane@;
    let ghost start = row * width;
    let total: usize = plane.len();
    let mut k: usize = 0;
    while k < damage.len()
        invariant
            k <= damage@.len(),
            total == before.len(),
            plane@.len() == before.len(),
            above@.len() == width,
            start == row * width,
            0 <= start,
            start + width <= before.len(),
            spans_fit(damage@, width as int),
            forall|i: int|
                0 <= i < before.len() ==> #[trigger] plane@[i] == (if start <= i < start + width
                    && damaged(damage@.take(k as int), i - start, row as int) {
                    above@[i - start]
                } else {
                    before[i]
                }),
        decreases damage@.len() - k,
    {
        let rect = damage[k];
        let ghost earlier = damage@.take(k as int);
        let ghost later = damage@.take(k + 1);
        proof {
            assert forall|x: int| damaged(later, x, row as int) <==> (damaged(
                earlier,
                x,
                row as int,
            ) || rect.holds(x, row as int)) by {
                if damaged(earlier, x, row as int) {
                    let j = choose|j: int|
                        0 <= j < earlier.len() && (#[trigger] earlier[j]).holds(x, row as int);
                    assert(later[j].holds(x, row as int));
                }
                if rect.holds(x, row as int) {
                    assert(later[k as int].holds(x, row as int));
                }
                if damaged(later, x, row as int) {
                    let j = choose|j: int|
                        0 <= j < later.len() && (#[trigger] later[j]).holds(x, row as int);
                    if j < k {
                        assert(earlier[j].holds(x, row as int));
                    }
                }
            }
        }
        if row >= rect.y1 && row < rect.y2 {
            let mut x: usize = rect.x1;
            let ghost partial = plane@;
            while x < rect.x2
                invariant
                    rect.x1 <= x <= rect.x2 <= width,
                    total == before.len(),
                    plane@.len() == before.len(),
                    partial.len() == before.len(),
                    above@.len() == width,
                    start == row * width,
                    0 <= start,
                    start + width <= before.len(),
                    forall|i: int|
                        0 <= i < before.len() ==> #[trigger] plane@[i] == (if start + rect.x1 <= i
                            < start + x {
                            above@[i - start]
                        } else {
                            partial[i]
                        }),
                decreases rect.x2 - x,
            {
                plane.set(row * width + x, above[x]);
                x = x + 1;
            }
        }
        k = k + 1;
    }
    assert(damage@.take(k as int) =~= damage@);
    assert(plane@ =~= with_row(
        before,
        width as int,
        row as int,
        merged(row_of(before, width as int, row as int), above@, damage@, row as int),
    ));
}

/// Lets paint through to a target only where it is damaged. A painted row lies
/// aside until another row is opened or it is flushed.
pub struct DamageRaster {
    pub damage: Vec<PhysicalRect>,
    pub active_row: Option<usize>,
    pub scratch: Vec<u32>,
}

/// The target after the open row is let through.
pub open spec fn flushed(raster: DamageRaster, target: PixelBuffer) -> Seq<u32> {
    match raster.active_row {
        None => target.pixels@,
        Some(y) => with_row(
            target.pixels@,
            target.width as int,
            y as int,
            merged(
                row_of(target.pixels@, target.width as int, y as int),
                raster.scratch@,
                raster.damage@,
                y as int,
            ),
        ),
    }
}

impl DamageRaster {
    /// The open row is one of the target's, and all damage lies in its width.
    pub open spec fn fits(self, target: PixelBuffer) -> bool {
        &&& target.wf()
        &&& spans_fit(self.damage@, target.width as int)
        &&& self.scratch@.len() == target.width
        &&& self.active_row matches Some(y) ==> y < target.height
    }

    /// A mask over a target; no row is open.
    pub fn new(target: &PixelBuffer, damage: Vec<PhysicalRect>) -> (result: Self)
        requires
            target.wf(),
            spans_fit(damage@, target.width as int),
        ensures
            result.fits(*target),
            result.active_row is None,
            result.damage@ == damage@,
    {
        DamageRaster { damage, active_row: None, scratch: zeros(target.width) }
    }

    /// Lets the open row through.
    pub fn flush(&mut self, target: &mut PixelBuffer)
        requires
            old(self).fits(*old(target)),
        ensures
            final(target).pixels@ == flushed(*old(self), *old(target)),
            final(target).width == old(target).width,
            final(target).height == old(target).height,
            final(self).damage == old(self).damage,
            final(self).active_row is None,
            final(self).fits(*final(target)),
    {
        if let Some(row) = self.active_row {
            self.active_row = None;
            let width: usize = target.width;
            let ghost height = target.height as int;
            proof {
                row_bounds(width as int, height, row as int);
            }
            merge_row(
                &mut target.pixels,
                width,
                Ghost(height),
                row,
                self.scratch.as_slice(),
                &self.damage,
            );
        }
    }

    /// Opens a row for painting: the row as it was painted, if it is open, else
    /// the target's row.
    pub fn row_mut(&mut self, target: &mut PixelBuffer, row: usize) -> (result: &mut Vec<u32>)
        requires
            old(self).fits(*old(target)),
            row < old(target).height,
        ensures
            final(target).width == old(target).width,
            final(target).height == old(target).height,
            final(target).pixels@ == (if old(self).active_row == Some(row) {
                old(target).pixels@
            } else {
                flushed(*old(self), *old(target))
            }),
            result@ == (if old(self).active_row == Some(row) {
                old(self).scratch@
            } else {
                row_of(flushed(*old(self), *old(target)), old(target).width as int, row as int)
            }),
            *final(self) == (DamageRaster {
                damage: old(self).damage,
                active_row: Some(row),
                scratch: *final(result),
            }),
            final(target).wf(),
    {
        let open = match self.active_row {
            Some(active) => active == row,
            None => false,
        };
        if !open {
            self.flush(target);
            proof {
                row_bounds(target.width as int, target.height as int, row as int);
            }
            let fresh = vstd::slice::slice_to_vec(target.row(row));
            self.scratch = fresh;
            self.active_row = Some(row);
        }
        &mut self.scratch
    }

    /// The row as a reader sees it.
    pub fn row<'a>(&'a self, target: &'a PixelBuffer, row: usize) -> (result: &'a [u32])
        requires
            self.fits(*target),
            row < target.height,
        ensures
            result@ == (if self.active_row == Some(row) {
                self.scratch@
            } else {
                row_of(target.pixels@, target.width as int, row as int)
            }),
    {
        let open = match self.active_row {
            Some(active) => active == row,
            None => false,
        };
        if open {
            self.scratch.as_slice()
        } else {
            target.row(row)
        }
    }
}

/// Whatever is painted, no pixel outside the damage changes.
pub proof fn undamaged_pixels_stay(raster: DamageRaster, target: PixelBuffer, x: int, y: int)
    requires
        raster.fits(target),
        0 <= x < target.width,
        0 <= y < target.height,
        !damaged(raster.damage@, x, y),
    ensures
        flushed(raster, target)[cell(target.width as int, y, x)] == target.pixels@[cell(
            target.width as int,
            y,
            x,
        )],
{
    let width = target.width as int;
    cell_bounds(width, target.height as int, y, x);
    if let Some(row) = raster.active_row {
        row_bounds(width, target.height as int, row as int);
        if y < row {
            row_order(width, row as int, y);
        } else if row < y {
            row_order(width, y, row as int);
        }
    }
}

/// Copies the damaged pixels of a painted buffer to the retained ones.
pub fn update_retained_pixels(
    retained: &mut Vec<u32>,
    buffer: &PixelBuffer,
    damage: &Vec<PhysicalRect>,
)
    requires
        buffer.wf(),
        old(retained)@.len() == buffer.pixels@.len(),
        spans_fit(damage@, buffer.width as int),
    ensures
        final(retained)@.len() == old(retained)@.len(),
        forall|x: int, y: int|
            0 <= x < buffer.width && 0 <= y < buffer.height ==> final(retained)@[#[trigger] cell(
                buffer.width as int,
                y,
                x,
            )] == (if damaged(damage@, x, y) {
                buffer.pixels@[cell(buffer.width as int, y, x)]
            } else {
                old(retained)@[cell(buffer.width as int, y, x)]
            }),
{
    let ghost before = retained@;
    let ghost width = buffer.width as int;
    let ghost height = buffer.height as int;
    let mut row: usize = 0;
    while row < buffer.height
        invariant
            buffer.wf(),
            width == buffer.width,
            height == buffer.height,
            before.len() == height * width,
            retained@.len() == before.len(),
            spans_fit(damage@, width),
            row <= buffer.height,
            forall|x: int, y: int|
                0 <= x < width && 0 <= y < height ==> retained@[#[trigger] cell(width, y, x)] == (
                if y < row && damaged(damage@, x, y) {
                    buffer.pixels@[cell(width, y, x)]
                } else {
                    before[cell(width, y, x)]
                }),
        decreases buffer.height - row,
    {
        let ghost partial = retained@;
        proof {
            row_bounds(width, height, row as int);
        }
        let source = buffer.row(row);
        merge_row(retained, buffer.width, Ghost(height), row, source, damage);
        proof {
            assert forall|x: int, y: int| 0 <= x < width && 0 <= y < height implies retained@[#[trigger] cell(
                width,
                y,
                x,
            )] == (if y < row + 1 && damaged(damage@, x, y) {
                buffer.pixels@[cell(width, y, x)]
            } else {
                before[cell(width, y, x)]
            }) by {
                cell_bounds(width, height, y, x);
                if y < row {
                    row_order(width, row as int, y);
                    assert(retained@[cell(width, y, x)] == partial[cell(width, y, x)]);
                } else if row < y {
                    row_order(width, y, row as int);
                    assert(retained@[cell(width, y, x)] == partial[cell(width, y, x)]);
                } else {
                    assert(source@[x] == buffer.pixels@[cell(width, y, x)]);
                    assert(partial[cell(width, y, x)] == before[cell(width, y, x)]);
                }
            }
        }
        row = row + 1;
    }
}

/// Replacing a row leaves all other rows as they were.
pub proof fn replaced_row(plane: Seq<u32>, width: int, height: int, row: int, line: Seq<u32>)
    requires
        0 <= row < height,
        0 <= width,
        plane.len() == height * width,
        line.len() == width,
    ensures
        with_row(plane, width, row, line).len() == plane.len(),
        forall|y: int|
            0 <= y < height ==> #[trigger] row_of(with_row(plane, width, row, line), width, y) == (
            if y == row {
                line
            } else {
                row_of(plane, width, y)
            }),
{
    row_bounds(width, height, row);
    let after = with_row(plane, width, row, line);
    assert forall|y: int| 0 <= y < height implies #[trigger] row_of(after, width, y) == (if y == row {
        line
    } else {
        row_of(plane, width, y)
    }) by {
        row_bounds(width, height, y);
        if y < row {
            row_order(width, row, y);
            assert(row_of(after, width, y) =~= row_of(plane, width, y));
        } else if row < y {
            row_order(width, y, row);
            assert(row_of(after, width, y) =~= row_of(plane, width, y));
        } else {
            assert(row_of(after, width, y) =~= line);
        }
    }
}

/// A layer for one opacity group. Rows are cleared when they are first written,
/// so that only the written span has to be composited.
pub struct OpacityLayer {
    pub pixels: Vec<u32>,
    pub width: usize,
    pub height: usize,
    /// First and last written row since the last reset; every row between is
    /// cleared or written.
    pub dirty: Option<(usize, usize)>,
}

/// The written span after one more row.
pub open spec fn extended(dirty: Option<(usize, usize)>, row: usize) -> (usize, usize) {
    match dirty {
        None => (row, row),
        Some((first, last)) => (
            if row < first {
                row
            } else {
                first
            },
            if row > last {
                row
            } else {
                last
            },
        ),
    }
}

/// A row is in the span.
pub open spec fn in_span(dirty: Option<(usize, usize)>, y: int) -> bool {
    dirty matches Some(span) && span.0 <= y <= span.1
}

impl OpacityLayer {
    /// The layer has a pixel for each place, and the written span lies in it.
    pub open spec fn wf(self) -> bool {
        &&& self.pixels@.len() == self.height * self.width
        &&& self.dirty matches Some(span) ==> span.0 <= span.1 < self.height
    }

    /// One row.
    pub open spec fn line(self, y: int) -> Seq<u32> {
        row_of(self.pixels@, self.width as int, y)
    }

    /// A row once `row` is opened: it is cleared when the span first reaches it.
    pub open spec fn opened(self, row: usize, y: int) -> Seq<u32> {
        if in_span(Some(extended(self.dirty, row)), y) && !in_span(self.dirty, y) {
            Seq::new(self.width as nat, |x: int| 0u32)
        } else {
            self.line(y)
        }
    }

    /// A clear layer.
    pub fn new(width: usize, height: usize) -> (result: Self)
        requires
            height * width <= usize::MAX,
        ensures
            result.wf(),
            result.width == width,
            result.height == height,
            result.dirty is None,
            forall|i: int| 0 <= i < result.pixels@.len() ==> result.pixels@[i] == 0,
    {
        OpacityLayer { pixels: zeros(height * width), width, height, dirty: None }
    }

    /// Forgets what was written.
    pub fn reset(&mut self)
        ensures
            *final(self) == (OpacityLayer { dirty: None, ..*old(self) }),
    {
        self.dirty = None;
    }

    fn zero(&mut self, first: usize, last: usize)
        requires
            old(self).wf(),
            first <= last < old(self).height,
        ensures
            final(self).wf(),
            final(self).width == old(self).width,
            final(self).height == old(self).height,
            final(self).dirty == old(self).dirty,
            forall|y: int|
                0 <= y < old(self).height ==> #[trigger] row_of(
                    final(self).pixels@,
                    old(self).width as int,
                    y,
                ) == (if first <= y <= last {
                    Seq::new(old(self).width as nat, |x: int| 0u32)
                } else {
                    old(self).line(y)
                }),
    {
        let width: usize = self.width;
        let ghost before = *self;
        let ghost w = width as int;
        assert(self.pixels.len() == self.pixels@.len());
        proof {
            row_bounds(w, self.height as int, first as int);
            row_bounds(w, self.height as int, last as int);
        }
        let start: usize = first * width;
        let end: usize = last * width + width;
        let mut i: usize = start;
        assert(start <= end) by {
            if first < last {
                row_order(w, last as int, first as int);
            }
        }
        while i < end
            invariant
                start <= i <= end <= before.pixels@.len(),
                self.pixels@.len() == before.pixels@.len(),
                self.width == before.width,
                self.height == before.height,
                self.dirty == before.dirty,
                forall|k: int|
                    0 <= k < before.pixels@.len() ==> #[trigger] self.pixels@[k] == (if start <= k
                        < i {
                        0
                    } else {
                        before.pixels@[k]
                    }),
            decreases end - i,
        {
            self.pixels.set(i, 0);
            i = i + 1;
        }
        proof {
            assert forall|y: int| 0 <= y < before.height implies #[trigger] row_of(
                self.pixels@,
                w,
                y,
            ) == (if first <= y <= last {
                Seq::new(before.width as nat, |x: int| 0u32)
            } else {
                before.line(y)
            }) by {
                row_bounds(w, before.height as int, y);
                if y < first {
                    row_order(w, first as int, y);
                } else if first < y {
                    row_order(w, y, first as int);
                }
                if y < last {
                    row_order(w, last as int, y);
                } else if last < y {
                    row_order(w, y, last as int);
                }
                if first <= y <= last {
                    assert(self.line(y) =~= Seq::new(before.width as nat, |x: int| 0u32));
                } else {
                    assert(self.line(y) =~= before.line(y));
                }
            }
        }
    }

    /// The row at a position.
    pub fn row(&self, row: usize) -> (result: &[u32])
        requires
            self.wf(),
            row < self.height,
        ensures
            result@ == self.line(row as int),
    {
        proof {
            row_bounds(self.width as int, self.height as int, row as int);
        }
        assert(self.pixels.len() == self.pixels@.len());
        let start: usize = row * self.width;
        vstd::slice::slice_subrange(self.pixels.as_slice(), start, start + self.width)
    }

    fn open(&mut self, row: usize)
        requires
            old(self).wf(),
            row < old(self).height,
        ensures
            final(self).wf(),
            final(self).width == old(self).width,
            final(self).height == old(self).height,
            final(self).dirty == Some(extended(old(self).dirty, row)),
            forall|y: int|
                0 <= y < old(self).height ==> #[trigger] row_of(
                    final(self).pixels@,
                    old(self).width as int,
                    y,
                ) == old(self).opened(row, y),
    {
        match self.dirty {
            None => {
                self.zero(row, row);
                self.dirty = Some((row, row));
            },
            Some((first, last)) => {
                if row < first {
                    self.zero(row, first - 1);
                    self.dirty = Some((row, last));
                } else if row > last {
                    self.zero(last + 1, row);
                    self.dirty = Some((first, row));
                }
            },
        }
    }

    /// Opens a row for writing. The rows that the span newly reaches are cleared;
    /// all others keep their pixels.
    pub fn row_mut(&mut self, row: usize) -> (result: &mut [u32])
        requires
            old(self).wf(),
            row < old(self).height,
        ensures
            final(self).width == old(self).width,
            final(self).height == old(self).height,
            final(self).dirty == Some(extended(old(self).dirty, row)),
            result@ == old(self).opened(row, row as int),
            final(result)@.len() == old(self).width ==> {
                &&& final(self).wf()
                &&& final(self).line(row as int) == final(result)@
                &&& forall|y: int|
                    0 <= y < old(self).height && y != row ==> #[trigger] final(self).line(y)
                        == old(self).opened(row, y)
            },
    {
        self.open(row);
        let width: usize = self.width;
        assert(self.pixels.len() == self.pixels@.len());
        let ghost plane = self.pixels@;
        proof {
            row_bounds(width as int, self.height as int, row as int);
        }
        let start: usize = row * width;
        let (head, tail) = self.pixels.as_mut_slice().split_at_mut(start);
        let (line, rest) = tail.split_at_mut(width);
        proof {
            assert(line@ =~= row_of(plane, width as int, row as int));
            let w = width as int;
            let height = old(self).height as int;
            let before = head@;
            let after = rest@;
            assert forall|new: Seq<u32>|
                #![trigger before + (new + after)]
                new.len() == width implies (before + (new + after)).len() == plane.len() && forall|
                y: int,
            |
                0 <= y < height ==> #[trigger] row_of(before + (new + after), w, y) == (if y == row {
                    new
                } else {
                    row_of(plane, w, y)
                }) by {
                replaced_row(plane, w, height, row as int, new);
                assert(before + (new + after) =~= with_row(plane, w, row as int, new));
            }
        }
        line
    }
}

} // verus!
