//! Which pixels are painted, kept and remembered, and which samples are heard.

use vstd::prelude::*;
use crate::audio::samples::{seek_next, stereo_of, SeekStep};
use crate::clip::masked::{masked_pixel, Edge, RowCoverage};
use crate::clip::{mask_of, stack_masks, stack_span, RasterClip};
use crate::damage::damaged;
use crate::kernel::{cell, cell_bounds, column_of, row_of};
use crate::lru::{makes_room, replaced, touched, Entry};
use crate::raster::{
    extended, flushed, in_span, merged, row_bounds, DamageRaster, OpacityLayer, PixelBuffer,
};

verus! {

/// A pixel is let through by a clip on each axis that the clip has.
pub open spec fn lets_in(clip: RasterClip, x: int, y: int) -> bool {
    &&& clip.clip_x ==> clip.rect.x1 <= x < clip.rect.x2
    &&& clip.clip_y ==> clip.rect.y1 <= y < clip.rect.y2
}

/// The pixels of a row that a stack of clips leaves are those that every clip
/// lets through.
pub proof fn every_clip_counts(clips: Seq<RasterClip>, y: int, width: int, x: int)
    ensures
        (stack_span(clips, y, width) matches Some(span) && span.0 <= x < span.1) <==> 0 <= x < width
            && (forall|i: int| 0 <= i < clips.len() ==> lets_in(#[trigger] clips[i], x, y)),
    decreases clips.len(),
{
    if clips.len() > 0 {
        let before = clips.drop_last();
        every_clip_counts(before, y, width, x);
        assert(forall|i: int| 0 <= i < before.len() ==> before[i] == clips[i]);
        if forall|i: int| 0 <= i < clips.len() ==> lets_in(#[trigger] clips[i], x, y) {
            assert(lets_in(clips[clips.len() - 1], x, y));
            assert forall|i: int| 0 <= i < before.len() implies lets_in(#[trigger] before[i], x, y) by {
                assert(lets_in(clips[i], x, y));
            }
        }
        if stack_span(clips, y, width) matches Some(span) && span.0 <= x < span.1 {
            assert(lets_in(clips.last(), x, y));
            assert forall|i: int| 0 <= i < clips.len() implies lets_in(#[trigger] clips[i], x, y) by {
                if i < before.len() {
                    assert(lets_in(before[i], x, y));
                }
            }
        }
    }
}

/// A clip with a round corner on both axes is also a shape; its corners are told
/// in their order, clockwise from the upper left. Shapes keep the order of clips.
pub proof fn round_clips_are_shapes(clips: Seq<RasterClip>, clip: RasterClip, i: int)
    requires
        0 <= i < 4,
    ensures
        clip.clip_x && clip.clip_y && clip.radii@[i] != (0usize, 0usize) ==> stack_masks(
            clips.push(clip),
        ) == stack_masks(clips).push(mask_of(clip)),
        !clip.clip_x || !clip.clip_y || (forall|k: int|
            0 <= k < 4 ==> #[trigger] clip.radii@[k] == (0usize, 0usize)) ==> stack_masks(
            clips.push(clip),
        ) == stack_masks(clips),
        mask_of(clip).rect == clip.rect.placed(),
        clip.radii[i].0 <= u32::MAX ==> mask_of(clip).radii[i].x == clip.radii[i].0,
        clip.radii[i].1 <= u32::MAX ==> mask_of(clip).radii[i].y == clip.radii[i].1,
{
    assert(clips.push(clip).drop_last() =~= clips);
}

/// Within a shape the new pixel shows, outside the old one does, and at the two
/// ends of a row both are mixed.
pub proof fn shapes_show_what_is_inside<M: Fn(u32, u32, Edge) -> u32>(
    coverage: RowCoverage,
    x: int,
    below: u32,
    above: u32,
    mix: &M,
    pixel: u32,
)
    requires
        masked_pixel(coverage, x, below, above, mix, pixel),
        coverage.last > coverage.first + 1,
    ensures
        x < coverage.first || x >= coverage.last ==> pixel == below,
        coverage.full_start <= x < coverage.full_end && coverage.first <= x < coverage.last ==> pixel
            == above,
        coverage.first <= x < coverage.full_start && x < coverage.last ==> call_ensures(
            *mix,
            (below, above, Edge::First),
            pixel,
        ),
        coverage.full_start <= x && coverage.full_end <= x && coverage.first <= x < coverage.last
            ==> call_ensures(*mix, (below, above, Edge::Last), pixel),
{
}

/// Rows lie one after the other, and a column takes one pixel of each.
pub proof fn rows_lie_one_after_the_other(
    plane: Seq<u32>,
    width: int,
    height: int,
    y: int,
    x: int,
)
    requires
        plane.len() == height * width,
        0 <= y < height,
        0 <= x < width,
    ensures
        cell(width, y, 0) == y * width,
        row_of(plane, width, y).len() == width,
        row_of(plane, width, y)[x] == plane[y * width + x],
        column_of(plane, width, height, x).len() == height,
        column_of(plane, width, height, x)[y] == plane[y * width + x],
{
    cell_bounds(width, height, y, x);
    row_bounds(width, height, y);
}

/// What was painted into a row shows where it is damaged.
pub proof fn damaged_pixels_are_replaced(raster: DamageRaster, target: PixelBuffer, x: int, y: usize)
    requires
        raster.fits(target),
        raster.active_row == Some(y),
        0 <= x < target.width,
        damaged(raster.damage@, x, y as int),
    ensures
        flushed(raster, target)[y * target.width + x] == raster.scratch@[x],
{
    let width = target.width as int;
    cell_bounds(width, target.height as int, y as int, x);
    row_bounds(width, target.height as int, y as int);
    let row = merged(
        row_of(target.pixels@, width, y as int),
        raster.scratch@,
        raster.damage@,
        y as int,
    );
    assert(row[x] == raster.scratch@[x]);
}

/// A translucent layer clears a row the first time that it is used, and keeps the
/// rows that were used before. The used rows are those from the first to the last.
pub proof fn fresh_rows_are_clear(layer: OpacityLayer, row: usize, y: int, x: int)
    requires
        0 <= x < layer.width,
    ensures
        in_span(Some(extended(layer.dirty, row)), row as int),
        in_span(layer.dirty, y) ==> in_span(Some(extended(layer.dirty, row)), y) && layer.opened(
            row,
            y,
        ) == layer.line(y),
        layer.dirty is None ==> (in_span(Some(extended(layer.dirty, row)), y) <==> y == row),
        layer.dirty is None ==> layer.opened(row, row as int)[x] == 0,
        !in_span(layer.dirty, row as int) ==> layer.opened(row, row as int)[x] == 0,
        !in_span(Some(extended(layer.dirty, row)), y) ==> layer.opened(row, y) == layer.line(y),
        layer.dirty matches Some(span) ==> span.0 <= span.1 ==> (in_span(
            Some(extended(layer.dirty, row)),
            y,
        ) <==> (span.0 <= y <= span.1 || row <= y <= span.1 || span.0 <= y <= row)),
{
}

/// One channel is heard on both sides, and two as they are.
pub proof fn channels_are_heard_on_their_side<T, F: Fn(&[T]) -> (T, T)>(
    input: Seq<T>,
    mix: &F,
    mono: Seq<T>,
    stereo: Seq<T>,
    i: int,
)
    requires
        stereo_of(input, 1, mix, mono),
        stereo_of(input, 2, mix, stereo),
        0 <= i < input.len(),
    ensures
        mono.len() == 2 * input.len(),
        mono[2 * i] == input[i],
        mono[2 * i + 1] == input[i],
        stereo == input,
{
}

/// On the way to a position frames are dropped, at most so many at once and never
/// past it; more is decoded as long as there is more and little is waiting.
pub proof fn seeking_never_passes_its_target(left: int, waiting: int, ended: bool)
    requires
        0 <= left,
        0 <= waiting <= usize::MAX,
    ensures
        seek_next(left, waiting, ended) is Reached <==> left == 0,
        seek_next(left, waiting, ended) matches SeekStep::Drop { frames } ==> 0 < frames <= left
            && frames <= 128 && 2 * frames <= waiting,
        left > 0 && !ended && waiting < 256 ==> seek_next(left, waiting, ended) is Decode,
        left > 0 && ended && waiting < 2 ==> seek_next(left, waiting, ended) is BeyondEnd,
        left > 0 && (ended || waiting >= 256) && waiting >= 2 ==> seek_next(left, waiting, ended)
            is Drop,
        left >= 128 && waiting >= 256 ==> seek_next(left, waiting, ended) == (SeekStep::Drop {
            frames: 128,
        }),
{
}

/// A read gives what is stored and only marks it as used; storing anew changes the
/// one value and keeps the others where they are.
pub proof fn reads_and_writes_touch_one_entry<I, V>(
    before: Seq<Entry<I, V>>,
    id: I,
    tick: int,
    value: V,
    after: Seq<Entry<I, V>>,
    k: int,
)
    requires
        0 <= k < before.len(),
        before[k].id != id,
    ensures
        touched(before, id, tick, value, after) ==> after.len() == before.len() && after[k]
            == before[k] && exists|at: int|
            0 <= at < before.len() && (#[trigger] before[at]).id == id && before[at].value == value
                && after[at].used == tick && after[at].value == value && after[at].id == id,
        replaced(before, id, tick, value, after) ==> after.len() == before.len() && after[k]
            == before[k] && exists|at: int|
            0 <= at < before.len() && (#[trigger] before[at]).id == id && after[at].used == tick
                && after[at].value == value && after[at].id == id,
{
    if touched(before, id, tick, value, after) {
        let at = choose|at: int|
            {
                &&& #[trigger] crate::lru::stored_at(before, id, at)
                &&& value == before[at].value
                &&& after == before.update(at, Entry { id, used: tick, value })
            };
        assert(before[at].id == id);
    }
    if replaced(before, id, tick, value, after) {
        let at = choose|at: int|
            {
                &&& #[trigger] crate::lru::stored_at(before, id, at)
                &&& after == before.update(at, Entry { id, used: tick, value })
            };
        assert(before[at].id == id);
    }
}

/// Nothing leaves as long as there is room, or what comes is already there.
pub proof fn nothing_leaves_without_need<I, V>(
    entries: Seq<Entry<I, V>>,
    id: I,
    capacity: int,
    left: Seq<Entry<I, V>>,
    at: int,
)
    requires
        makes_room(entries, id, capacity, left),
    ensures
        entries.len() < capacity ==> left == entries,
        0 <= at < entries.len() && entries[at].id == id ==> left == entries,
        entries.len() >= capacity && entries.len() > 0 && (forall|k: int|
            0 <= k < entries.len() ==> (#[trigger] entries[k]).id != id) ==> left.len()
            == entries.len() - 1,
{
    if 0 <= at < entries.len() && entries[at].id == id {
        assert(crate::lru::stored_at(entries, id, at));
    }
}

} // verus!
