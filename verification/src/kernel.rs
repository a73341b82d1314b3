//! Allocation-free separable box blur kernel.

use vstd::prelude::*;

verus! {

/// The channels of a pixel, from the lowest byte up.
pub open spec fn channel(pixel: u32, index: int) -> int {
    if index == 0 {
        pixel as int % 0x100
    } else if index == 1 {
        pixel as int / 0x100 % 0x100
    } else if index == 2 {
        pixel as int / 0x1_0000 % 0x100
    } else {
        pixel as int / 0x100_0000
    }
}

/// A position moved to the nearest end of `0..len`.
pub open spec fn clamped(position: int, len: int) -> int {
    if position < 0 {
        0
    } else if position >= len {
        len - 1
    } else {
        position
    }
}

/// Sum of one channel over positions `from..to` of a line whose end pixels
/// repeat outward.
pub open spec fn span_sum(line: Seq<u32>, from: int, to: int, index: int) -> int
    decreases to - from,
{
    if to <= from {
        0
    } else {
        span_sum(line, from, to - 1, index) + channel(
            line[clamped(to - 1, line.len() as int)],
            index,
        )
    }
}

/// Sum of one channel over the window of `radius` around `center`.
pub open spec fn window_sum(line: Seq<u32>, center: int, radius: int, index: int) -> int {
    span_sum(line, center - radius, center + radius + 1, index)
}

/// The pixel that the averages of the four channel sums make up.
pub open spec fn mean_pixel(b: int, g: int, r: int, a: int, averages: Seq<u8>) -> int {
    averages[b] + averages[g] * 0x100 + averages[r] * 0x1_0000 + averages[a] * 0x100_0000
}

/// The blurred pixel at `center` of a line.
pub open spec fn blurred(line: Seq<u32>, center: int, radius: int, averages: Seq<u8>) -> int {
    mean_pixel(
        window_sum(line, center, radius, 0),
        window_sum(line, center, radius, 1),
        window_sum(line, center, radius, 2),
        window_sum(line, center, radius, 3),
        averages,
    )
}

/// Two channel sums per lane: blue and red, green and alpha.
pub open spec fn packs(sums: [u32; 2], line: Seq<u32>, from: int, to: int) -> bool {
    &&& sums[0] == span_sum(line, from, to, 0) + span_sum(line, from, to, 2) * 0x1_0000
    &&& sums[1] == span_sum(line, from, to, 1) + span_sum(line, from, to, 3) * 0x1_0000
}

/// The averages cover every sum that a window of `radius` can reach, and a
/// window's channel sum fits 16 bits.
pub open spec fn table_covers(averages: Seq<u8>, radius: int) -> bool {
    &&& 0 <= radius <= 128
    &&& averages.len() > (2 * radius + 1) * 255
}

proof fn channel_range(pixel: u32, index: int)
    ensures
        0 <= channel(pixel, index) <= 255,
{
}

proof fn span_bounds(line: Seq<u32>, from: int, to: int, index: int)
    requires
        from <= to,
    ensures
        0 <= span_sum(line, from, to, index) <= (to - from) * 255,
    decreases to - from,
{
    if from < to {
        span_bounds(line, from, to - 1, index);
        channel_range(line[clamped(to - 1, line.len() as int)], index);
    }
}

proof fn span_front(line: Seq<u32>, from: int, to: int, index: int)
    requires
        from < to,
    ensures
        span_sum(line, from, to, index) == channel(line[clamped(from, line.len() as int)], index)
            + span_sum(line, from + 1, to, index),
    decreases to - from,
{
    if from + 1 < to {
        span_front(line, from, to - 1, index);
    } else {
        assert(span_sum(line, from, to - 1, index) == 0);
        assert(span_sum(line, from + 1, to, index) == 0);
    }
}

proof fn lanes(pixel: u32)
    ensures
        pixel & 0x00ff_00ff == channel(pixel, 0) + channel(pixel, 2) * 0x1_0000,
        (pixel >> 8) & 0x00ff_00ff == channel(pixel, 1) + channel(pixel, 3) * 0x1_0000,
{
    assert(pixel & 0x00ff_00ff == pixel % 0x100 + (pixel / 0x1_0000 % 0x100) * 0x1_0000)
        by (bit_vector);
    assert((pixel >> 8) & 0x00ff_00ff == pixel / 0x100 % 0x100 + (pixel / 0x100_0000) * 0x1_0000)
        by (bit_vector);
}

proof fn window_fits(line: Seq<u32>, from: int, to: int)
    requires
        from <= to <= from + 257,
    ensures
        forall|index: int| 0 <= #[trigger] span_sum(line, from, to, index) <= (to - from) * 255 <= 65535,
{
    assert forall|index: int| 0 <= #[trigger] span_sum(line, from, to, index) <= (to - from) * 255
        <= 65535 by {
        span_bounds(line, from, to, index);
    }
}

/// Adds a pixel behind the summed span.
fn add(sums: &mut [u32; 2], pixel: u32, Ghost(line): Ghost<Seq<u32>>, Ghost(from): Ghost<int>, Ghost(to): Ghost<int>)
    requires
        packs(*old(sums), line, from, to),
        from <= to < from + 257,
        line[clamped(to, line.len() as int)] == pixel,
    ensures
        packs(*final(sums), line, from, to + 1),
{
    proof {
        window_fits(line, from, to);
        window_fits(line, from, to + 1);
        lanes(pixel);
        assert(span_sum(line, from, to + 1, 0) >= 0);
        assert(span_sum(line, from, to + 1, 1) >= 0);
        assert(span_sum(line, from, to + 1, 2) >= 0);
        assert(span_sum(line, from, to + 1, 3) >= 0);
    }
    let low: u32 = sums[0] + (pixel & 0x00ff_00ff);
    let high: u32 = sums[1] + ((pixel >> 8) & 0x00ff_00ff);
    sums[0] = low;
    sums[1] = high;
}

/// Takes the first pixel of the summed span off.
fn subtract(sums: &mut [u32; 2], pixel: u32, Ghost(line): Ghost<Seq<u32>>, Ghost(from): Ghost<int>, Ghost(to): Ghost<int>)
    requires
        packs(*old(sums), line, from, to),
        from < to <= from + 257,
        line[clamped(from, line.len() as int)] == pixel,
    ensures
        packs(*final(sums), line, from + 1, to),
{
    proof {
        window_fits(line, from + 1, to);
        lanes(pixel);
        span_front(line, from, to, 0);
        span_front(line, from, to, 1);
        span_front(line, from, to, 2);
        span_front(line, from, to, 3);
        channel_range(pixel, 0);
        channel_range(pixel, 1);
        channel_range(pixel, 2);
        channel_range(pixel, 3);
        assert(span_sum(line, from + 1, to, 0) >= 0);
        assert(span_sum(line, from + 1, to, 1) >= 0);
        assert(span_sum(line, from + 1, to, 2) >= 0);
        assert(span_sum(line, from + 1, to, 3) >= 0);
    }
    let low: u32 = sums[0] - (pixel & 0x00ff_00ff);
    let high: u32 = sums[1] - ((pixel >> 8) & 0x00ff_00ff);
    sums[0] = low;
    sums[1] = high;
}

/// The averaged pixel of packed sums.
fn average(sums: [u32; 2], averages: &[u8], Ghost(line): Ghost<Seq<u32>>, Ghost(center): Ghost<int>, Ghost(radius): Ghost<int>) -> (result: u32)
    requires
        table_covers(averages@, radius),
        packs(sums, line, center - radius, center + radius + 1),
    ensures
        result == blurred(line, center, radius, averages@),
{
    proof {
        window_fits(line, center - radius, center + radius + 1);
        assert(window_sum(line, center, radius, 0) >= 0);
        assert(window_sum(line, center, radius, 1) >= 0);
        assert(window_sum(line, center, radius, 2) >= 0);
        assert(window_sum(line, center, radius, 3) >= 0);
    }
    let rb: u32 = sums[0];
    let ag: u32 = sums[1];
    averages[(rb % 0x1_0000) as usize] as u32 + averages[(ag % 0x1_0000) as usize] as u32 * 0x100
        + averages[(rb / 0x1_0000) as usize] as u32 * 0x1_0000 + averages[(ag / 0x1_0000) as usize] as u32
        * 0x100_0000
}

fn clamp_back(position: usize, radius: usize, last: usize) -> (result: usize)
    ensures
        result == clamped(position - radius, last + 1),
{
    let moved: usize = if position >= radius {
        position - radius
    } else {
        0
    };
    if moved > last {
        last
    } else {
        moved
    }
}

fn clamp_ahead(position: usize, distance: usize, last: usize) -> (result: usize)
    requires
        position <= last,
    ensures
        result == clamped(position + distance, last + 1),
{
    if distance > last - position {
        last
    } else {
        position + distance
    }
}

/// Blurs one line: every target pixel averages the window around the source
/// pixel at its position, with the end pixels repeated outward.
pub fn blur_line(source: &[u32], target: &mut [u32], radius: usize, averages: &[u8])
    requires
        table_covers(averages@, radius as int),
    ensures
        final(target)@.len() == old(target)@.len(),
        source@.len() == 0 ==> final(target)@ == old(target)@,
        source@.len() > 0 ==> forall|i: int|
            0 <= i < final(target)@.len() ==> #[trigger] final(target)@[i] == blurred(
                source@,
                clamped(i, source@.len() as int),
                radius as int,
                averages@,
            ),
{
    if source.len() == 0 {
        return ;
    }
    let last: usize = source.len() - 1;
    let diameter: usize = radius * 2 + 1;
    let mut sums: [u32; 2] = [0, 0];
    let mut offset: usize = 0;
    while offset < diameter
        invariant
            table_covers(averages@, radius as int),
            diameter == radius * 2 + 1,
            offset <= diameter,
            last == source@.len() - 1,
            packs(sums, source@, -(radius as int), offset - radius),
        decreases diameter - offset,
    {
        let pixel: u32 = source[clamp_back(offset, radius, last)];
        self::add(&mut sums, pixel, Ghost(source@), Ghost(-(radius as int)), Ghost(offset - radius));
        offset = offset + 1;
    }
    let mut index: usize = 0;
    while index < target.len()
        invariant
            table_covers(averages@, radius as int),
            last == source@.len() - 1,
            source@.len() == source.len(),
            target@.len() == old(target)@.len(),
            index <= target@.len(),
            packs(
                sums,
                source@,
                clamped(index as int, source@.len() as int) - radius,
                clamped(index as int, source@.len() as int) + radius + 1,
            ),
            forall|i: int|
                0 <= i < index ==> #[trigger] target@[i] == blurred(
                    source@,
                    clamped(i, source@.len() as int),
                    radius as int,
                    averages@,
                ),
        decreases target@.len() - index,
    {
        let ghost center = clamped(index as int, source@.len() as int);
        let pixel: u32 = average(
            sums,
            averages,
            Ghost(source@),
            Ghost(center),
            Ghost(radius as int),
        );
        target[index] = pixel;
        if index < last {
            let old_pixel: u32 = source[clamp_back(index, radius, last)];
            let new_pixel: u32 = source[clamp_ahead(index, radius + 1, last)];
            subtract(
                &mut sums,
                old_pixel,
                Ghost(source@),
                Ghost(center - radius),
                Ghost(center + radius + 1),
            );
            self::add(
                &mut sums,
                new_pixel,
                Ghost(source@),
                Ghost(center - radius + 1),
                Ghost(center + radius + 1),
            );
        }
        index = index + 1;
    }
}

/// Where column `x` of row `y` stands in a row-major plane.
pub open spec fn cell(width: int, y: int, x: int) -> int {
    y * width + x
}

/// One row of a row-major plane.
pub open spec fn row_of(plane: Seq<u32>, width: int, y: int) -> Seq<u32> {
    plane.subrange(y * width, y * width + width)
}

/// One column of a row-major plane.
pub open spec fn column_of(plane: Seq<u32>, width: int, height: int, x: int) -> Seq<u32> {
    Seq::new(height as nat, |y: int| plane[cell(width, y, x)])
}

/// A pixel of a plane lies in it, and so does its row.
pub proof fn cell_bounds(width: int, height: int, y: int, x: int)
    requires
        0 <= y < height,
        0 <= x < width,
    ensures
        0 <= cell(width, y, x) < height * width,
        0 <= y * width,
        y * width + width <= height * width,
        (y + 1) * width == y * width + width,
{
    assert(0 <= y * width && (y + 1) * width == y * width + width && (y + 1) * width <= height
        * width) by (nonlinear_arith)
        requires
            0 <= y < height,
            0 <= width,
    ;
}

/// An earlier row ends before a later one starts.
pub proof fn row_order(width: int, y: int, other: int)
    requires
        0 <= other < y,
        0 <= width,
    ensures
        0 <= other * width,
        other * width + width <= y * width,
{
    assert(0 <= other * width && other * width + width <= y * width) by (nonlinear_arith)
        requires
            0 <= other < y,
            0 <= width,
    ;
}

/// Blurs every row of a plane.
pub fn blur_horizontal(
    source: &[u32],
    target: &mut [u32],
    width: usize,
    height: usize,
    radius: usize,
    averages: &[u8],
)
    requires
        table_covers(averages@, radius as int),
        source@.len() >= width * height,
        old(target)@.len() >= width * height,
    ensures
        final(target)@.len() == old(target)@.len(),
        forall|y: int, x: int|
            0 <= y < height && 0 <= x < width ==> final(target)@[#[trigger] cell(width as int, y, x)]
                == blurred(row_of(source@, width as int, y), x, radius as int, averages@),
        forall|i: int|
            width * height <= i < old(target)@.len() ==> #[trigger] final(target)@[i] == old(
                target,
            )@[i],
{
    if width == 0 {
        return ;
    }
    assert(width * height == height * width) by (nonlinear_arith);
    let mut y: usize = 0;
    while y < height
        invariant
            table_covers(averages@, radius as int),
            width > 0,
            y <= height,
            height * width <= source.len(),
            height * width <= target@.len(),
            source@.len() == source.len(),
            target@.len() == old(target)@.len(),
            forall|v: int, x: int|
                0 <= v < y && 0 <= x < width ==> target@[#[trigger] cell(width as int, v, x)]
                    == blurred(row_of(source@, width as int, v), x, radius as int, averages@),
            forall|i: int|
                y * width <= i < old(target)@.len() ==> #[trigger] target@[i] == old(target)@[i],
        decreases height - y,
    {
        proof {
            cell_bounds(width as int, height as int, y as int, 0);
        }
        let ghost before = target@;
        let start: usize = y * width;
        let line = vstd::slice::slice_subrange(source, start, start + width);
        let (head, tail) = target.split_at_mut(start);
        let (row, rest) = tail.split_at_mut(width);
        blur_line(line, row, radius, averages);
        proof {
            assert(line@ =~= row_of(source@, width as int, y as int));
            assert forall|v: int, x: int| 0 <= v < y + 1 && 0 <= x < width implies target@[#[trigger] cell(
                width as int,
                v,
                x,
            )] == blurred(row_of(source@, width as int, v), x, radius as int, averages@) by {
                if v < y {
                    row_order(width as int, y as int, v);
                    assert(target@[cell(width as int, v, x)] == before[cell(width as int, v, x)]);
                } else {
                    assert(target@[y * width + x] == blurred(
                        line@,
                        clamped(x, width as int),
                        radius as int,
                        averages@,
                    ));
                }
            }
        }
        y = y + 1;
    }
}

/// Blurs every column of a plane. `sums` is scratch for one row of windows; it
/// ends up holding the windows of the last row.
pub fn blur_vertical(
    source: &[u32],
    target: &mut [u32],
    width: usize,
    height: usize,
    radius: usize,
    sums: &mut [[u32; 2]],
    averages: &[u8],
)
    requires
        table_covers(averages@, radius as int),
        source@.len() >= width * height,
        old(target)@.len() >= width * height,
        old(sums)@.len() == width,
    ensures
        final(target)@.len() == old(target)@.len(),
        final(sums)@.len() == width,
        height == 0 ==> final(sums)@ == old(sums)@,
        height > 0 ==> forall|x: int|
            0 <= x < width ==> packs(
                #[trigger] final(sums)@[x],
                column_of(source@, width as int, height as int, x),
                height - 1 - radius,
                height + radius,
            ),
        forall|y: int, x: int|
            0 <= y < height && 0 <= x < width ==> final(target)@[#[trigger] cell(width as int, y, x)]
                == blurred(
                column_of(source@, width as int, height as int, x),
                y,
                radius as int,
                averages@,
            ),
        forall|i: int|
            width * height <= i < old(target)@.len() ==> #[trigger] final(target)@[i] == old(
                target,
            )@[i],
{
    if height == 0 {
        return ;
    }
    assert(width * height == height * width) by (nonlinear_arith);
    let last: usize = height - 1;
    let diameter: usize = radius * 2 + 1;
    let ghost columns = Seq::new(
        width as nat,
        |x: int| column_of(source@, width as int, height as int, x),
    );
    clear_sums(sums);
    let mut offset: usize = 0;
    while offset < diameter
        invariant
            table_covers(averages@, radius as int),
            diameter == radius * 2 + 1,
            offset <= diameter,
            last == height - 1,
            height > 0,
            height * width <= source@.len(),
            sums@.len() == width,
            columns == Seq::new(
                width as nat,
                |x: int| column_of(source@, width as int, height as int, x),
            ),
            forall|x: int|
                0 <= x < width ==> packs(
                    #[trigger] sums@[x],
                    columns[x],
                    -(radius as int),
                    offset - radius,
                ),
        decreases diameter - offset,
    {
        let row: usize = clamp_back(offset, radius, last);
        add_row(
            source,
            sums,
            width,
            height,
            row,
            Ghost(-(radius as int)),
            Ghost(offset - radius),
        );
        offset = offset + 1;
    }
    let mut y: usize = 0;
    while y < height
        invariant
            table_covers(averages@, radius as int),
            y <= height,
            last == height - 1,
            height > 0,
            height * width <= source.len(),
            height * width <= target@.len(),
            source@.len() == source.len(),
            target@.len() == old(target)@.len(),
            sums@.len() == width,
            columns == Seq::new(
                width as nat,
                |x: int| column_of(source@, width as int, height as int, x),
            ),
            forall|x: int|
                0 <= x < width ==> packs(
                    #[trigger] sums@[x],
                    columns[x],
                    clamped(y as int, height as int) - radius,
                    clamped(y as int, height as int) + radius + 1,
                ),
            forall|v: int, x: int|
                0 <= v < y && 0 <= x < width ==> target@[#[trigger] cell(width as int, v, x)]
                    == blurred(columns[x], v, radius as int, averages@),
            forall|i: int|
                y * width <= i < old(target)@.len() ==> #[trigger] target@[i] == old(target)@[i],
        decreases height - y,
    {
        let mut x: usize = 0;
        let ghost before = target@;
        while x < width
            invariant
                table_covers(averages@, radius as int),
                y < height,
                x <= width,
                height * width <= target.len(),
                target@.len() == before.len(),
                sums@.len() == width,
                forall|c: int|
                    0 <= c < width ==> packs(
                        #[trigger] sums@[c],
                        columns[c],
                        y - radius,
                        y + radius + 1,
                    ),
                forall|c: int|
                    0 <= c < x ==> target@[#[trigger] cell(width as int, y as int, c)] == blurred(
                        columns[c],
                        y as int,
                        radius as int,
                        averages@,
                    ),
                forall|i: int|
                    0 <= i < before.len() && !(y * width <= i < y * width + x) ==> #[trigger] target@[i]
                        == before[i],
            decreases width - x,
        {
            proof {
                cell_bounds(width as int, height as int, y as int, x as int);
                assert(packs(sums@[x as int], columns[x as int], y - radius, y + radius + 1));
            }
            let pair: [u32; 2] = sums[x];
            let pixel: u32 = average(
                pair,
                averages,
                Ghost(columns[x as int]),
                Ghost(y as int),
                Ghost(radius as int),
            );
            target[y * width + x] = pixel;
            x = x + 1;
        }
        proof {
            assert((y + 1) * width == y * width + width) by (nonlinear_arith);
            assert forall|v: int, c: int| 0 <= v < y + 1 && 0 <= c < width implies target@[#[trigger] cell(
                width as int,
                v,
                c,
            )] == blurred(columns[c], v, radius as int, averages@) by {
                if v < y {
                    row_order(width as int, y as int, v);
                    cell_bounds(width as int, height as int, v, c);
                    assert(target@[cell(width as int, v, c)] == before[cell(width as int, v, c)]);
                }
            }
        }
        if y < last {
            let remove: usize = clamp_back(y, radius, last);
            let insert: usize = clamp_ahead(y, radius + 1, last);
            subtract_row(
                source,
                sums,
                width,
                height,
                remove,
                Ghost(y - radius),
                Ghost(y + radius + 1),
            );
            add_row(
                source,
                sums,
                width,
                height,
                insert,
                Ghost(y - radius + 1),
                Ghost(y + radius + 1),
            );
        }
        y = y + 1;
    }
    assert forall|x: int| 0 <= x < width implies packs(
        #[trigger] sums@[x],
        column_of(source@, width as int, height as int, x),
        height - 1 - radius,
        height + radius,
    ) by {
        assert(packs(sums@[x], columns[x], height - 1 - radius, height + radius));
    }
    assert forall|v: int, x: int| 0 <= v < height && 0 <= x < width implies target@[#[trigger] cell(
        width as int,
        v,
        x,
    )] == blurred(
        column_of(source@, width as int, height as int, x),
        v,
        radius as int,
        averages@,
    ) by {
        assert(columns[x] == column_of(source@, width as int, height as int, x));
    }
}

fn clear_sums(sums: &mut [[u32; 2]])
    ensures
        final(sums)@.len() == old(sums)@.len(),
        forall|x: int, line: Seq<u32>, at: int|
            0 <= x < final(sums)@.len() ==> #[trigger] packs(final(sums)@[x], line, at, at),
{
    let mut x: usize = 0;
    while x < sums.len()
        invariant
            x <= sums@.len(),
            sums@.len() == old(sums)@.len(),
            forall|c: int| 0 <= c < x ==> (#[trigger] sums@[c])[0] == 0 && sums@[c][1] == 0,
        decreases sums@.len() - x,
    {
        sums[x] = [0, 0];
        x = x + 1;
    }
}

fn add_row(
    source: &[u32],
    sums: &mut [[u32; 2]],
    width: usize,
    height: usize,
    row: usize,
    Ghost(from): Ghost<int>,
    Ghost(to): Ghost<int>,
)
    requires
        old(sums)@.len() == width,
        height > 0,
        height * width <= source@.len(),
        row == clamped(to, height as int),
        from <= to < from + 257,
        forall|x: int|
            0 <= x < width ==> packs(
                #[trigger] old(sums)@[x],
                column_of(source@, width as int, height as int, x),
                from,
                to,
            ),
    ensures
        final(sums)@.len() == width,
        forall|x: int|
            0 <= x < width ==> packs(
                #[trigger] final(sums)@[x],
                column_of(source@, width as int, height as int, x),
                from,
                to + 1,
            ),
{
    let mut x: usize = 0;
    while x < width
        invariant
            x <= width,
            sums@.len() == width,
            height > 0,
            height * width <= source.len(),
            source@.len() == source.len(),
            row == clamped(to, height as int),
            from <= to < from + 257,
            forall|c: int|
                0 <= c < x ==> packs(
                    #[trigger] sums@[c],
                    column_of(source@, width as int, height as int, c),
                    from,
                    to + 1,
                ),
            forall|c: int|
                x <= c < width ==> packs(
                    #[trigger] sums@[c],
                    column_of(source@, width as int, height as int, c),
                    from,
                    to,
                ),
        decreases width - x,
    {
        proof {
            cell_bounds(width as int, height as int, row as int, x as int);
        }
        let pixel: u32 = source[row * width + x];
        let mut pair: [u32; 2] = sums[x];
        let ghost line = column_of(source@, width as int, height as int, x as int);
        assert(packs(sums@[x as int], line, from, to));
        self::add(&mut pair, pixel, Ghost(line), Ghost(from), Ghost(to));
        sums[x] = pair;
        x = x + 1;
    }
}

fn subtract_row(
    source: &[u32],
    sums: &mut [[u32; 2]],
    width: usize,
    height: usize,
    row: usize,
    Ghost(from): Ghost<int>,
    Ghost(to): Ghost<int>,
)
    requires
        old(sums)@.len() == width,
        height > 0,
        height * width <= source@.len(),
        row == clamped(from, height as int),
        from < to <= from + 257,
        forall|x: int|
            0 <= x < width ==> packs(
                #[trigger] old(sums)@[x],
                column_of(source@, width as int, height as int, x),
                from,
                to,
            ),
    ensures
        final(sums)@.len() == width,
        forall|x: int|
            0 <= x < width ==> packs(
                #[trigger] final(sums)@[x],
                column_of(source@, width as int, height as int, x),
                from + 1,
                to,
            ),
{
    let mut x: usize = 0;
    while x < width
        invariant
            x <= width,
            sums@.len() == width,
            height > 0,
            height * width <= source.len(),
            source@.len() == source.len(),
            row == clamped(from, height as int),
            from < to <= from + 257,
            forall|c: int|
                0 <= c < x ==> packs(
                    #[trigger] sums@[c],
                    column_of(source@, width as int, height as int, c),
                    from + 1,
                    to,
                ),
            forall|c: int|
                x <= c < width ==> packs(
                    #[trigger] sums@[c],
                    column_of(source@, width as int, height as int, c),
                    from,
                    to,
                ),
        decreases width - x,
    {
        proof {
            cell_bounds(width as int, height as int, row as int, x as int);
        }
        let pixel: u32 = source[row * width + x];
        let mut pair: [u32; 2] = sums[x];
        let ghost line = column_of(source@, width as int, height as int, x as int);
        assert(packs(sums@[x as int], line, from, to));
        subtract(&mut pair, pixel, Ghost(line), Ghost(from), Ghost(to));
        sums[x] = pair;
        x = x + 1;
    }
}

proof fn flat_span(line: Seq<u32>, pixel: u32, from: int, to: int, index: int)
    requires
        from <= to,
        line.len() > 0,
        forall|i: int| 0 <= i < line.len() ==> #[trigger] line[i] == pixel,
    ensures
        span_sum(line, from, to, index) == (to - from) * channel(pixel, index),
    decreases to - from,
{
    if from < to {
        flat_span(line, pixel, from, to - 1, index);
        assert(line[clamped(to - 1, line.len() as int)] == pixel);
        assert((to - from) * channel(pixel, index) == (to - 1 - from) * channel(pixel, index)
            + channel(pixel, index)) by (nonlinear_arith);
    } else {
        assert((to - from) * channel(pixel, index) == 0) by (nonlinear_arith)
            requires
                to == from,
        ;
    }
}

/// Blurring a line of one color keeps the color, when the table holds for each
/// multiple of the window size the channel it came from.
pub proof fn flat_line_is_unchanged(
    line: Seq<u32>,
    pixel: u32,
    center: int,
    radius: int,
    averages: Seq<u8>,
)
    requires
        table_covers(averages, radius),
        line.len() > 0,
        forall|i: int| 0 <= i < line.len() ==> #[trigger] line[i] == pixel,
        forall|c: int| 0 <= c <= 255 ==> #[trigger] averages[(2 * radius + 1) * c] == c,
    ensures
        blurred(line, center, radius, averages) == pixel,
{
    flat_span(line, pixel, center - radius, center + radius + 1, 0);
    flat_span(line, pixel, center - radius, center + radius + 1, 1);
    flat_span(line, pixel, center - radius, center + radius + 1, 2);
    flat_span(line, pixel, center - radius, center + radius + 1, 3);
    channel_range(pixel, 0);
    channel_range(pixel, 1);
    channel_range(pixel, 2);
    channel_range(pixel, 3);
    assert(averages[(2 * radius + 1) * channel(pixel, 0)] == channel(pixel, 0));
    assert(averages[(2 * radius + 1) * channel(pixel, 1)] == channel(pixel, 1));
    assert(averages[(2 * radius + 1) * channel(pixel, 2)] == channel(pixel, 2));
    assert(averages[(2 * radius + 1) * channel(pixel, 3)] == channel(pixel, 3));
}

} // verus!
