//! Per-process media worker.
//!
//! Sample values, gains and media positions are floating-point numbers; the
//! worker only carries them, as bit patterns or as values of a type parameter.

pub mod samples;
pub mod source;
pub mod worker;

use vstd::prelude::*;

verus! {

/// Frames of one render quantum.
pub const RENDER_FRAMES: u64 = 128;

/// Frames that the ring shared with the audio service holds.
pub const RING_CAPACITY_FRAMES: u64 = 8192;

/// Quanta that fill an empty ring.
pub const PREFILL_BLOCKS: u64 = 64;

/// Interleaved channels of the output.
pub const CHANNELS: usize = 2;

/// The ring's read index is ahead of its write index.
#[derive(Clone, Copy, Debug, PartialEq, Eq, Structural)]
pub struct RingMovedBackwards;

/// The ring has room for one more quantum.
pub open spec fn room_for_quantum(produced: int, consumed: int) -> bool {
    produced - consumed + RENDER_FRAMES <= RING_CAPACITY_FRAMES
}

/// Whether one more render quantum fits the ring.
pub fn quantum_fits(produced_frames: u64, consumed_frames: u64) -> (result: Result<
    bool,
    RingMovedBackwards,
>)
    ensures
        match result {
            Ok(fits) => consumed_frames <= produced_frames && fits == room_for_quantum(
                produced_frames as int,
                consumed_frames as int,
            ),
            Err(_) => consumed_frames > produced_frames,
        },
{
    if produced_frames < consumed_frames {
        return Err(RingMovedBackwards);
    }
    let used: u64 = produced_frames - consumed_frames;
    let free: u64 = if used < RING_CAPACITY_FRAMES {
        RING_CAPACITY_FRAMES - used
    } else {
        0
    };
    Ok(free >= RENDER_FRAMES)
}

/// A ring that is filled only while a quantum fits never holds more than its
/// capacity.
pub proof fn ring_never_overfills(produced: int, consumed: int)
    requires
        consumed <= produced,
        room_for_quantum(produced, consumed),
    ensures
        produced + RENDER_FRAMES - consumed <= RING_CAPACITY_FRAMES,
{
}

/// Filling an empty ring stops exactly when it is full.
pub proof fn prefill_reaches_the_edge(blocks: int)
    requires
        0 <= blocks,
    ensures
        room_for_quantum(blocks * RENDER_FRAMES, 0) <==> blocks < PREFILL_BLOCKS,
{
}

} // verus!
