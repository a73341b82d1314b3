//! ALSA PCM playback with one fixed output format.

use vstd::prelude::*;
use crate::uapi::bytes::{read_u32, u32_at, with_u32, with_u64, write_u32, write_u64, zeros};

verus! {

pub const RATE: u32 = 48_000;

pub const CHANNELS: usize = 2;

pub const PERIOD_FRAMES: usize = 256;

pub const BUFFER_FRAMES: usize = 1024;

/// Bytes of one stereo frame of 32-bit samples.
pub const FRAME_BYTES: usize = 8;

/// Bytes of the mapped ring.
pub const BUFFER_BYTES: usize = 8192;

/// Where the application frame counter wraps.
pub const BOUNDARY: u64 = 0x8000_0000;

pub const HW_PARAMS_BYTES: usize = 608;

pub const SW_PARAMS_BYTES: usize = 136;

pub const STATUS_BYTES: usize = 152;

pub const SYNC_PTR_BYTES: usize = 136;

/// Where the application frame counter stands in the sync request.
pub const SYNC_APPL_OFFSET: usize = 72;

/// Kernel PCM states.
#[derive(Clone, Copy, Debug, PartialEq, Eq, Structural)]
pub enum State {
    Open,
    Setup,
    Prepared,
    Running,
    Xrun,
    Disconnected,
}

/// The state that a kernel number stands for.
pub open spec fn state_of(raw: int) -> Option<State> {
    if raw == 0 {
        Some(State::Open)
    } else if raw == 1 {
        Some(State::Setup)
    } else if raw == 2 {
        Some(State::Prepared)
    } else if raw == 3 {
        Some(State::Running)
    } else if raw == 4 {
        Some(State::Xrun)
    } else if raw == 8 {
        Some(State::Disconnected)
    } else {
        None
    }
}

/// Reads the state out of a status reply; unknown numbers are rejected.
pub fn decode_state(status: &[u8]) -> (result: Option<State>)
    requires
        status@.len() >= 4,
    ensures
        result == state_of(u32_at(status@, 0)),
{
    match read_u32(status, 0) {
        0 => Some(State::Open),
        1 => Some(State::Setup),
        2 => Some(State::Prepared),
        3 => Some(State::Running),
        4 => Some(State::Xrun),
        8 => Some(State::Disconnected),
        _ => None,
    }
}

/// Whether the kernel speaks this PCM protocol: its major version is 2.
pub fn protocol_matches(version: i32) -> (result: bool)
    ensures
        result == (2 * 0x1_0000 <= version < 3 * 0x1_0000),
{
    2 * 0x1_0000 <= version && version < 3 * 0x1_0000
}

/// The queued device delay; a negative one is rejected.
pub fn decode_delay(delay: i64) -> (result: Option<u32>)
    ensures
        match result {
            Some(frames) => frames == delay,
            None => delay < 0 || delay > u32::MAX,
        },
{
    if delay < 0 || delay > 0xffff_ffff {
        None
    } else {
        Some(delay as u32)
    }
}

/// The error number that a failed wait reports: a broken pipe after an underrun
/// and an input/output error otherwise.
pub fn wait_error(state: State) -> (result: i32)
    ensures
        result == (if state == State::Xrun {
            32int
        } else {
            5int
        }),
{
    if state == State::Xrun {
        32
    } else {
        5
    }
}

/// Parameters with one bit set in a mask.
pub open spec fn masked(bytes: Seq<u8>, offset: int, bit: int) -> Seq<u8> {
    with_u32(bytes, offset + bit / 32 * 4, (1u32 << ((bit % 32) as u32)) as int)
}

/// Where an interval parameter stands.
pub open spec fn interval_offset(parameter: int) -> int {
    260 + (parameter - 8) * 12
}

/// Parameters with an interval fixed to one integer value.
pub open spec fn fixed_interval(bytes: Seq<u8>, parameter: int, value: int) -> Seq<u8> {
    with_u32(
        with_u32(
            with_u32(bytes, interval_offset(parameter), value),
            interval_offset(parameter) + 4,
            value,
        ),
        interval_offset(parameter) + 8,
        4,
    )
}

/// Sets one bit of a mask parameter.
pub fn set_mask(bytes: &mut [u8], offset: usize, bit: usize)
    requires
        offset + bit / 32 * 4 + 4 <= old(bytes)@.len(),
    ensures
        final(bytes)@ == masked(old(bytes)@, offset as int, bit as int),
{
    assert(bytes.len() == bytes@.len());
    let word: usize = bit / 32;
    write_u32(bytes, offset + word * 4, 1u32 << ((bit % 32) as u32));
}

/// Fixes an interval parameter to one value.
pub fn set_interval(bytes: &mut [u8], parameter: usize, value: u32)
    requires
        parameter >= 8,
        interval_offset(parameter as int) + 12 <= old(bytes)@.len(),
    ensures
        final(bytes)@ == fixed_interval(old(bytes)@, parameter as int, value as int),
{
    assert(bytes.len() == bytes@.len());
    let offset: usize = 260 + (parameter - 8) * 12;
    write_u32(bytes, offset, value);
    write_u32(bytes, offset + 4, value);
    write_u32(bytes, offset + 8, 4);
}

/// The masks of the fixed format: interleaved mapped access, 32-bit float
/// samples, the standard subformat.
pub open spec fn format_masks() -> Seq<u8> {
    masked(masked(masked(zeros(HW_PARAMS_BYTES as nat), 4, 0), 36, 14), 68, 0)
}

/// The hardware parameters of the fixed format.
pub open spec fn hardware_layout() -> Seq<u8> {
    let a = fixed_interval(format_masks(), 8, 32);
    let b = fixed_interval(a, 9, 64);
    let c = fixed_interval(b, 10, CHANNELS as int);
    let d = fixed_interval(c, 11, RATE as int);
    let e = fixed_interval(d, 13, PERIOD_FRAMES as int);
    let f = fixed_interval(e, 14, PERIOD_FRAMES * FRAME_BYTES);
    let g = fixed_interval(f, 15, 4);
    let h = fixed_interval(g, 17, BUFFER_FRAMES as int);
    fixed_interval(h, 18, BUFFER_BYTES as int)
}

fn zero_bytes(count: usize) -> (result: Vec<u8>)
    ensures
        result@ == zeros(count as nat),
{
    let mut out: Vec<u8> = Vec::new();
    let mut i: usize = 0;
    while i < count
        invariant
            i <= count,
            out@ == zeros(i as nat),
        decreases count - i,
    {
        out.push(0);
        assert(out@ =~= zeros((i + 1) as nat));
        i = i + 1;
    }
    out
}

/// Builds the hardware parameter request.
pub fn configure_hardware() -> (result: Vec<u8>)
    ensures
        result@ == hardware_layout(),
        result@.len() == HW_PARAMS_BYTES,
{
    let mut bytes = zero_bytes(HW_PARAMS_BYTES);
    set_mask(bytes.as_mut_slice(), 4, 0);
    set_mask(bytes.as_mut_slice(), 36, 14);
    set_mask(bytes.as_mut_slice(), 68, 0);
    set_interval(bytes.as_mut_slice(), 8, 32);
    set_interval(bytes.as_mut_slice(), 9, 64);
    set_interval(bytes.as_mut_slice(), 10, CHANNELS as u32);
    set_interval(bytes.as_mut_slice(), 11, RATE);
    set_interval(bytes.as_mut_slice(), 13, PERIOD_FRAMES as u32);
    set_interval(bytes.as_mut_slice(), 14, (PERIOD_FRAMES * FRAME_BYTES) as u32);
    set_interval(bytes.as_mut_slice(), 15, 4);
    set_interval(bytes.as_mut_slice(), 17, BUFFER_FRAMES as u32);
    set_interval(bytes.as_mut_slice(), 18, BUFFER_BYTES as u32);
    bytes
}

/// The software parameters: wake per period, one silent frame step, start and
/// stop at a full buffer.
pub open spec fn software_layout() -> Seq<u8> {
    let a = with_u64(zeros(SW_PARAMS_BYTES as nat), 16, PERIOD_FRAMES as int);
    let b = with_u64(a, 24, 1);
    let c = with_u64(b, 32, BUFFER_FRAMES as int);
    let d = with_u64(c, 40, BUFFER_FRAMES as int);
    with_u64(d, 64, BOUNDARY as int)
}

/// Builds the software parameter request.
pub fn configure_software() -> (result: Vec<u8>)
    ensures
        result@ == software_layout(),
        result@.len() == SW_PARAMS_BYTES,
{
    let mut bytes = zero_bytes(SW_PARAMS_BYTES);
    write_u64(bytes.as_mut_slice(), 16, PERIOD_FRAMES as u64);
    write_u64(bytes.as_mut_slice(), 24, 1);
    write_u64(bytes.as_mut_slice(), 32, BUFFER_FRAMES as u64);
    write_u64(bytes.as_mut_slice(), 40, BUFFER_FRAMES as u64);
    write_u64(bytes.as_mut_slice(), 64, BOUNDARY);
    bytes
}

/// The producer side of the playback ring.
#[derive(Clone, Copy, Debug, PartialEq, Eq, Structural)]
pub struct PlaybackRing {
    pub application_frames: u64,
    pub prepared: bool,
    pub active: bool,
}

impl PlaybackRing {
    /// The counter is a whole number of periods below the boundary.
    pub open spec fn wf(self) -> bool {
        self.application_frames < BOUNDARY && self.application_frames as int % 256 == 0
    }

    /// A ring that is not prepared yet.
    pub fn new() -> (result: Self)
        ensures
            result.wf(),
            result == (PlaybackRing { application_frames: 0, prepared: false, active: false }),
    {
        PlaybackRing { application_frames: 0, prepared: false, active: false }
    }

    /// Records that the stream was prepared for a new prefill.
    pub fn prepare(&mut self)
        ensures
            final(self).wf(),
            *final(self) == (PlaybackRing { application_frames: 0, prepared: true, active: false }),
    {
        self.application_frames = 0;
        self.prepared = true;
        self.active = false;
    }

    /// Records that the stream was started.
    pub fn start(&mut self)
        requires
            old(self).wf(),
        ensures
            final(self).wf(),
            *final(self) == (PlaybackRing { active: true, ..*old(self) }),
    {
        self.active = true;
    }

    /// Records that the stream was stopped and tells whether the kernel has to
    /// drop it.
    pub fn stop(&mut self) -> (result: bool)
        requires
            old(self).wf(),
        ensures
            final(self).wf(),
            result == old(self).prepared,
            *final(self) == (if old(self).prepared {
                PlaybackRing { prepared: false, active: false, ..*old(self) }
            } else {
                *old(self)
            }),
    {
        if self.prepared {
            self.prepared = false;
            self.active = false;
            true
        } else {
            false
        }
    }

    /// Where the next period is copied to, in bytes from the start of the ring.
    /// A whole period fits there.
    pub fn byte_offset(&self) -> (result: usize)
        requires
            self.wf(),
        ensures
            result == (self.application_frames as int % BUFFER_FRAMES as int) * FRAME_BYTES,
            result + PERIOD_FRAMES * FRAME_BYTES <= BUFFER_BYTES,
    {
        let ring_frame: usize = (self.application_frames % 1024) as usize;
        ring_frame * FRAME_BYTES
    }

    /// The counter after one more period.
    pub fn next_frames(&self) -> (result: u64)
        requires
            self.wf(),
        ensures
            result == (self.application_frames + PERIOD_FRAMES) % BOUNDARY as int,
    {
        (self.application_frames + 256) % BOUNDARY
    }

    /// The request that publishes one more period.
    pub fn sync_request(&self) -> (result: Vec<u8>)
        requires
            self.wf(),
        ensures
            result@ == with_u64(
                zeros(SYNC_PTR_BYTES as nat),
                SYNC_APPL_OFFSET as int,
                (self.application_frames + PERIOD_FRAMES) % BOUNDARY as int,
            ),
            result@.len() == SYNC_PTR_BYTES,
    {
        let mut bytes = zero_bytes(SYNC_PTR_BYTES);
        write_u64(bytes.as_mut_slice(), SYNC_APPL_OFFSET, self.next_frames());
        bytes
    }

    /// Records that a period was published.
    pub fn commit_period(&mut self)
        requires
            old(self).wf(),
        ensures
            final(self).wf(),
            *final(self) == (PlaybackRing {
                application_frames: ((old(self).application_frames + PERIOD_FRAMES)
                    % BOUNDARY as int) as u64,
                ..*old(self)
            }),
    {
        self.application_frames = self.next_frames();
    }
}

/// Consecutive periods fill consecutive quarters of the ring: after four of
/// them the offset comes round.
pub proof fn four_periods_come_round(frames: int)
    requires
        0 <= frames < BOUNDARY,
        frames % 256 == 0,
    ensures
        ((frames + 4 * PERIOD_FRAMES) % BOUNDARY as int) % BUFFER_FRAMES as int == frames
            % BUFFER_FRAMES as int,
{
}

} // verus!
