//! Byte sources that media is decoded from.

use vstd::prelude::*;

verus! {

/// Where a seek goes.
#[derive(Clone, Copy, Debug, PartialEq, Eq, Structural)]
pub enum SeekTarget {
    Start(u64),
    Current(i64),
    End(i64),
}

/// Why a source refused a request.
#[derive(Clone, Copy, Debug, PartialEq, Eq, Structural)]
pub enum SourceError {
    /// The range ends behind its file.
    OutsideFile,
    /// The target lies before the start.
    BeforeStart,
    /// The target lies behind the largest position of a file.
    Overflow,
}

/// The position that a target means.
pub open spec fn target_position(target: SeekTarget, position: u64, end: u64) -> int {
    match target {
        SeekTarget::Start(offset) => offset as int,
        SeekTarget::Current(offset) => position + offset,
        SeekTarget::End(offset) => end + offset,
    }
}

fn resolve(target: SeekTarget, position: u64, end: u64) -> (result: i128)
    ensures
        result == target_position(target, position, end),
{
    match target {
        SeekTarget::Start(offset) => offset as i128,
        SeekTarget::Current(offset) => position as i128 + offset as i128,
        SeekTarget::End(offset) => end as i128 + offset as i128,
    }
}

/// A reader over one range of a file.
#[derive(Clone, Copy, Debug, PartialEq, Eq, Structural)]
pub struct BoundedFile {
    pub start: u64,
    pub length: u64,
    pub position: u64,
}

impl BoundedFile {
    /// Opens a range of a file that has `file_length` bytes.
    pub fn open(start: u64, length: u64, file_length: u64) -> (result: Result<Self, SourceError>)
        ensures
            match result {
                Ok(file) => start + length <= file_length && file == (BoundedFile {
                    start,
                    length,
                    position: 0,
                }),
                Err(error) => start + length > file_length && error == SourceError::OutsideFile,
            },
    {
        match start.checked_add(length) {
            Some(end) => if end <= file_length {
                Ok(BoundedFile { start, length, position: 0 })
            } else {
                Err(SourceError::OutsideFile)
            },
            None => Err(SourceError::OutsideFile),
        }
    }

    /// Bytes between the position and the end of the range.
    pub open spec fn remaining(self) -> int {
        if self.position < self.length {
            self.length - self.position
        } else {
            0
        }
    }

    /// How many bytes a read into `room` bytes may take.
    pub fn read_limit(&self, room: usize) -> (result: usize)
        ensures
            result == (if room <= self.remaining() {
                room as int
            } else {
                self.remaining()
            }),
    {
        let remaining: u64 = if self.position < self.length {
            self.length - self.position
        } else {
            0
        };
        if room as u64 <= remaining {
            room
        } else {
            remaining as usize
        }
    }

    /// Records that bytes were read.
    pub fn advance(&mut self, read: usize)
        requires
            read <= old(self).remaining(),
        ensures
            *final(self) == (BoundedFile {
                position: (old(self).position + read) as u64,
                ..*old(self)
            }),
    {
        self.position = self.position + read as u64;
    }

    /// Resolves a seek to a position in the range and one in the file. The
    /// position may lie behind the end, where reads give nothing.
    pub fn seek_position(&self, target: SeekTarget) -> (result: Result<(u64, u64), SourceError>)
        ensures
            ({
                let position = target_position(target, self.position, self.length);
                match result {
                    Ok((inner, absolute)) => {
                        &&& inner == position
                        &&& absolute == self.start + position
                    },
                    Err(SourceError::BeforeStart) => position < 0 || position > u64::MAX,
                    Err(SourceError::Overflow) => 0 <= position <= u64::MAX && self.start + position
                        > u64::MAX,
                    Err(SourceError::OutsideFile) => false,
                }
            }),
    {
        let position: i128 = resolve(target, self.position, self.length);
        if position < 0 || position > 0xffff_ffff_ffff_ffff {
            return Err(SourceError::BeforeStart);
        }
        let position: u64 = position as u64;
        match self.start.checked_add(position) {
            Some(absolute) => Ok((position, absolute)),
            None => Err(SourceError::Overflow),
        }
    }

    /// Records that the file was positioned by a resolved seek.
    pub fn place(&mut self, position: u64)
        ensures
            *final(self) == (BoundedFile { position, ..*old(self) }),
    {
        self.position = position;
    }
}

/// A read at any position takes only bytes of the range.
pub proof fn reads_stay_inside(file: BoundedFile, read: int, byte: int)
    requires
        0 <= read <= file.remaining(),
        file.start + file.position <= byte < file.start + file.position + read,
    ensures
        file.start <= byte < file.start + file.length,
{
}

/// Live state of one streaming download. The file is written append-only.
pub struct StreamState {
    /// Bytes written so far, the readable high-water mark.
    pub received: u64,
    /// The announced length, where there is one.
    pub total: Option<u64>,
    /// The download finished.
    pub done: bool,
    /// Why the download failed, if it did.
    pub error: Option<String>,
    /// Cancellation was requested.
    pub cancelled: bool,
}

impl Default for StreamState {
    /// Nothing was received yet.
    fn default() -> (result: Self)
        ensures
            result.received == 0,
            result.total is None,
            !result.done,
            result.error is None,
            !result.cancelled,
    {
        StreamState { received: 0, total: None, done: false, error: None, cancelled: false }
    }
}

/// What a read of a growing file does next.
#[derive(Clone, Copy, Debug, PartialEq, Eq, Structural)]
pub enum GrowingRead {
    /// The download failed.
    Failed,
    /// Read at most this many bytes.
    Take(usize),
    /// Nothing more comes, and everything that came is read.
    EndOfFile,
    /// Wait for more bytes.
    Wait,
}

/// What a read at `position` into `room` bytes does of a file that is still being
/// written: a failure is reported, received bytes are read, and a download that
/// is finished or cancelled ends.
pub open spec fn growing_step(state: StreamState, position: u64, room: usize) -> GrowingRead {
    if state.error is Some {
        GrowingRead::Failed
    } else if position < state.received {
        GrowingRead::Take(
            (if room <= state.received - position {
                room as int
            } else {
                state.received - position
            }) as usize,
        )
    } else if state.done || state.cancelled {
        GrowingRead::EndOfFile
    } else {
        GrowingRead::Wait
    }
}

/// Decides a read at `position` into `room` bytes of a file that is still being
/// written.
pub fn growing_read(state: &StreamState, position: u64, room: usize) -> (result: GrowingRead)
    ensures
        result == growing_step(*state, position, room),
{
    if state.error.is_some() {
        return GrowingRead::Failed;
    }
    if position < state.received {
        let available: u64 = state.received - position;
        let limit: usize = if room as u64 <= available {
            room
        } else {
            available as usize
        };
        return GrowingRead::Take(limit);
    }
    if state.done || state.cancelled {
        GrowingRead::EndOfFile
    } else {
        GrowingRead::Wait
    }
}

/// Resolves a seek in a growing file; its end is the announced length, or else
/// what was received.
pub fn growing_seek(state: &StreamState, position: u64, target: SeekTarget) -> (result: Result<
    u64,
    SourceError,
>)
    ensures
        ({
            let end = match state.total {
                Some(total) => total,
                None => state.received,
            };
            let wanted = target_position(target, position, end);
            match result {
                Ok(at) => at == wanted,
                Err(error) => (wanted < 0 || wanted > u64::MAX) && error == SourceError::BeforeStart,
            }
        }),
{
    let end: u64 = match state.total {
        Some(total) => total,
        None => state.received,
    };
    let wanted: i128 = resolve(target, position, end);
    if wanted < 0 || wanted > 0xffff_ffff_ffff_ffff {
        return Err(SourceError::BeforeStart);
    }
    Ok(wanted as u64)
}

/// A growing file never reads a byte that was not received.
pub proof fn growing_reads_only_received(state: StreamState, position: u64, room: usize)
    ensures
        growing_step(state, position, room) matches GrowingRead::Take(limit) ==> position + limit
            <= state.received && limit <= room,
{
}

/// A read waits only for a download that goes on: once it finished, failed or was
/// cancelled, no read blocks.
pub proof fn ended_downloads_never_block(state: StreamState, position: u64, room: usize)
    requires
        state.done || state.cancelled || state.error is Some,
    ensures
        growing_step(state, position, room) != GrowingRead::Wait,
{
}

/// Why a source cannot be decoded.
#[derive(Clone, Copy, Debug, PartialEq, Eq, Structural)]
pub enum OpenError {
    /// The container has no supported audio track.
    NoTrack,
    /// The audio track has no codec parameters.
    NoCodecParameters,
    /// The audio track has no sample rate.
    NoSampleRate,
    /// A local container has no finite positive duration.
    NoDuration,
}

/// A duration found in a container: bits of its seconds, and whether they are
/// finite and positive.
#[derive(Clone, Copy, Debug, PartialEq, Eq, Structural)]
pub struct FoundDuration {
    pub bits: u64,
    pub usable: bool,
}

/// The audio track of a probed container.
#[derive(Clone, Copy, Debug, PartialEq, Eq, Structural)]
pub struct TrackFacts {
    pub id: u32,
    pub has_parameters: bool,
    pub sample_rate: Option<u32>,
    /// The duration by the track's time base.
    pub duration: Option<FoundDuration>,
    /// The duration by its number of frames.
    pub frame_duration: Option<FoundDuration>,
}

/// What a session opens with.
#[derive(Clone, Copy, Debug, PartialEq, Eq, Structural)]
pub struct OpenPlan {
    pub track_id: u32,
    pub source_rate: u32,
    /// The duration, where the container states one.
    pub duration: Option<FoundDuration>,
}

/// The duration of a source: the container's, else the track's, else that of
/// its frames.
pub open spec fn best_duration(container: Option<FoundDuration>, track: TrackFacts) -> Option<
    FoundDuration,
> {
    if container is Some {
        container
    } else if track.duration is Some {
        track.duration
    } else {
        track.frame_duration
    }
}

/// Decides whether a probed source can be decoded and with what. A local file
/// has to state a finite positive duration; a download may learn it later.
pub fn open_source(
    container: Option<FoundDuration>,
    track: Option<TrackFacts>,
    streaming: bool,
) -> (result: Result<OpenPlan, OpenError>)
    ensures
        match result {
            Err(OpenError::NoTrack) => track is None,
            Err(OpenError::NoCodecParameters) => track matches Some(t) && !t.has_parameters,
            Err(OpenError::NoSampleRate) => track matches Some(t) && t.has_parameters
                && t.sample_rate is None,
            Err(OpenError::NoDuration) => track matches Some(t) && t.has_parameters && t.sample_rate
                is Some && !streaming && !(best_duration(container, t) matches Some(d)
                && d.usable),
            Ok(plan) => track matches Some(t) && t.has_parameters && t.sample_rate == Some(
                plan.source_rate,
            ) && plan.track_id == t.id && plan.duration == best_duration(container, t) && (
            streaming || (plan.duration matches Some(d) && d.usable)),
        },
{
    let track = match track {
        Some(track) => track,
        None => return Err(OpenError::NoTrack),
    };
    if !track.has_parameters {
        return Err(OpenError::NoCodecParameters);
    }
    let source_rate: u32 = match track.sample_rate {
        Some(rate) => rate,
        None => return Err(OpenError::NoSampleRate),
    };
    let duration: Option<FoundDuration> = match container {
        Some(found) => Some(found),
        None => match track.duration {
            Some(found) => Some(found),
            None => track.frame_duration,
        },
    };
    let usable = match duration {
        Some(found) => found.usable,
        None => false,
    };
    if !streaming && !usable {
        return Err(OpenError::NoDuration);
    }
    Ok(OpenPlan { track_id: track.id, source_rate, duration })
}

/// Why the resampler cannot take a packet.
#[derive(Clone, Copy, Debug, PartialEq, Eq, Structural)]
pub enum RateError {
    /// The decoder produced a zero sample rate.
    Zero,
    /// The rate changed in the middle of the stream.
    Changed,
}

/// Decides what a packet's sample rate means for the resampler: `true` where
/// its coefficients are to be rebuilt. The rate may change only while no input
/// waits.
pub fn set_source_rate(current: u32, rate: u32, input_empty: bool) -> (result: Result<
    bool,
    RateError,
>)
    ensures
        match result {
            Err(RateError::Zero) => rate == 0,
            Err(RateError::Changed) => rate != 0 && rate != current && !input_empty,
            Ok(rebuild) => rate != 0 && (rate == current || input_empty) && rebuild == (rate
                != current),
        },
{
    if rate == 0 {
        return Err(RateError::Zero);
    }
    if current != rate && !input_empty {
        return Err(RateError::Changed);
    }
    Ok(current != rate)
}

/// What the demuxer answers when it is asked for a packet.
#[derive(Clone, Copy, Debug, PartialEq, Eq, Structural)]
pub enum PacketEvent {
    Packet { track: u32 },
    End,
    /// The container changed; the source has to be opened again.
    ResetRequired,
    Failed,
}

/// What follows on the demuxer's answer.
#[derive(Clone, Copy, Debug, PartialEq, Eq, Structural)]
pub enum PacketStep {
    /// Ask for the next packet.
    Next,
    /// Decode the packet.
    Decode,
    /// The media has ended: flush what the resampler holds.
    Finish,
    /// Open the source again, then ask for the next packet.
    Reopen,
    /// Report the failure.
    Fail,
}

/// Decides what follows on the demuxer's answer: packets of other tracks are
/// passed over.
pub fn packet_step(event: PacketEvent, track: u32) -> (result: PacketStep)
    ensures
        result == (match event {
            PacketEvent::Packet { track: found } => if found == track {
                PacketStep::Decode
            } else {
                PacketStep::Next
            },
            PacketEvent::End => PacketStep::Finish,
            PacketEvent::ResetRequired => PacketStep::Reopen,
            PacketEvent::Failed => PacketStep::Fail,
        }),
{
    match event {
        PacketEvent::Packet { track: found } => if found == track {
            PacketStep::Decode
        } else {
            PacketStep::Next
        },
        PacketEvent::End => PacketStep::Finish,
        PacketEvent::ResetRequired => PacketStep::Reopen,
        PacketEvent::Failed => PacketStep::Fail,
    }
}

/// What the decoder makes of a packet.
#[derive(Clone, Copy, Debug, PartialEq, Eq, Structural)]
pub enum DecodeEvent {
    Decoded,
    /// The packet is damaged; later ones may not be.
    Damaged,
    Failed,
}

/// Decides what follows on the decoder's answer: nothing where the packet was
/// decoded, the next packet where it was damaged.
pub fn decode_step(event: DecodeEvent) -> (result: Option<PacketStep>)
    ensures
        result == (match event {
            DecodeEvent::Decoded => None,
            DecodeEvent::Damaged => Some(PacketStep::Next),
            DecodeEvent::Failed => Some(PacketStep::Fail),
        }),
{
    match event {
        DecodeEvent::Decoded => None,
        DecodeEvent::Damaged => Some(PacketStep::Next),
        DecodeEvent::Failed => Some(PacketStep::Fail),
    }
}

/// Whether a reader has to decode another packet before it takes `wanted`
/// samples.
pub fn wants_packet(available: usize, wanted: usize, ended: bool) -> (result: bool)
    ensures
        result == (available < wanted && !ended),
{
    available < wanted && !ended
}

} // verus!
