//! Buffering of decoded samples.

use vstd::prelude::*;

verus! {

/// Consumed samples at which the buffer is moved down.
pub const COMPACT_SAMPLES: usize = 16384;

/// Decoded samples that wait to be rendered.
pub struct SampleQueue<T> {
    samples: Vec<T>,
    offset: usize,
}

impl<T> View for SampleQueue<T> {
    type V = Seq<T>;

    closed spec fn view(&self) -> Seq<T> {
        self.samples@.subrange(self.offset as int, self.samples@.len() as int)
    }
}

impl<T: Copy> SampleQueue<T> {
    /// The read position lies inside the buffer.
    pub closed spec fn wf(self) -> bool {
        self.offset <= self.samples@.len()
    }

    /// Samples that were taken and still stand in the buffer, before the waiting
    /// ones.
    pub closed spec fn consumed(self) -> int {
        self.offset as int
    }

    /// An empty queue.
    pub fn new() -> (result: Self)
        ensures
            result.wf(),
            result@ == Seq::<T>::empty(),
            result.consumed() == 0,
    {
        let queue = SampleQueue { samples: Vec::new(), offset: 0 };
        assert(queue@ =~= Seq::<T>::empty());
        queue
    }

    /// Number of waiting samples.
    pub fn len(&self) -> (result: usize)
        requires
            self.wf(),
        ensures
            result == self@.len(),
    {
        self.samples.len() - self.offset
    }

    /// Drops everything.
    pub fn clear(&mut self)
        ensures
            final(self).wf(),
            final(self)@ == Seq::<T>::empty(),
            final(self).consumed() == 0,
    {
        self.samples.clear();
        self.offset = 0;
        assert(self@ =~= Seq::<T>::empty());
    }

    /// Gives the consumed prefix back, so that one packet and a bounded rest
    /// stay in the existing allocation during steady playback.
    pub fn compact_output(&mut self)
        requires
            old(self).wf(),
        ensures
            final(self).wf(),
            final(self)@ == old(self)@,
            final(self).consumed() == 0,
    {
        if self.offset == 0 {
            return ;
        }
        let total: usize = self.samples.len();
        let count: usize = total - self.offset;
        let mut i: usize = 0;
        let ghost all = self.samples@;
        while i < count
            invariant
                total == all.len(),
                count == all.len() - self.offset,
                self.offset <= all.len(),
                self.samples@.len() == all.len(),
                i <= count,
                forall|k: int| 0 <= k < i ==> self.samples@[k] == all[self.offset + k],
                forall|k: int| self.offset + i <= k < all.len() ==> self.samples@[k] == all[k],
                self.offset > 0,
                self.offset == old(self).offset,
            decreases count - i,
        {
            let sample: T = self.samples[self.offset + i];
            self.samples[i] = sample;
            i = i + 1;
        }
        self.samples.truncate(count);
        self.offset = 0;
        assert(self@ =~= old(self)@);
    }

    /// Appends decoded samples.
    pub fn push(&mut self, decoded: &[T])
        requires
            old(self).wf(),
        ensures
            final(self).wf(),
            final(self)@ == old(self)@ + decoded@,
            final(self).consumed() == old(self).consumed(),
    {
        let mut i: usize = 0;
        let ghost before = self.samples@;
        while i < decoded.len()
            invariant
                i <= decoded@.len(),
                self.offset == old(self).offset,
                self.offset <= before.len(),
                self.samples@ == before + decoded@.take(i as int),
            decreases decoded@.len() - i,
        {
            self.samples.push(decoded[i]);
            assert(decoded@.take(i + 1) =~= decoded@.take(i as int).push(decoded@[i as int]));
            assert(self.samples@ =~= before + decoded@.take(i + 1));
            i = i + 1;
        }
        assert(decoded@.take(i as int) =~= decoded@);
        assert(self@ =~= old(self)@ + decoded@);
    }

    /// Moves samples to the front of `destination` and tells how many. The
    /// rest of `destination` stays as it was. The consumed prefix is given back
    /// once nothing waits behind it, or once it is long.
    pub fn take(&mut self, destination: &mut [T]) -> (result: usize)
        requires
            old(self).wf(),
        ensures
            final(self).wf(),
            result == (if old(self)@.len() <= old(destination)@.len() {
                old(self)@.len() as int
            } else {
                old(destination)@.len() as int
            }),
            final(destination)@.len() == old(destination)@.len(),
            final(destination)@.take(result as int) == old(self)@.take(result as int),
            final(destination)@.skip(result as int) == old(destination)@.skip(result as int),
            final(self)@ == old(self)@.skip(result as int),
            final(self).consumed() == (if result == old(self)@.len() || old(self).consumed()
                + result >= COMPACT_SAMPLES {
                0
            } else {
                old(self).consumed() + result
            }),
    {
        let available: usize = self.len();
        let copied: usize = if available <= destination.len() {
            available
        } else {
            destination.len()
        };
        let total: usize = self.samples.len();
        let mut i: usize = 0;
        while i < copied
            invariant
                total == self.samples@.len(),
                *self == *old(self),
                self.wf(),
                copied <= self@.len(),
                copied <= destination@.len(),
                destination@.len() == old(destination)@.len(),
                i <= copied,
                forall|k: int| 0 <= k < i ==> destination@[k] == self@[k],
                forall|k: int|
                    i <= k < destination@.len() ==> destination@[k] == old(destination)@[k],
            decreases copied - i,
        {
            let sample: T = self.samples[self.offset + i];
            destination[i] = sample;
            i = i + 1;
        }
        assert(destination@.take(copied as int) =~= self@.take(copied as int));
        assert(destination@.skip(copied as int) =~= old(destination)@.skip(copied as int));
        self.offset = self.offset + copied;
        assert(self@ =~= old(self)@.skip(copied as int));
        self.give_back();
        copied
    }

    /// Drops at most this many stereo frames from the front and tells how many.
    /// The consumed prefix is given back as after [`take`](Self::take).
    pub fn skip_frames(&mut self, frames: usize) -> (result: usize)
        requires
            old(self).wf(),
        ensures
            final(self).wf(),
            result == (if frames <= old(self)@.len() / 2 {
                frames as int
            } else {
                old(self)@.len() as int / 2
            }),
            final(self)@ == old(self)@.skip(2 * result),
            final(self).consumed() == (if 2 * result == old(self)@.len() || old(self).consumed() + 2
                * result >= COMPACT_SAMPLES {
                0
            } else {
                old(self).consumed() + 2 * result
            }),
    {
        let available: usize = self.len() / 2;
        let dropped: usize = if frames <= available {
            frames
        } else {
            available
        };
        assert(self.samples.len() == self.samples@.len());
        self.offset = self.offset + 2 * dropped;
        assert(self@ =~= old(self)@.skip(2 * dropped));
        self.give_back();
        dropped
    }

    fn give_back(&mut self)
        requires
            old(self).wf(),
        ensures
            final(self).wf(),
            final(self)@ == old(self)@,
            final(self).consumed() == (if old(self)@.len() == 0 || old(self).consumed()
                >= COMPACT_SAMPLES {
                0
            } else {
                old(self).consumed()
            }),
    {
        if self.offset == self.samples.len() {
            let ghost rest = self@;
            self.samples.clear();
            self.offset = 0;
            assert(self@ =~= rest);
        } else if self.offset >= COMPACT_SAMPLES {
            self.compact_output();
        }
    }
}

/// Samples come out in the order they went in, whatever sizes they are taken
/// in.
pub proof fn takes_are_consecutive<T>(queue: Seq<T>, first: int, second: int)
    requires
        0 <= first,
        0 <= second,
        first + second <= queue.len(),
    ensures
        queue.take(first) + queue.skip(first).take(second) == queue.take(first + second),
        queue.skip(first).skip(second) == queue.skip(first + second),
{
    assert(queue.take(first) + queue.skip(first).take(second) =~= queue.take(first + second));
    assert(queue.skip(first).skip(second) =~= queue.skip(first + second));
}

/// Groups interleaved samples into stereo frames; an odd sample at the end is
/// left out.
pub fn interleaved_frames<T: Copy>(samples: &[T]) -> (result: Vec<[T; 2]>)
    ensures
        result@.len() == samples@.len() / 2,
        forall|i: int|
            0 <= i < result@.len() ==> (#[trigger] result@[i])@ == seq![
                samples@[2 * i],
                samples@[2 * i + 1],
            ],
{
    let count: usize = samples.len() / 2;
    let mut frames: Vec<[T; 2]> = Vec::new();
    let mut i: usize = 0;
    while i < count
        invariant
            count == samples@.len() / 2,
            samples@.len() == samples.len(),
            i <= count,
            frames@.len() == i,
            forall|k: int|
                0 <= k < i ==> (#[trigger] frames@[k])@ == seq![samples@[2 * k], samples@[2 * k + 1]],
        decreases count - i,
    {
        let frame: [T; 2] = [samples[2 * i], samples[2 * i + 1]];
        assert(frame@ =~= seq![samples@[2 * i], samples@[2 * i + 1]]);
        frames.push(frame);
        i = i + 1;
    }
    frames
}

/// The stereo samples of interleaved input: one channel is doubled without
/// change of gain, two pass through, and more are mixed frame by frame, where
/// an incomplete last frame is left out.
pub open spec fn stereo_of<T, F: Fn(&[T]) -> (T, T)>(
    input: Seq<T>,
    channels: int,
    mix: &F,
    output: Seq<T>,
) -> bool {
    if channels == 0 {
        output == Seq::<T>::empty()
    } else if channels == 1 {
        &&& output.len() == 2 * input.len()
        &&& forall|i: int|
            0 <= i < input.len() ==> output[2 * i] == #[trigger] input[i] && output[2 * i + 1]
                == input[i]
    } else if channels == 2 {
        output == input
    } else {
        &&& output.len() == 2 * (input.len() as int / channels)
        &&& forall|i: int|
            0 <= i < input.len() as int / channels ==> #[trigger] mixed(
                input,
                channels,
                mix,
                i,
                output[2 * i],
                output[2 * i + 1],
            )
    }
}

/// `mix` gave this pair for frame `i`.
pub open spec fn mixed<T, F: Fn(&[T]) -> (T, T)>(
    input: Seq<T>,
    channels: int,
    mix: &F,
    i: int,
    left: T,
    right: T,
) -> bool {
    exists|frame: &[T]|
        frame@ == input.subrange(i * channels, i * channels + channels) && #[trigger] call_ensures(
            *mix,
            (frame,),
            (left, right),
        )
}

proof fn frame_bounds(count: int, channels: int, length: int, i: int)
    requires
        channels > 0,
        length >= 0,
        count == length / channels,
        0 <= i < count,
    ensures
        0 <= i * channels,
        i * channels + channels <= length,
{
    assert(0 <= i * channels && i * channels + channels <= length) by (nonlinear_arith)
        requires
            channels > 0,
            length >= 0,
            count == length / channels,
            0 <= i < count,
    ;
}

/// Brings interleaved samples to stereo. `mix` folds a frame of more than two
/// channels.
pub fn normalize_stereo<T: Copy, F: Fn(&[T]) -> (T, T)>(
    input: &[T],
    channels: usize,
    output: &mut Vec<T>,
    mix: &F,
)
    requires
        forall|frame: &[T]| frame@.len() == channels ==> #[trigger] call_requires(*mix, (frame,)),
    ensures
        stereo_of(input@, channels as int, mix, final(output)@),
{
    output.clear();
    if channels == 0 {
        assert(output@ =~= Seq::<T>::empty());
        return ;
    }
    let mut i: usize = 0;
    if channels == 1 {
        while i < input.len()
            invariant
                i <= input@.len(),
                output@.len() == 2 * i,
                forall|k: int|
                    0 <= k < i ==> output@[2 * k] == #[trigger] input@[k] && output@[2 * k + 1]
                        == input@[k],
            decreases input@.len() - i,
        {
            let sample: T = input[i];
            output.push(sample);
            output.push(sample);
            i = i + 1;
        }
    } else if channels == 2 {
        while i < input.len()
            invariant
                i <= input@.len(),
                output@ == input@.take(i as int),
            decreases input@.len() - i,
        {
            output.push(input[i]);
            assert(input@.take(i + 1) =~= input@.take(i as int).push(input@[i as int]));
            i = i + 1;
        }
        assert(input@.take(i as int) =~= input@);
    } else {
        let count: usize = input.len() / channels;
        while i < count
            invariant
                channels > 2,
                input@.len() == input.len(),
                count == input@.len() as int / channels as int,
                i <= count,
                output@.len() == 2 * i,
                forall|frame: &[T]|
                    frame@.len() == channels ==> #[trigger] call_requires(*mix, (frame,)),
                forall|k: int|
                    0 <= k < i ==> #[trigger] mixed(
                        input@,
                        channels as int,
                        mix,
                        k,
                        output@[2 * k],
                        output@[2 * k + 1],
                    ),
            decreases count - i,
        {
            proof {
                frame_bounds(count as int, channels as int, input@.len() as int, i as int);
            }
            let start: usize = i * channels;
            let frame = vstd::slice::slice_subrange(input, start, start + channels);
            let (left, right) = mix(frame);
            let ghost before = output@;
            output.push(left);
            output.push(right);
            assert(mixed(input@, channels as int, mix, i as int, left, right));
            assert forall|k: int| 0 <= k < i + 1 implies #[trigger] mixed(
                input@,
                channels as int,
                mix,
                k,
                output@[2 * k],
                output@[2 * k + 1],
            ) by {
                if k < i {
                    assert(mixed(
                        input@,
                        channels as int,
                        mix,
                        k,
                        before[2 * k],
                        before[2 * k + 1],
                    ));
                    assert(output@[2 * k] == before[2 * k]);
                    assert(output@[2 * k + 1] == before[2 * k + 1]);
                }
            }
            i = i + 1;
        }
    }
}

/// Most frames that one render quantum holds.
pub const RENDER_LIMIT: usize = 128;

/// What an accurate seek does next.
#[derive(Clone, Copy, Debug, PartialEq, Eq, Structural)]
pub enum SeekStep {
    /// The next waiting sample is the target's.
    Reached,
    /// More has to be decoded.
    Decode,
    /// This many waiting frames lie before the target.
    Drop { frames: usize },
    /// The media ended before the target.
    BeyondEnd,
}

/// The next step of an accurate seek that has `left` frames to drop, while
/// `waiting` samples are decoded. It goes on by render quanta.
pub open spec fn seek_next(left: int, waiting: int, ended: bool) -> SeekStep {
    let most = if left <= RENDER_LIMIT {
        left
    } else {
        RENDER_LIMIT as int
    };
    if left == 0 {
        SeekStep::Reached
    } else if waiting < 2 * RENDER_LIMIT && !ended {
        SeekStep::Decode
    } else if waiting < 2 {
        SeekStep::BeyondEnd
    } else if waiting / 2 < most {
        SeekStep::Drop { frames: (waiting / 2) as usize }
    } else {
        SeekStep::Drop { frames: most as usize }
    }
}

/// Decides the next step of an accurate seek.
pub fn seek_step(left: usize, waiting: usize, ended: bool) -> (result: SeekStep)
    ensures
        result == seek_next(left as int, waiting as int, ended),
{
    let most: usize = if left <= RENDER_LIMIT {
        left
    } else {
        RENDER_LIMIT
    };
    if left == 0 {
        SeekStep::Reached
    } else if waiting < 2 * RENDER_LIMIT && !ended {
        SeekStep::Decode
    } else if waiting < 2 {
        SeekStep::BeyondEnd
    } else if waiting / 2 < most {
        SeekStep::Drop { frames: waiting / 2 }
    } else {
        SeekStep::Drop { frames: most }
    }
}

/// A seek to frame `target` of the decoded `stream` has `left` frames to drop,
/// and the rest of the stream waits in its order.
pub open spec fn seeking<T>(stream: Seq<T>, target: int, left: int, waiting: Seq<T>) -> bool {
    &&& 0 <= left <= target
    &&& 2 * (target - left) <= stream.len()
    &&& waiting == stream.skip(2 * (target - left))
}

/// Every step of a seek keeps the waiting samples a rest of the stream: more
/// samples go behind it, and dropped frames leave its front.
pub proof fn seek_steps_keep_the_stream<T>(
    stream: Seq<T>,
    target: int,
    left: int,
    waiting: Seq<T>,
    ended: bool,
    more: Seq<T>,
)
    requires
        seeking(stream, target, left, waiting),
    ensures
        seeking(stream + more, target, left, waiting + more),
        seek_next(left, waiting.len() as int, ended) matches SeekStep::Drop { frames } ==> {
            &&& 0 < frames <= left
            &&& 2 * frames <= waiting.len()
            &&& seeking(stream, target, left - frames, waiting.skip(2 * frames))
        },
{
    assert(waiting + more =~= (stream + more).skip(2 * (target - left)));
    if let SeekStep::Drop { frames } = seek_next(left, waiting.len() as int, ended) {
        assert(waiting.skip(2 * frames) =~= stream.skip(2 * (target - (left - frames))));
    }
}

/// A seek ends at its exact target: nothing before it waits, all behind it
/// does, in order. It fails exactly if the media holds fewer frames.
pub proof fn seek_reaches_the_exact_target<T>(
    stream: Seq<T>,
    target: int,
    left: int,
    waiting: Seq<T>,
    ended: bool,
)
    requires
        seeking(stream, target, left, waiting),
    ensures
        seeking(stream, target, target, stream),
        seek_next(left, waiting.len() as int, ended) is Reached ==> 2 * target <= stream.len()
            && waiting == stream.skip(2 * target),
        seek_next(left, waiting.len() as int, ended) is BeyondEnd ==> ended && stream.len() < 2
            * target,
        ended && stream.len() < 2 * target ==> {
            let next = seek_next(left, waiting.len() as int, ended);
            next is BeyondEnd || next is Drop
        },
{
    assert(stream.skip(0) =~= stream);
}

} // verus!
