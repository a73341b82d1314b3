//! The media state machine.
//!
//! A command runs as a chain of effects on the decoder and the audio service.
//! Each step changes the state, publishes events and names the effect to
//! perform next; the event loop performs it and hands the outcome back.

use std::collections::BTreeMap;
use vstd::prelude::*;
use crate::audio::{quantum_fits, room_for_quantum, RingMovedBackwards};
use crate::style::text_view;

verus! {

broadcast use vstd::std_specs::btree::group_btree_axioms;

/// Bits of the gain one.
pub const UNIT_GAIN: u32 = 0x3f80_0000;

/// Error code of media events for failed playback.
pub const DECODE_ERROR: u8 = 3;

/// One loaded media source. Gain and positions are bit patterns.
#[derive(Clone, Copy, Debug, PartialEq, Eq, Structural)]
pub struct Media {
    pub generation: u64,
    pub stream_id: Option<u64>,
    pub playing: bool,
    pub starting: bool,
    pub ending: bool,
    pub loop_enabled: bool,
    pub gain: u32,
    pub base_seconds: u64,
    pub submitted_frames: u64,
    pub consumed_frames: u64,
    pub decode_eof: bool,
    pub resume_position: Option<u64>,
}

/// A source that was just opened.
pub open spec fn fresh() -> Media {
    Media {
        generation: 1,
        stream_id: None,
        playing: false,
        starting: false,
        ending: false,
        loop_enabled: false,
        gain: UNIT_GAIN,
        base_seconds: 0,
        submitted_frames: 0,
        consumed_frames: 0,
        decode_eof: false,
        resume_position: None,
    }
}

/// A source repositioned at `seconds` under a new generation.
pub open spec fn repositioned(m: Media, seconds: u64, generation: u64) -> Media {
    Media {
        generation,
        base_seconds: seconds,
        submitted_frames: 0,
        consumed_frames: 0,
        decode_eof: false,
        playing: false,
        starting: false,
        ending: false,
        resume_position: None,
        ..m
    }
}

/// A command from script.
#[derive(Clone, Copy, Debug, PartialEq, Eq, Structural)]
pub enum Command {
    Load { id: u64 },
    Play { id: u64 },
    Pause { id: u64 },
    Seek { id: u64, seconds: u64 },
    Gain { id: u64, gain: u32 },
    Loop { id: u64, enabled: bool },
    Close { id: u64 },
    GetMasterState,
    SetMasterVolume { percent: u8 },
    SetMasterMuted { muted: bool },
}

/// A message to the audio service.
#[derive(Clone, Copy, Debug, PartialEq, Eq, Structural)]
pub enum ClientMessage {
    CreateStream { generation: u64 },
    SetGain { stream_id: u64, generation: u64, gain: u32 },
    Start { stream_id: u64, generation: u64 },
    Pause { stream_id: u64, generation: u64 },
    Close { stream_id: u64, generation: u64 },
    RingNonempty { stream_id: u64, generation: u64 },
    GetMasterState,
    SetMasterVolume { percent: u8 },
    SetMasterMuted { muted: bool },
}

/// A media event for script.
#[derive(Clone, Copy, Debug, PartialEq, Eq, Structural)]
pub enum Event {
    DurationChange { id: u64, seconds: u64 },
    LoadedMetadata { id: u64 },
    LoadedData { id: u64 },
    CanPlay { id: u64 },
    Play { id: u64 },
    Pause { id: u64 },
    TimeUpdate { id: u64, seconds: u64 },
    Seeking { id: u64, seconds: u64 },
    Seeked { id: u64, seconds: u64 },
    Error { id: u64, code: u8 },
    MasterState { percent: u8, muted: bool },
}

/// The name of an event's kind.
pub open spec fn kind_of(event: Event) -> Seq<char> {
    match event {
        Event::DurationChange { .. } => "durationchange"@,
        Event::LoadedMetadata { .. } => "loadedmetadata"@,
        Event::LoadedData { .. } => "loadeddata"@,
        Event::CanPlay { .. } => "canplay"@,
        Event::Play { .. } => "play"@,
        Event::Pause { .. } => "pause"@,
        Event::TimeUpdate { .. } => "timeupdate"@,
        Event::Seeking { .. } => "seeking"@,
        Event::Seeked { .. } => "seeked"@,
        Event::Error { .. } => "error"@,
        Event::MasterState { .. } => "masterstate"@,
    }
}

impl Event {
    /// The name of the event's kind.
    pub fn kind(self) -> (result: &'static str)
        ensures
            result@ == kind_of(self),
    {
        match self {
            Event::DurationChange { .. } => "durationchange",
            Event::LoadedMetadata { .. } => "loadedmetadata",
            Event::LoadedData { .. } => "loadeddata",
            Event::CanPlay { .. } => "canplay",
            Event::Play { .. } => "play",
            Event::Pause { .. } => "pause",
            Event::TimeUpdate { .. } => "timeupdate",
            Event::Seeking { .. } => "seeking",
            Event::Seeked { .. } => "seeked",
            Event::Error { .. } => "error",
            Event::MasterState { .. } => "masterstate",
        }
    }

    /// The channel that carries the event to script: the system's own state has
    /// one apart from media.
    pub fn channel(self) -> (result: &'static str)
        ensures
            result@ == (if self is MasterState {
                "audio-system"@
            } else {
                "media"@
            }),
    {
        match self {
            Event::MasterState { .. } => "audio-system",
            _ => "media",
        }
    }
}

/// Queued sound that a stream has to drop before its decoder moves.
#[derive(Clone, Copy, Debug, PartialEq, Eq, Structural)]
pub struct Flush {
    pub stream_id: u64,
    pub old_generation: u64,
    pub new_generation: u64,
}

/// Work outside the state machine.
#[derive(Clone, Copy, Debug, PartialEq, Eq, Structural)]
pub enum Effect {
    /// Tell the service to close a stream, if it can still be told, then open
    /// the decoder of a source.
    OpenDecoder { id: u64, close: Option<ClientMessage> },
    /// Flush the stream and wait for the service's generation barrier, then
    /// seek the decoder.
    Reposition { id: u64, flush: Option<Flush>, seconds: u64 },
    /// Connect to the audio service and shake hands.
    Connect,
    /// Ask for a stream and wait until it is created.
    CreateStream { generation: u64 },
    /// Render quanta until the ring is full or the media ends.
    Prefill { id: u64 },
    /// Send one message.
    Send(ClientMessage),
}

/// Where a chain of effects stands.
#[derive(Clone, Copy, Debug, PartialEq, Eq, Structural)]
pub enum Task {
    /// Waits for the decoder of a source.
    Opening { id: u64 },
    /// Waits for a reposition, then plays.
    Resuming { id: u64, seconds: u64, generation: u64 },
    /// Waits for a reposition that script asked for.
    Seeking { id: u64, seconds: u64, generation: u64, was_playing: bool },
    /// Waits for the connection, then asks for a stream.
    Connecting { id: u64 },
    /// Waits for a stream.
    Creating { id: u64 },
    /// Waits for the gain to be sent.
    Leveling { id: u64 },
    /// Waits for the ring to fill, then starts the stream.
    Filling { id: u64 },
    /// Waits for the connection, then sends a message.
    Asking { message: ClientMessage },
    /// Waits for the last message to be sent.
    Sending { id: u64 },
    /// Waits for a closing message to be sent, whether it can be or not.
    Closing { id: u64 },
}

/// Why a command failed.
#[derive(Clone, Copy, Debug, PartialEq, Eq, Structural)]
pub enum Failure {
    /// The media source is not loaded.
    NotLoaded,
    /// The generation counter is exhausted.
    GenerationExhausted,
    /// There is no stream to start.
    NoStream,
    /// An effect failed.
    Outside,
}

impl Failure {
    /// The message of the failure. What an effect failed with is known where it
    /// was performed.
    pub open spec fn text(self) -> Option<Seq<char>> {
        match self {
            Failure::NotLoaded => Some("media source is not loaded"@),
            Failure::GenerationExhausted => Some("media generation exhausted"@),
            Failure::NoStream => Some("audio stream was not created"@),
            Failure::Outside => None,
        }
    }

    /// Writes the message of the failure.
    pub fn message(self) -> (result: Option<&'static str>)
        ensures
            text_view(result) == self.text(),
    {
        match self {
            Failure::NotLoaded => Some("media source is not loaded"),
            Failure::GenerationExhausted => Some("media generation exhausted"),
            Failure::NoStream => Some("audio stream was not created"),
            Failure::Outside => None,
        }
    }
}

/// Whether the service's answer to a greeting accepts the session: a welcome of
/// the expected version that comes without a descriptor. `version` is that of a
/// welcome.
pub fn welcomed(version: Option<u32>, has_descriptor: bool, expected: u32) -> (result: bool)
    ensures
        result == (version == Some(expected) && !has_descriptor),
{
    match version {
        Some(version) => version == expected && !has_descriptor,
        None => false,
    }
}

/// What comes next.
#[derive(Clone, Copy, Debug, PartialEq, Eq, Structural)]
pub enum Next {
    /// The command is complete.
    Done,
    /// The command failed for this source; [`Worker::fail`] reports it.
    Failed { id: u64, failure: Failure },
    /// Perform an effect and continue the task with its outcome.
    Perform { effect: Effect, task: Task },
}

/// The outcome of an effect.
#[derive(Clone, Copy, Debug, PartialEq, Eq, Structural)]
pub enum Outcome {
    /// It failed.
    Failed,
    /// It succeeded.
    Done,
    /// The decoder is open; bits of the media's duration.
    Opened { duration: u64 },
    /// The stream was created.
    Created { stream_id: u64 },
}

/// One step: the events to publish, in order, and what comes next.
pub struct Progress {
    pub events: Vec<Event>,
    pub next: Next,
}

/// The media worker.
pub struct Worker {
    media: BTreeMap<u64, Media>,
    closing: BTreeMap<u64, u64>,
    connected: bool,
}

/// What a [`Worker`] holds.
pub struct WorkerView {
    /// Loaded sources by id.
    pub media: Map<u64, Media>,
    /// Generations of the streams whose close awaits acknowledgement.
    pub closing: Map<u64, u64>,
    /// The audio service is connected.
    pub connected: bool,
}

impl View for Worker {
    type V = WorkerView;

    closed spec fn view(&self) -> WorkerView {
        WorkerView { media: self.media@, closing: self.closing@, connected: self.connected }
    }
}

/// The state and the step that follow from a command or an outcome.
pub struct StepView {
    pub state: WorkerView,
    pub events: Seq<Event>,
    pub next: Next,
}

/// A step that publishes nothing.
pub open spec fn quiet(state: WorkerView, next: Next) -> StepView {
    StepView { state, events: Seq::empty(), next }
}

/// A source stored in the state.
pub open spec fn with_media(s: WorkerView, id: u64, m: Media) -> WorkerView {
    WorkerView { media: s.media.insert(id, m), ..s }
}

/// The message that closes the stream of a source.
pub open spec fn close_message(s: WorkerView, id: u64) -> Option<ClientMessage> {
    if s.media.contains_key(id) && s.media[id].stream_id is Some {
        Some(
            ClientMessage::Close {
                stream_id: s.media[id].stream_id->0,
                generation: s.media[id].generation,
            },
        )
    } else {
        None
    }
}

/// The state without a source; the close of its stream awaits acknowledgement.
pub open spec fn retired(s: WorkerView, id: u64) -> WorkerView {
    WorkerView {
        media: s.media.remove(id),
        closing: if s.media.contains_key(id) && s.media[id].stream_id is Some {
            s.closing.insert(s.media[id].stream_id->0, s.media[id].generation)
        } else {
            s.closing
        },
        ..s
    }
}

/// A failed command.
pub open spec fn failed(id: u64, failure: Failure) -> Next {
    Next::Failed { id, failure }
}

/// Moving a source to `seconds`; `task` waits for it.
pub open spec fn reposition(m: Media, id: u64, seconds: u64, task: Task) -> Next {
    Next::Perform {
        effect: Effect::Reposition {
            id,
            flush: match m.stream_id {
                Some(stream_id) => Some(
                    Flush {
                        stream_id,
                        old_generation: m.generation,
                        new_generation: (m.generation + 1) as u64,
                    },
                ),
                None => None,
            },
            seconds,
        },
        task,
    }
}

/// The ring of a source is to be filled.
pub open spec fn prefill(id: u64) -> Next {
    Next::Perform { effect: Effect::Prefill { id }, task: Task::Filling { id } }
}

/// A source that stands at its position starts to play: its stream is created
/// if it has none, and its ring is filled.
pub open spec fn play_step(s: WorkerView, id: u64) -> StepView {
    let m = s.media[id];
    if m.playing || m.starting {
        quiet(s, Next::Done)
    } else {
        StepView {
            state: with_media(s, id, Media { starting: true, ..m }),
            events: seq![Event::Play { id }],
            next: if m.stream_id is Some {
                prefill(id)
            } else if s.connected {
                Next::Perform {
                    effect: Effect::CreateStream { generation: m.generation },
                    task: Task::Creating { id },
                }
            } else {
                Next::Perform { effect: Effect::Connect, task: Task::Connecting { id } }
            },
        }
    }
}

/// A message that needs the service.
pub open spec fn ask_step(s: WorkerView, message: ClientMessage) -> StepView {
    quiet(
        s,
        if s.connected {
            Next::Perform { effect: Effect::Send(message), task: Task::Sending { id: 0 } }
        } else {
            Next::Perform { effect: Effect::Connect, task: Task::Asking { message } }
        },
    )
}

/// The first step of a command.
pub open spec fn command_step(s: WorkerView, command: Command) -> StepView {
    match command {
        Command::Load { id } => quiet(
            retired(s, id),
            Next::Perform {
                effect: Effect::OpenDecoder { id, close: close_message(s, id) },
                task: Task::Opening { id },
            },
        ),
        Command::Play { id } => if !s.media.contains_key(id) {
            quiet(s, failed(id, Failure::NotLoaded))
        } else if s.media[id].resume_position is Some {
            if s.media[id].generation == u64::MAX {
                quiet(s, failed(id, Failure::GenerationExhausted))
            } else {
                let seconds = s.media[id].resume_position->0;
                quiet(
                    s,
                    reposition(
                        s.media[id],
                        id,
                        seconds,
                        Task::Resuming {
                            id,
                            seconds,
                            generation: (s.media[id].generation + 1) as u64,
                        },
                    ),
                )
            }
        } else {
            play_step(s, id)
        },
        Command::Pause { id } => if !s.media.contains_key(id) {
            quiet(s, failed(id, Failure::NotLoaded))
        } else if !s.media[id].playing && !s.media[id].starting {
            quiet(s, Next::Done)
        } else {
            match s.media[id].stream_id {
                Some(stream_id) => quiet(
                    s,
                    Next::Perform {
                        effect: Effect::Send(
                            ClientMessage::Pause { stream_id, generation: s.media[id].generation },
                        ),
                        task: Task::Sending { id },
                    },
                ),
                None => StepView {
                    state: s,
                    events: seq![
                        Event::TimeUpdate { id, seconds: s.media[id].base_seconds },
                        Event::Pause { id },
                    ],
                    next: Next::Done,
                },
            }
        },
        Command::Seek { id, seconds } => StepView {
            state: s,
            events: seq![Event::Seeking { id, seconds }],
            next: if !s.media.contains_key(id) {
                failed(id, Failure::NotLoaded)
            } else if s.media[id].generation == u64::MAX {
                failed(id, Failure::GenerationExhausted)
            } else {
                reposition(
                    s.media[id],
                    id,
                    seconds,
                    Task::Seeking {
                        id,
                        seconds,
                        generation: (s.media[id].generation + 1) as u64,
                        was_playing: s.media[id].playing || s.media[id].starting,
                    },
                )
            },
        },
        Command::Gain { id, gain } => if !s.media.contains_key(id) {
            quiet(s, failed(id, Failure::NotLoaded))
        } else {
            let m = s.media[id];
            quiet(
                with_media(s, id, Media { gain, ..m }),
                match m.stream_id {
                    Some(stream_id) => Next::Perform {
                        effect: Effect::Send(
                            ClientMessage::SetGain { stream_id, generation: m.generation, gain },
                        ),
                        task: Task::Sending { id },
                    },
                    None => Next::Done,
                },
            )
        },
        Command::Loop { id, enabled } => if !s.media.contains_key(id) {
            quiet(s, failed(id, Failure::NotLoaded))
        } else {
            quiet(
                with_media(s, id, Media { loop_enabled: enabled, ..s.media[id] }),
                Next::Done,
            )
        },
        Command::Close { id } => quiet(
            retired(s, id),
            match close_message(s, id) {
                Some(message) => Next::Perform {
                    effect: Effect::Send(message),
                    task: Task::Closing { id },
                },
                None => Next::Done,
            },
        ),
        Command::GetMasterState => ask_step(s, ClientMessage::GetMasterState),
        Command::SetMasterVolume { percent } => ask_step(
            s,
            ClientMessage::SetMasterVolume { percent },
        ),
        Command::SetMasterMuted { muted } => ask_step(s, ClientMessage::SetMasterMuted { muted }),
    }
}

/// The source that a task works for.
pub open spec fn task_source(task: Task) -> u64 {
    match task {
        Task::Opening { id } => id,
        Task::Resuming { id, .. } => id,
        Task::Seeking { id, .. } => id,
        Task::Connecting { id } => id,
        Task::Creating { id } => id,
        Task::Leveling { id } => id,
        Task::Filling { id } => id,
        Task::Asking { .. } => 0,
        Task::Sending { id } => id,
        Task::Closing { id } => id,
    }
}

/// The step after an effect that succeeded for a loaded source.
pub open spec fn loaded_step(s: WorkerView, task: Task, outcome: Outcome) -> StepView {
    let id = task_source(task);
    let m = s.media[id];
    match task {
        Task::Resuming { seconds, generation, .. } => {
            let after = with_media(s, id, repositioned(m, seconds, generation));
            play_step(after, id)
        },
        Task::Seeking { seconds, generation, was_playing, .. } => StepView {
            state: with_media(s, id, repositioned(m, seconds, generation)),
            events: seq![Event::TimeUpdate { id, seconds }, Event::Seeked { id, seconds }],
            next: if was_playing {
                prefill(id)
            } else {
                Next::Done
            },
        },
        Task::Connecting { .. } => quiet(
            WorkerView { connected: true, ..s },
            Next::Perform {
                effect: Effect::CreateStream { generation: m.generation },
                task: Task::Creating { id },
            },
        ),
        Task::Creating { .. } => match outcome {
            Outcome::Created { stream_id } => quiet(
                with_media(s, id, Media { stream_id: Some(stream_id), ..m }),
                if m.gain != UNIT_GAIN {
                    Next::Perform {
                        effect: Effect::Send(
                            ClientMessage::SetGain {
                                stream_id,
                                generation: m.generation,
                                gain: m.gain,
                            },
                        ),
                        task: Task::Leveling { id },
                    }
                } else {
                    prefill(id)
                },
            ),
            _ => quiet(s, failed(id, Failure::Outside)),
        },
        Task::Leveling { .. } => quiet(s, prefill(id)),
        Task::Filling { .. } => match m.stream_id {
            Some(stream_id) => quiet(
                with_media(s, id, Media { starting: true, ..m }),
                Next::Perform {
                    effect: Effect::Send(
                        ClientMessage::Start { stream_id, generation: m.generation },
                    ),
                    task: Task::Sending { id },
                },
            ),
            None => quiet(s, failed(id, Failure::NoStream)),
        },
        _ => quiet(s, Next::Done),
    }
}

/// The step after an effect.
pub open spec fn outcome_step(s: WorkerView, task: Task, outcome: Outcome) -> StepView {
    let id = task_source(task);
    if task is Closing {
        quiet(s, Next::Done)
    } else if outcome == Outcome::Failed {
        quiet(s, failed(id, Failure::Outside))
    } else {
        match task {
            Task::Opening { .. } => match outcome {
                Outcome::Opened { duration } => StepView {
                    state: with_media(s, id, fresh()),
                    events: seq![
                        Event::DurationChange { id, seconds: duration },
                        Event::LoadedMetadata { id },
                    ],
                    next: Next::Done,
                },
                _ => quiet(s, failed(id, Failure::Outside)),
            },
            Task::Asking { message } => quiet(
                WorkerView { connected: true, ..s },
                Next::Perform { effect: Effect::Send(message), task: Task::Sending { id } },
            ),
            Task::Sending { .. } => quiet(s, Next::Done),
            _ => if s.media.contains_key(id) {
                loaded_step(s, task, outcome)
            } else {
                quiet(s, failed(id, Failure::NotLoaded))
            },
        }
    }
}

/// The state after a failure was reported: the source no longer starts.
pub open spec fn settled(s: WorkerView, id: u64) -> WorkerView {
    if s.media.contains_key(id) {
        with_media(s, id, Media { starting: false, ..s.media[id] })
    } else {
        s
    }
}

fn silent(next: Next) -> (result: Progress)
    ensures
        result.events@ == Seq::<Event>::empty(),
        result.next == next,
{
    let events: Vec<Event> = Vec::new();
    assert(events@ =~= Seq::<Event>::empty());
    Progress { events, next }
}

fn one(event: Event, next: Next) -> (result: Progress)
    ensures
        result.events@ == seq![event],
        result.next == next,
{
    let mut events: Vec<Event> = Vec::new();
    events.push(event);
    assert(events@ =~= seq![event]);
    Progress { events, next }
}

fn two(first: Event, second: Event, next: Next) -> (result: Progress)
    ensures
        result.events@ == seq![first, second],
        result.next == next,
{
    let mut events: Vec<Event> = Vec::new();
    events.push(first);
    events.push(second);
    assert(events@ =~= seq![first, second]);
    Progress { events, next }
}

fn reposition_next(m: Media, id: u64, seconds: u64, generation: u64, task: Task) -> (result: Next)
    requires
        generation == m.generation + 1,
    ensures
        result == reposition(m, id, seconds, task),
{
    let flush: Option<Flush> = match m.stream_id {
        Some(stream_id) => Some(
            Flush { stream_id, old_generation: m.generation, new_generation: generation },
        ),
        None => None,
    };
    Next::Perform { effect: Effect::Reposition { id, flush, seconds }, task }
}

/// A step agrees with what was specified for it.
pub open spec fn agrees(state: WorkerView, progress: Progress, expected: StepView) -> bool {
    &&& state == expected.state
    &&& progress.events@ == expected.events
    &&& progress.next == expected.next
}

impl Worker {
    /// A worker without sources.
    pub fn new() -> (result: Self)
        ensures
            result@.media == Map::<u64, Media>::empty(),
            result@.closing == Map::<u64, u64>::empty(),
            !result@.connected,
    {
        Worker { media: BTreeMap::new(), closing: BTreeMap::new(), connected: false }
    }

    /// The state of one source.
    pub fn media(&self, id: u64) -> (result: Option<Media>)
        ensures
            result == (if self@.media.contains_key(id) {
                Some(self@.media[id])
            } else {
                None
            }),
    {
        match self.media.get(&id) {
            Some(m) => Some(*m),
            None => None,
        }
    }

    fn store(&mut self, id: u64, m: Media)
        ensures
            final(self)@ == with_media(old(self)@, id, m),
    {
        self.media.insert(id, m);
        assert(self@.media =~= old(self)@.media.insert(id, m));
    }

    fn retire(&mut self, id: u64) -> (result: Option<ClientMessage>)
        ensures
            result == close_message(old(self)@, id),
            final(self)@ == retired(old(self)@, id),
    {
        let mut message: Option<ClientMessage> = None;
        if let Some(m) = self.media(id) {
            if let Some(stream_id) = m.stream_id {
                self.closing.insert(stream_id, m.generation);
                message = Some(ClientMessage::Close { stream_id, generation: m.generation });
            }
        }
        self.media.remove(&id);
        assert(self@.media =~= old(self)@.media.remove(id));
        message
    }

    fn begin_play(&mut self, id: u64) -> (result: Progress)
        requires
            old(self)@.media.contains_key(id),
        ensures
            agrees(final(self)@, result, play_step(old(self)@, id)),
    {
        let m: Media = match self.media(id) {
            Some(m) => m,
            None => return silent(Next::Failed { id, failure: Failure::NotLoaded }),
        };
        if m.playing || m.starting {
            return silent(Next::Done);
        }
        self.store(id, Media { starting: true, ..m });
        let next = if m.stream_id.is_some() {
            Next::Perform { effect: Effect::Prefill { id }, task: Task::Filling { id } }
        } else if self.connected {
            Next::Perform {
                effect: Effect::CreateStream { generation: m.generation },
                task: Task::Creating { id },
            }
        } else {
            Next::Perform { effect: Effect::Connect, task: Task::Connecting { id } }
        };
        one(Event::Play { id }, next)
    }

    fn ask(&self, message: ClientMessage) -> (result: Progress)
        ensures
            agrees(self@, result, ask_step(self@, message)),
    {
        silent(
            if self.connected {
                Next::Perform { effect: Effect::Send(message), task: Task::Sending { id: 0 } }
            } else {
                Next::Perform { effect: Effect::Connect, task: Task::Asking { message } }
            },
        )
    }

    /// Starts one command.
    pub fn handle(&mut self, command: Command) -> (result: Progress)
        ensures
            agrees(final(self)@, result, command_step(old(self)@, command)),
    {
        match command {
            Command::Load { id } => {
                let close = self.retire(id);
                silent(
                    Next::Perform {
                        effect: Effect::OpenDecoder { id, close },
                        task: Task::Opening { id },
                    },
                )
            },
            Command::Play { id } => {
                let m: Media = match self.media(id) {
                    Some(m) => m,
                    None => return silent(Next::Failed { id, failure: Failure::NotLoaded }),
                };
                match m.resume_position {
                    None => self.begin_play(id),
                    Some(seconds) => {
                        if m.generation == 0xffff_ffff_ffff_ffff {
                            return silent(
                                Next::Failed { id, failure: Failure::GenerationExhausted },
                            );
                        }
                        let generation: u64 = m.generation + 1;
                        silent(
                            reposition_next(
                                m,
                                id,
                                seconds,
                                generation,
                                Task::Resuming { id, seconds, generation },
                            ),
                        )
                    },
                }
            },
            Command::Pause { id } => {
                let m: Media = match self.media(id) {
                    Some(m) => m,
                    None => return silent(Next::Failed { id, failure: Failure::NotLoaded }),
                };
                if !m.playing && !m.starting {
                    return silent(Next::Done);
                }
                match m.stream_id {
                    Some(stream_id) => silent(
                        Next::Perform {
                            effect: Effect::Send(
                                ClientMessage::Pause { stream_id, generation: m.generation },
                            ),
                            task: Task::Sending { id },
                        },
                    ),
                    None => two(
                        Event::TimeUpdate { id, seconds: m.base_seconds },
                        Event::Pause { id },
                        Next::Done,
                    ),
                }
            },
            Command::Seek { id, seconds } => {
                let next = match self.media(id) {
                    None => Next::Failed { id, failure: Failure::NotLoaded },
                    Some(m) => {
                        if m.generation == 0xffff_ffff_ffff_ffff {
                            Next::Failed { id, failure: Failure::GenerationExhausted }
                        } else {
                            let generation: u64 = m.generation + 1;
                            reposition_next(
                                m,
                                id,
                                seconds,
                                generation,
                                Task::Seeking {
                                    id,
                                    seconds,
                                    generation,
                                    was_playing: m.playing || m.starting,
                                },
                            )
                        }
                    },
                };
                one(Event::Seeking { id, seconds }, next)
            },
            Command::Gain { id, gain } => {
                let m: Media = match self.media(id) {
                    Some(m) => m,
                    None => return silent(Next::Failed { id, failure: Failure::NotLoaded }),
                };
                self.store(id, Media { gain, ..m });
                silent(
                    match m.stream_id {
                        Some(stream_id) => Next::Perform {
                            effect: Effect::Send(
                                ClientMessage::SetGain {
                                    stream_id,
                                    generation: m.generation,
                                    gain,
                                },
                            ),
                            task: Task::Sending { id },
                        },
                        None => Next::Done,
                    },
                )
            },
            Command::Loop { id, enabled } => {
                let m: Media = match self.media(id) {
                    Some(m) => m,
                    None => return silent(Next::Failed { id, failure: Failure::NotLoaded }),
                };
                self.store(id, Media { loop_enabled: enabled, ..m });
                silent(Next::Done)
            },
            Command::Close { id } => {
                let close = self.retire(id);
                silent(
                    match close {
                        Some(message) => Next::Perform {
                            effect: Effect::Send(message),
                            task: Task::Closing { id },
                        },
                        None => Next::Done,
                    },
                )
            },
            Command::GetMasterState => self.ask(ClientMessage::GetMasterState),
            Command::SetMasterVolume { percent } => self.ask(
                ClientMessage::SetMasterVolume { percent },
            ),
            Command::SetMasterMuted { muted } => self.ask(ClientMessage::SetMasterMuted { muted }),
        }
    }

    fn advance_loaded(&mut self, id: u64, m: Media, task: Task, outcome: Outcome) -> (result: Progress)
        requires
            old(self)@.media.contains_key(id),
            old(self)@.media[id] == m,
            id == task_source(task),
        ensures
            agrees(final(self)@, result, loaded_step(old(self)@, task, outcome)),
    {
        match task {
            Task::Resuming { seconds, generation, .. } => {
                self.store(id, reposition_media(m, seconds, generation));
                self.begin_play(id)
            },
            Task::Seeking { seconds, generation, was_playing, .. } => {
                self.store(id, reposition_media(m, seconds, generation));
                two(
                    Event::TimeUpdate { id, seconds },
                    Event::Seeked { id, seconds },
                    if was_playing {
                        Next::Perform { effect: Effect::Prefill { id }, task: Task::Filling { id } }
                    } else {
                        Next::Done
                    },
                )
            },
            Task::Connecting { .. } => {
                self.connected = true;
                silent(
                    Next::Perform {
                        effect: Effect::CreateStream { generation: m.generation },
                        task: Task::Creating { id },
                    },
                )
            },
            Task::Creating { .. } => match outcome {
                Outcome::Created { stream_id } => {
                    self.store(id, Media { stream_id: Some(stream_id), ..m });
                    silent(
                        if m.gain != UNIT_GAIN {
                            Next::Perform {
                                effect: Effect::Send(
                                    ClientMessage::SetGain {
                                        stream_id,
                                        generation: m.generation,
                                        gain: m.gain,
                                    },
                                ),
                                task: Task::Leveling { id },
                            }
                        } else {
                            Next::Perform {
                                effect: Effect::Prefill { id },
                                task: Task::Filling { id },
                            }
                        },
                    )
                },
                _ => silent(Next::Failed { id, failure: Failure::Outside }),
            },
            Task::Leveling { .. } => silent(
                Next::Perform { effect: Effect::Prefill { id }, task: Task::Filling { id } },
            ),
            Task::Filling { .. } => match m.stream_id {
                Some(stream_id) => {
                    self.store(id, Media { starting: true, ..m });
                    silent(
                        Next::Perform {
                            effect: Effect::Send(
                                ClientMessage::Start { stream_id, generation: m.generation },
                            ),
                            task: Task::Sending { id },
                        },
                    )
                },
                None => silent(Next::Failed { id, failure: Failure::NoStream }),
            },
            _ => silent(Next::Done),
        }
    }

    /// Continues a task with the outcome of its effect.
    pub fn advance(&mut self, task: Task, outcome: Outcome) -> (result: Progress)
        ensures
            agrees(final(self)@, result, outcome_step(old(self)@, task, outcome)),
    {
        let id: u64 = match task {
            Task::Opening { id } => id,
            Task::Resuming { id, .. } => id,
            Task::Seeking { id, .. } => id,
            Task::Connecting { id } => id,
            Task::Creating { id } => id,
            Task::Leveling { id } => id,
            Task::Filling { id } => id,
            Task::Asking { .. } => 0,
            Task::Sending { id } => id,
            Task::Closing { .. } => return silent(Next::Done),
        };
        if outcome == Outcome::Failed {
            return silent(Next::Failed { id, failure: Failure::Outside });
        }
        match task {
            Task::Opening { .. } => match outcome {
                Outcome::Opened { duration } => {
                    self.store(
                        id,
                        Media {
                            generation: 1,
                            stream_id: None,
                            playing: false,
                            starting: false,
                            ending: false,
                            loop_enabled: false,
                            gain: UNIT_GAIN,
                            base_seconds: 0,
                            submitted_frames: 0,
                            consumed_frames: 0,
                            decode_eof: false,
                            resume_position: None,
                        },
                    );
                    two(
                        Event::DurationChange { id, seconds: duration },
                        Event::LoadedMetadata { id },
                        Next::Done,
                    )
                },
                _ => silent(Next::Failed { id, failure: Failure::Outside }),
            },
            Task::Asking { message } => {
                self.connected = true;
                silent(
                    Next::Perform { effect: Effect::Send(message), task: Task::Sending { id } },
                )
            },
            Task::Sending { .. } => silent(Next::Done),
            _ => match self.media(id) {
                Some(m) => self.advance_loaded(id, m, task, outcome),
                None => silent(Next::Failed { id, failure: Failure::NotLoaded }),
            },
        }
    }

    /// Reports a failed command: the source no longer starts, and script is
    /// told.
    pub fn fail(&mut self, id: u64) -> (result: Event)
        ensures
            result == (Event::Error { id, code: DECODE_ERROR }),
            final(self)@ == settled(old(self)@, id),
    {
        if let Some(m) = self.media(id) {
            self.store(id, Media { starting: false, ..m });
        }
        Event::Error { id, code: DECODE_ERROR }
    }

    /// Whether the next quantum may be rendered.
    pub fn fill_wanted(&self, id: u64, produced: u64, consumed: u64) -> (result: Result<
        bool,
        FillError,
    >)
        ensures
            match result {
                Err(FillError::NotLoaded) => !self@.media.contains_key(id),
                Err(FillError::NoStream) => self@.media.contains_key(id)
                    && self@.media[id].stream_id is None,
                Err(FillError::RingMovedBackwards) => self@.media.contains_key(id)
                    && self@.media[id].stream_id is Some && consumed > produced,
                Err(FillError::Rejected) => false,
                Ok(wanted) => self@.media.contains_key(id) && self@.media[id].stream_id is Some
                    && consumed <= produced && wanted == room_for_quantum(
                    produced as int,
                    consumed as int,
                ),
            },
    {
        let m: Media = match self.media(id) {
            Some(m) => m,
            None => return Err(FillError::NotLoaded),
        };
        if m.stream_id.is_none() {
            return Err(FillError::NoStream);
        }
        match quantum_fits(produced, consumed) {
            Ok(wanted) => Ok(wanted),
            Err(_) => Err(FillError::RingMovedBackwards),
        }
    }

    /// Records that the decoder has reached the end of the media.
    pub fn reach_end(&mut self, id: u64)
        ensures
            final(self)@ == (if old(self)@.media.contains_key(id) {
                with_media(
                    old(self)@,
                    id,
                    Media { decode_eof: true, ..old(self)@.media[id] },
                )
            } else {
                old(self)@
            }),
    {
        if let Some(m) = self.media(id) {
            self.store(id, Media { decode_eof: true, ..m });
        }
    }

    /// Records that a quantum of `frames` was offered to the ring, which took
    /// `written` of them. The first quantum of a timeline tells script that
    /// data has arrived.
    pub fn submit(&mut self, id: u64, frames: u64, written: u64) -> (result: Result<
        Vec<Event>,
        FillError,
    >)
        requires
            old(self)@.media.contains_key(id) ==> old(self)@.media[id].submitted_frames + written
                <= u64::MAX,
        ensures
            match result {
                Err(FillError::NotLoaded) => !old(self)@.media.contains_key(id) && final(self)@
                    == old(self)@,
                Err(FillError::Rejected) => old(self)@.media.contains_key(id) && written != frames
                    && final(self)@ == submitted(old(self)@, id, written),
                Err(_) => false,
                Ok(events) => {
                    &&& old(self)@.media.contains_key(id)
                    &&& written == frames
                    &&& final(self)@ == submitted(old(self)@, id, written)
                    &&& events@ == (if final(self)@.media[id].submitted_frames == frames {
                        seq![Event::LoadedData { id }, Event::CanPlay { id }]
                    } else {
                        Seq::empty()
                    })
                },
            },
    {
        let m: Media = match self.media(id) {
            Some(m) => m,
            None => return Err(FillError::NotLoaded),
        };
        let total: u64 = m.submitted_frames + written;
        self.store(id, Media { submitted_frames: total, ..m });
        if written != frames {
            return Err(FillError::Rejected);
        }
        let mut events: Vec<Event> = Vec::new();
        if total == frames {
            events.push(Event::LoadedData { id });
            events.push(Event::CanPlay { id });
            assert(events@ =~= seq![Event::LoadedData { id }, Event::CanPlay { id }]);
        } else {
            assert(events@ =~= Seq::<Event>::empty());
        }
        Ok(events)
    }
}

/// The state after frames were written to the ring.
pub open spec fn submitted(s: WorkerView, id: u64, written: u64) -> WorkerView {
    with_media(
        s,
        id,
        Media {
            submitted_frames: (s.media[id].submitted_frames + written) as u64,
            ..s.media[id]
        },
    )
}

/// Why a quantum could not be rendered.
#[derive(Clone, Copy, Debug, PartialEq, Eq, Structural)]
pub enum FillError {
    /// The media source is not loaded.
    NotLoaded,
    /// The audio stream is absent.
    NoStream,
    /// The ring's indices moved backwards.
    RingMovedBackwards,
    /// The ring rejected a bounded quantum.
    Rejected,
}

impl FillError {
    /// The message of the error.
    pub open spec fn text(self) -> Seq<char> {
        match self {
            FillError::NotLoaded => "media source is not loaded"@,
            FillError::NoStream => "audio stream is absent"@,
            FillError::RingMovedBackwards => "audio ring indices moved backwards"@,
            FillError::Rejected => "audio ring rejected a bounded render quantum"@,
        }
    }

    /// Writes the message of the error.
    pub fn message(self) -> (result: &'static str)
        ensures
            result@ == self.text(),
    {
        match self {
            FillError::NotLoaded => "media source is not loaded",
            FillError::NoStream => "audio stream is absent",
            FillError::RingMovedBackwards => "audio ring indices moved backwards",
            FillError::Rejected => "audio ring rejected a bounded render quantum",
        }
    }
}

fn reposition_media(m: Media, seconds: u64, generation: u64) -> (result: Media)
    ensures
        result == repositioned(m, seconds, generation),
{
    Media {
        generation,
        base_seconds: seconds,
        submitted_frames: 0,
        consumed_frames: 0,
        decode_eof: false,
        playing: false,
        starting: false,
        ending: false,
        resume_position: None,
        ..m
    }
}

/// Playing a source that plays or starts already changes nothing and asks for
/// nothing.
pub proof fn play_is_idempotent(s: WorkerView, id: u64)
    requires
        s.media.contains_key(id),
        s.media[id].resume_position is None,
        s.media[id].playing || s.media[id].starting,
    ensures
        command_step(s, Command::Play { id }) == quiet(s, Next::Done),
{
}

/// A command for a source that is not loaded fails and changes nothing; only
/// loading and closing accept any id.
pub proof fn unknown_sources_are_refused(s: WorkerView, id: u64, seconds: u64, gain: u32, enabled: bool)
    requires
        !s.media.contains_key(id),
    ensures
        command_step(s, Command::Play { id }) == quiet(s, failed(id, Failure::NotLoaded)),
        command_step(s, Command::Pause { id }) == quiet(s, failed(id, Failure::NotLoaded)),
        command_step(s, Command::Gain { id, gain }) == quiet(s, failed(id, Failure::NotLoaded)),
        command_step(s, Command::Loop { id, enabled }) == quiet(s, failed(id, Failure::NotLoaded)),
        command_step(s, Command::Seek { id, seconds }).next == failed(id, Failure::NotLoaded),
        command_step(s, Command::Seek { id, seconds }).state == s,
{
}

/// Closing forgets the source, and the close of its stream awaits its
/// acknowledgement under the generation it had.
pub proof fn close_forgets_the_source(s: WorkerView, id: u64)
    ensures
        !command_step(s, Command::Close { id }).state.media.contains_key(id),
        s.media.contains_key(id) && s.media[id].stream_id is Some ==> command_step(
            s,
            Command::Close { id },
        ).state.closing[s.media[id].stream_id->0] == s.media[id].generation,
{
}

/// Closing always succeeds, whether the service can be told or not.
pub proof fn close_never_fails(s: WorkerView, id: u64, outcome: Outcome)
    ensures
        ({
            let first = command_step(s, Command::Close { id });
            first.next == Next::Done || (first.next matches Next::Perform { task, .. }
                && outcome_step(first.state, task, outcome) == quiet(first.state, Next::Done))
        }),
{
}

/// Every completed reposition moves to a later generation, so that sound queued
/// under an earlier one can be told apart, and it never plays by itself.
pub proof fn repositions_advance_generations(s: WorkerView, id: u64, seconds: u64)
    requires
        s.media.contains_key(id),
        s.media[id].generation < u64::MAX,
    ensures
        ({
            let first = command_step(s, Command::Seek { id, seconds });
            let task = first.next->task;
            let second = outcome_step(first.state, task, Outcome::Done);
            &&& first.state == s
            &&& second.state.media[id].generation == s.media[id].generation + 1
            &&& second.state.media[id].base_seconds == seconds
            &&& !second.state.media[id].playing
            &&& !second.state.media[id].starting
            &&& second.state.media[id].stream_id == s.media[id].stream_id
        }),
{
}

/// An effect that fails leaves the state as it was. The command fails with it,
/// unless it only closes.
pub proof fn failed_effects_change_nothing(s: WorkerView, task: Task)
    ensures
        outcome_step(s, task, Outcome::Failed).state == s,
        outcome_step(s, task, Outcome::Failed).next is Failed <==> !(task is Closing),
{
}

} // verus!
