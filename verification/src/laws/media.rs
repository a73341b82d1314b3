//! How media sources are loaded, played and read.

use vstd::prelude::*;
use crate::audio::room_for_quantum;
use crate::audio::source::{
    best_duration, growing_step, target_position, BoundedFile, FoundDuration, GrowingRead,
    SeekTarget, StreamState, TrackFacts,
};
use crate::audio::worker::{
    command_step, outcome_step, settled, task_source, ClientMessage, Command, Effect, Event, Flush,
    Media, Next, Outcome, Task, WorkerView,
};

verus! {

/// The source that a command is about, if it is about one.
pub open spec fn about(command: Command) -> Option<u64> {
    match command {
        Command::Load { id } => Some(id),
        Command::Play { id } => Some(id),
        Command::Pause { id } => Some(id),
        Command::Seek { id, .. } => Some(id),
        Command::Gain { id, .. } => Some(id),
        Command::Loop { id, .. } => Some(id),
        Command::Close { id } => Some(id),
        _ => None,
    }
}

/// A command leaves every source alone that it is not about.
pub proof fn commands_leave_other_sources_alone(s: WorkerView, command: Command, other: u64)
    requires
        about(command) != Some(other),
    ensures
        ({
            let after = command_step(s, command).state;
            &&& after.media.contains_key(other) == s.media.contains_key(other)
            &&& s.media.contains_key(other) ==> after.media[other] == s.media[other]
            &&& after.connected == s.connected
        }),
{
}

/// The outcome of an effect changes no source but its own.
pub proof fn outcomes_leave_other_sources_alone(
    s: WorkerView,
    task: Task,
    outcome: Outcome,
    other: u64,
)
    requires
        task_source(task) != other,
    ensures
        ({
            let after = outcome_step(s, task, outcome).state;
            &&& after.media.contains_key(other) == s.media.contains_key(other)
            &&& s.media.contains_key(other) ==> after.media[other] == s.media[other]
            &&& after.closing == s.closing
            &&& s.connected ==> after.connected
        }),
{
}

/// Loading opens the decoder of the source, with the stream that it had closed,
/// and forgets what was loaded before; once it is open, the source stands at its
/// start, silent, at full gain, and script learns the duration first.
pub proof fn loading_starts_over(s: WorkerView, id: u64, duration: u64)
    ensures
        ({
            let step = command_step(s, Command::Load { id });
            let task = step.next->task;
            let opened = outcome_step(step.state, task, Outcome::Opened { duration });
            &&& step.next is Perform
            &&& step.next->effect is OpenDecoder
            &&& step.next->effect->OpenDecoder_id == id
            &&& !step.state.media.contains_key(id)
            &&& s.media.contains_key(id) && s.media[id].stream_id is Some
                ==> step.next->effect->close == Some(
                ClientMessage::Close {
                    stream_id: s.media[id].stream_id->0,
                    generation: s.media[id].generation,
                },
            )
            &&& !s.media.contains_key(id) || s.media[id].stream_id is None
                ==> step.next->effect->close is None
            &&& opened.next == Next::Done
            &&& opened.events.len() == 2
            &&& opened.events[0] == (Event::DurationChange { id, seconds: duration })
            &&& opened.events[1] == (Event::LoadedMetadata { id })
            &&& opened.state.media.contains_key(id)
            &&& !opened.state.media[id].playing && !opened.state.media[id].starting
            &&& !opened.state.media[id].loop_enabled
            &&& opened.state.media[id].gain == 0x3f80_0000
            &&& opened.state.media[id].base_seconds == 0
            &&& opened.state.media[id].submitted_frames == 0
            &&& opened.state.media[id].stream_id is None
        }),
{
}

/// Playing an idle source tells script once, then leads to its stream: it is
/// connected first, then created, then leveled unless the gain is one, then
/// filled, then started, each step when the one before has succeeded.
pub proof fn playing_leads_to_a_started_stream(s: WorkerView, id: u64, stream_id: u64)
    requires
        s.media.contains_key(id),
        !s.media[id].playing,
        !s.media[id].starting,
        s.media[id].resume_position is None,
    ensures
        ({
            let m = s.media[id];
            let step = command_step(s, Command::Play { id });
            let create = Next::Perform {
                effect: Effect::CreateStream { generation: m.generation },
                task: Task::Creating { id },
            };
            let fill = Next::Perform { effect: Effect::Prefill { id }, task: Task::Filling { id } };
            &&& step.events == seq![Event::Play { id }]
            &&& step.state.media[id].starting
            &&& m.stream_id is Some ==> step.next == fill
            &&& m.stream_id is None && s.connected ==> step.next == create
            &&& m.stream_id is None && !s.connected ==> step.next == (Next::Perform {
                effect: Effect::Connect,
                task: Task::Connecting { id },
            }) && outcome_step(step.state, Task::Connecting { id }, Outcome::Done).next == create
                && outcome_step(
                step.state,
                Task::Connecting { id },
                Outcome::Done,
            ).state.connected
            &&& {
                let created = outcome_step(
                    step.state,
                    Task::Creating { id },
                    Outcome::Created { stream_id },
                );
                &&& created.state.media[id].stream_id == Some(stream_id)
                &&& m.gain == 0x3f80_0000 ==> created.next == fill
                &&& m.gain != 0x3f80_0000 ==> created.next == (Next::Perform {
                    effect: Effect::Send(
                        ClientMessage::SetGain {
                            stream_id,
                            generation: m.generation,
                            gain: m.gain,
                        },
                    ),
                    task: Task::Leveling { id },
                }) && outcome_step(created.state, Task::Leveling { id }, Outcome::Done).next == fill
                &&& outcome_step(created.state, Task::Filling { id }, Outcome::Done).next == (
                Next::Perform {
                    effect: Effect::Send(
                        ClientMessage::Start { stream_id, generation: m.generation },
                    ),
                    task: Task::Sending { id },
                })
            }
        }),
{
}

/// A source that plays or starts to play is not started again, and one that does
/// neither is not paused.
pub proof fn nothing_is_done_twice(s: WorkerView, id: u64)
    requires
        s.media.contains_key(id),
    ensures
        (s.media[id].playing || s.media[id].starting) && s.media[id].resume_position is None
            ==> command_step(s, Command::Play { id }).next == Next::Done && command_step(
            s,
            Command::Play { id },
        ).events.len() == 0 && command_step(s, Command::Play { id }).state == s,
        !s.media[id].playing && !s.media[id].starting ==> command_step(s, Command::Pause { id }).next
            == Next::Done && command_step(s, Command::Pause { id }).events.len() == 0,
{
}

/// Pausing a playing source tells the service to pause its own stream, in its own
/// generation; without a stream script is told at once, the position first.
pub proof fn pausing_stops_the_stream(s: WorkerView, id: u64)
    requires
        s.media.contains_key(id),
        s.media[id].playing || s.media[id].starting,
    ensures
        s.media[id].stream_id matches Some(stream_id) ==> command_step(
            s,
            Command::Pause { id },
        ).next == (Next::Perform {
            effect: Effect::Send(
                ClientMessage::Pause { stream_id, generation: s.media[id].generation },
            ),
            task: Task::Sending { id },
        }),
        s.media[id].stream_id is None ==> command_step(s, Command::Pause { id }).events == seq![
            Event::TimeUpdate { id, seconds: s.media[id].base_seconds },
            Event::Pause { id },
        ],
{
}

/// Seeking tells script, flushes the stream into the next generation and moves
/// the decoder to the wanted position. Then the source stands there with nothing
/// submitted, script is told the position and that the seek is over, and a source
/// that played goes on.
pub proof fn seeking_moves_to_the_position(s: WorkerView, id: u64, seconds: u64)
    requires
        s.media.contains_key(id),
        s.media[id].generation < u64::MAX,
    ensures
        ({
            let m = s.media[id];
            let step = command_step(s, Command::Seek { id, seconds });
            let done = outcome_step(step.state, step.next->task, Outcome::Done);
            let after = done.state.media[id];
            &&& step.events == seq![Event::Seeking { id, seconds }]
            &&& step.state == s
            &&& step.next is Perform
            &&& step.next->effect is Reposition
            &&& step.next->effect->Reposition_id == id
            &&& step.next->effect->seconds == seconds
            &&& m.stream_id matches Some(stream_id) ==> step.next->effect->flush == Some(
                Flush {
                    stream_id,
                    old_generation: m.generation,
                    new_generation: (m.generation + 1) as u64,
                },
            )
            &&& m.stream_id is None ==> step.next->effect->flush is None
            &&& after.base_seconds == seconds
            &&& after.generation == m.generation + 1
            &&& after.submitted_frames == 0 && after.consumed_frames == 0 && !after.decode_eof
            &&& after.stream_id == m.stream_id && after.gain == m.gain && after.loop_enabled
                == m.loop_enabled
            &&& done.events == seq![Event::TimeUpdate { id, seconds }, Event::Seeked { id, seconds }]
            &&& m.playing || m.starting ==> done.next == (Next::Perform {
                effect: Effect::Prefill { id },
                task: Task::Filling { id },
            })
            &&& !m.playing && !m.starting ==> done.next == Next::Done
        }),
{
}

/// A gain is kept and told to the stream of the source, where there is one; the
/// loop flag is kept. Neither changes anything else of the source.
pub proof fn settings_are_kept(s: WorkerView, id: u64, gain: u32, enabled: bool)
    requires
        s.media.contains_key(id),
    ensures
        command_step(s, Command::Gain { id, gain }).state.media[id] == (Media {
            gain,
            ..s.media[id]
        }),
        s.media[id].stream_id matches Some(stream_id) ==> command_step(
            s,
            Command::Gain { id, gain },
        ).next == (Next::Perform {
            effect: Effect::Send(
                ClientMessage::SetGain { stream_id, generation: s.media[id].generation, gain },
            ),
            task: Task::Sending { id },
        }),
        s.media[id].stream_id is None ==> command_step(s, Command::Gain { id, gain }).next
            == Next::Done,
        command_step(s, Command::Loop { id, enabled }).state.media[id] == (Media {
            loop_enabled: enabled,
            ..s.media[id]
        }),
        command_step(s, Command::Loop { id, enabled }).next == Next::Done,
{
}

/// Closing a source forgets it, tells the service to close its stream, and
/// remembers in which generation until the service has answered.
pub proof fn closing_tells_the_service(s: WorkerView, id: u64, stream_id: u64)
    requires
        s.media.contains_key(id),
        s.media[id].stream_id == Some(stream_id),
    ensures
        ({
            let step = command_step(s, Command::Close { id });
            &&& !step.state.media.contains_key(id)
            &&& step.state.closing.contains_key(stream_id)
            &&& step.state.closing[stream_id] == s.media[id].generation
            &&& step.next is Perform
            &&& step.next->effect == Effect::Send(
                ClientMessage::Close { stream_id, generation: s.media[id].generation },
            )
        }),
{
}

/// Questions about the master volume go to the service as they are, after a
/// connection where there is none.
pub proof fn master_requests_reach_the_service(s: WorkerView, percent: u8, muted: bool)
    ensures
        s.connected ==> command_step(s, Command::SetMasterVolume { percent }).next->effect
            == Effect::Send(ClientMessage::SetMasterVolume { percent }),
        s.connected ==> command_step(s, Command::SetMasterMuted { muted }).next->effect
            == Effect::Send(ClientMessage::SetMasterMuted { muted }),
        s.connected ==> command_step(s, Command::GetMasterState).next->effect == Effect::Send(
            ClientMessage::GetMasterState,
        ),
        !s.connected ==> {
            let step = command_step(s, Command::SetMasterVolume { percent });
            let asked = outcome_step(step.state, step.next->task, Outcome::Done);
            &&& step.next->effect == Effect::Connect
            &&& asked.state.connected
            &&& asked.next->effect == Effect::Send(ClientMessage::SetMasterVolume { percent })
        },
{
}

/// A source whose start failed no longer starts, and is otherwise as it was.
pub proof fn failed_starts_are_over(s: WorkerView, id: u64)
    requires
        s.media.contains_key(id),
    ensures
        settled(s, id).media[id] == (Media { starting: false, ..s.media[id] }),
        settled(s, id).closing == s.closing,
{
}

/// One more quantum fits while it leaves the ring at most full.
pub proof fn rings_hold_their_capacity(produced: int, consumed: int)
    ensures
        room_for_quantum(produced, consumed) <==> produced - consumed <= 8192 - 128,
{
}

/// A target counts from the start, from where the reader is, or from the end.
pub proof fn targets_count_from_their_origin(position: u64, end: u64, n: u64, d: i64)
    ensures
        target_position(SeekTarget::Start(n), position, end) == n,
        target_position(SeekTarget::Current(d), position, end) - position == d,
        target_position(SeekTarget::End(d), position, end) - end == d,
        target_position(SeekTarget::Current(0), position, end) == position,
        target_position(SeekTarget::End(0), position, end) == end,
{
}

/// What is left of a range is what lies behind the position, and nothing behind
/// its end.
pub proof fn ranges_end_where_they_end(file: BoundedFile)
    ensures
        file.position <= file.length ==> file.position + file.remaining() == file.length,
        file.position > file.length ==> file.remaining() == 0,
{
}

/// A growing file gives what has come and no more, waits while more may come, and
/// ends when nothing more comes; a failure is told first.
pub proof fn growing_files_give_what_came(state: StreamState, position: u64, room: usize)
    ensures
        state.error is Some ==> growing_step(state, position, room) == GrowingRead::Failed,
        state.error is None && position < state.received ==> {
            &&& growing_step(state, position, room) is Take
            &&& growing_step(state, position, room)->Take_0 <= room
            &&& position + growing_step(state, position, room)->Take_0 <= state.received
            &&& growing_step(state, position, room)->Take_0 == room || position + growing_step(
                state,
                position,
                room,
            )->Take_0 == state.received
        },
        state.error is None && position >= state.received && (state.done || state.cancelled)
            ==> growing_step(state, position, room) == GrowingRead::EndOfFile,
        state.error is None && position >= state.received && !state.done && !state.cancelled
            ==> growing_step(state, position, room) == GrowingRead::Wait,
{
}

/// The container's own duration counts before the track's, and that before the
/// one counted in frames.
pub proof fn durations_are_chosen(c: FoundDuration, container: Option<FoundDuration>, t: TrackFacts)
    ensures
        best_duration(Some(c), t) == Some(c),
        container is None && t.duration is Some ==> best_duration(container, t) == t.duration,
        container is None && t.duration is None ==> best_duration(container, t)
            == t.frame_duration,
{
}

/// A stream that was filled is started and counts as starting until the service
/// answers.
pub proof fn filled_streams_are_starting(s: WorkerView, id: u64, stream_id: u64)
    requires
        s.media.contains_key(id),
        s.media[id].stream_id == Some(stream_id),
    ensures
        ({
            let step = outcome_step(s, Task::Filling { id }, Outcome::Done);
            &&& step.state.media.contains_key(id)
            &&& step.state.media[id].starting
            &&& step.state.media[id].stream_id == Some(stream_id)
            &&& step.next == (Next::Perform {
                effect: Effect::Send(
                    ClientMessage::Start { stream_id, generation: s.media[id].generation },
                ),
                task: Task::Sending { id },
            })
        }),
{
}

} // verus!
