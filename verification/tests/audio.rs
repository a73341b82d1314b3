use lite_runtime::audio::samples::{
    interleaved_frames, normalize_stereo, seek_step, SampleQueue, SeekStep, RENDER_LIMIT,
};
use lite_runtime::audio::source::{
    decode_step, growing_read, growing_seek, open_source, packet_step, set_source_rate,
    wants_packet, BoundedFile, DecodeEvent, FoundDuration, GrowingRead, OpenError, PacketEvent,
    PacketStep, RateError, SeekTarget, SourceError, StreamState, TrackFacts,
};
use lite_runtime::audio::worker::{
    welcomed, ClientMessage, Command, Effect, Event, Failure, FillError, Next, Outcome, Task, Worker,
};
use lite_runtime::audio::{quantum_fits, PREFILL_BLOCKS, RENDER_FRAMES, RING_CAPACITY_FRAMES};

#[test]
fn stereo_frame_projection_preserves_channel_order() {
    let samples = [0.25, -0.5, 0.75, 1.0];
    assert_eq!(interleaved_frames(&samples), &[[0.25, -0.5], [0.75, 1.0]]);
}

#[test]
fn initial_prefill_reaches_the_ring_backpressure_edge() {
    assert_eq!(PREFILL_BLOCKS * RENDER_FRAMES, RING_CAPACITY_FRAMES);
}

#[test]
fn long_playback_refills_exactly_one_device_period_without_overfill() {
    let mut produced = RING_CAPACITY_FRAMES as u64;
    let mut consumed = 0u64;
    assert!(!quantum_fits(produced, consumed).expect("full ring"));
    for _ in 0..11_250 {
        consumed += 256;
        assert!(quantum_fits(produced, consumed).expect("first quantum"));
        produced += RENDER_FRAMES as u64;
        assert!(quantum_fits(produced, consumed).expect("second quantum"));
        produced += RENDER_FRAMES as u64;
        assert!(!quantum_fits(produced, consumed).expect("backpressure"));
    }
    assert!(quantum_fits(1, 2).is_err());
}

#[test]
fn mono_is_duplicated_without_gain_change() {
    let mut output = Vec::new();
    let mix = |frame: &[f32]| (frame[0], frame[1]);
    normalize_stereo(&[0.25, -0.5], 1, &mut output, &mix);
    assert_eq!(output, [0.25, 0.25, -0.5, -0.5]);
    normalize_stereo(&[1.0, 2.0, 3.0, 4.0], 2, &mut output, &mix);
    assert_eq!(output, [1.0, 2.0, 3.0, 4.0]);
    normalize_stereo(&[1.0, 2.0, 3.0, 4.0], 3, &mut output, &mix);
    assert_eq!(output, [1.0, 2.0]);
    normalize_stereo(&[1.0], 0, &mut output, &mix);
    assert!(output.is_empty());
}

#[test]
fn queued_samples_are_taken_in_turn() {
    let mut queue = SampleQueue::new();
    queue.push(&[1, 2, 3, 4, 5]);
    let mut first = [0; 2];
    assert_eq!(queue.take(&mut first), 2);
    assert_eq!(first, [1, 2]);
    queue.compact_output();
    let mut rest = [0; 8];
    assert_eq!(queue.take(&mut rest), 3);
    assert_eq!(rest[..3], [3, 4, 5]);
    assert_eq!(queue.len(), 0);
}

#[test]
fn bounded_blob_reader_never_exposes_bytes_outside_its_slice() {
    let file = b"prefix-media-suffix";
    let mut source = BoundedFile::open(7, 5, file.len() as u64).expect("bounded file");
    let read = |source: &mut BoundedFile| {
        let mut bytes = Vec::new();
        loop {
            let limit = source.read_limit(4);
            if limit == 0 {
                return bytes;
            }
            let at = (source.start + source.position) as usize;
            bytes.extend_from_slice(&file[at..at + limit]);
            source.advance(limit);
        }
    };
    assert_eq!(read(&mut source), b"media");
    let (position, absolute) = source.seek_position(SeekTarget::Start(1)).expect("range seek");
    assert_eq!(absolute, 8);
    source.place(position);
    assert_eq!(read(&mut source), b"edia");
    assert_eq!(
        BoundedFile::open(7, 13, file.len() as u64),
        Err(SourceError::OutsideFile)
    );
    assert_eq!(
        source.seek_position(SeekTarget::Current(-9)),
        Err(SourceError::BeforeStart)
    );
    assert_eq!(
        source.seek_position(SeekTarget::Start(u64::MAX)),
        Err(SourceError::Overflow)
    );
}

#[test]
fn growing_files_wait_for_their_bytes() {
    let mut state = StreamState::default();
    assert_eq!(growing_read(&state, 0, 10), GrowingRead::Wait);
    state.received = 6;
    assert_eq!(growing_read(&state, 2, 10), GrowingRead::Take(4));
    assert_eq!(growing_read(&state, 2, 3), GrowingRead::Take(3));
    state.done = true;
    assert_eq!(growing_read(&state, 6, 3), GrowingRead::EndOfFile);
    assert_eq!(growing_seek(&state, 3, SeekTarget::End(-2)), Ok(4));
    state.total = Some(100);
    assert_eq!(growing_seek(&state, 3, SeekTarget::End(-2)), Ok(98));
    assert_eq!(
        growing_seek(&state, 3, SeekTarget::Current(-4)),
        Err(SourceError::BeforeStart)
    );
    state.error = Some("lost".to_owned());
    assert_eq!(growing_read(&state, 0, 3), GrowingRead::Failed);
}

#[test]
fn cancelled_downloads_end_instead_of_waiting() {
    let mut state = StreamState::default();
    state.received = 5;
    assert_eq!(growing_read(&state, 5, 8), GrowingRead::Wait);
    state.cancelled = true;
    assert_eq!(growing_read(&state, 5, 8), GrowingRead::EndOfFile);
    assert_eq!(growing_read(&state, 3, 8), GrowingRead::Take(2));
}

#[test]
fn sources_open_with_a_track_and_a_duration() {
    let found = |seconds: f64| {
        Some(FoundDuration {
            bits: seconds.to_bits(),
            usable: seconds.is_finite() && seconds > 0.0,
        })
    };
    let track = TrackFacts {
        id: 3,
        has_parameters: true,
        sample_rate: Some(44_100),
        duration: None,
        frame_duration: found(2.0),
    };
    let plan = open_source(None, Some(track), false).unwrap();
    assert_eq!((plan.track_id, plan.source_rate), (3, 44_100));
    assert_eq!(plan.duration, found(2.0));
    assert_eq!(
        open_source(found(9.0), Some(track), false).unwrap().duration,
        found(9.0)
    );
    assert_eq!(open_source(None, None, true), Err(OpenError::NoTrack));
    let bare = TrackFacts {
        has_parameters: false,
        ..track
    };
    assert_eq!(
        open_source(None, Some(bare), true),
        Err(OpenError::NoCodecParameters)
    );
    let rateless = TrackFacts {
        sample_rate: None,
        ..track
    };
    assert_eq!(
        open_source(None, Some(rateless), true),
        Err(OpenError::NoSampleRate)
    );
    assert_eq!(
        open_source(found(f64::NAN), Some(track), false),
        Err(OpenError::NoDuration)
    );
    assert!(open_source(found(f64::NAN), Some(track), true).is_ok());
}

#[test]
fn packets_are_decoded_skipped_or_reported() {
    assert_eq!(packet_step(PacketEvent::Packet { track: 3 }, 3), PacketStep::Decode);
    assert_eq!(packet_step(PacketEvent::Packet { track: 4 }, 3), PacketStep::Next);
    assert_eq!(packet_step(PacketEvent::End, 3), PacketStep::Finish);
    assert_eq!(packet_step(PacketEvent::ResetRequired, 3), PacketStep::Reopen);
    assert_eq!(packet_step(PacketEvent::Failed, 3), PacketStep::Fail);
    assert_eq!(decode_step(DecodeEvent::Decoded), None);
    assert_eq!(decode_step(DecodeEvent::Damaged), Some(PacketStep::Next));
    assert_eq!(decode_step(DecodeEvent::Failed), Some(PacketStep::Fail));
    assert!(wants_packet(255, 256, false));
    assert!(!wants_packet(255, 256, true));
    assert_eq!(set_source_rate(48_000, 0, true), Err(RateError::Zero));
    assert_eq!(set_source_rate(48_000, 44_100, false), Err(RateError::Changed));
    assert_eq!(set_source_rate(48_000, 44_100, true), Ok(true));
    assert_eq!(set_source_rate(48_000, 48_000, false), Ok(false));
}

#[test]
fn seeks_drop_frames_up_to_the_target() {
    assert_eq!(seek_step(0, 0, true), SeekStep::Reached);
    assert_eq!(seek_step(200, 2 * RENDER_LIMIT, false), SeekStep::Drop { frames: 128 });
    assert_eq!(seek_step(72, 1000, false), SeekStep::Drop { frames: 72 });
    assert_eq!(seek_step(72, 255, false), SeekStep::Decode);
    assert_eq!(seek_step(72, 60, true), SeekStep::Drop { frames: 30 });
    assert_eq!(seek_step(72, 1, true), SeekStep::BeyondEnd);
    let mut queue = SampleQueue::new();
    queue.push(&[0, 1, 2, 3, 4, 5, 6]);
    assert_eq!(queue.skip_frames(2), 2);
    let mut rest = [0; 3];
    assert_eq!(queue.take(&mut rest), 3);
    assert_eq!(rest, [4, 5, 6]);
    queue.push(&[7, 8, 9]);
    assert_eq!(queue.skip_frames(5), 1);
    assert_eq!(queue.len(), 1);
}

/// Seeks to frame `target` while packets of `packet` frames arrive; the samples
/// that wait afterwards.
fn seek(target: usize, packet: usize, frames: usize) -> Option<Vec<usize>> {
    let mut queue = SampleQueue::new();
    let mut decoded = 0;
    let mut left = target;
    loop {
        match seek_step(left, queue.len(), decoded == frames) {
            SeekStep::Reached => break,
            SeekStep::BeyondEnd => return None,
            SeekStep::Drop { frames } => left -= queue.skip_frames(frames),
            SeekStep::Decode => {
                let end = frames.min(decoded + packet);
                queue.push(&(2 * decoded..2 * end).collect::<Vec<_>>());
                decoded = end;
            }
        }
    }
    let mut waiting = vec![0; queue.len()];
    queue.take(&mut waiting);
    Some(waiting)
}

#[test]
fn seeks_land_on_the_exact_frame() {
    // The target lies in the second quantum, which reaches into the next packet.
    assert_eq!(seek(130, 200, 1000), Some((260..800).collect()));
    // One packet holds the target and more than one quantum behind it.
    assert_eq!(seek(130, 600, 1000), Some((260..1200).collect()));
    assert_eq!(seek(0, 200, 1000), Some(Vec::new()));
    assert_eq!(seek(1000, 200, 1000), Some(Vec::new()));
    assert_eq!(seek(999, 200, 1000), Some(vec![1998, 1999]));
    assert_eq!(seek(1001, 200, 1000), None);
}

fn load(worker: &mut Worker, id: u64) {
    let step = worker.handle(Command::Load { id });
    let Next::Perform { task, effect } = step.next else {
        panic!("a load opens a decoder");
    };
    assert_eq!(effect, Effect::OpenDecoder { id, close: None });
    let opened = worker.advance(task, Outcome::Opened { duration: 1f64.to_bits() });
    assert_eq!(opened.next, Next::Done);
    assert_eq!(
        opened.events[0],
        Event::DurationChange {
            id,
            seconds: 1f64.to_bits()
        }
    );
}

#[test]
fn loaded_media_accepts_loop_changes_and_close_without_retiring_element_identity() {
    let mut worker = Worker::new();
    load(&mut worker, 7);
    assert!(worker.media(7).is_some());
    worker.handle(Command::Loop {
        id: 7,
        enabled: true,
    });
    assert!(worker.media(7).unwrap().loop_enabled);
    worker.handle(Command::Loop {
        id: 7,
        enabled: false,
    });
    assert!(!worker.media(7).unwrap().loop_enabled);
    worker.handle(Command::Close { id: 7 });
    assert!(worker.media(7).is_none());
}

#[test]
fn playing_connects_creates_fills_and_starts() {
    let mut worker = Worker::new();
    load(&mut worker, 7);
    let mut step = worker.handle(Command::Play { id: 7 });
    let mut effects = Vec::new();
    while let Next::Perform { effect, task } = step.next {
        effects.push(effect);
        let outcome = match effect {
            Effect::CreateStream { .. } => Outcome::Created { stream_id: 11 },
            _ => Outcome::Done,
        };
        step = worker.advance(task, outcome);
    }
    assert_eq!(step.next, Next::Done);
    assert_eq!(effects[0], Effect::Connect);
    assert_eq!(effects[1], Effect::CreateStream { generation: 1 });
    assert!(effects.contains(&Effect::Prefill { id: 7 }));
    assert_eq!(
        effects[effects.len() - 1],
        Effect::Send(ClientMessage::Start {
            stream_id: 11,
            generation: 1
        })
    );
    assert_eq!(worker.media(7).unwrap().stream_id, Some(11));
    assert_eq!(worker.fill_wanted(7, 8192, 0), Ok(false));
    assert_eq!(worker.fill_wanted(7, 8192, 128), Ok(true));
    assert_eq!(worker.fill_wanted(8, 0, 0), Err(FillError::NotLoaded));
    let events = worker.submit(7, 128, 128).unwrap();
    assert_eq!(
        events,
        [Event::LoadedData { id: 7 }, Event::CanPlay { id: 7 }]
    );
    assert_eq!(worker.submit(7, 128, 64), Err(FillError::Rejected));
    worker.reach_end(7);
    assert!(worker.media(7).unwrap().decode_eof);
}

#[test]
fn closing_succeeds_though_the_service_cannot_be_told() {
    for outcome in [Outcome::Done, Outcome::Failed] {
        let mut worker = Worker::new();
        load(&mut worker, 7);
        let mut step = worker.handle(Command::Play { id: 7 });
        while let Next::Perform { effect, task } = step.next {
            let outcome = match effect {
                Effect::CreateStream { .. } => Outcome::Created { stream_id: 11 },
                _ => Outcome::Done,
            };
            step = worker.advance(task, outcome);
        }
        let Next::Perform { effect, task } = worker.handle(Command::Close { id: 7 }).next else {
            panic!("the service is told");
        };
        assert!(matches!(effect, Effect::Send(_)));
        assert_eq!(task, Task::Closing { id: 7 });
        let closed = worker.advance(task, outcome);
        assert_eq!(closed.next, Next::Done);
        assert!(closed.events.is_empty());
    }
}

#[test]
fn unknown_sources_and_failed_effects_are_reported() {
    let mut worker = Worker::new();
    let step = worker.handle(Command::Play { id: 4 });
    assert_eq!(
        step.next,
        Next::Failed {
            id: 4,
            failure: Failure::NotLoaded
        }
    );
    assert_eq!(worker.fail(4), Event::Error { id: 4, code: 3 });
    let failed = worker.advance(Task::Opening { id: 4 }, Outcome::Failed);
    assert_eq!(
        failed.next,
        Next::Failed {
            id: 4,
            failure: Failure::Outside
        }
    );
}

#[test]
fn services_are_accepted_by_their_welcome() {
    assert!(welcomed(Some(1), false, 1));
    assert!(!welcomed(Some(2), false, 1));
    assert!(!welcomed(Some(1), true, 1));
    assert!(!welcomed(None, false, 1));
}

#[test]
fn failures_have_messages() {
    assert_eq!(Failure::NotLoaded.message(), Some("media source is not loaded"));
    assert_eq!(Failure::GenerationExhausted.message(), Some("media generation exhausted"));
    assert_eq!(Failure::NoStream.message(), Some("audio stream was not created"));
    assert_eq!(Failure::Outside.message(), None);
    assert_eq!(FillError::NotLoaded.message(), "media source is not loaded");
    assert_eq!(FillError::NoStream.message(), "audio stream is absent");
    assert_eq!(FillError::RingMovedBackwards.message(), "audio ring indices moved backwards");
    assert_eq!(
        FillError::Rejected.message(),
        "audio ring rejected a bounded render quantum"
    );
}
