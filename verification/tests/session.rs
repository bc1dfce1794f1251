use whispertype::audio::buffer::BufferError;
use whispertype::audio::capture::{AudioCommand, AudioHandle};
use whispertype::audio::pipeline::{DspAction, PipelineError};
use whispertype::commands::dictation::{
    DictationStatus, SessionCoordinator, SessionError, TeardownStep,
};
use whispertype::commands::dictation::{report_chunk, report_segments, ConsumerEvent};
use whispertype::config::OutputMode;
use whispertype::transcription::TranscriptionSegment;

fn average(frame: &[f32]) -> f32 {
    frame.iter().sum::<f32>() / frame.len() as f32
}

fn blend(a: f32, b: f32, numerator: u64, shift: u32) -> f32 {
    let frac = (numerator as f64 * 2.0f64.powi(-(shift as i32))) as f32;
    a * (1.0 - frac) + b * frac
}

fn loud(frame: &[f32]) -> bool {
    frame.iter().any(|s| s.abs() > 0.01)
}

type Coordinator = SessionCoordinator<f32, Vec<AudioCommand>, &'static str>;

fn handle(rate: u32, channels: u16) -> AudioHandle<Vec<AudioCommand>> {
    AudioHandle { cmd_tx: Vec::new(), sample_rate: rate, channels }
}

fn start(coordinator: &mut Coordinator) {
    let _producer = coordinator.prepare(true, 3000, 500).ok().unwrap();
    let launch = coordinator
        .launch(handle(48000, 2), loud, 3000, 500, average, blend, 0.0)
        .ok()
        .unwrap();
    assert!(launch.previous_consumer.is_none());
    assert_eq!(launch.status, DictationStatus::Listening);
    assert!(coordinator.attach_consumer("consumer").is_none());
}

#[test]
fn stop_before_start_is_a_no_op() {
    let mut coordinator = Coordinator::new();
    assert!(!coordinator.is_listening());
    for _ in 0..3 {
        let teardown = coordinator.stop();
        assert!(teardown.steps.is_empty());
        assert!(teardown.capture.is_none());
        assert!(teardown.consumer.is_none());
        assert!(!coordinator.is_listening());
        assert!(coordinator.model_may_change());
    }
}

#[test]
fn start_needs_a_loaded_model() {
    let mut coordinator = Coordinator::new();
    assert_eq!(
        coordinator.prepare(false, 3000, 500).err(),
        Some(SessionError::NoModelLoaded)
    );
    assert!(!coordinator.is_listening());
    assert_eq!(
        SessionError::NoModelLoaded.message(),
        "No model loaded. Please load a model before starting dictation."
    );
}

#[test]
fn start_checks_the_durations() {
    let mut coordinator = Coordinator::new();
    assert_eq!(
        coordinator.prepare(true, 500, 500).err(),
        Some(SessionError::Pipeline(PipelineError::Buffer(
            BufferError::OverlapNotShorterThanChunk
        )))
    );
    assert_eq!(
        coordinator.prepare(true, 40000, 500).err(),
        Some(SessionError::Pipeline(PipelineError::Buffer(
            BufferError::ChunkLongerThanBuffer
        )))
    );
    // the model is checked before the durations
    assert_eq!(
        coordinator.prepare(false, 500, 500).err(),
        Some(SessionError::NoModelLoaded)
    );
}

#[test]
fn launch_needs_a_prepared_queue() {
    let mut coordinator = Coordinator::new();
    let failure = coordinator
        .launch(handle(48000, 2), loud, 3000, 500, average, blend, 0.0)
        .err()
        .unwrap();
    assert_eq!(failure.error, SessionError::QueueUnavailable);
    assert_eq!(failure.capture.sample_rate, 48000);
    assert!(!coordinator.is_listening());
}

#[test]
fn launch_hands_the_capture_back_when_the_format_is_unusable() {
    let mut coordinator = Coordinator::new();
    let _producer = coordinator.prepare(true, 3000, 500).ok().unwrap();
    let failure = coordinator
        .launch(handle(0, 2), loud, 3000, 500, average, blend, 0.0)
        .err()
        .unwrap();
    assert_eq!(
        failure.error,
        SessionError::Pipeline(PipelineError::UnsupportedFormat)
    );
    assert_eq!((failure.capture.sample_rate, failure.capture.channels), (0, 2));
    assert!(!coordinator.is_listening());
    assert!(coordinator.model_may_change());
}

#[test]
fn a_session_starts_and_stops_in_order() {
    let mut coordinator = Coordinator::new();
    start(&mut coordinator);
    assert!(coordinator.is_listening());
    assert!(!coordinator.model_may_change());

    let teardown = coordinator.stop();
    assert_eq!(
        teardown.steps,
        vec![
            TeardownStep::StopCapture,
            TeardownStep::StopPipeline,
            TeardownStep::JoinConsumer,
            TeardownStep::QuitCapture,
            TeardownStep::Announce(DictationStatus::Idle),
        ]
    );
    assert_eq!(teardown.capture.unwrap().sample_rate, 48000);
    assert_eq!(teardown.consumer, Some("consumer"));
    assert!(!coordinator.is_listening());
    assert!(coordinator.model_may_change());

    // stopping again finds nothing to do
    assert!(coordinator.stop().steps.is_empty());
}

#[test]
fn a_second_start_is_rejected_while_listening() {
    let mut coordinator = Coordinator::new();
    start(&mut coordinator);
    assert_eq!(
        coordinator.prepare(true, 3000, 500).err(),
        Some(SessionError::AlreadyListening)
    );
    let failure = coordinator
        .launch(handle(44100, 1), loud, 3000, 500, average, blend, 0.0)
        .err()
        .unwrap();
    assert_eq!(failure.error, SessionError::AlreadyListening);
    assert_eq!(failure.capture.sample_rate, 44100);
    assert!(coordinator.is_listening());
    // the running session is untouched: its handles come out at the stop
    let teardown = coordinator.stop();
    assert_eq!(teardown.capture.unwrap().sample_rate, 48000);
    assert_eq!(teardown.consumer, Some("consumer"));
}

#[test]
fn a_session_can_follow_a_session() {
    let mut coordinator = Coordinator::new();
    let _producer = coordinator.prepare(true, 3000, 500).ok().unwrap();
    let launch = coordinator
        .launch(handle(16000, 1), loud, 3000, 500, average, blend, 0.0)
        .ok()
        .unwrap();
    let mut worker = launch.worker;
    assert_eq!(worker.poll(true), DspAction::Wait);
    coordinator.attach_consumer("first");
    let teardown = coordinator.stop();
    assert_eq!(teardown.consumer, Some("first"));
    assert_eq!(worker.poll(coordinator.is_listening()), DspAction::Exit);
    coordinator.reclaim(worker);

    start(&mut coordinator);
    assert!(coordinator.is_listening());
}

#[test]
fn a_thread_left_over_is_handed_out_before_the_next_is_spawned() {
    let mut coordinator = Coordinator::new();
    // a thread handle that was attached without a session around it
    assert!(coordinator.attach_consumer("stray").is_none());
    assert!(!coordinator.model_may_change());
    let _producer = coordinator.prepare(true, 3000, 500).ok().unwrap();
    let launch = coordinator
        .launch(handle(48000, 2), loud, 3000, 500, average, blend, 0.0)
        .ok()
        .unwrap();
    assert_eq!(launch.previous_consumer, Some("stray"));
    assert!(coordinator.attach_consumer("fresh").is_none());
    assert_eq!(coordinator.attach_consumer("fresher"), Some("fresh"));
}

#[test]
fn statuses_are_announced_by_their_words() {
    assert_eq!(DictationStatus::Idle.label(), "idle");
    assert_eq!(DictationStatus::Listening.label(), "listening");
    assert_eq!(DictationStatus::Loading.label(), "loading");
}


fn segment(text: &str) -> TranscriptionSegment {
    TranscriptionSegment { text: text.to_string(), start: 0, end: 0 }
}

fn update(text: &str) -> ConsumerEvent {
    ConsumerEvent::TranscriptionUpdate { text: text.to_string(), is_partial: false }
}

#[test]
fn every_segment_is_reported_as_transcribed() {
    let typed = std::cell::RefCell::new(Vec::new());
    let events = report_segments(
        &vec![segment("one"), segment("two")],
        &OutputMode::TypeIntoField,
        &|text: &str| {
            typed.borrow_mut().push(text.to_string());
            Ok(())
        },
        &|_text: &str| Err("clipboard must not be asked".to_string()),
    );
    assert_eq!(events, vec![update("one"), update("two")]);
    assert_eq!(*typed.borrow(), vec!["one", "two"]);
    let none = report_segments(
        &Vec::new(),
        &OutputMode::Both,
        &|_t: &str| Ok(()),
        &|_t: &str| Ok(()),
    );
    assert!(none.is_empty());
}

#[test]
fn a_failed_delivery_is_reported_and_the_rest_goes_on() {
    let events = report_chunk(
        Ok(vec![segment("one"), segment("two"), segment("three")]),
        &OutputMode::Both,
        &|text: &str| if text == "two" { Err("no keyboard".to_string()) } else { Ok(()) },
        &|text: &str| if text == "three" { Err("no clipboard".to_string()) } else { Ok(()) },
    );
    assert_eq!(
        events,
        vec![
            update("one"),
            ConsumerEvent::OutputError("no keyboard".to_string()),
            update("two"),
            ConsumerEvent::OutputError("no clipboard".to_string()),
            update("three"),
        ]
    );
}

#[test]
fn a_failed_transcription_is_one_event() {
    let events = report_chunk(
        Err("engine fell over".to_string()),
        &OutputMode::Both,
        &|_t: &str| Ok(()),
        &|_t: &str| Ok(()),
    );
    assert_eq!(
        events,
        vec![ConsumerEvent::TranscriptionError("engine fell over".to_string())]
    );
}

#[test]
fn test_join_transcription_thread_empty_state_safety() {
    let mut coordinator = Coordinator::new();

    // Should not panic or block
    let teardown = coordinator.stop();

    assert!(
        teardown.capture.is_none(),
        "Audio handle must remain empty after join on empty state"
    );
    assert!(teardown.consumer.is_none());
    assert!(teardown.steps.is_empty());
}

#[test]
fn an_abandoned_start_leaves_nothing_behind() {
    let mut coordinator = Coordinator::new();
    assert!(coordinator.attach_consumer("earlier").is_none());
    let _producer = coordinator.prepare(true, 3000, 500).ok().unwrap();
    // the capture actor could not be spawned
    coordinator.abandon();
    assert!(!coordinator.is_listening());
    let failure = coordinator
        .launch(handle(48000, 2), loud, 3000, 500, average, blend, 0.0)
        .err()
        .unwrap();
    assert_eq!(failure.error, SessionError::QueueUnavailable);
    // the thread handle that was held before is still the one that is held
    assert_eq!(coordinator.attach_consumer("later"), Some("earlier"));
    coordinator.abandon();
    assert_eq!(coordinator.attach_consumer("last"), Some("later"));
}

#[test]
fn the_handle_that_was_launched_with_is_the_one_that_is_kept() {
    let mut coordinator = Coordinator::new();
    let _producer = coordinator.prepare(true, 3000, 500).ok().unwrap();
    let mine = AudioHandle { cmd_tx: vec![AudioCommand::Start], sample_rate: 44100, channels: 1 };
    assert!(coordinator.launch(mine, loud, 3000, 500, average, blend, 0.0).is_ok());
    let teardown = coordinator.stop();
    let kept = teardown.capture.unwrap();
    assert_eq!(kept.cmd_tx, vec![AudioCommand::Start]);
    assert_eq!((kept.sample_rate, kept.channels), (44100, 1));
}
