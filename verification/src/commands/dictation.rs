//! The session coordinator: one dictation session at a time, started and torn
//! down in a fixed order.
//!
//! The coordinator owns what outlives a single call: the stage's lifecycle,
//! the handle of the capture actor, and the handle of the thread that feeds
//! chunks to the speech engine. It decides; whoever drives it spawns and joins
//! the threads and sends the commands, in the order it is told.

use crate::audio::buffer::geometry_error;
use crate::audio::capture::AudioHandle;
use crate::audio::pipeline::{
    fresh_stage, kernels_total, start_error, AudioPipeline, DspWorker, PipelineError, PipelineModel,
    BUFFER_SECONDS, TARGET_RATE,
};
use crate::audio::queue::{frame_queue, FrameConsumer, FrameProducer, QUEUE_CAPACITY};
use crate::config::OutputMode;
use crate::output::{lemma_routed_by_ref, output_text, routed};
use crate::transcription::engine::TranscriptionSegment;
use vstd::prelude::*;

verus! {

/// The session status that is announced to the outside.
#[derive(Debug, Clone, Copy, PartialEq, Eq, Structural)]
pub enum DictationStatus {
    Idle,
    Listening,
    Loading,
}

impl DictationStatus {
    /// The word the status is announced with.
    pub fn label(&self) -> (word: &'static str)
        ensures
            word@ == match *self {
                DictationStatus::Idle => "idle"@,
                DictationStatus::Listening => "listening"@,
                DictationStatus::Loading => "loading"@,
            },
    {
        match self {
            DictationStatus::Idle => "idle",
            DictationStatus::Listening => "listening",
            DictationStatus::Loading => "loading",
        }
    }
}

/// Why a session did not start.
#[derive(Debug, Clone, Copy, PartialEq, Eq, Structural)]
pub enum SessionError {
    /// A session is running; it has to be stopped first.
    AlreadyListening,
    /// No speech model is loaded.
    NoModelLoaded,
    /// No queue could be allocated or none was prepared.
    QueueUnavailable,
    /// The stage refused to start.
    Pipeline(PipelineError),
}

/// The sentence that tells the user about `error`.
pub open spec fn message_of(error: SessionError) -> Seq<char> {
    match error {
        SessionError::AlreadyListening => "Dictation is already running."@,
        SessionError::NoModelLoaded => {
            "No model loaded. Please load a model before starting dictation."@
        },
        SessionError::QueueUnavailable => "No audio queue available."@,
        SessionError::Pipeline(PipelineError::NoConsumer) => {
            "No consumer available for AudioPipeline"@
        },
        SessionError::Pipeline(PipelineError::AlreadyRunning) => {
            "The audio pipeline is already running."@
        },
        SessionError::Pipeline(PipelineError::UnsupportedFormat) => {
            "The input device reports no sample rate or no channels."@
        },
        SessionError::Pipeline(PipelineError::Buffer(_)) => {
            "The overlap must be shorter than the chunk, and the chunk must fit the buffer."@
        },
    }
}

impl SessionError {
    /// A sentence for the user.
    pub fn message(&self) -> (text: &'static str)
        ensures
            text@ == message_of(*self),
    {
        match self {
            SessionError::AlreadyListening => "Dictation is already running.",
            SessionError::NoModelLoaded => {
                "No model loaded. Please load a model before starting dictation."
            },
            SessionError::QueueUnavailable => "No audio queue available.",
            SessionError::Pipeline(PipelineError::NoConsumer) => {
                "No consumer available for AudioPipeline"
            },
            SessionError::Pipeline(PipelineError::AlreadyRunning) => {
                "The audio pipeline is already running."
            },
            SessionError::Pipeline(PipelineError::UnsupportedFormat) => {
                "The input device reports no sample rate or no channels."
            },
            SessionError::Pipeline(PipelineError::Buffer(_)) => {
                "The overlap must be shorter than the chunk, and the chunk must fit the buffer."
            },
        }
    }
}

/// One step of tearing a session down.
#[derive(Debug, Clone, Copy, PartialEq, Eq, Structural)]
pub enum TeardownStep {
    /// Send `Stop` to the capture actor.
    StopCapture,
    /// Clear the stage's run flag, join its thread and give the worker back.
    StopPipeline,
    /// Join the thread that feeds the speech engine: its inference session ends with it.
    JoinConsumer,
    /// Send `Quit` to the capture actor and drop its handle.
    QuitCapture,
    /// Announce the status.
    Announce(DictationStatus),
}

/// The steps of a teardown, in the order they are to be taken.
pub open spec fn teardown_order() -> Seq<TeardownStep> {
    seq![
        TeardownStep::StopCapture,
        TeardownStep::StopPipeline,
        TeardownStep::JoinConsumer,
        TeardownStep::QuitCapture,
        TeardownStep::Announce(DictationStatus::Idle),
    ]
}

/// Mathematical model of the coordinator.
pub struct SessionModel {
    /// The stage's lifecycle. A session is running exactly when the stage is.
    pub pipeline: PipelineModel,
    /// A queue has been allocated for a session that is about to start.
    pub prepared: bool,
    /// The handle of a capture actor is held.
    pub has_capture: bool,
    /// The handle of an engine-feeding thread is held.
    pub has_consumer_thread: bool,
}

impl SessionModel {
    /// The coordinator before any session.
    pub open spec fn fresh() -> Self {
        SessionModel {
            pipeline: PipelineModel { running: false, has_consumer: false },
            prepared: false,
            has_capture: false,
            has_consumer_thread: false,
        }
    }

    /// Whether a session is running.
    pub open spec fn listening(self) -> bool {
        self.pipeline.running
    }

    /// Why a session cannot be prepared, as far as the coordinator itself
    /// decides it; `None` when only the allocation of the queue can still fail.
    pub open spec fn prepare_error(
        self,
        model_loaded: bool,
        chunk_duration_ms: u32,
        overlap_ms: u32,
    ) -> Option<SessionError> {
        if self.listening() {
            Some(SessionError::AlreadyListening)
        } else if !model_loaded {
            Some(SessionError::NoModelLoaded)
        } else if geometry_error(
            TARGET_RATE as nat,
            chunk_duration_ms as nat,
            overlap_ms as nat,
            BUFFER_SECONDS as nat,
        ) is Some {
            Some(
                SessionError::Pipeline(
                    PipelineError::Buffer(
                        geometry_error(
                            TARGET_RATE as nat,
                            chunk_duration_ms as nat,
                            overlap_ms as nat,
                            BUFFER_SECONDS as nat,
                        )->0,
                    ),
                ),
            )
        } else {
            None
        }
    }

    /// Why a prepared session cannot be launched, or `None` when it can.
    pub open spec fn launch_error(
        self,
        chunk_duration_ms: u32,
        overlap_ms: u32,
        device_rate: u32,
        device_channels: u16,
    ) -> Option<SessionError> {
        if self.listening() {
            Some(SessionError::AlreadyListening)
        } else if !self.prepared {
            Some(SessionError::QueueUnavailable)
        } else {
            match start_error(
                self.pipeline,
                true,
                chunk_duration_ms,
                overlap_ms,
                device_rate,
                device_channels,
            ) {
                Some(error) => Some(SessionError::Pipeline(error)),
                None => None,
            }
        }
    }

    /// The model after a launch that went through.
    pub open spec fn launched(self) -> Self {
        SessionModel {
            pipeline: PipelineModel { running: true, ..self.pipeline },
            prepared: false,
            has_capture: true,
            has_consumer_thread: false,
        }
    }

    /// The model after a launch that failed: the queue that was prepared,
    /// if it got as far as the stage, is kept there for a later session.
    pub open spec fn launch_refused(self) -> Self {
        if self.listening() || !self.prepared {
            self
        } else {
            SessionModel {
                pipeline: PipelineModel { has_consumer: true, ..self.pipeline },
                prepared: false,
                ..self
            }
        }
    }

    /// The model after `stop`: nothing changes unless a session is running.
    pub open spec fn stopped(self) -> Self {
        if self.listening() {
            SessionModel {
                pipeline: PipelineModel { running: false, ..self.pipeline },
                prepared: self.prepared,
                has_capture: false,
                has_consumer_thread: false,
            }
        } else {
            self
        }
    }

    /// Whether the speech model may be unloaded or replaced: no session is
    /// running and no engine-feeding thread is left to be joined.
    pub open spec fn model_may_change(self) -> bool {
        !self.listening() && !self.has_consumer_thread
    }
}

/// What `launch` hands out when a session starts.
#[verifier::reject_recursive_types(T)]
pub struct Launch<T, A, B, C, J> {
    /// The worker to run on the stage's thread.
    pub worker: DspWorker<T, A, B, C>,
    /// The engine-feeding thread of an earlier session that was never joined.
    /// It must be joined before a new one is spawned.
    pub previous_consumer: Option<J>,
    /// The status to announce.
    pub status: DictationStatus,
}

/// What `launch` hands back when a session does not start.
pub struct LaunchFailure<S> {
    /// Why.
    pub error: SessionError,
    /// The capture actor that was spawned for the session. It is to be sent `Quit`.
    pub capture: AudioHandle<S>,
}

/// What `stop` hands out: the steps to take, in order, and the handles to take them on.
pub struct Teardown<S, J> {
    /// The steps, first to last. Empty when no session was running.
    pub steps: Vec<TeardownStep>,
    /// The capture actor of the session.
    pub capture: Option<AudioHandle<S>>,
    /// The engine-feeding thread of the session.
    pub consumer: Option<J>,
}

/// Coordinates capture, the stage and the engine-feeding thread of one
/// dictation session at a time.
#[verifier::reject_recursive_types(T)]
pub struct SessionCoordinator<T, S, J> {
    pipeline: AudioPipeline<T>,
    pending: Option<FrameConsumer<T>>,
    audio_handle: Option<AudioHandle<S>>,
    transcription_thread: Option<J>,
}

/// What the coordinator has in custody.
#[verifier::reject_recursive_types(T)]
pub struct Custody<T, S, J> {
    /// The handle of the capture actor of the running session.
    pub capture: Option<AudioHandle<S>>,
    /// The handle of the engine-feeding thread.
    pub consumer_thread: Option<J>,
    /// The reading half of the queue that was allocated for a session about to start.
    pub prepared_queue: Option<FrameConsumer<T>>,
    /// The reading half that the stage keeps from an earlier session.
    pub kept_queue: Option<FrameConsumer<T>>,
}

impl<T, S, J> SessionCoordinator<T, S, J> {
    /// Everything the coordinator holds, as it is.
    pub closed spec fn custody(&self) -> Custody<T, S, J> {
        Custody {
            capture: self.audio_handle,
            consumer_thread: self.transcription_thread,
            prepared_queue: self.pending,
            kept_queue: self.pipeline.kept_queue(),
        }
    }

    /// Whether the stage's run flag is set.
    pub closed spec fn run_flag(&self) -> bool {
        self.pipeline.run_flag()
    }

    /// The handle of the engine-feeding thread that is held.
    pub open spec fn consumer_thread(&self) -> Option<J> {
        self.custody().consumer_thread
    }

    /// The handle of the capture actor that is held.
    pub open spec fn capture(&self) -> Option<AudioHandle<S>> {
        self.custody().capture
    }
}

impl<T, S, J> View for SessionCoordinator<T, S, J> {
    type V = SessionModel;

    open spec fn view(&self) -> SessionModel {
        SessionModel {
            pipeline: PipelineModel {
                running: self.run_flag(),
                has_consumer: self.custody().kept_queue is Some,
            },
            prepared: self.custody().prepared_queue is Some,
            has_capture: self.custody().capture is Some,
            has_consumer_thread: self.custody().consumer_thread is Some,
        }
    }
}

impl<T: Copy, S, J> SessionCoordinator<T, S, J> {
    /// A coordinator with no session.
    pub fn new() -> (coordinator: Self)
        ensures
            coordinator@ == SessionModel::fresh(),
            coordinator.custody() == (Custody::<T, S, J> {
                capture: None,
                consumer_thread: None,
                prepared_queue: None,
                kept_queue: None,
            }),
    {
        SessionCoordinator {
            pipeline: AudioPipeline::new(),
            pending: None,
            audio_handle: None,
            transcription_thread: None,
        }
    }

    /// Whether a session is running.
    pub fn is_listening(&self) -> (listening: bool)
        ensures
            listening == self@.listening(),
    {
        self.pipeline.is_running()
    }

    /// Whether the speech model may be unloaded or replaced now.
    pub fn model_may_change(&self) -> (allowed: bool)
        ensures
            allowed == self@.model_may_change(),
    {
        !self.pipeline.is_running() && self.transcription_thread.is_none()
    }

    /// First half of a start: checks that a session may begin and allocates
    /// its queue. The producer half goes to the capture actor that is spawned
    /// next; the consumer half is kept for `launch`.
    pub fn prepare(&mut self, model_loaded: bool, chunk_duration_ms: u32, overlap_ms: u32) -> (prepared:
        Result<FrameProducer<T>, SessionError>)
        ensures
            old(self)@.prepare_error(model_loaded, chunk_duration_ms, overlap_ms) is Some
                ==> prepared == Err::<FrameProducer<T>, SessionError>(
                old(self)@.prepare_error(model_loaded, chunk_duration_ms, overlap_ms)->0,
            ) && final(self)@ == old(self)@,
            match prepared {
                Ok(producer) => {
                    &&& old(self)@.prepare_error(model_loaded, chunk_duration_ms, overlap_ms) is None
                    &&& final(self)@ == (SessionModel { prepared: true, ..old(self)@ })
                    &&& producer.slots() == QUEUE_CAPACITY
                    &&& final(self).custody().prepared_queue is Some
                    &&& final(self).custody().prepared_queue->0.slots() == QUEUE_CAPACITY
                    &&& final(self).custody() == (Custody {
                        prepared_queue: final(self).custody().prepared_queue,
                        ..old(self).custody()
                    })
                },
                Err(error) => {
                    &&& final(self)@ == old(self)@
                    &&& final(self).custody() == old(self).custody()
                    &&& old(self)@.prepare_error(model_loaded, chunk_duration_ms, overlap_ms)
                        is None ==> error == SessionError::QueueUnavailable
                },
            },
    {
        if self.pipeline.is_running() {
            return Err(SessionError::AlreadyListening);
        }
        if !model_loaded {
            return Err(SessionError::NoModelLoaded);
        }
        match check_geometry(chunk_duration_ms, overlap_ms) {
            Some(error) => {
                return Err(SessionError::Pipeline(error));
            },
            None => {},
        }
        match frame_queue::<T>() {
            Some((producer, consumer)) => {
                self.pending = Some(consumer);
                Ok(producer)
            },
            None => Err(SessionError::QueueUnavailable),
        }
    }

    /// Second half of a start, once the capture actor runs: builds the
    /// stage's worker for the format the device delivers and takes the
    /// actor's handle into custody.
    ///
    /// On success the session counts as running. A thread handle left over
    /// from an earlier session is handed out to be joined first, so that no
    /// two engine-feeding threads ever exist side by side. On failure
    /// nothing has started and the capture actor is handed back.
    pub fn launch<A: Fn(&[T]) -> T, B: Fn(T, T, u64, u32) -> T, C: Fn(&[T]) -> bool>(
        &mut self,
        capture: AudioHandle<S>,
        classifier: C,
        chunk_duration_ms: u32,
        overlap_ms: u32,
        average: A,
        blend: B,
        silence: T,
    ) -> (launched: Result<Launch<T, A, B, C, J>, LaunchFailure<S>>)
        requires
            kernels_total(average, blend, classifier, capture.channels),
        ensures
            match launched {
                Ok(launch) => {
                    &&& old(self)@.launch_error(
                        chunk_duration_ms,
                        overlap_ms,
                        capture.sample_rate,
                        capture.channels,
                    ) is None
                    &&& final(self)@ == old(self)@.launched()
                    &&& launch.worker.wf()
                    &&& launch.worker@ == fresh_stage(
                        chunk_duration_ms,
                        overlap_ms,
                        capture.sample_rate,
                        capture.channels,
                        silence,
                    )
                    &&& launch.worker.average() == average
                    &&& launch.worker.blend() == blend
                    &&& launch.worker.classifier() == classifier
                    &&& Some(launch.worker.queue()) == old(self).custody().prepared_queue
                    &&& launch.previous_consumer == old(self).custody().consumer_thread
                    &&& launch.status == DictationStatus::Listening
                    &&& final(self).custody() == (Custody::<T, S, J> {
                        capture: Some(capture),
                        consumer_thread: None,
                        prepared_queue: None,
                        kept_queue: old(self).custody().kept_queue,
                    })
                },
                Err(failure) => {
                    &&& old(self)@.launch_error(
                        chunk_duration_ms,
                        overlap_ms,
                        capture.sample_rate,
                        capture.channels,
                    ) == Some(failure.error)
                    &&& failure.capture == capture
                    &&& final(self)@ == old(self)@.launch_refused()
                    &&& final(self).custody() == if old(self)@.listening() || !old(
                        self,
                    )@.prepared {
                        old(self).custody()
                    } else {
                        Custody {
                            prepared_queue: None,
                            kept_queue: old(self).custody().prepared_queue,
                            ..old(self).custody()
                        }
                    }
                },
            },
    {
        if self.pipeline.is_running() {
            return Err(LaunchFailure { error: SessionError::AlreadyListening, capture });
        }
        let consumer: FrameConsumer<T> = match self.pending.take() {
            Some(consumer) => consumer,
            None => {
                return Err(LaunchFailure { error: SessionError::QueueUnavailable, capture });
            },
        };
        let started = self.pipeline.start(
            Some(consumer),
            classifier,
            chunk_duration_ms,
            overlap_ms,
            capture.sample_rate,
            capture.channels,
            average,
            blend,
            silence,
        );
        match started {
            Ok(worker) => {
                self.audio_handle = Some(capture);
                let previous_consumer: Option<J> = self.transcription_thread.take();
                Ok(Launch { worker, previous_consumer, status: DictationStatus::Listening })
            },
            Err(error) => Err(LaunchFailure { error: SessionError::Pipeline(error), capture }),
        }
    }

    /// Takes the handle of the engine-feeding thread that was just spawned
    /// into custody. A handle that is still held comes back to be joined.
    pub fn attach_consumer(&mut self, thread: J) -> (displaced: Option<J>)
        ensures
            final(self)@ == (SessionModel { has_consumer_thread: true, ..old(self)@ }),
            displaced == old(self).custody().consumer_thread,
            final(self).custody() == (Custody {
                consumer_thread: Some(thread),
                ..old(self).custody()
            }),
    {
        let displaced: Option<J> = self.transcription_thread.take();
        self.transcription_thread = Some(thread);
        displaced
    }

    /// Ends the session, if one is running, and says how to tear it down.
    ///
    /// The steps come in the order that keeps the speech engine safe: the
    /// capture actor is stopped, the stage is stopped and joined, and only
    /// then the engine-feeding thread is joined, which ends its inference
    /// session before anyone may unload the model. With no session running
    /// there is nothing to do and nothing changes.
    pub fn stop(&mut self) -> (teardown: Teardown<S, J>)
        ensures
            final(self)@ == old(self)@.stopped(),
            old(self)@.listening() ==> {
                &&& teardown.steps@ == teardown_order()
                &&& teardown.capture == old(self).custody().capture
                &&& teardown.consumer == old(self).custody().consumer_thread
                &&& final(self).custody() == (Custody {
                    capture: None,
                    consumer_thread: None,
                    ..old(self).custody()
                })
            },
            !old(self)@.listening() ==> {
                &&& teardown.steps@ == Seq::<TeardownStep>::empty()
                &&& teardown.capture is None
                &&& teardown.consumer is None
                &&& final(self).custody() == old(self).custody()
            },
    {
        if !self.pipeline.is_running() {
            return Teardown { steps: Vec::new(), capture: None, consumer: None };
        }
        self.pipeline.stop();
        let mut steps: Vec<TeardownStep> = Vec::with_capacity(5);
        steps.push(TeardownStep::StopCapture);
        steps.push(TeardownStep::StopPipeline);
        steps.push(TeardownStep::JoinConsumer);
        steps.push(TeardownStep::QuitCapture);
        steps.push(TeardownStep::Announce(DictationStatus::Idle));
        assert(steps@ =~= teardown_order());
        Teardown {
            steps,
            capture: self.audio_handle.take(),
            consumer: self.transcription_thread.take(),
        }
    }

    /// Takes back the worker of the session that was stopped, once its
    /// thread has been joined, so that its queue can serve again.
    pub fn reclaim<A, B, C>(&mut self, worker: DspWorker<T, A, B, C>) where
        A: Fn(&[T]) -> T,
        B: Fn(T, T, u64, u32) -> T,
        C: Fn(&[T]) -> bool,

        ensures
            final(self)@ == (SessionModel {
                pipeline: PipelineModel { has_consumer: true, ..old(self)@.pipeline },
                ..old(self)@
            }),
            final(self).custody() == (Custody {
                kept_queue: Some(worker.queue()),
                ..old(self).custody()
            }),
    {
        self.pipeline.reclaim(worker);
    }

    /// Gives up a start between its two halves, when the capture actor could
    /// not be spawned: the queue that was prepared is dropped. Nothing else changes.
    pub fn abandon(&mut self)
        ensures
            final(self)@ == (SessionModel { prepared: false, ..old(self)@ }),
            final(self).custody() == (Custody { prepared_queue: None, ..old(self).custody() }),
    {
        self.pending = None;
    }
}

/// Stopping when no session is running changes nothing, however often it is done.
pub proof fn lemma_stop_without_session_is_no_op(model: SessionModel)
    requires
        !model.listening(),
    ensures
        model.stopped() == model,
        model.stopped().stopped() == model,
{
}

/// Once a session runs, every further start is rejected until it is stopped:
/// neither half of a start goes through, whatever it is given, so no second
/// stage and no second engine-feeding thread come into being.
pub proof fn lemma_start_while_listening_is_rejected(
    model: SessionModel,
    model_loaded: bool,
    chunk_duration_ms: u32,
    overlap_ms: u32,
    device_rate: u32,
    device_channels: u16,
)
    ensures
        model.launched().listening(),
        model.launched().prepare_error(model_loaded, chunk_duration_ms, overlap_ms) == Some(
            SessionError::AlreadyListening,
        ),
        model.launched().launch_error(chunk_duration_ms, overlap_ms, device_rate, device_channels)
            == Some(SessionError::AlreadyListening),
        model.launched().launch_refused() == model.launched(),
{
}

/// After a session was stopped no session runs, no engine-feeding thread is
/// held any more, and the speech model may change; while one runs it may not.
pub proof fn lemma_model_may_change_only_between_sessions(model: SessionModel)
    ensures
        model.listening() ==> !model.model_may_change(),
        model.listening() ==> model.stopped().model_may_change(),
        !model.stopped().listening(),
        model.launched().stopped().model_may_change(),
{
}

/// In a teardown the engine-feeding thread is joined after the stage, and the
/// stage is stopped after the capture actor.
pub proof fn lemma_teardown_joins_in_order()
    ensures
        teardown_order().len() == 5,
        teardown_order().index_of(TeardownStep::StopCapture) < teardown_order().index_of(
            TeardownStep::StopPipeline,
        ),
        teardown_order().index_of(TeardownStep::StopPipeline) < teardown_order().index_of(
            TeardownStep::JoinConsumer,
        ),
        teardown_order().index_of(TeardownStep::JoinConsumer) < teardown_order().index_of(
            TeardownStep::QuitCapture,
        ),
        teardown_order().last() == TeardownStep::Announce(DictationStatus::Idle),
{
    let order = teardown_order();
    assert(order[0] == TeardownStep::StopCapture);
    assert(order[1] == TeardownStep::StopPipeline);
    assert(order[2] == TeardownStep::JoinConsumer);
    assert(order[3] == TeardownStep::QuitCapture);
}

/// What the engine-feeding thread reports about a piece of text.
#[derive(Debug, Clone, PartialEq, Eq)]
pub enum ConsumerEvent {
    /// The text could not be delivered; the error says why.
    OutputError(String),
    /// A piece of text was transcribed.
    TranscriptionUpdate { text: String, is_partial: bool },
    /// The chunk could not be transcribed; the error says why.
    TranscriptionError(String),
}

/// An event as plain values.
pub enum EventView {
    OutputError(Seq<char>),
    TranscriptionUpdate { text: Seq<char>, is_partial: bool },
    TranscriptionError(Seq<char>),
}

impl View for ConsumerEvent {
    type V = EventView;

    open spec fn view(&self) -> EventView {
        match *self {
            ConsumerEvent::OutputError(error) => EventView::OutputError(error@),
            ConsumerEvent::TranscriptionUpdate { text, is_partial } => {
                EventView::TranscriptionUpdate { text: text@, is_partial }
            },
            ConsumerEvent::TranscriptionError(error) => EventView::TranscriptionError(error@),
        }
    }
}

/// The events for segments with these texts, given how the delivery of
/// each went: for every segment, in order, an `OutputError` if its delivery
/// failed, and then in any case a `TranscriptionUpdate` that is not partial.
pub open spec fn events_for(texts: Seq<Seq<char>>, deliveries: Seq<Result<(), String>>) -> Seq<
    EventView,
>
    recommends
        texts.len() == deliveries.len(),
    decreases texts.len(),
{
    if texts.len() == 0 || deliveries.len() == 0 {
        Seq::empty()
    } else {
        let before = events_for(texts.drop_last(), deliveries.drop_last());
        let update = EventView::TranscriptionUpdate { text: texts.last(), is_partial: false };
        match deliveries.last() {
            Ok(_) => before.push(update),
            Err(error) => before.push(EventView::OutputError(error@)).push(update),
        }
    }
}

/// The texts of the segments.
pub open spec fn texts_of(segments: Seq<TranscriptionSegment>) -> Seq<Seq<char>> {
    Seq::new(segments.len(), |i: int| segments[i].text@)
}

/// The events as plain values.
pub open spec fn events_view(events: Seq<ConsumerEvent>) -> Seq<EventView> {
    Seq::new(events.len(), |i: int| events[i]@)
}

/// Delivers the text of each segment as `mode` asks and collects what is to
/// be reported: a failed delivery is reported and does not keep the segment,
/// or the segments after it, from being reported as transcribed.
pub fn report_segments<K, B>(
    segments: &Vec<TranscriptionSegment>,
    mode: &OutputMode,
    type_text: &K,
    copy_to_clipboard: &B,
) -> (events: Vec<ConsumerEvent>) where
    K: Fn(&str) -> Result<(), String>,
    B: Fn(&str) -> Result<(), String>,

    requires
        forall|text: &str| call_requires(*type_text, (text,)),
        forall|text: &str| call_requires(*copy_to_clipboard, (text,)),
    ensures
        exists|deliveries: Seq<Result<(), String>>|
            {
                &&& deliveries.len() == segments.len()
                &&& forall|i: int|
                    0 <= i < segments.len() ==> routed(
                        segments[i].text@,
                        *mode,
                        *type_text,
                        *copy_to_clipboard,
                        #[trigger] deliveries[i],
                    )
                &&& events_view(events@) == events_for(texts_of(segments@), deliveries)
            },
{
    let mut events: Vec<ConsumerEvent> = Vec::new();
    let ghost mut deliveries: Seq<Result<(), String>> = Seq::empty();
    let ghost texts = texts_of(segments@);
    let mut i: usize = 0;
    assert(events_view(events@) =~= events_for(texts.take(0), deliveries));
    while i < segments.len()
        invariant
            i <= segments.len(),
            texts == texts_of(segments@),
            forall|text: &str| call_requires(*type_text, (text,)),
            forall|text: &str| call_requires(*copy_to_clipboard, (text,)),
            deliveries.len() == i,
            forall|k: int|
                0 <= k < i ==> routed(
                    segments[k].text@,
                    *mode,
                    *type_text,
                    *copy_to_clipboard,
                    #[trigger] deliveries[k],
                ),
            events_view(events@) == events_for(texts.take(i as int), deliveries),
        decreases segments.len() - i,
    {
        let ghost before = events_view(events@);
        let delivery: Result<(), String> = output_text(
            segments[i].text.as_str(),
            mode,
            type_text,
            copy_to_clipboard,
        );
        let ghost outcome = delivery;
        proof {
            lemma_routed_by_ref(
                segments[i as int].text@,
                *mode,
                type_text,
                copy_to_clipboard,
                delivery,
            );
            assert(texts.take(i as int + 1).drop_last() =~= texts.take(i as int));
            assert(deliveries.push(delivery).drop_last() =~= deliveries);
            deliveries = deliveries.push(delivery);
        }
        match delivery {
            Ok(_) => {},
            Err(error) => {
                events.push(ConsumerEvent::OutputError(error));
            },
        }
        events.push(
            ConsumerEvent::TranscriptionUpdate { text: segments[i].text.clone(), is_partial: false },
        );
        proof {
            let update = EventView::TranscriptionUpdate { text: texts[i as int], is_partial: false };
            match outcome {
                Ok(_) => {
                    assert(events_view(events@) =~= before.push(update));
                },
                Err(error) => {
                    assert(events_view(events@) =~= before.push(
                        EventView::OutputError(error@),
                    ).push(update));
                },
            }
        }
        i = i + 1;
    }
    proof {
        assert(texts.take(i as int) =~= texts);
    }
    events
}

/// What to report for a chunk: the events of its segments when it was
/// transcribed, a single `TranscriptionError` when it was not. Either way the
/// thread goes on with the next chunk.
pub fn report_chunk<K, B>(
    outcome: Result<Vec<TranscriptionSegment>, String>,
    mode: &OutputMode,
    type_text: &K,
    copy_to_clipboard: &B,
) -> (events: Vec<ConsumerEvent>) where
    K: Fn(&str) -> Result<(), String>,
    B: Fn(&str) -> Result<(), String>,

    requires
        forall|text: &str| call_requires(*type_text, (text,)),
        forall|text: &str| call_requires(*copy_to_clipboard, (text,)),
    ensures
        match outcome {
            Ok(segments) => exists|deliveries: Seq<Result<(), String>>|
                {
                    &&& deliveries.len() == segments.len()
                    &&& forall|i: int|
                        0 <= i < segments.len() ==> routed(
                            segments[i].text@,
                            *mode,
                            *type_text,
                            *copy_to_clipboard,
                            #[trigger] deliveries[i],
                        )
                    &&& events_view(events@) == events_for(texts_of(segments@), deliveries)
                },
            Err(error) => events_view(events@) == seq![EventView::TranscriptionError(error@)],
        },
{
    match outcome {
        Ok(segments) => report_segments(&segments, mode, type_text, copy_to_clipboard),
        Err(error) => {
            let mut events: Vec<ConsumerEvent> = Vec::with_capacity(1);
            events.push(ConsumerEvent::TranscriptionError(error));
            assert(events_view(events@) =~= seq![EventView::TranscriptionError(error@)]);
            events
        },
    }
}

/// Whether the durations make a buffer at `TARGET_RATE`.
fn check_geometry(chunk_duration_ms: u32, overlap_ms: u32) -> (error: Option<PipelineError>)
    ensures
        error == match geometry_error(
            TARGET_RATE as nat,
            chunk_duration_ms as nat,
            overlap_ms as nat,
            BUFFER_SECONDS as nat,
        ) {
            Some(e) => Some(PipelineError::Buffer(e)),
            None => None,
        },
{
    let chunk: u64 = TARGET_RATE as u64 * chunk_duration_ms as u64 / 1000;
    let overlap: u64 = TARGET_RATE as u64 * overlap_ms as u64 / 1000;
    let capacity: u64 = TARGET_RATE as u64 * BUFFER_SECONDS as u64;
    if overlap >= chunk {
        Some(PipelineError::Buffer(crate::audio::buffer::BufferError::OverlapNotShorterThanChunk))
    } else if chunk > capacity {
        Some(PipelineError::Buffer(crate::audio::buffer::BufferError::ChunkLongerThanBuffer))
    } else {
        None
    }
}

} // verus!
