//! The signal-processing stage between the capture queue and transcription:
//! down-mix, resample, accumulate, cut chunks, and pass on those with speech.
//!
//! The stage itself runs on a thread of its own. What that thread does in each
//! round is decided here by [`DspWorker::poll`]; sleeping, sending the chunk on
//! and watching the run flag are left to the thread.

use crate::audio::buffer::{geometry_error, samples_in_millis, AudioRingBuffer, BufferError, RingModel};
use crate::audio::convert::{
    is_mono_of, is_resampled_of, resample_if_it_fits, resampled_len, to_mono,
};
use crate::audio::queue::{pop_slice, FrameConsumer};
use crate::audio::vad::{classifies, DetectorModel, VoiceActivityDetector, FRAME_SIZE};
use vstd::prelude::*;

verus! {

/// The rate every chunk is delivered at, in samples per second.
pub const TARGET_RATE: u32 = 16000;

/// Seconds of audio the chunk buffer holds.
pub const BUFFER_SECONDS: u32 = 30;

/// Most samples taken from the queue in one round: 100 ms at 48 kHz.
pub const READ_SAMPLES: usize = 4800;

/// Milliseconds to sleep when the queue had nothing.
pub const IDLE_WAIT_MS: u64 = 10;

/// Why the stage could not start.
#[derive(Debug, Clone, Copy, PartialEq, Eq, Structural)]
pub enum PipelineError {
    /// The stage is running already.
    AlreadyRunning,
    /// The device reports a rate or a channel count of zero.
    UnsupportedFormat,
    /// The chunk and overlap durations do not make a buffer.
    Buffer(BufferError),
    /// No queue was handed in and none is kept from an earlier session.
    NoConsumer,
}

/// What the stage's thread is to do next.
#[derive(Debug, Clone, PartialEq, Eq)]
pub enum DspAction<T> {
    /// Leave the loop: the run flag is cleared, or nobody receives chunks any more.
    Exit,
    /// The queue was empty: sleep `IDLE_WAIT_MS` and come back.
    Wait,
    /// Samples were taken in and no chunk is to be sent: come back at once.
    Continue,
    /// Send this chunk on, and tell the worker whether it was delivered.
    Forward(Vec<T>),
}

/// Mathematical model of a running stage.
pub struct StageModel<T> {
    pub buffer: RingModel<T>,
    pub detector: DetectorModel,
    pub device_rate: u32,
    pub device_channels: u16,
    /// A chunk could not be delivered: nobody receives chunks any more.
    pub receiver_gone: bool,
}

/// One round of the stage on the samples `raw`: `before` becomes `after`, and
/// `forwarded` is the chunk to send on, if any.
///
/// The samples are down-mixed with `average`, resampled to `TARGET_RATE` with
/// `blend` and written to the buffer. If a chunk is due then, it is taken and
/// shown to the detector frame by frame; it is forwarded exactly when the
/// detector was on after one of its frames. A chunk without speech is dropped.
/// Samples whose converted length is more than can be counted are left out
/// as a whole: the round changes nothing then.
pub open spec fn stage_round<T, A: Fn(&[T]) -> T, B: Fn(T, T, u64, u32) -> T, C: Fn(&[T]) -> bool>(
    average: A,
    blend: B,
    classifier: C,
    before: StageModel<T>,
    raw: Seq<T>,
    after: StageModel<T>,
    forwarded: Option<Seq<T>>,
) -> bool {
    if converted_len(raw.len(), before.device_rate, before.device_channels) > usize::MAX {
        after == before && forwarded is None
    } else {
        exists|mono: Seq<T>, resampled: Seq<T>, flags: Seq<bool>|
            {
                &&& is_mono_of(average, raw, before.device_channels, mono)
                &&& is_resampled_of(blend, mono, before.device_rate, TARGET_RATE, resampled)
                &&& #[trigger] stage_outcome(
                    classifier,
                    before,
                    mono,
                    resampled,
                    flags,
                    after,
                    forwarded,
                )
            }
    }
}

/// The part of a round that follows the conversion of `mono` to
/// `resampled`: `resampled` is written, and a chunk that is due is taken and
/// classified as `flags`.
pub open spec fn stage_outcome<T, C: Fn(&[T]) -> bool>(
    classifier: C,
    before: StageModel<T>,
    mono: Seq<T>,
    resampled: Seq<T>,
    flags: Seq<bool>,
    after: StageModel<T>,
    forwarded: Option<Seq<T>>,
) -> bool {
    let written = before.buffer.write(resampled);
    &&& after.device_rate == before.device_rate
    &&& after.device_channels == before.device_channels
    &&& after.receiver_gone == before.receiver_gone
    &&& if written.has_chunk() {
        &&& after.buffer == written.extract()
        &&& classifies(classifier, written.latest_chunk(), flags)
        &&& after.detector == before.detector.run(flags)
        &&& forwarded == if before.detector.any_active(flags) {
            Some(written.latest_chunk())
        } else {
            None
        }
    } else {
        &&& after.buffer == written
        &&& after.detector == before.detector
        &&& forwarded is None
    }
}

/// The state one session's stage works on: the queue it reads, the chunk
/// buffer, the detector, and the functions that do the arithmetic on samples.
#[verifier::reject_recursive_types(T)]
pub struct DspWorker<T, A, B, C> {
    consumer: FrameConsumer<T>,
    buffer: AudioRingBuffer<T>,
    detector: VoiceActivityDetector<C>,
    scratch: Vec<T>,
    device_rate: u32,
    device_channels: u16,
    average: A,
    blend: B,
    receiver_gone: bool,
}

impl<T, A, B, C> View for DspWorker<T, A, B, C> {
    type V = StageModel<T>;

    closed spec fn view(&self) -> StageModel<T> {
        StageModel {
            buffer: self.buffer@,
            detector: self.detector@,
            device_rate: self.device_rate,
            device_channels: self.device_channels,
            receiver_gone: self.receiver_gone,
        }
    }
}

/// The three functions may be called on everything the stage will hand them.
pub open spec fn kernels_total<T, A: Fn(&[T]) -> T, B: Fn(T, T, u64, u32) -> T, C: Fn(&[T]) -> bool>(
    average: A,
    blend: B,
    classifier: C,
    device_channels: u16,
) -> bool {
    &&& forall|frame: &[T]| frame@.len() == device_channels ==> call_requires(average, (frame,))
    &&& forall|a: T, b: T, k: u64, s: u32| call_requires(blend, (a, b, k, s))
    &&& forall|frame: &[T]| 0 < frame@.len() <= FRAME_SIZE ==> call_requires(classifier, (frame,))
}

impl<T: Copy, A: Fn(&[T]) -> T, B: Fn(T, T, u64, u32) -> T, C: Fn(&[T]) -> bool> DspWorker<T, A, B, C> {
    /// The function that averages a frame's channels.
    pub closed spec fn average(&self) -> A {
        self.average
    }

    /// The function that interpolates between two samples.
    pub closed spec fn blend(&self) -> B {
        self.blend
    }

    /// The function that decides whether a frame is loud.
    pub closed spec fn classifier(&self) -> C {
        self.detector.classifier()
    }

    /// The queue the worker reads from.
    pub closed spec fn queue(&self) -> FrameConsumer<T> {
        self.consumer
    }

    /// The worker is as `AudioPipeline::start` built it or as a round left it.
    pub closed spec fn wf(&self) -> bool {
        &&& self.scratch.len() == READ_SAMPLES
        &&& self.device_rate >= 1
        &&& self.device_channels >= 1
        &&& self.buffer@.wf()
        &&& kernels_total(self.average, self.blend, self.detector.classifier(), self.device_channels)
    }

    /// Takes `raw`, as the device delivered it, through one round of the stage.
    pub fn process(&mut self, raw: &[T]) -> (forwarded: Option<Vec<T>>)
        requires
            old(self).wf(),
        ensures
            final(self).wf(),
            final(self).average() == old(self).average(),
            final(self).blend() == old(self).blend(),
            final(self).classifier() == old(self).classifier(),
            stage_round(
                old(self).average(),
                old(self).blend(),
                old(self).classifier(),
                old(self)@,
                raw@,
                final(self)@,
                match forwarded {
                    Some(chunk) => Some(chunk@),
                    None => None,
                },
            ),
    {
        run_round(
            &mut self.buffer,
            &mut self.detector,
            &self.average,
            &self.blend,
            self.device_rate,
            self.device_channels,
            self.receiver_gone,
            raw,
        )
    }

    /// One round of the stage's loop: takes what the queue holds, up to
    /// `READ_SAMPLES` samples, through the stage and says what the thread is
    /// to do next. The loop ends when the run flag is cleared or a chunk
    /// could not be delivered; nothing is taken from the queue then.
    pub fn poll(&mut self, running: bool) -> (action: DspAction<T>)
        requires
            old(self).wf(),
        ensures
            final(self).wf(),
            final(self).average() == old(self).average(),
            final(self).blend() == old(self).blend(),
            final(self).classifier() == old(self).classifier(),
            action is Exit <==> !running || old(self)@.receiver_gone,
            match action {
                DspAction::Exit => final(self)@ == old(self)@,
                DspAction::Wait => final(self)@ == old(self)@,
                DspAction::Continue => exists|raw: Seq<T>|
                    {
                        &&& 0 < raw.len() <= READ_SAMPLES
                        &&& #[trigger] stage_round(
                            old(self).average(),
                            old(self).blend(),
                            old(self).classifier(),
                            old(self)@,
                            raw,
                            final(self)@,
                            None,
                        )
                    },
                DspAction::Forward(chunk) => exists|raw: Seq<T>|
                    {
                        &&& 0 < raw.len() <= READ_SAMPLES
                        &&& #[trigger] stage_round(
                            old(self).average(),
                            old(self).blend(),
                            old(self).classifier(),
                            old(self)@,
                            raw,
                            final(self)@,
                            Some(chunk@),
                        )
                    },
            },
    {
        if !running || self.receiver_gone {
            return DspAction::Exit;
        }
        let popped: usize = pop_slice(&mut self.consumer, self.scratch.as_mut_slice());
        if popped == 0 {
            return DspAction::Wait;
        }
        let raw: &[T] = &self.scratch.as_slice()[0..popped];
        let forwarded: Option<Vec<T>> = run_round(
            &mut self.buffer,
            &mut self.detector,
            &self.average,
            &self.blend,
            self.device_rate,
            self.device_channels,
            self.receiver_gone,
            raw,
        );
        match forwarded {
            Some(chunk) => {
                assert(stage_round(
                    old(self).average(),
                    old(self).blend(),
                    old(self).classifier(),
                    old(self)@,
                    raw@,
                    self@,
                    Some(chunk@),
                ));
                let action = DspAction::Forward(chunk);
                assert(action matches DspAction::Forward(sent) && sent@ == chunk@);
                action
            },
            None => {
                assert(stage_round(
                    old(self).average(),
                    old(self).blend(),
                    old(self).classifier(),
                    old(self)@,
                    raw@,
                    self@,
                    None,
                ));
                DspAction::Continue
            },
        }
    }

    /// Takes note of whether a forwarded chunk reached its receiver. Once a
    /// chunk did not, the next round answers with `Exit`.
    pub fn delivered(&mut self, delivered: bool)
        requires
            old(self).wf(),
        ensures
            final(self).wf(),
            final(self).average() == old(self).average(),
            final(self).blend() == old(self).blend(),
            final(self).classifier() == old(self).classifier(),
            final(self).queue() == old(self).queue(),
            final(self)@ == (StageModel {
                receiver_gone: old(self)@.receiver_gone || !delivered,
                ..old(self)@
            }),
    {
        if !delivered {
            self.receiver_gone = true;
        }
    }

    /// Ends the worker and hands back its queue for the next session.
    pub fn into_consumer(self) -> (consumer: FrameConsumer<T>)
        ensures
            consumer == self.queue(),
    {
        self.consumer
    }
}

/// Mathematical model of the stage's lifecycle.
pub struct PipelineModel {
    /// Whether a worker is out and its run flag is set.
    pub running: bool,
    /// Whether a queue is kept from an earlier session.
    pub has_consumer: bool,
}

/// Why a start with these arguments fails, or `None` when it goes through.
pub open spec fn start_error(
    pipeline: PipelineModel,
    consumer_given: bool,
    chunk_duration_ms: u32,
    overlap_ms: u32,
    device_rate: u32,
    device_channels: u16,
) -> Option<PipelineError> {
    if pipeline.running {
        Some(PipelineError::AlreadyRunning)
    } else if device_rate == 0 || device_channels == 0 {
        Some(PipelineError::UnsupportedFormat)
    } else if geometry_error(
        TARGET_RATE as nat,
        chunk_duration_ms as nat,
        overlap_ms as nat,
        BUFFER_SECONDS as nat,
    ) is Some {
        Some(
            PipelineError::Buffer(
                geometry_error(
                    TARGET_RATE as nat,
                    chunk_duration_ms as nat,
                    overlap_ms as nat,
                    BUFFER_SECONDS as nat,
                )->0,
            ),
        )
    } else if !consumer_given && !pipeline.has_consumer {
        Some(PipelineError::NoConsumer)
    } else {
        None
    }
}

/// The stage as a session begins with it: an empty buffer for the given
/// durations at `TARGET_RATE`, and a detector that has seen nothing.
pub open spec fn fresh_stage<T>(
    chunk_duration_ms: u32,
    overlap_ms: u32,
    device_rate: u32,
    device_channels: u16,
    silence: T,
) -> StageModel<T> {
    StageModel {
        buffer: RingModel::fresh(
            TARGET_RATE as nat * BUFFER_SECONDS as nat,
            samples_in_millis(TARGET_RATE as nat, chunk_duration_ms as nat),
            samples_in_millis(TARGET_RATE as nat, overlap_ms as nat),
            silence,
        ),
        detector: DetectorModel::fresh(),
        device_rate,
        device_channels,
        receiver_gone: false,
    }
}

/// Lifecycle of the signal-processing stage: whether it runs, and the queue
/// that is kept from one session to the next so that it need not be
/// allocated again.
#[verifier::reject_recursive_types(T)]
pub struct AudioPipeline<T> {
    running: bool,
    parked: Option<FrameConsumer<T>>,
}

impl<T> View for AudioPipeline<T> {
    type V = PipelineModel;

    open spec fn view(&self) -> PipelineModel {
        PipelineModel { running: self.run_flag(), has_consumer: self.kept_queue() is Some }
    }
}

impl<T> AudioPipeline<T> {
    /// The run flag.
    pub closed spec fn run_flag(&self) -> bool {
        self.running
    }

    /// The queue that is kept for the next session.
    pub closed spec fn kept_queue(&self) -> Option<FrameConsumer<T>> {
        self.parked
    }
}

impl<T> Default for AudioPipeline<T> {
    fn default() -> (pipeline: Self)
        ensures
            pipeline@ == (PipelineModel { running: false, has_consumer: false }),
    {
        AudioPipeline { running: false, parked: None }
    }
}

impl<T: Copy> AudioPipeline<T> {
    /// A stage that is not running and keeps no queue.
    pub fn new() -> (pipeline: Self)
        ensures
            pipeline@ == (PipelineModel { running: false, has_consumer: false }),
            pipeline.kept_queue() is None,
    {
        AudioPipeline { running: false, parked: None }
    }

    /// Begins a session: builds the worker that the stage's thread will run.
    ///
    /// The worker reads from `new_consumer`, or from the queue kept from the
    /// session before when none is given. Its buffer and detector are fresh.
    /// On failure no worker exists, the stage is as it was, and a queue that
    /// was handed in is kept for a later start.
    pub fn start<A: Fn(&[T]) -> T, B: Fn(T, T, u64, u32) -> T, C: Fn(&[T]) -> bool>(
        &mut self,
        new_consumer: Option<FrameConsumer<T>>,
        classifier: C,
        chunk_duration_ms: u32,
        overlap_ms: u32,
        device_rate: u32,
        device_channels: u16,
        average: A,
        blend: B,
        silence: T,
    ) -> (started: Result<DspWorker<T, A, B, C>, PipelineError>)
        requires
            kernels_total(average, blend, classifier, device_channels),
        ensures
            match started {
                Ok(worker) => {
                    &&& start_error(
                        old(self)@,
                        new_consumer is Some,
                        chunk_duration_ms,
                        overlap_ms,
                        device_rate,
                        device_channels,
                    ) is None
                    &&& worker.wf()
                    &&& worker@ == fresh_stage(
                        chunk_duration_ms,
                        overlap_ms,
                        device_rate,
                        device_channels,
                        silence,
                    )
                    &&& worker.average() == average
                    &&& worker.blend() == blend
                    &&& worker.classifier() == classifier
                    &&& Some(worker.queue()) == if new_consumer is Some {
                        new_consumer
                    } else {
                        old(self).kept_queue()
                    }
                    &&& final(self)@.running
                    &&& final(self).kept_queue() == if new_consumer is Some {
                        old(self).kept_queue()
                    } else {
                        None
                    }
                },
                Err(error) => {
                    &&& start_error(
                        old(self)@,
                        new_consumer is Some,
                        chunk_duration_ms,
                        overlap_ms,
                        device_rate,
                        device_channels,
                    ) == Some(error)
                    &&& final(self)@.running == old(self)@.running
                    &&& final(self).kept_queue() == if new_consumer is Some {
                        new_consumer
                    } else {
                        old(self).kept_queue()
                    }
                },
            },
    {
        if self.running {
            self.keep(new_consumer);
            return Err(PipelineError::AlreadyRunning);
        }
        if device_rate == 0 || device_channels == 0 {
            self.keep(new_consumer);
            return Err(PipelineError::UnsupportedFormat);
        }
        let buffer: AudioRingBuffer<T> = match AudioRingBuffer::new(
            TARGET_RATE,
            chunk_duration_ms,
            overlap_ms,
            BUFFER_SECONDS,
            silence,
        ) {
            Ok(buffer) => buffer,
            Err(error) => {
                self.keep(new_consumer);
                return Err(PipelineError::Buffer(error));
            },
        };
        let consumer: FrameConsumer<T> = match new_consumer {
            Some(consumer) => consumer,
            None => match self.parked.take() {
                Some(consumer) => consumer,
                None => {
                    return Err(PipelineError::NoConsumer);
                },
            },
        };
        let mut scratch: Vec<T> = Vec::with_capacity(READ_SAMPLES);
        while scratch.len() < READ_SAMPLES
            invariant
                scratch.len() <= READ_SAMPLES,
            decreases READ_SAMPLES - scratch.len(),
        {
            scratch.push(silence);
        }
        self.running = true;
        Ok(
            DspWorker {
                consumer,
                buffer,
                detector: VoiceActivityDetector::new(classifier),
                scratch,
                device_rate,
                device_channels,
                average,
                blend,
                receiver_gone: false,
            },
        )
    }

    /// Keeps a queue that was handed in but not used.
    fn keep(&mut self, consumer: Option<FrameConsumer<T>>)
        ensures
            final(self)@.running == old(self)@.running,
            final(self).kept_queue() == if consumer is Some {
                consumer
            } else {
                old(self).kept_queue()
            },
    {
        if consumer.is_some() {
            self.parked = consumer;
        }
    }

    /// Clears the run flag. The worker's next round answers with `Exit`;
    /// once its thread has ended, hand the worker to [`AudioPipeline::reclaim`].
    /// Stopping a stage that is not running changes nothing.
    pub fn stop(&mut self)
        ensures
            final(self)@ == (PipelineModel { running: false, ..old(self)@ }),
            final(self).kept_queue() == old(self).kept_queue(),
    {
        self.running = false;
    }

    /// Takes back the worker of a session that has ended and keeps its queue for the next one.
    pub fn reclaim<A, B, C>(&mut self, worker: DspWorker<T, A, B, C>) where
        A: Fn(&[T]) -> T,
        B: Fn(T, T, u64, u32) -> T,
        C: Fn(&[T]) -> bool,

        ensures
            final(self)@ == (PipelineModel { has_consumer: true, ..old(self)@ }),
            final(self).kept_queue() == Some(worker.queue()),
    {
        self.parked = Some(worker.into_consumer());
    }

    /// Whether the run flag is set.
    pub fn is_running(&self) -> (running: bool)
        ensures
            running == self@.running,
    {
        self.running
    }
}

/// Number of samples a round writes for `raw_len` samples from the device:
/// one per complete frame of `device_channels`, brought from `device_rate`
/// to `TARGET_RATE`.
pub open spec fn converted_len(raw_len: nat, device_rate: u32, device_channels: u16) -> nat {
    resampled_len(raw_len / (device_channels as nat), device_rate as nat, TARGET_RATE as nat)
}

/// A round moves the cursor on by exactly the converted length of what it
/// was given, and it forwards nothing unless a chunk is due after that: so
/// no chunk leaves the stage before `chunk_size` converted samples have been
/// written in total, and `chunk_size - overlap_size` since the chunk before.
pub proof fn lemma_round_advances_by_converted_length<
    T,
    A: Fn(&[T]) -> T,
    B: Fn(T, T, u64, u32) -> T,
    C: Fn(&[T]) -> bool,
>(
    average: A,
    blend: B,
    classifier: C,
    before: StageModel<T>,
    raw: Seq<T>,
    after: StageModel<T>,
    forwarded: Option<Seq<T>>,
)
    requires
        before.device_rate >= 1,
        before.device_channels >= 1,
        converted_len(raw.len(), before.device_rate, before.device_channels) <= usize::MAX,
        stage_round(average, blend, classifier, before, raw, after, forwarded),
    ensures
        after.buffer.cursor() == before.buffer.cursor() + converted_len(
            raw.len(),
            before.device_rate,
            before.device_channels,
        ),
        forwarded is Some ==> {
            &&& after.buffer.cursor() >= after.buffer.chunk_size
            &&& before.buffer.pending + converted_len(
                raw.len(),
                before.device_rate,
                before.device_channels,
            ) >= before.buffer.chunk_size - before.buffer.overlap_size
            &&& forwarded->0.len() == before.buffer.chunk_size
            &&& after.buffer.pending == 0
        },
        after.buffer.pending == 0 || after.buffer.pending == before.buffer.pending + converted_len(
            raw.len(),
            before.device_rate,
            before.device_channels,
        ),
{
    let (mono, resampled, flags) = choose|mono: Seq<T>, resampled: Seq<T>, flags: Seq<bool>|
        {
            &&& is_mono_of(average, raw, before.device_channels, mono)
            &&& is_resampled_of(blend, mono, before.device_rate, TARGET_RATE, resampled)
            &&& #[trigger] stage_outcome(classifier, before, mono, resampled, flags, after, forwarded)
        };
    assert(mono.len() == raw.len() / (before.device_channels as nat)) by {
        if before.device_channels == 1 {
            crate::arith::lemma_div_mod_unique(raw.len() as int, 1, raw.len() as int, 0);
        }
    }
    assert(resampled.len() == resampled_len(
        mono.len(),
        before.device_rate as nat,
        TARGET_RATE as nat,
    ));
}

/// One round on the parts of a worker.
fn run_round<T: Copy, A: Fn(&[T]) -> T, B: Fn(T, T, u64, u32) -> T, C: Fn(&[T]) -> bool>(
    buffer: &mut AudioRingBuffer<T>,
    detector: &mut VoiceActivityDetector<C>,
    average: &A,
    blend: &B,
    device_rate: u32,
    device_channels: u16,
    receiver_gone: bool,
    raw: &[T],
) -> (forwarded: Option<Vec<T>>)
    requires
        device_rate >= 1,
        device_channels >= 1,
        old(buffer)@.wf(),
        kernels_total(*average, *blend, old(detector).classifier(), device_channels),
    ensures
        final(buffer)@.wf(),
        final(detector).classifier() == old(detector).classifier(),
        stage_round(
            *average,
            *blend,
            old(detector).classifier(),
            (StageModel {
                buffer: old(buffer)@,
                detector: old(detector)@,
                device_rate,
                device_channels,
                receiver_gone,
            }),
            raw@,
            (StageModel {
                buffer: final(buffer)@,
                detector: final(detector)@,
                device_rate,
                device_channels,
                receiver_gone,
            }),
            match forwarded {
                Some(chunk) => Some(chunk@),
                None => None,
            },
        ),
{
    let ghost before = StageModel {
        buffer: old(buffer)@,
        detector: old(detector)@,
        device_rate,
        device_channels,
        receiver_gone,
    };
    let mono: Vec<T> = to_mono(raw, device_channels, average);
    let resampled: Vec<T> = match resample_if_it_fits(
        mono.as_slice(),
        device_rate,
        TARGET_RATE,
        blend,
    ) {
        Some(resampled) => resampled,
        None => {
            return None;
        },
    };
    buffer.write(resampled.as_slice());
    let taken: Option<Vec<T>> = buffer.extract_chunk();
    match taken {
        None => {
            proof {
                assert(stage_outcome(
                    old(detector).classifier(),
                    before,
                    mono@,
                    resampled@,
                    Seq::<bool>::empty(),
                    (StageModel { buffer: buffer@, detector: detector@, ..before }),
                    None,
                ));
            }
            None
        },
        Some(chunk) => {
            let ghost detector_before = detector@;
            let speech: bool = detector.contains_speech(chunk.as_slice());
            proof {
                let flags = choose|flags: Seq<bool>|
                    {
                        &&& classifies(old(detector).classifier(), chunk@, flags)
                        &&& detector@ == #[trigger] detector_before.run(flags)
                        &&& speech == detector_before.any_active(flags)
                    };
                assert(stage_outcome(
                    old(detector).classifier(),
                    before,
                    mono@,
                    resampled@,
                    flags,
                    (StageModel { buffer: buffer@, detector: detector@, ..before }),
                    if speech {
                        Some(chunk@)
                    } else {
                        None
                    },
                ));
            }
            if speech {
                Some(chunk)
            } else {
                None
            }
        },
    }
}

} // verus!
