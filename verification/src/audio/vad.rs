//! Voice-activity detection: a streaming decision with hysteresis over fixed-size frames.
//!
//! Whether a single frame is loud is decided by the classifier the detector is
//! built with (typically: root-mean-square energy above a threshold). The detector
//! itself only counts consecutive loud and quiet frames.

use crate::audio::buffer::saturated;
use crate::audio::convert::returns_on;
use vstd::prelude::*;

verus! {

/// Samples per frame when a chunk is split up: 30 ms at 16 kHz.
pub const FRAME_SIZE: usize = 480;

/// Consecutive loud frames that switch the detector on.
pub const MIN_SPEECH_FRAMES: usize = 3;

/// Consecutive quiet frames that switch the detector off.
pub const MIN_SILENCE_FRAMES: usize = 10;

/// Mathematical model of the detector.
pub struct DetectorModel {
    /// Loud frames seen in a row, ending with the latest frame.
    pub speech_streak: nat,
    /// Quiet frames seen in a row, ending with the latest frame.
    pub silence_streak: nat,
    /// Whether the detector currently reports speech.
    pub active: bool,
    /// Loud streak that switches the detector on.
    pub min_speech_frames: nat,
    /// Quiet streak that switches the detector off.
    pub min_silence_frames: nat,
}

impl DetectorModel {
    /// The detector before any frame, with the standard streak lengths.
    pub open spec fn fresh() -> Self {
        DetectorModel {
            speech_streak: 0,
            silence_streak: 0,
            active: false,
            min_speech_frames: MIN_SPEECH_FRAMES as nat,
            min_silence_frames: MIN_SILENCE_FRAMES as nat,
        }
    }

    /// The detector after one more frame, `loud` or not.
    pub open spec fn step(self, loud: bool) -> Self {
        if loud {
            DetectorModel {
                speech_streak: self.speech_streak + 1,
                silence_streak: 0,
                active: self.active || self.speech_streak + 1 >= self.min_speech_frames,
                ..self
            }
        } else {
            DetectorModel {
                speech_streak: 0,
                silence_streak: self.silence_streak + 1,
                active: self.active && self.silence_streak + 1 < self.min_silence_frames,
                ..self
            }
        }
    }

    /// The detector after the frames classified as `flags`, in order.
    pub open spec fn run(self, flags: Seq<bool>) -> Self
        decreases flags.len(),
    {
        if flags.len() == 0 {
            self
        } else {
            self.run(flags.drop_last()).step(flags.last())
        }
    }

    /// Whether the detector reported speech right after at least one of the frames.
    pub open spec fn any_active(self, flags: Seq<bool>) -> bool
        decreases flags.len(),
    {
        if flags.len() == 0 {
            false
        } else {
            self.any_active(flags.drop_last()) || self.run(flags).active
        }
    }
}

/// Number of frames a chunk of `len` samples splits into; a shorter last frame counts.
pub open spec fn frame_count(len: nat) -> nat {
    (len + FRAME_SIZE - 1) as nat / (FRAME_SIZE as nat)
}

/// The `index`-th frame of `audio`: `FRAME_SIZE` samples, or what is left at the end.
pub open spec fn audio_frame<T>(audio: Seq<T>, index: int) -> Seq<T> {
    audio.subrange(
        index * FRAME_SIZE,
        if (index + 1) * FRAME_SIZE <= audio.len() {
            (index + 1) * FRAME_SIZE
        } else {
            audio.len() as int
        },
    )
}

/// `flags` are verdicts the classifier may give on the frames of `audio`, one per frame.
pub open spec fn classifies<T, C: Fn(&[T]) -> bool>(
    classifier: C,
    audio: Seq<T>,
    flags: Seq<bool>,
) -> bool {
    &&& flags.len() == frame_count(audio.len())
    &&& forall|i: int|
        0 <= i < flags.len() ==> returns_on(classifier, audio_frame(audio, i), #[trigger] flags[i])
}

/// The counters behind [`VoiceActivityDetector`].
struct DetectorState {
    speech: usize,
    silence: usize,
    active: bool,
    min_speech_frames: usize,
    min_silence_frames: usize,
    speech_exact: Ghost<nat>,
    silence_exact: Ghost<nat>,
}

impl DetectorState {
    spec fn model(&self) -> DetectorModel {
        DetectorModel {
            speech_streak: self.speech_exact@,
            silence_streak: self.silence_exact@,
            active: self.active,
            min_speech_frames: self.min_speech_frames as nat,
            min_silence_frames: self.min_silence_frames as nat,
        }
    }

    spec fn wf(&self) -> bool {
        &&& self.speech == saturated(self.speech_exact@)
        &&& self.silence == saturated(self.silence_exact@)
    }

    fn step(&mut self, loud: bool)
        requires
            old(self).wf(),
        ensures
            final(self).wf(),
            final(self).model() == old(self).model().step(loud),
        no_unwind
    {
        if loud {
            if self.speech < usize::MAX {
                self.speech = self.speech + 1;
            }
            self.silence = 0;
            if self.speech >= self.min_speech_frames {
                self.active = true;
            }
            proof {
                self.speech_exact@ = self.speech_exact@ + 1;
                self.silence_exact@ = 0;
            }
        } else {
            if self.silence < usize::MAX {
                self.silence = self.silence + 1;
            }
            self.speech = 0;
            if self.silence >= self.min_silence_frames {
                self.active = false;
            }
            proof {
                self.silence_exact@ = self.silence_exact@ + 1;
                self.speech_exact@ = 0;
            }
        }
    }
}

/// Streaming voice-activity detector.
///
/// The detector switches on once `min_speech_frames` loud frames arrive in a row
/// and off once `min_silence_frames` quiet frames arrive in a row; in between
/// it keeps its state. The state carries over from one chunk to the next.
pub struct VoiceActivityDetector<C> {
    classifier: C,
    state: DetectorState,
}

impl<C> VoiceActivityDetector<C> {
    #[verifier::type_invariant]
    spec fn inv(self) -> bool {
        self.state.wf()
    }

    /// The function that decides whether a frame is loud.
    pub closed spec fn classifier(&self) -> C {
        self.classifier
    }
}

impl<C> View for VoiceActivityDetector<C> {
    type V = DetectorModel;

    closed spec fn view(&self) -> DetectorModel {
        self.state.model()
    }
}

impl<C> VoiceActivityDetector<C> {
    /// A detector that has seen no frame yet and asks `classifier` about each frame.
    pub fn new(classifier: C) -> (detector: Self)
        ensures
            detector@ == DetectorModel::fresh(),
            detector.classifier() == classifier,
    {
        VoiceActivityDetector {
            classifier,
            state: DetectorState {
                speech: 0,
                silence: 0,
                active: false,
                min_speech_frames: MIN_SPEECH_FRAMES,
                min_silence_frames: MIN_SILENCE_FRAMES,
                speech_exact: Ghost(0),
                silence_exact: Ghost(0),
            },
        }
    }

    /// Whether the detector currently reports speech.
    pub fn is_speech(&self) -> (active: bool)
        ensures
            active == self@.active,
    {
        self.state.active
    }

    /// Loud frames seen in a row up to now.
    pub fn speech_frame_count(&self) -> (n: usize)
        ensures
            n == saturated(self@.speech_streak),
    {
        proof {
            use_type_invariant(self);
        }
        self.state.speech
    }

    /// Quiet frames seen in a row up to now.
    pub fn silence_frame_count(&self) -> (n: usize)
        ensures
            n == saturated(self@.silence_streak),
    {
        proof {
            use_type_invariant(self);
        }
        self.state.silence
    }

    /// Feeds one frame to the detector and reports the state it is in afterwards.
    ///
    /// The report is the state with hysteresis, not a verdict on this one frame.
    pub fn process_frame<T>(&mut self, frame: &[T]) -> (active: bool) where C: Fn(&[T]) -> bool
        requires
            call_requires(old(self).classifier(), (frame,)),
        ensures
            final(self).classifier() == old(self).classifier(),
            exists|loud: bool|
                call_ensures(old(self).classifier(), (frame,), loud) && final(self)@
                    == #[trigger] old(self)@.step(loud),
            active == final(self)@.active,
    {
        proof {
            use_type_invariant(&*self);
        }
        let loud: bool = (self.classifier)(frame);
        self.state.step(loud);
        assert(self@ == old(self)@.step(loud));
        self.state.active
    }

    /// Feeds a whole chunk to the detector, frame by frame, and reports whether the
    /// detector was on after at least one of the frames.
    ///
    /// The chunk is cut into frames of `FRAME_SIZE` samples, the last one
    /// shorter if the length is no multiple. The detector keeps the state it ends
    /// in, so a streak may begin in one chunk and complete in the next.
    pub fn contains_speech<T>(&mut self, audio: &[T]) -> (any: bool) where C: Fn(&[T]) -> bool
        requires
            forall|frame: &[T]|
                0 < frame@.len() <= FRAME_SIZE ==> call_requires(
                    old(self).classifier(),
                    (frame,),
                ),
        ensures
            final(self).classifier() == old(self).classifier(),
            exists|flags: Seq<bool>|
                {
                    &&& classifies(old(self).classifier(), audio@, flags)
                    &&& final(self)@ == #[trigger] old(self)@.run(flags)
                    &&& any == old(self)@.any_active(flags)
                },
    {
        proof {
            use_type_invariant(&*self);
        }
        let len: usize = audio.len();
        let frames: usize = if len % FRAME_SIZE == 0 {
            len / FRAME_SIZE
        } else {
            len / FRAME_SIZE + 1
        };
        let mut any: bool = false;
        let mut i: usize = 0;
        let ghost mut flags: Seq<bool> = Seq::empty();
        while i < frames
            invariant
                len == audio.len(),
                frames == frame_count(len as nat),
                i <= frames,
                self.state.wf(),
                self.classifier == old(self).classifier(),
                forall|frame: &[T]|
                    0 < frame@.len() <= FRAME_SIZE ==> call_requires(
                        old(self).classifier(),
                        (frame,),
                    ),
                flags.len() == i,
                forall|k: int|
                    0 <= k < i ==> returns_on(
                        old(self).classifier(),
                        audio_frame(audio@, k),
                        #[trigger] flags[k],
                    ),
                self@ == old(self)@.run(flags),
                any == old(self)@.any_active(flags),
            decreases frames - i,
        {
            let lo: usize = i * FRAME_SIZE;
            let hi: usize = if len - lo >= FRAME_SIZE {
                lo + FRAME_SIZE
            } else {
                len
            };
            let frame: &[T] = &audio[lo..hi];
            let loud: bool = (self.classifier)(frame);
            self.state.step(loud);
            if self.state.active {
                any = true;
            }
            proof {
                assert(frame@ == audio_frame(audio@, i as int));
                assert(flags.push(loud).drop_last() =~= flags);
                flags = flags.push(loud);
            }
            i = i + 1;
        }
        any
    }
}

/// `count` frames in a row that are all loud, or all quiet.
pub open spec fn streak(loud: bool, count: nat) -> Seq<bool> {
    Seq::new(count, |i: int| loud)
}

/// After a run of loud frames the detector is on exactly if it was on before
/// or the loud streak, counted from before the run, has reached
/// `min_speech_frames`. A run that stays below that leaves a detector that
/// was off switched off. The quiet streak is gone after the first loud frame.
pub proof fn lemma_loud_run(model: DetectorModel, count: nat)
    requires
        count >= 1,
    ensures
        model.run(streak(true, count)).active == (model.active || model.speech_streak + count
            >= model.min_speech_frames),
        model.run(streak(true, count)).speech_streak == model.speech_streak + count,
        model.run(streak(true, count)).silence_streak == 0,
        model.run(streak(true, count)).min_speech_frames == model.min_speech_frames,
        model.run(streak(true, count)).min_silence_frames == model.min_silence_frames,
    decreases count,
{
    let flags = streak(true, count);
    assert(flags.drop_last() =~= streak(true, (count - 1) as nat));
    if count > 1 {
        lemma_loud_run(model, (count - 1) as nat);
    } else {
        assert(model.run(flags.drop_last()) == model);
    }
}

/// After a run of quiet frames the detector is on exactly if it was on
/// before and the quiet streak, counted from before the run, is still below
/// `min_silence_frames`. The loud streak is gone after the first quiet frame,
/// so switching on again takes a full loud streak.
pub proof fn lemma_quiet_run(model: DetectorModel, count: nat)
    requires
        count >= 1,
    ensures
        model.run(streak(false, count)).active == (model.active && model.silence_streak + count
            < model.min_silence_frames),
        model.run(streak(false, count)).silence_streak == model.silence_streak + count,
        model.run(streak(false, count)).speech_streak == 0,
        model.run(streak(false, count)).min_speech_frames == model.min_speech_frames,
        model.run(streak(false, count)).min_silence_frames == model.min_silence_frames,
    decreases count,
{
    let flags = streak(false, count);
    assert(flags.drop_last() =~= streak(false, (count - 1) as nat));
    if count > 1 {
        lemma_quiet_run(model, (count - 1) as nat);
    } else {
        assert(model.run(flags.drop_last()) == model);
    }
}

/// Running the detector over two stretches of frames one after the other is
/// running it over both at once: the state carries over from chunk to chunk.
pub proof fn lemma_run_carries_over(model: DetectorModel, first: Seq<bool>, second: Seq<bool>)
    ensures
        model.run(first + second) == model.run(first).run(second),
        model.any_active(first + second) == (model.any_active(first) || model.run(
            first,
        ).any_active(second)),
    decreases second.len(),
{
    if second.len() == 0 {
        assert(first + second =~= first);
    } else {
        assert((first + second).drop_last() =~= first + second.drop_last());
        lemma_run_carries_over(model, first, second.drop_last());
    }
}

/// The standard detector, fresh: one loud frame less than
/// `MIN_SPEECH_FRAMES` leaves it off and the next switches it on; then one
/// quiet frame less than `MIN_SILENCE_FRAMES` leaves it on and the next
/// switches it off; and a loud frame in the middle of the quiet frames
/// starts their count over.
pub proof fn lemma_standard_hysteresis()
    ensures
        !DetectorModel::fresh().run(streak(true, (MIN_SPEECH_FRAMES - 1) as nat)).active,
        DetectorModel::fresh().run(streak(true, MIN_SPEECH_FRAMES as nat)).active,
        DetectorModel::fresh().run(streak(true, MIN_SPEECH_FRAMES as nat)).run(
            streak(false, (MIN_SILENCE_FRAMES - 1) as nat),
        ).active,
        !DetectorModel::fresh().run(streak(true, MIN_SPEECH_FRAMES as nat)).run(
            streak(false, MIN_SILENCE_FRAMES as nat),
        ).active,
        forall|quiet: nat|
            1 <= quiet < MIN_SILENCE_FRAMES ==> {
                let resumed = #[trigger] DetectorModel::fresh().run(
                    streak(true, MIN_SPEECH_FRAMES as nat),
                ).run(streak(false, quiet)).step(true);
                resumed.active && resumed.silence_streak == 0
            },
{
    let fresh = DetectorModel::fresh();
    lemma_loud_run(fresh, (MIN_SPEECH_FRAMES - 1) as nat);
    lemma_loud_run(fresh, MIN_SPEECH_FRAMES as nat);
    let on = fresh.run(streak(true, MIN_SPEECH_FRAMES as nat));
    lemma_quiet_run(on, (MIN_SILENCE_FRAMES - 1) as nat);
    lemma_quiet_run(on, MIN_SILENCE_FRAMES as nat);
    assert forall|quiet: nat| 1 <= quiet < MIN_SILENCE_FRAMES implies {
        let resumed = #[trigger] on.run(streak(false, quiet)).step(true);
        resumed.active && resumed.silence_streak == 0
    } by {
        lemma_quiet_run(on, quiet);
    }
}

} // verus!
