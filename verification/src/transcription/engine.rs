//! What the speech engine is asked and what is kept of its answer.

use crate::text::{same_text, trim, trimmed};
use vstd::prelude::*;

verus! {

/// One piece of transcribed text with its time span.
#[derive(Debug, Clone)]
pub struct TranscriptionSegment {
    pub text: String,
    pub start: i64,
    pub end: i64,
}

/// A segment as plain values.
pub struct SegmentView {
    pub text: Seq<char>,
    pub start: i64,
    pub end: i64,
}

impl View for TranscriptionSegment {
    type V = SegmentView;

    open spec fn view(&self) -> SegmentView {
        SegmentView { text: self.text@, start: self.start, end: self.end }
    }
}

/// The language to ask the engine for: `None`, which leaves the choice to the
/// engine, when the setting reads `auto`.
pub fn language_hint(language: &str) -> (hint: Option<&str>)
    ensures
        hint == if language@ == "auto"@ {
            None
        } else {
            Some(language)
        },
{
    if same_text(language, "auto") {
        None
    } else {
        Some(language)
    }
}

/// The segment to report for text that is already trimmed: none when nothing is left of it.
pub fn keep_segment(text: &str, start: i64, end: i64) -> (kept: Option<TranscriptionSegment>)
    ensures
        match kept {
            Some(segment) => text@.len() > 0 && segment@ == (SegmentView { text: text@, start, end }),
            None => text@.len() == 0,
        },
{
    if text.is_empty() {
        None
    } else {
        Some(TranscriptionSegment { text: text.to_owned(), start, end })
    }
}

/// The segments kept of `raw`: each text trimmed, and those with nothing left dropped.
pub open spec fn kept_segments(raw: Seq<(Seq<char>, i64, i64)>) -> Seq<SegmentView>
    decreases raw.len(),
{
    if raw.len() == 0 {
        Seq::empty()
    } else {
        let text = trimmed(raw.last().0);
        let before = kept_segments(raw.drop_last());
        if text.len() == 0 {
            before
        } else {
            before.push(SegmentView { text, start: raw.last().1, end: raw.last().2 })
        }
    }
}

/// The raw segments as plain values.
pub open spec fn raw_view(raw: Seq<(String, i64, i64)>) -> Seq<(Seq<char>, i64, i64)> {
    Seq::new(raw.len(), |i: int| (raw[i].0@, raw[i].1, raw[i].2))
}

/// Turns what the engine reported, as `(text, start, end)`, into the segments
/// to hand on: texts are trimmed, empty ones are left out, the order is kept.
pub fn collect_segments(raw: &Vec<(String, i64, i64)>) -> (segments: Vec<TranscriptionSegment>)
    ensures
        segments.len() == kept_segments(raw_view(raw@)).len(),
        forall|i: int|
            0 <= i < segments.len() ==> (#[trigger] segments[i])@ == kept_segments(raw_view(raw@))[i],
{
    let mut segments: Vec<TranscriptionSegment> = Vec::new();
    let mut i: usize = 0;
    let ghost all = raw_view(raw@);
    while i < raw.len()
        invariant
            i <= raw.len(),
            all == raw_view(raw@),
            segments.len() == kept_segments(all.take(i as int)).len(),
            forall|k: int|
                0 <= k < segments.len() ==> (#[trigger] segments[k])@ == kept_segments(
                    all.take(i as int),
                )[k],
        decreases raw.len() - i,
    {
        let inner: &str = trim(raw[i].0.as_str());
        proof {
            assert(all.take(i as int + 1).drop_last() =~= all.take(i as int));
            assert(all.take(i as int + 1).last() == all[i as int]);
        }
        match keep_segment(inner, raw[i].1, raw[i].2) {
            Some(segment) => segments.push(segment),
            None => {},
        }
        i = i + 1;
    }
    proof {
        assert(all.take(i as int) =~= all);
    }
    segments
}

/// How a model is to be loaded.
#[derive(Debug, Clone, Copy, PartialEq, Eq, Structural)]
pub struct LoadOptions {
    pub use_gpu: bool,
    pub flash_attn: bool,
}

/// The options of the first attempt: on the GPU, with flash attention.
pub open spec fn preferred_options() -> LoadOptions {
    LoadOptions { use_gpu: true, flash_attn: true }
}

/// The options of the second attempt: on the GPU, without flash attention.
pub open spec fn fallback_options() -> LoadOptions {
    LoadOptions { use_gpu: true, flash_attn: false }
}

/// Mathematical model of the engine's bookkeeping.
pub struct EngineModel<X> {
    /// The context of the loaded model.
    pub context: Option<X>,
    /// The id of the model that was loaded last and not unloaded since.
    pub active_model: Option<Seq<char>>,
}

/// What a load may do to the engine: the preferred options are tried, then
/// the fallback options; the first context that comes back is kept under the
/// model's id. When both attempts fail the second error is returned, no
/// context is left, and the active id stays what it was.
pub open spec fn loaded_by<X, E, L: Fn(LoadOptions) -> Result<X, E>>(
    load: L,
    before: EngineModel<X>,
    model_id: Seq<char>,
    after: EngineModel<X>,
    result: Result<(), E>,
) -> bool {
    exists|first: Result<X, E>|
        {
            &&& #[trigger] call_ensures(load, (preferred_options(),), first)
            &&& match first {
                Ok(context) => {
                    &&& result is Ok
                    &&& after == (EngineModel {
                        context: Some(context),
                        active_model: Some(model_id),
                    })
                },
                Err(_) => exists|second: Result<X, E>|
                    {
                        &&& #[trigger] call_ensures(load, (fallback_options(),), second)
                        &&& match second {
                            Ok(context) => {
                                &&& result is Ok
                                &&& after == (EngineModel {
                                    context: Some(context),
                                    active_model: Some(model_id),
                                })
                            },
                            Err(error) => {
                                &&& result == Err::<(), E>(error)
                                &&& after == (EngineModel { context: None, ..before })
                            },
                        }
                    },
            }
        }
}

/// Keeps the context of the loaded speech model and the model's id.
///
/// An inference session borrows from the context it was made from. Whoever
/// owns the engine has to end every session before the context is replaced
/// or dropped.
pub struct TranscriptionEngine<X> {
    ctx: Option<X>,
    active_model: Option<String>,
}

impl<X> View for TranscriptionEngine<X> {
    type V = EngineModel<X>;

    closed spec fn view(&self) -> EngineModel<X> {
        EngineModel {
            context: self.ctx,
            active_model: match self.active_model {
                Some(id) => Some(id@),
                None => None,
            },
        }
    }
}

impl<X> Default for TranscriptionEngine<X> {
    fn default() -> (engine: Self)
        ensures
            engine@ == (EngineModel::<X> { context: None, active_model: None }),
    {
        TranscriptionEngine { ctx: None, active_model: None }
    }
}

impl<X> TranscriptionEngine<X> {
    /// An engine with no model.
    pub fn new() -> (engine: Self)
        ensures
            engine@ == (EngineModel::<X> { context: None, active_model: None }),
    {
        TranscriptionEngine { ctx: None, active_model: None }
    }

    /// Loads a model in place of the one that is loaded.
    ///
    /// The old context is dropped first, to free its memory before the new
    /// one is built. `load` is then called with the preferred options and,
    /// if that fails, once more with the fallback options.
    pub fn load_model<E, L: Fn(LoadOptions) -> Result<X, E>>(&mut self, model_id: &str, load: L) -> (result:
        Result<(), E>)
        requires
            call_requires(load, (preferred_options(),)),
            call_requires(load, (fallback_options(),)),
        ensures
            loaded_by(load, old(self)@, model_id@, final(self)@, result),
    {
        self.ctx = None;
        let first: Result<X, E> = load(LoadOptions { use_gpu: true, flash_attn: true });
        let context: X = match first {
            Ok(context) => context,
            Err(_) => {
                let second: Result<X, E> = load(LoadOptions { use_gpu: true, flash_attn: false });
                match second {
                    Ok(context) => context,
                    Err(error) => {
                        return Err(error);
                    },
                }
            },
        };
        self.ctx = Some(context);
        self.active_model = Some(model_id.to_owned());
        Ok(())
    }

    /// Drops the context and forgets the model's id.
    pub fn unload_model(&mut self)
        ensures
            final(self)@ == (EngineModel::<X> { context: None, active_model: None }),
    {
        self.ctx = None;
        self.active_model = None;
    }

    /// The id of the active model.
    pub fn get_active_model(&self) -> (id: Option<String>)
        ensures
            match id {
                Some(id) => self@.active_model == Some(id@),
                None => self@.active_model is None,
            },
    {
        match &self.active_model {
            Some(id) => Some(id.clone()),
            None => None,
        }
    }

    /// Whether a context is held.
    pub fn is_loaded(&self) -> (loaded: bool)
        ensures
            loaded == self@.context is Some,
    {
        self.ctx.is_some()
    }

    /// The context to make an inference session from, if a model is loaded.
    pub fn context(&self) -> (context: Option<&X>)
        ensures
            match context {
                Some(context) => self@.context == Some(*context),
                None => self@.context is None,
            },
    {
        self.ctx.as_ref()
    }
}

} // verus!
