//! Real-time audio staging for dictation: the overlapping chunk buffer, channel
//! and rate normalisation, the voice-activity detector, and the lifecycle rules that
//! tie capture, signal processing and transcription together.
//!
//! The sample type is a parameter throughout. Whatever needs arithmetic on the
//! samples themselves (averaging, interpolation, frame energy) is supplied by
//! the caller as a function; every contract here speaks about how those
//! functions are applied and how their results are arranged.

mod arith;
pub mod audio;
pub mod commands;
pub mod config;
pub mod model_manager;
pub mod output;
pub mod text;
pub mod transcription;
