//! Audio staging: buffer, conversion, detector, capture control and the DSP stage.

pub mod binary;
pub mod buffer;
pub mod capture;
pub mod convert;
pub mod pipeline;
pub mod queue;
pub mod vad;

pub use convert::{resample, resample_if_it_fits, to_mono};
