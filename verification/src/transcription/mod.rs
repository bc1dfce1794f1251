//! Speech models and what comes back from transcription.

pub mod engine;
pub mod models;

pub use engine::TranscriptionSegment;
pub use models::{get_model_registry, WhisperModel};
