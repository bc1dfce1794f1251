//! The decisions behind the application's commands.

pub mod dictation;
pub mod models;
pub mod system;
