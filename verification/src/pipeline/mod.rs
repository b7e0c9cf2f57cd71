//! The dictation pipeline's stages.

pub mod cleaner;
pub mod listener;
pub mod recorder;
pub mod transcriber;
pub mod writer;
