//! VoiceCode: push-to-talk dictation. The pipeline stages (listener, recorder,
//! transcriber, cleaner, writer) are connected by channels; this library holds
//! the decisions each stage makes, with their contracts.

pub mod config;
pub mod domain;
pub mod pipeline;
pub mod utils;
