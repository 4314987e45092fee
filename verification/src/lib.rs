//! Batch transcription job pipeline: media ingestion, canonical PCM
//! validation, timed-segment formatting, and a chunked job scheduler with
//! per-job state tracking, progress events, cancellation and cleanup.

pub mod audio_converter;
pub mod config;
pub mod formatter;
pub mod manager;
pub mod paths;
pub mod text;
pub mod transcriber;
pub mod types;
