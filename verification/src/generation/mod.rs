//! Text to speech: options, incoming text, code generation and audio chunks.

pub mod options;
pub mod words;
pub mod rollout;
pub mod audio;
pub mod audio_laws;
pub mod text_stream;
pub mod engine;
pub mod speech_laws;
pub mod stream_laws;
pub mod cache;
