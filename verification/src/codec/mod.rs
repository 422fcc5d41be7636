//! The speech codec: from code frames to a waveform.

pub mod causal_laws;
pub mod decoder;
pub mod decoder_call_laws;
pub mod decoder_laws;
pub mod dims;
pub mod initial;
pub mod sizes;
pub mod stage_call_laws;
pub mod transformer;
pub mod transformer_laws;
pub mod upsample;
pub mod weight_laws;
pub mod weights;
