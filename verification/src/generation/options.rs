//! The options of the engine and of a request.

use vstd::prelude::*;

use crate::error::{self, invalid, Error};

verus! {

/// Samples per second of generated audio.
pub const SAMPLE_RATE: u32 = 24_000;

/// The cache capacity that an engine starts with, in steps.
pub const DEFAULT_MAX_CACHE_STEPS: usize = 512;

/// The part of a cache that is reserved for the prefill.
pub const DEFAULT_PREFILL_HEADROOM: usize = 256;

/// The frames that are decoded again in front of a chunk of audio.
pub const DEFAULT_STREAM_LEFT_CONTEXT_FRAMES: usize = 25;

/// The text tokens that a prefill looks ahead.
pub const DEFAULT_TEXT_LOOKAHEAD_TOKENS: usize = 8;

/// The bits of `1.0`.
pub const ONE: u32 = 0x3f80_0000;

/// The bits of `0.9`.
pub const NINE_TENTHS: u32 = 0x3f66_6666;

/// The bits of `1.05`.
pub const DEFAULT_PENALTY: u32 = 0x3f86_6666;

/// What an engine is loaded with.
#[derive(Clone, Copy, PartialEq, Eq, Structural, Debug)]
pub struct EngineOptions {
    pub device: i32,
    /// The cache capacity to start with, in steps. The cache grows where a request needs
    /// more.
    pub max_cache_steps: usize,
}

impl Default for EngineOptions {
    fn default() -> (options: Self)
        ensures
            options.device == 0,
            options.max_cache_steps == DEFAULT_MAX_CACHE_STEPS,
    {
        EngineOptions { device: 0, max_cache_steps: DEFAULT_MAX_CACHE_STEPS }
    }
}

impl EngineOptions {
    /// The options for requests of up to `max_frames` frames.
    pub fn with_max_frames(device: i32, max_frames: usize) -> (options: Result<
        EngineOptions,
        Error,
    >)
        requires
            DEFAULT_PREFILL_HEADROOM + max_frames <= usize::MAX,
        ensures
            match options {
                Ok(o) => max_frames > 0 && o == (EngineOptions {
                    device,
                    max_cache_steps: (DEFAULT_PREFILL_HEADROOM + max_frames) as usize,
                }),
                Err(e) => max_frames == 0 && error::is_invalid(e, "max_frames must be non-zero"@),
            },
    {
        if max_frames == 0 {
            return Err(invalid("max_frames must be non-zero"));
        }
        Ok(EngineOptions { device, max_cache_steps: DEFAULT_PREFILL_HEADROOM + max_frames })
    }

    /// An engine needs room for at least one step.
    pub fn validate(&self) -> (checked: Result<(), Error>)
        ensures
            match checked {
                Ok(_) => self.max_cache_steps > 0,
                Err(e) => self.max_cache_steps == 0 && error::is_invalid(
                    e,
                    "max_cache_steps must be non-zero"@,
                ),
            },
    {
        if self.max_cache_steps == 0 {
            return Err(invalid("max_cache_steps must be non-zero"));
        }
        Ok(())
    }
}

/// The voices of a custom-voice model.
#[derive(Clone, Copy, PartialEq, Eq, Structural, Debug)]
pub enum Speaker {
    Ryan,
    Serena,
    Vivian,
    UncleFu,
    Aiden,
    OnoAnna,
    Sohee,
    Eric,
    Dylan,
}

/// The languages that a request can name.
#[derive(Clone, Copy, PartialEq, Eq, Structural, Debug)]
pub enum Language {
    English,
    Chinese,
    Japanese,
    Korean,
    German,
    French,
    Russian,
    Portuguese,
    Spanish,
    Italian,
}

/// What a request asks for. Floating-point options are given by their 32 bits.
#[derive(Clone, Copy, PartialEq, Eq, Structural, Debug)]
pub struct GenerateOptions {
    pub speaker: Speaker,
    pub language: Language,
    pub max_frames: usize,
    pub decode_audio: bool,
    pub do_sample: bool,
    pub top_k: usize,
    pub top_p: u32,
    pub temperature: u32,
    pub repetition_penalty: u32,
    pub subtalker_dosample: bool,
    pub subtalker_top_k: usize,
    pub subtalker_top_p: u32,
    pub subtalker_temperature: u32,
    pub seed: u64,
}

/// The options of a request that names none.
pub open spec fn default_options() -> GenerateOptions {
    GenerateOptions {
        speaker: Speaker::Ryan,
        language: Language::English,
        max_frames: 240,
        decode_audio: true,
        do_sample: true,
        top_k: 50,
        top_p: ONE,
        temperature: NINE_TENTHS,
        repetition_penalty: DEFAULT_PENALTY,
        subtalker_dosample: true,
        subtalker_top_k: 50,
        subtalker_top_p: ONE,
        subtalker_temperature: NINE_TENTHS,
        seed: 0,
    }
}

impl Default for GenerateOptions {
    fn default() -> (options: Self)
        ensures
            options == default_options(),
    {
        GenerateOptions {
            speaker: Speaker::Ryan,
            language: Language::English,
            max_frames: 240,
            decode_audio: true,
            do_sample: true,
            top_k: 50,
            top_p: ONE,
            temperature: NINE_TENTHS,
            repetition_penalty: DEFAULT_PENALTY,
            subtalker_dosample: true,
            subtalker_top_k: 50,
            subtalker_top_p: ONE,
            subtalker_temperature: NINE_TENTHS,
            seed: 0,
        }
    }
}

/// How a token is drawn from a distribution.
#[derive(Clone, Copy, PartialEq, Eq, Structural, Debug)]
pub struct SamplingConfig {
    pub do_sample: bool,
    pub top_k: usize,
    pub top_p: u32,
    pub temperature: u32,
}

/// The number with these bits is zero or less; not-a-number is not.
pub open spec fn not_positive(bits: u32) -> bool {
    bits == 0 || 0x8000_0000 <= bits <= 0xff80_0000
}

/// How semantic tokens are drawn.
pub open spec fn talker_of(options: GenerateOptions) -> SamplingConfig {
    SamplingConfig {
        do_sample: options.do_sample,
        top_k: options.top_k,
        top_p: options.top_p,
        temperature: options.temperature,
    }
}

/// How acoustic tokens are drawn.
pub open spec fn subtalker_of(options: GenerateOptions) -> SamplingConfig {
    SamplingConfig {
        do_sample: options.subtalker_dosample,
        top_k: options.subtalker_top_k,
        top_p: options.subtalker_top_p,
        temperature: options.subtalker_temperature,
    }
}

/// The random state that a seed leads to.
pub open spec fn state_of(seed: u64) -> u64 {
    seed ^ 0x9e37_79b9_7f4a_7c15
}

/// A semantic token is drawn with regard to the tokens before it.
pub open spec fn minds_history(options: GenerateOptions) -> bool {
    options.repetition_penalty != ONE || options.do_sample
}

impl GenerateOptions {
    /// How semantic tokens are drawn.
    pub fn talker_sampling(&self) -> (sampling: SamplingConfig)
        ensures
            sampling == talker_of(*self),
    {
        SamplingConfig {
            do_sample: self.do_sample,
            top_k: self.top_k,
            top_p: self.top_p,
            temperature: self.temperature,
        }
    }

    /// How acoustic tokens are drawn.
    pub fn subtalker_sampling(&self) -> (sampling: SamplingConfig)
        ensures
            sampling == subtalker_of(*self),
    {
        SamplingConfig {
            do_sample: self.subtalker_dosample,
            top_k: self.subtalker_top_k,
            top_p: self.subtalker_top_p,
            temperature: self.subtalker_temperature,
        }
    }

    /// The random state that a request starts from.
    pub fn initial_rng_state(&self) -> (state: u64)
        ensures
            state == state_of(self.seed),
    {
        self.seed ^ 0x9e37_79b9_7f4a_7c15
    }

    /// Whether a semantic token is drawn with regard to the tokens before it: where the
    /// repetition penalty is not one, or where tokens are sampled.
    pub fn uses_history(&self) -> (uses: bool)
        ensures
            uses == minds_history(*self),
    {
        self.repetition_penalty != ONE || self.do_sample
    }

    /// The first reason why the options cannot be used, apart from the sampling options.
    pub open spec fn fault(&self) -> Option<Seq<char>> {
        if self.max_frames == 0 {
            Some("max_frames must be non-zero"@)
        } else if not_positive(self.repetition_penalty) {
            Some("repetition_penalty must be positive"@)
        } else {
            None
        }
    }

    /// Checks the options. `talker` and `subtalker` are what a check of the two sampling
    /// options gave.
    pub fn validate(&self, talker: Result<(), Error>, subtalker: Result<(), Error>) -> (checked:
        Result<(), Error>)
        ensures
            match self.fault() {
                Some(text) => checked matches Err(e) && error::is_invalid(e, text),
                None => if talker is Err {
                    checked == talker
                } else {
                    checked == subtalker
                },
            },
    {
        if self.max_frames == 0 {
            return Err(invalid("max_frames must be non-zero"));
        }
        let bits: u32 = self.repetition_penalty;
        if bits == 0 || (0x8000_0000 <= bits && bits <= 0xff80_0000) {
            return Err(invalid("repetition_penalty must be positive"));
        }
        match talker {
            Ok(_) => subtalker,
            Err(e) => Err(e),
        }
    }
}

/// The options of a stream on a fixed text.
#[derive(Clone, Copy, PartialEq, Eq, Structural, Debug)]
pub struct StreamOptions {
    /// The text tokens that the prefill looks ahead.
    pub text_lookahead_tokens: usize,
    /// The frames that are decoded again in front of a chunk of audio.
    pub left_context_frames: usize,
}

impl Default for StreamOptions {
    fn default() -> (options: Self)
        ensures
            options.text_lookahead_tokens == DEFAULT_TEXT_LOOKAHEAD_TOKENS,
            options.left_context_frames == DEFAULT_STREAM_LEFT_CONTEXT_FRAMES,
    {
        StreamOptions {
            text_lookahead_tokens: DEFAULT_TEXT_LOOKAHEAD_TOKENS,
            left_context_frames: DEFAULT_STREAM_LEFT_CONTEXT_FRAMES,
        }
    }
}

impl StreamOptions {
    /// A prefill looks at least one token ahead.
    pub fn validate(&self) -> (checked: Result<(), Error>)
        ensures
            match checked {
                Ok(_) => self.text_lookahead_tokens > 0,
                Err(e) => self.text_lookahead_tokens == 0 && error::is_invalid(
                    e,
                    "text_lookahead_tokens must be non-zero"@,
                ),
            },
    {
        if self.text_lookahead_tokens == 0 {
            return Err(invalid("text_lookahead_tokens must be non-zero"));
        }
        Ok(())
    }
}

/// The options of a stream on incoming text.
#[derive(Clone, Copy, PartialEq, Eq, Structural, Debug)]
pub struct TextStreamOptions {
    /// The tokens that must be there before generation starts.
    pub min_start_tokens: usize,
    /// The tokens that must be there before generation goes on.
    pub min_resume_tokens: usize,
    /// Whether text is also cut behind punctuation.
    pub flush_on_punctuation: bool,
}

impl Default for TextStreamOptions {
    fn default() -> (options: Self)
        ensures
            options == (TextStreamOptions {
                min_start_tokens: DEFAULT_TEXT_LOOKAHEAD_TOKENS,
                min_resume_tokens: 1,
                flush_on_punctuation: true,
            }),
    {
        TextStreamOptions {
            min_start_tokens: DEFAULT_TEXT_LOOKAHEAD_TOKENS,
            min_resume_tokens: 1,
            flush_on_punctuation: true,
        }
    }
}

impl TextStreamOptions {
    /// Both thresholds are at least one token.
    pub fn validate(&self) -> (checked: Result<(), Error>)
        ensures
            match checked {
                Ok(_) => self.min_start_tokens > 0 && self.min_resume_tokens > 0,
                Err(e) => {
                    ||| self.min_start_tokens == 0 && error::is_invalid(
                        e,
                        "min_start_tokens must be non-zero"@,
                    )
                    ||| self.min_start_tokens > 0 && self.min_resume_tokens == 0
                        && error::is_invalid(e, "min_resume_tokens must be non-zero"@)
                },
            },
    {
        if self.min_start_tokens == 0 {
            return Err(invalid("min_start_tokens must be non-zero"));
        }
        if self.min_resume_tokens == 0 {
            return Err(invalid("min_resume_tokens must be non-zero"));
        }
        Ok(())
    }
}

} // verus!
