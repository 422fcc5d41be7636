//! The engine: what it is loaded with, and what its requests lead to.

use vstd::prelude::*;

use crate::codec::decoder::{self, HipCodecDecoderOutputs};
use crate::codec::dims::{CODE_GROUPS, PRE_CONV_OUT, TRANSFORMER_HEADS, TRANSFORMER_LAYERS};
use crate::codec::initial::{self, HipCodecInitial, HipCodecInitialOutput};
use crate::codec::transformer::{self, OUTPUT_CT};
use crate::codec::upsample::{self, HipCodecUpsampleOutputs};
use crate::device::op::{self, Operand};
use crate::device::plan::Plan;
use crate::error::{self, Error};
use crate::generation::audio::{self, frames_of_codes, grown_capacity};
use crate::generation::options::{
    self, EngineOptions, GenerateOptions, TextStreamOptions, DEFAULT_MAX_CACHE_STEPS,
    DEFAULT_PREFILL_HEADROOM, SAMPLE_RATE,
};
use crate::generation::rollout::{
    self, FrameOutcome, GeneratedCodes, HipTtsStream, Rollout, RolloutConfig, RolloutModel,
};
use crate::generation::text_stream::{HipTextStream, TextModel, TextStreamConfig};
use crate::text::{self, push_usize};
use crate::wav::{self, to_wav_bytes};

verus! {

/// What the engine needs to know of its models.
#[derive(Clone, Copy, PartialEq, Eq, Structural, Debug)]
pub struct ModelFacts {
    /// Codes per frame.
    pub code_groups: usize,
    /// The semantic token that ends the speech.
    pub codec_eos_token: i32,
    /// The width that the predictor of acoustic codes takes from the talker.
    pub predictor_talker_hidden: usize,
    /// The width that the talker has.
    pub talker_hidden: usize,
}

/// An engine, by what its decisions rest on.
#[derive(Clone, Copy, PartialEq, Eq, Structural, Debug)]
pub struct HipTtsEngine {
    pub device: i32,
    /// The steps that the cache holds at present.
    pub cache_steps: usize,
    pub code_groups: usize,
    pub codec_eos_token: i32,
    pub hidden: usize,
}

/// The text for models that do not go together.
pub open spec fn hidden_text(predictor: nat, talker: nat) -> Seq<char> {
    "CodePredictor talker hidden "@ + text::decimal(predictor) + " does not match talker hidden "@
        + text::decimal(talker)
}

/// The engine for models that go together.
pub open spec fn engine_of(options: EngineOptions, facts: ModelFacts) -> HipTtsEngine {
    HipTtsEngine {
        device: options.device,
        cache_steps: options.max_cache_steps,
        code_groups: facts.code_groups,
        codec_eos_token: facts.codec_eos_token,
        hidden: facts.talker_hidden,
    }
}

/// `got` is what loading with `options` gives.
pub open spec fn loaded(
    got: Result<HipTtsEngine, Error>,
    options: EngineOptions,
    facts: ModelFacts,
) -> bool {
    match got {
        Ok(engine) => {
            &&& options.max_cache_steps > 0
            &&& facts.predictor_talker_hidden == facts.talker_hidden
            &&& engine == engine_of(options, facts)
        },
        Err(e) => if options.max_cache_steps == 0 {
            error::is_invalid(e, "max_cache_steps must be non-zero"@)
        } else {
            facts.predictor_talker_hidden != facts.talker_hidden && error::is_invalid(
                e,
                hidden_text(facts.predictor_talker_hidden as nat, facts.talker_hidden as nat),
            )
        },
    }
}

/// The plans that turn codes into samples, one behind the other. The first input of each
/// plan is the last result of the plan in front of it, and that of the first plan the codes.
#[derive(Debug)]
pub struct DecodePlans {
    pub frames: usize,
    pub initial: Plan,
    pub initial_output: HipCodecInitialOutput,
    pub transformer: Plan,
    pub transformer_output: Operand,
    pub upsample: Plan,
    pub upsample_outputs: HipCodecUpsampleOutputs,
    pub decoder: Plan,
    pub decoder_outputs: HipCodecDecoderOutputs,
}

impl DecodePlans {
    /// The plans are those of the four parts of the codec for `frames` frames.
    pub open spec fn decode(&self, frames: usize) -> bool {
        &&& self.frames == frames
        &&& self.initial.wf() && self.initial@ == initial::initial_ops(frames)
        &&& self.initial_output == (HipCodecInitialOutput {
            quantized: op::scratch(0),
            pre_conv: op::scratch(1),
            frames,
        })
        &&& self.transformer.wf() && self.transformer@ == transformer::transformer_ops(
            frames,
            TRANSFORMER_LAYERS as nat,
        )
        &&& self.transformer_output == op::scratch(OUTPUT_CT)
        &&& self.upsample.wf() && self.upsample@ == upsample::upsample_ops(frames)
        &&& self.upsample_outputs == upsample::upsample_outputs(frames)
        &&& self.decoder.wf() && self.decoder@ == decoder::decoder_ops(
            upsample::upsample_outputs(frames).frames_1,
        )
        &&& self.decoder_outputs == decoder::decoder_outputs(
            upsample::upsample_outputs(frames).frames_1,
        )
    }
}

/// The models answer every frame that a request may have with all its acoustic codes.
pub open spec fn are_frames(
    outcomes: Seq<FrameOutcome>,
    max_frames: usize,
    code_groups: usize,
) -> bool {
    forall|k: int|
        0 <= k < max_frames ==> (#[trigger] outcomes[k]).acoustic@.len() == code_groups - 1
}

/// Whole frames are counted by their codes.
pub proof fn lemma_whole_frames(m: RolloutModel)
    requires
        rollout::regular(m),
        m.config.code_groups > 0,
        m.frame >= 0,
    ensures
        m.codes.len() / (m.config.code_groups as nat) == m.frame,
{
    vstd::arithmetic::div_mod::lemma_fundamental_div_mod_converse(
        m.codes.len() as int,
        m.config.code_groups as int,
        m.frame,
        0,
    );
}

/// All buffers for so many frames can be counted.
pub open spec fn decodable(frames: int) -> bool {
    &&& frames * 184320 <= usize::MAX
    &&& TRANSFORMER_HEADS * frames * frames <= usize::MAX
}

/// A request behind its prefill, which gave the first semantic token.
pub open spec fn started(
    engine: HipTtsEngine,
    options: GenerateOptions,
    prefill_steps: usize,
    semantic: i32,
) -> RolloutModel {
    RolloutModel {
        config: engine.rollout_config(options, prefill_steps),
        semantic,
        history: Seq::empty(),
        codes: Seq::empty(),
        frame: 0,
        ended: false,
    }
}

/// `codes` are the codes of a request that ends at `end`.
pub open spec fn are_codes(codes: GeneratedCodes, end: RolloutModel) -> bool {
    &&& codes.codes@ == end.codes
    &&& codes.frames == end.codes.len() / (end.config.code_groups as nat)
    &&& codes.ended_by_eos == end.ended
}

/// Where all buffers for some frames can be counted, those for fewer frames can be.
pub proof fn fewer_frames_are_decodable(frames: int, fewer: int)
    requires
        0 <= fewer <= frames,
        decodable(frames),
    ensures
        decodable(fewer),
{
    assert(TRANSFORMER_HEADS * fewer * fewer <= TRANSFORMER_HEADS * frames * frames)
        by (nonlinear_arith)
        requires
            0 <= fewer <= frames,
            TRANSFORMER_HEADS >= 0,
    ;
}

impl HipTtsEngine {
    pub open spec fn wf(&self) -> bool {
        self.cache_steps > 0 && self.code_groups > 0
    }

    /// Loads an engine with the default options.
    pub fn load(device: i32, facts: &ModelFacts) -> (engine: Result<HipTtsEngine, Error>)
        ensures
            loaded(
                engine,
                EngineOptions { device, max_cache_steps: DEFAULT_MAX_CACHE_STEPS },
                *facts,
            ),
    {
        Self::load_with_options(
            &EngineOptions { device, max_cache_steps: DEFAULT_MAX_CACHE_STEPS },
            facts,
        )
    }

    /// Loads an engine for requests of up to `max_frames` frames.
    pub fn load_with_max_frames(device: i32, max_frames: usize, facts: &ModelFacts) -> (engine:
        Result<HipTtsEngine, Error>)
        requires
            DEFAULT_PREFILL_HEADROOM + max_frames <= usize::MAX,
        ensures
            if max_frames == 0 {
                engine matches Err(e) && error::is_invalid(e, "max_frames must be non-zero"@)
            } else {
                loaded(
                    engine,
                    EngineOptions {
                        device,
                        max_cache_steps: (DEFAULT_PREFILL_HEADROOM + max_frames) as usize,
                    },
                    *facts,
                )
            },
    {
        match EngineOptions::with_max_frames(device, max_frames) {
            Err(e) => Err(e),
            Ok(options) => Self::load_with_options(&options, facts),
        }
    }

    /// Loads an engine. Its models must go together.
    pub fn load_with_options(options: &EngineOptions, facts: &ModelFacts) -> (engine: Result<
        HipTtsEngine,
        Error,
    >)
        ensures
            loaded(engine, *options, *facts),
    {
        match options.validate() {
            Ok(_) => {},
            Err(e) => {
                return Err(e);
            },
        }
        if facts.predictor_talker_hidden != facts.talker_hidden {
            let mut text = "CodePredictor talker hidden ".to_owned();
            push_usize(&mut text, facts.predictor_talker_hidden);
            text.append(" does not match talker hidden ");
            push_usize(&mut text, facts.talker_hidden);
            return Err(Error::InvalidInput(text));
        }
        Ok(
            HipTtsEngine {
                device: options.device,
                cache_steps: options.max_cache_steps,
                code_groups: facts.code_groups,
                codec_eos_token: facts.codec_eos_token,
                hidden: facts.talker_hidden,
            },
        )
    }

    /// Makes room for `steps` steps in the cache, which grows where it must. False, with
    /// nothing changed, where a machine word cannot count the grown cache.
    pub fn reserve(&mut self, steps: usize) -> (grown: bool)
        requires
            old(self).wf(),
        ensures
            final(self).wf(),
            ({
                let size = audio::doubled(old(self).cache_steps as int, steps as int);
                &&& grown == (size <= usize::MAX)
                &&& *final(self) == if grown {
                    HipTtsEngine { cache_steps: size as usize, ..*old(self) }
                } else {
                    *old(self)
                }
                &&& grown ==> final(self).cache_steps >= steps
                &&& final(self).cache_steps >= old(self).cache_steps
            }),
    {
        proof {
            audio::doubled_is_enough(self.cache_steps as int, steps as int);
        }
        match grown_capacity(self.cache_steps, steps) {
            None => false,
            Some(size) => {
                self.cache_steps = size;
                true
            },
        }
    }

    /// The settings of a request behind a prefill of so many steps.
    pub open spec fn rollout_config(&self, options: GenerateOptions, prefill_steps: usize)
        -> RolloutConfig {
        RolloutConfig {
            eos: self.codec_eos_token,
            code_groups: self.code_groups,
            max_frames: options.max_frames,
            prefill_steps,
            uses_history: options.repetition_penalty != options::ONE || options.do_sample,
        }
    }

    /// A stream on a fixed text, once the prefill of so many steps gave the first semantic
    /// token.
    pub fn start_stream(
        &self,
        text: &str,
        options: &GenerateOptions,
        prefill_steps: usize,
        semantic: i32,
    ) -> (stream: HipTtsStream)
        requires
            self.wf(),
            prefill_steps + options.max_frames <= usize::MAX,
        ensures
            stream.rollout.wf(),
            stream.text@ == text@,
            stream.rollout@ == (RolloutModel {
                config: self.rollout_config(*options, prefill_steps),
                semantic,
                history: Seq::empty(),
                codes: Seq::empty(),
                frame: 0,
                ended: false,
            }),
    {
        let config = RolloutConfig {
            eos: self.codec_eos_token,
            code_groups: self.code_groups,
            max_frames: options.max_frames,
            prefill_steps,
            uses_history: options.uses_history(),
        };
        HipTtsStream { text: text.to_owned(), rollout: Rollout::new(config, semantic) }
    }

    /// All codes of a request, once the prefill of so many steps gave the first semantic
    /// token, where the models answer as `outcomes` say. `checked` is what a check of the
    /// request's options gave.
    pub fn generate_codes(
        &self,
        options: &GenerateOptions,
        checked: Result<(), Error>,
        prefill_steps: usize,
        semantic: i32,
        outcomes: &Vec<FrameOutcome>,
    ) -> (codes: Result<GeneratedCodes, Error>)
        requires
            self.wf(),
            prefill_steps + options.max_frames <= usize::MAX,
            outcomes@.len() >= options.max_frames,
        ensures
            match checked {
                Err(e) => codes == Err::<GeneratedCodes, Error>(e),
                Ok(_) => codes matches Ok(all) && are_codes(
                    all,
                    rollout::completed(
                        started(*self, *options, prefill_steps, semantic),
                        rollout::script_of(outcomes@, 0),
                    ),
                ),
            },
            are_frames(outcomes@, options.max_frames, self.code_groups) ==> match codes {
                Ok(all) => all.codes@.len() == all.frames * self.code_groups && all.frames
                    <= options.max_frames,
                Err(_) => true,
            },
    {
        match checked {
            Ok(_) => {},
            Err(e) => {
                return Err(e);
            },
        }
        let config = RolloutConfig {
            eos: self.codec_eos_token,
            code_groups: self.code_groups,
            max_frames: options.max_frames,
            prefill_steps,
            uses_history: options.uses_history(),
        };
        proof {
            let m = started(*self, *options, prefill_steps, semantic);
            let script = rollout::script_of(outcomes@, 0);
            rollout::completed_keeps_settings(m, script);
            if are_frames(outcomes@, options.max_frames, self.code_groups) {
                rollout::frames_stay_regular(m, script, options.max_frames as nat);
                lemma_whole_frames(rollout::completed(m, script));
            }
        }
        Ok(rollout::rollout(config, semantic, outcomes))
    }

    /// A stream on incoming text. `checked` is what a check of the request's options gave.
    pub fn start_text_stream(
        &self,
        options: &GenerateOptions,
        checked: Result<(), Error>,
        stream_options: &TextStreamOptions,
        text_lookahead_tokens: usize,
    ) -> (stream: Result<HipTextStream, Error>)
        requires
            self.wf(),
        ensures
            match checked {
                Err(e) => stream == Err::<HipTextStream, Error>(e),
                Ok(_) => match stream {
                    Err(e) => {
                        ||| stream_options.min_start_tokens == 0 && error::is_invalid(
                            e,
                            "min_start_tokens must be non-zero"@,
                        )
                        ||| stream_options.min_start_tokens > 0
                            && stream_options.min_resume_tokens == 0 && error::is_invalid(
                            e,
                            "min_resume_tokens must be non-zero"@,
                        )
                    },
                    Ok(s) => {
                        &&& stream_options.min_start_tokens > 0
                        &&& stream_options.min_resume_tokens > 0
                        &&& s.wf()
                        &&& s@ == (TextModel {
                            config: TextStreamConfig {
                                options: *stream_options,
                                text_lookahead_tokens,
                                max_frames: options.max_frames,
                                code_groups: self.code_groups,
                                eos: self.codec_eos_token,
                                uses_history: options.repetition_penalty != options::ONE
                                    || options.do_sample,
                            },
                            pending: Seq::empty(),
                            queued: Seq::empty(),
                            text_finished: false,
                            eos_pending: false,
                            eos_consumed: false,
                            state: None,
                            done: None,
                        })
                    },
                },
            },
    {
        match checked {
            Ok(_) => {},
            Err(e) => {
                return Err(e);
            },
        }
        match stream_options.validate() {
            Ok(_) => {},
            Err(e) => {
                return Err(e);
            },
        }
        Ok(
            HipTextStream::new(
                TextStreamConfig {
                    options: *stream_options,
                    text_lookahead_tokens,
                    max_frames: options.max_frames,
                    code_groups: self.code_groups,
                    eos: self.codec_eos_token,
                    uses_history: options.uses_history(),
                },
            ),
        )
    }

    /// The plans that turn codes into samples; `None` where there are no codes.
    pub fn decode_codes(&self, codec: &HipCodecInitial, codes: &[i32]) -> (plans: Result<
        Option<DecodePlans>,
        Error,
    >)
        requires
            self.wf(),
            decodable(codes@.len() as int / self.code_groups as int),
        ensures
            ({
                let frames = codes@.len() as int / self.code_groups as int;
                match plans {
                    Ok(None) => codes@.len() == 0,
                    Ok(Some(p)) => {
                        &&& codes@.len() > 0
                        &&& codes@.len() == frames * CODE_GROUPS
                        &&& codes@.len() as int % self.code_groups as int == 0
                        &&& p.decode(frames as usize)
                    },
                    Err(e) => if codes@.len() as int % self.code_groups as int != 0 {
                        error::is_invalid(
                            e,
                            audio::divisible_text(codes@.len(), self.code_groups as nat),
                        )
                    } else {
                        codes@.len() > 0 && codes@.len() != frames * CODE_GROUPS
                            && error::is_invalid(
                            e,
                            initial::codes_text(codes@.len(), (frames * CODE_GROUPS) as nat),
                        )
                    },
                }
            }),
    {
        let groups: usize = self.code_groups;
        let frames: usize = match frames_of_codes(codes, groups) {
            Ok(frames) => frames,
            Err(e) => {
                return Err(e);
            },
        };
        proof {
            vstd::arithmetic::div_mod::lemma_fundamental_div_mod_converse(
                codes@.len() as int,
                groups as int,
                frames as int,
                0,
            );
        }
        if codes.len() == 0 {
            return Ok(None);
        }
        proof {
            if frames == 0 {
                assert(frames * groups == 0) by (nonlinear_arith)
                    requires
                        frames == 0,
                ;
            }
        }
        let (initial, initial_output) = match codec.run(codes, frames) {
            Ok(planned) => planned,
            Err(e) => {
                return Err(e);
            },
        };
        let (transformer, transformer_output) = match codec.run_pre_transformer(
            PRE_CONV_OUT * frames,
            frames,
        ) {
            Ok(planned) => planned,
            Err(e) => {
                return Err(e);
            },
        };
        let (upsample, upsample_outputs) = codec.run_upsample_stages(frames);
        let (decoder, decoder_outputs) = codec.run_decoder_stages(upsample_outputs.frames_1);
        Ok(
            Some(
                DecodePlans {
                    frames,
                    initial,
                    initial_output,
                    transformer,
                    transformer_output,
                    upsample,
                    upsample_outputs,
                    decoder,
                    decoder_outputs,
                },
            ),
        )
    }
}

/// Speech. The samples are given by the bits of their 32-bit numbers.
#[derive(Debug)]
pub struct GeneratedSpeech {
    pub text: String,
    pub codes: Vec<i32>,
    pub frames: usize,
    pub ended_by_eos: bool,
    pub samples: Vec<u32>,
    pub sample_rate: u32,
}

impl HipTtsEngine {
    /// Whether the codes of a request are decoded: where audio is asked for and there are
    /// any.
    pub fn decodes(options: &GenerateOptions, codes: &GeneratedCodes) -> (decodes: bool)
        ensures
            decodes == (options.decode_audio && codes.codes@.len() > 0),
    {
        options.decode_audio && codes.codes.len() > 0
    }

    /// The speech of a request, from its codes and what was decoded of them. Nothing is
    /// taken from `decoded` where the codes of the request are not decoded.
    pub fn generate(
        text: &str,
        options: &GenerateOptions,
        codes: GeneratedCodes,
        decoded: Vec<u32>,
    ) -> (speech: GeneratedSpeech)
        ensures
            is_speech(speech, text@, *options, codes, decoded@),
    {
        let samples: Vec<u32> = if Self::decodes(options, &codes) {
            decoded
        } else {
            Vec::new()
        };
        GeneratedSpeech {
            text: text.to_owned(),
            frames: codes.frames,
            ended_by_eos: codes.ended_by_eos,
            codes: codes.codes,
            samples,
            sample_rate: SAMPLE_RATE,
        }
    }
}

/// `speech` is the speech of a request with these codes, of which `decoded` was decoded.
pub open spec fn is_speech(
    speech: GeneratedSpeech,
    text: Seq<char>,
    options: GenerateOptions,
    codes: GeneratedCodes,
    decoded: Seq<u32>,
) -> bool {
    &&& speech.text@ == text
    &&& speech.codes == codes.codes
    &&& speech.frames == codes.frames
    &&& speech.ended_by_eos == codes.ended_by_eos
    &&& speech.samples@ == if options.decode_audio && codes.codes@.len() > 0 {
        decoded
    } else {
        Seq::empty()
    }
    &&& speech.sample_rate == SAMPLE_RATE
}

impl GeneratedSpeech {
    /// The speech as a WAV file, from its samples as sixteen-bit numbers.
    pub fn to_wav_bytes(&self, pcm: &[i16]) -> (file: Result<Vec<u8>, Error>)
        requires
            self.sample_rate * 2 <= u32::MAX,
        ensures
            match file {
                Ok(bytes) => pcm@.len() * 2 <= u32::MAX - 36 && bytes@ == wav::wav_header(
                    self.sample_rate as int,
                    2 * pcm@.len() as int,
                ) + wav::pcm16(pcm@),
                Err(e) => pcm@.len() * 2 > u32::MAX - 36 && error::is_invalid(
                    e,
                    "wav is too large"@,
                ),
            },
    {
        to_wav_bytes(pcm, self.sample_rate)
    }
}

} // verus!
