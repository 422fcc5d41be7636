//! What a request gives from one end to the other.

use vstd::prelude::*;

use crate::codec::decoder;
use crate::codec::decoder_laws;
use crate::codec::dims::{CODE_GROUPS, SAMPLES_PER_FRAME};
use crate::codec::initial;
use crate::codec::transformer;
use crate::codec::upsample;
use crate::device::op::{self, Call, Memory, Operand};
use crate::device::plan;
use crate::generation::engine::{self, DecodePlans, GeneratedSpeech, HipTtsEngine};
use crate::generation::options::{GenerateOptions, SAMPLE_RATE};
use crate::generation::rollout::{self, GeneratedCodes, Script};

verus! {

/// What the last of the plans leaves in the buffer of the waveform, where `f` says what a
/// call computes, `s` holds the model, and its first input the codes. Every plan has as its
/// first input what the plan in front of it leaves.
pub open spec fn waveform<V>(f: spec_fn(Call, Seq<V>) -> V, s: Memory<V>, plans: DecodePlans) -> V {
    let input = Operand::Input(0);
    let pre_conv = op::run(f, s, plans.initial@)[plans.initial_output.pre_conv];
    let hidden = op::run(f, s.insert(input, pre_conv), plans.transformer@)[
        plans.transformer_output
    ];
    let wide = op::run(f, s.insert(input, hidden), plans.upsample@)[
        plans.upsample_outputs.upsample_1_1
    ];
    op::run(f, s.insert(input, wide), plans.decoder@)[plans.decoder_outputs.waveform]
}

/// The size of the buffer of the waveform.
pub open spec fn waveform_len(plans: DecodePlans) -> nat {
    plan::made_len(plans.decoder@, plans.decoder_outputs.waveform)
}

/// The buffer of the waveform has room for 1920 samples for every frame.
pub proof fn waveform_holds_all_frames(plans: DecodePlans, frames: usize)
    requires
        frames > 0,
        engine::decodable(frames as int),
        plans.decode(frames),
    ensures
        waveform_len(plans) == frames * SAMPLES_PER_FRAME,
{
    decoder_laws::decoder_plan_in_bounds(upsample::upsample_outputs(frames).frames_1);
}

/// A request from one end to the other: the speech has the codes, the frames and the
/// reason to end that the rollout has, at the rate of the codec. Where audio is asked for,
/// its samples are the waveform that the plans for its codes leave, 1920 for every frame;
/// otherwise it has none.
pub proof fn speech_has_its_codes_and_samples(
    engine: HipTtsEngine,
    text: Seq<char>,
    options: GenerateOptions,
    prefill_steps: usize,
    semantic: i32,
    script: Script,
    codes: GeneratedCodes,
    plans: DecodePlans,
    f: spec_fn(Call, Seq<Seq<u32>>) -> Seq<u32>,
    s: Memory<Seq<u32>>,
    decoded: Seq<u32>,
    speech: GeneratedSpeech,
)
    requires
        engine.code_groups == CODE_GROUPS,
        forall|k: int|
            0 <= k < options.max_frames ==> (#[trigger] script(k)).0.len() == CODE_GROUPS - 1,
        engine::are_codes(
            codes,
            rollout::completed(engine::started(engine, options, prefill_steps, semantic), script),
        ),
        engine::decodable(codes.frames as int),
        options.decode_audio && codes.codes@.len() > 0 ==> {
            &&& plans.decode(codes.frames)
            &&& decoded == waveform(f, s, plans)
            &&& decoded.len() == waveform_len(plans)
        },
        engine::is_speech(speech, text, options, codes, decoded),
    ensures
        ({
            let end = rollout::completed(
                engine::started(engine, options, prefill_steps, semantic),
                script,
            );
            &&& speech.text@ == text
            &&& speech.codes@ == end.codes
            &&& speech.codes@.len() == speech.frames * CODE_GROUPS
            &&& speech.frames == end.frame
            &&& speech.frames <= options.max_frames
            &&& speech.ended_by_eos == end.ended
            &&& speech.sample_rate == SAMPLE_RATE
            &&& options.decode_audio && speech.frames > 0 ==> speech.samples@ == waveform(
                f,
                s,
                plans,
            )
            &&& speech.samples@.len() == if options.decode_audio {
                SAMPLES_PER_FRAME * speech.frames
            } else {
                0
            }
        }),
{
    let m = engine::started(engine, options, prefill_steps, semantic);
    let end = rollout::completed(m, script);
    let left = (m.config.max_frames - m.frame) as nat;
    rollout::frames_stay_regular(m, script, left);
    engine::lemma_whole_frames(end);
    if options.decode_audio && codes.codes@.len() > 0 {
        waveform_holds_all_frames(plans, codes.frames);
    }
}

/// The four plans of a decode work on the same codes: the quantiser and the eight layers of
/// the transformer on their frames, the upsampling on what the transformer leaves, and the
/// decoder on four times as many frames, which become 1920 samples for every code frame.
pub proof fn plans_decode_the_same_frames(plans: DecodePlans, frames: usize)
    requires
        plans.decode(frames),
        frames * 1920 <= usize::MAX,
    ensures
        plans.frames == frames,
        plans.initial@ == initial::initial_ops(frames),
        plans.initial_output.frames == frames,
        plans.initial_output.quantized == Operand::Scratch(0),
        plans.initial_output.pre_conv == Operand::Scratch(1),
        plans.transformer@ == transformer::transformer_ops(frames, 8),
        plans.transformer_output == Operand::Scratch(23),
        plans.upsample@ == upsample::upsample_ops(frames),
        plans.upsample_outputs.upsample_1_1 == Operand::Scratch(9),
        plans.upsample_outputs.frames_1 == 4 * frames,
        plans.decoder@ == decoder::decoder_ops((4 * frames) as usize),
        plans.decoder_outputs.waveform == Operand::Scratch(71),
        plans.decoder_outputs.frames_4 == 1920 * frames,
{
}

/// All buffers of a decode can be counted up to the frames for which the widest ones can: the
/// decoder's first activation, and the scores of the transformer's sixteen heads.
pub proof fn frames_are_decodable_up_to_the_widest_buffers(frames: int)
    ensures
        engine::decodable(frames) <==> frames * 184320 <= usize::MAX && 16 * frames * frames
            <= usize::MAX,
{
}

} // verus!
