//! The codec with its weights: loading it and planning its four parts.

use vstd::prelude::*;

use crate::archive::{self, TensorArchive};
use crate::codec::decoder::{self, decoder_plan, HipCodecDecoderOutputs};
use crate::codec::dims::{
    CODE_GROUPS, PRE_CONV_OUT, PROJECTED_DIM, TRANSFORMER_HEADS, TRANSFORMER_LAYERS,
};
use crate::codec::sizes;
use crate::codec::transformer::{self, transformer_plan, OUTPUT_CT};
use crate::codec::upsample::{self, upsample_plan, HipCodecUpsampleOutputs};
use crate::codec::weights::{self, fetch_all, list_requests, LoadedTensor};
use crate::device::op::{self, Call, Inputs, Memory, Op, Operand, Weight};
use crate::device::plan::{self, Plan};
use crate::error::{self, Error};
use crate::text::{self, push_usize};

verus! {

/// The weights of the codec on the host.
#[derive(Debug)]
pub struct HipCodecInitial {
    pub tensors: Vec<LoadedTensor>,
}

/// The buffers that the quantiser and the convolution behind it leave.
#[derive(Clone, Copy, PartialEq, Eq, Structural, Debug)]
pub struct HipCodecInitialOutput {
    pub quantized: Operand,
    pub pre_conv: Operand,
    pub frames: usize,
}

/// The steps from codes to the input of the transformer.
pub open spec fn initial_ops(frames: usize) -> Seq<Op> {
    seq![
        op::make(PROJECTED_DIM * frames),
        op::make(PRE_CONV_OUT * frames),
        Op::Run {
            call: Call::RvqProject { frames },
            inputs: Inputs::Five(
                Operand::Input(0),
                Operand::Weight(Weight::FirstCodebook),
                Operand::Weight(Weight::RestCodebooks),
                Operand::Weight(Weight::FirstProjection),
                Operand::Weight(Weight::RestProjection),
            ),
            output: op::scratch(0),
        },
        op::run3(
            Call::CausalConv1d { frames },
            op::scratch(0),
            Operand::Weight(Weight::PreConvWeight),
            Operand::Weight(Weight::PreConvBias),
            op::scratch(1),
        ),
    ]
}

/// The text for a number of codes that is not a whole number of frames.
pub open spec fn codes_text(len: nat, expected: nat) -> Seq<char> {
    "codes length "@ + text::decimal(len) + " does not match frames*groups "@ + text::decimal(
        expected,
    )
}

/// The text for a transformer input of another length than the frames ask for.
pub open spec fn pre_conv_text(len: nat, expected: nat) -> Seq<char> {
    "pre_conv length "@ + text::decimal(len) + " does not match "@ + text::decimal(expected)
}

fn length_error(what: &str, len: usize, middle: &str, expected: usize) -> (e: Error)
    ensures
        error::is_invalid(
            e,
            what@ + text::decimal(len as nat) + middle@ + text::decimal(expected as nat),
        ),
{
    let mut text = what.to_owned();
    push_usize(&mut text, len);
    text.append(middle);
    push_usize(&mut text, expected);
    Error::InvalidInput(text)
}

impl HipCodecInitial {
    /// The tensors are those that the codec asks for, in that order, and each one whose
    /// shape or widths are checked has as many numbers as the plans count on.
    pub open spec fn wf(&self) -> bool {
        weights::all_filled(weights::codec_requests(), self.tensors@)
    }

    /// Reads all tensors of the codec. The first one that is missing or unusable decides
    /// the error.
    pub fn load(archive: &TensorArchive) -> (codec: Result<HipCodecInitial, Error>)
        ensures
            archive.contents() is None ==> (codec matches Err(e) && archive::is_parse_error(e)),
            archive.contents() matches Some(tensors) ==> match (
                codec,
                weights::fetched_all(tensors, weights::codec_requests()),
            ) {
                (Ok(got), Ok(expected)) => weights::loaded(got.tensors@) == expected,
                (Err(e), Err(why)) => error::is_invalid(e, why),
                _ => false,
            },
            codec matches Ok(got) ==> got.wf(),
    {
        let requests: Vec<weights::Request> = list_requests();
        match fetch_all(archive, &requests) {
            Ok(tensors) => Ok(HipCodecInitial { tensors }),
            Err(e) => Err(e),
        }
    }

    /// Plans the quantiser and the convolution behind it. The first input of the plan
    /// holds the codes, frame by frame.
    pub fn run(&self, codes: &[i32], frames: usize) -> (planned: Result<
        (Plan, HipCodecInitialOutput),
        Error,
    >)
        requires
            frames * PRE_CONV_OUT <= usize::MAX,
        ensures
            match planned {
                Ok((plan, output)) => {
                    &&& frames > 0 && codes@.len() == frames * CODE_GROUPS
                    &&& plan.wf()
                    &&& plan@ == initial_ops(frames)
                    &&& output == (HipCodecInitialOutput {
                        quantized: op::scratch(0),
                        pre_conv: op::scratch(1),
                        frames,
                    })
                },
                Err(e) => {
                    &&& frames == 0 || codes@.len() != frames * CODE_GROUPS
                    &&& error::is_invalid(
                        e,
                        codes_text(codes@.len(), (frames * CODE_GROUPS) as nat),
                    )
                },
            },
    {
        if frames == 0 || codes.len() != frames * CODE_GROUPS {
            return Err(
                length_error(
                    "codes length ",
                    codes.len(),
                    " does not match frames*groups ",
                    frames * CODE_GROUPS,
                ),
            );
        }
        let mut plan = Plan::new();
        let quantized = plan.scratch(PROJECTED_DIM * frames);
        let pre_conv = plan.scratch(PRE_CONV_OUT * frames);
        plan.run(
            Call::RvqProject { frames },
            Inputs::Five(
                Operand::Input(0),
                Operand::Weight(Weight::FirstCodebook),
                Operand::Weight(Weight::RestCodebooks),
                Operand::Weight(Weight::FirstProjection),
                Operand::Weight(Weight::RestProjection),
            ),
            quantized,
        );
        plan.run(
            Call::CausalConv1d { frames },
            Inputs::Three(
                quantized,
                Operand::Weight(Weight::PreConvWeight),
                Operand::Weight(Weight::PreConvBias),
            ),
            pre_conv,
        );
        proof {
            assert(plan@ =~= initial_ops(frames));
        }
        Ok((plan, HipCodecInitialOutput { quantized, pre_conv, frames }))
    }

    /// Plans the transformer. The first input of the plan is what the convolution gave,
    /// a buffer of `pre_conv_len` elements.
    pub fn run_pre_transformer(&self, pre_conv_len: usize, frames: usize) -> (planned: Result<
        (Plan, Operand),
        Error,
    >)
        requires
            PRE_CONV_OUT * frames <= usize::MAX,
            TRANSFORMER_HEADS * frames * frames <= usize::MAX,
        ensures
            match planned {
                Ok((plan, output)) => {
                    &&& pre_conv_len == PRE_CONV_OUT * frames
                    &&& plan.wf()
                    &&& plan@ == transformer::transformer_ops(frames, TRANSFORMER_LAYERS as nat)
                    &&& output == op::scratch(OUTPUT_CT)
                    &&& frames > 0 ==> plan::made_len(plan@, output) == PRE_CONV_OUT * frames
                },
                Err(e) => {
                    &&& pre_conv_len != PRE_CONV_OUT * frames
                    &&& error::is_invalid(
                        e,
                        pre_conv_text(pre_conv_len as nat, (PRE_CONV_OUT * frames) as nat),
                    )
                },
            },
    {
        if pre_conv_len != PRE_CONV_OUT * frames {
            return Err(
                length_error(
                    "pre_conv length ",
                    pre_conv_len,
                    " does not match ",
                    PRE_CONV_OUT * frames,
                ),
            );
        }
        proof {
            if frames > 0 {
                parts_fit_together(frames);
            }
        }
        Ok((transformer_plan(frames, TRANSFORMER_LAYERS), Operand::Scratch(OUTPUT_CT)))
    }

    /// Plans the two upsampling stages. The first input of the plan is what the
    /// transformer gave.
    pub fn run_upsample_stages(&self, frames: usize) -> (planned: (Plan, HipCodecUpsampleOutputs))
        requires
            frames * 16384 <= usize::MAX,
        ensures
            planned.0.wf(),
            planned.0@ == upsample::upsample_ops(frames),
            planned.1 == upsample::upsample_outputs(frames),
    {
        upsample_plan(frames)
    }

    /// Plans the decoder. The first input of the plan is what the upsampling stages gave.
    pub fn run_decoder_stages(&self, frames: usize) -> (planned: (Plan, HipCodecDecoderOutputs))
        requires
            frames * 46080 <= usize::MAX,
        ensures
            planned.0.wf(),
            planned.0@ == decoder::decoder_ops(frames),
            planned.1 == decoder::decoder_outputs(frames),
    {
        decoder_plan(frames)
    }
}

/// The plan from codes to the transformer leaves the projected codes in its first buffer
/// and their convolution in its second.
pub proof fn initial_plan_computes_convolution<V>(
    f: spec_fn(Call, Seq<V>) -> V,
    s: Memory<V>,
    frames: usize,
)
    ensures
        ({
            let end = op::run(f, s, initial_ops(frames));
            let quantized = f(
                Call::RvqProject { frames },
                seq![
                    s[Operand::Input(0)],
                    s[Operand::Weight(Weight::FirstCodebook)],
                    s[Operand::Weight(Weight::RestCodebooks)],
                    s[Operand::Weight(Weight::FirstProjection)],
                    s[Operand::Weight(Weight::RestProjection)],
                ],
            );
            &&& end[op::scratch(0)] == quantized
            &&& end[op::scratch(1)] == f(
                Call::CausalConv1d { frames },
                seq![
                    quantized,
                    s[Operand::Weight(Weight::PreConvWeight)],
                    s[Operand::Weight(Weight::PreConvBias)],
                ],
            )
        }),
{
    reveal_with_fuel(op::run_from, 5);
}

/// Every step of the plan from codes to the transformer stays within its buffers, and no
/// buffer is empty.
pub proof fn initial_plan_in_bounds(frames: usize)
    requires
        frames > 0,
        frames * PRE_CONV_OUT <= usize::MAX,
    ensures
        plan::in_bounds(
            initial_ops(frames),
            Seq::empty(),
            sizes::outer_len(seq![(frames * CODE_GROUPS) as nat]),
        ),
{
    let outer = sizes::outer_len(seq![(frames * CODE_GROUPS) as nat]);
    let ops = initial_ops(frames);
    let lens = seq![(PROJECTED_DIM * frames) as usize, (PRE_CONV_OUT * frames) as usize];
    assert(Seq::<usize>::empty().push(lens[0]).push(lens[1]) =~= lens);
    plan::lemma_fits(lens, outer, ops[2]);
    plan::lemma_fits(lens, outer, ops[3]);
    reveal_with_fuel(plan::in_bounds_from, 5);
}

/// What one part of the codec leaves is what the next part takes: the convolution leaves
/// as many elements as the transformer asks for, and the transformer as many as the
/// upsampling stages read.
pub proof fn parts_fit_together(frames: usize)
    requires
        frames > 0,
        frames * PRE_CONV_OUT <= usize::MAX,
        TRANSFORMER_HEADS * frames * frames <= usize::MAX,
    ensures
        plan::alloc_lens(initial_ops(frames))[1] == PRE_CONV_OUT * frames,
        plan::alloc_lens(
            transformer::transformer_ops(frames, TRANSFORMER_LAYERS as nat),
        )[OUTPUT_CT as int] == PRE_CONV_OUT * frames,
{
    let ops = initial_ops(frames);
    reveal_with_fuel(plan::alloc_lens, 5);
    assert(ops.drop_last().drop_last().drop_last().drop_last() =~= Seq::<Op>::empty());
    crate::codec::transformer_laws::transformer_plan_in_bounds(frames, TRANSFORMER_LAYERS);
}

} // verus!
