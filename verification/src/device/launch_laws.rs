//! What a kernel launch is for: one thread for every number that a call writes, and the
//! dimensions of the call in the order in which its kernel takes them.

use vstd::prelude::*;

use crate::device::launch::{self, Param, Source};
use crate::device::op::{Call, Inputs, Operand};
use crate::device::plan;

verus! {

/// A call has one element for every number of its result; a call that writes a part of a
/// cache has one for every number that it puts there.
pub proof fn every_number_has_its_element(call: Call)
    ensures
        !(call is WriteCache) ==> launch::element_count(call) == plan::extents(call).last(),
        call is WriteCache ==> launch::element_count(call) == plan::extents(call)[0],
{
    match call {
        Call::AttentionScores { batch, q_heads, query_steps, key_steps, .. } => {
            assert(0 <= batch * q_heads * query_steps * key_steps) by (nonlinear_arith);
        },
        Call::ApplyValue { batch, q_heads, query_steps, head_dim, .. } => {
            assert(0 <= batch * query_steps * q_heads * head_dim) by (nonlinear_arith);
        },
        Call::Permute { batch, steps, heads, head_dim } => {
            assert(0 <= batch * steps * heads * head_dim) by (nonlinear_arith);
        },
        Call::WriteCache { heads, input_steps, head_dim, .. } => {
            assert(0 <= heads * input_steps * head_dim) by (nonlinear_arith);
        },
        Call::Gemm { m, n, .. } => {
            assert(0 <= m * n) by (nonlinear_arith);
        },
        Call::TransposeCtToTc { channels, frames } => {
            assert(0 <= channels * frames) by (nonlinear_arith);
        },
        Call::TransposeTcToCt { frames, channels } => {
            assert(0 <= channels * frames) by (nonlinear_arith);
        },
        Call::ScaledResidualAdd { rows, cols } => {
            assert(0 <= rows * cols) by (nonlinear_arith);
        },
        Call::BiasAdd { rows, cols } => {
            assert(0 <= rows * cols) by (nonlinear_arith);
        },
        Call::LayerNorm { rows, cols } => {
            assert(0 <= rows * cols) by (nonlinear_arith);
        },
        Call::RmsNorm { rows, cols, .. } => {
            assert(0 <= rows * cols) by (nonlinear_arith);
        },
        Call::Softmax { rows, cols } => {
            assert(0 <= rows * cols) by (nonlinear_arith);
        },
        Call::SnakeBeta { channels, frames } => {
            assert(0 <= channels * frames) by (nonlinear_arith);
        },
        Call::DilatedConv1d { frames, out_channels, .. } => {
            assert(0 <= out_channels * frames) by (nonlinear_arith);
            assert(out_channels * frames == frames * out_channels) by (nonlinear_arith);
        },
        Call::TransConvChannels { out_frames, out_channels, .. } => {
            assert(0 <= out_channels * out_frames) by (nonlinear_arith);
            assert(out_channels * out_frames == out_frames * out_channels) by (nonlinear_arith);
        },
        _ => {},
    }
}

/// Norms and the softmax have a block of 256 threads for every row, with four bytes of
/// shared memory for every thread, eight where a mean and a variance are summed up; all
/// other calls have a thread for every element and no shared memory.
pub proof fn rows_and_elements_get_their_threads(call: Call)
    ensures
        launch::BLOCK == 256,
        match call {
            Call::RmsNorm { rows, .. } | Call::Softmax { rows, .. } => launch::grid_of(
                launch::spread(call),
            ) == rows as u32 && launch::shared_of(launch::spread(call)) == 1024,
            Call::LayerNorm { rows, .. } => launch::grid_of(launch::spread(call)) == rows as u32
                && launch::shared_of(launch::spread(call)) == 2048,
            _ => launch::shared_of(launch::spread(call)) == 0 && (0 < launch::element_count(call)
                <= u32::MAX && launch::element_count(call) <= usize::MAX ==> {
                let threads = 256 * launch::grid_of(launch::spread(call));
                launch::element_count(call) <= threads < launch::element_count(call) + 256
            }),
        },
{
}

/// Numbers as the driver takes them.
pub open spec fn ints(values: Seq<int>) -> Seq<Param> {
    values.map_values(|n: int| Param::Int((n as usize) as i32))
}

/// The dimensions that a kernel is handed, in its own order.
pub open spec fn dimensions(call: Call) -> Seq<int> {
    match call {
        Call::Gemm { .. } => seq![],
        // Frames, codes per frame, entries and width of a codebook, width of a projection.
        Call::RvqProject { frames } => seq![frames as int, 16, 2048, 256, 512],
        // Frames, channels in and out, taps, frames of padding.
        Call::CausalConv1d { frames } => seq![frames as int, 512, 1024, 3, 3 - 1],
        Call::TransposeCtToTc { channels, frames } => seq![
            channels as int,
            frames as int,
            channels * frames,
        ],
        Call::TransposeTcToCt { frames, channels } => seq![
            frames as int,
            channels as int,
            channels * frames,
        ],
        Call::ScaledResidualAdd { rows, cols } => seq![rows as int, cols as int],
        Call::BiasAdd { rows, cols } => seq![rows as int, cols as int],
        Call::Gelu { total } => seq![total as int],
        Call::LayerNorm { rows, cols } => seq![rows as int, cols as int],
        // Frames in and out, channels, taps, stride.
        Call::TransConv1d { in_frames, out_frames } => seq![
            in_frames as int,
            out_frames as int,
            1024,
            2,
            2,
        ],
        // Frames, channels, taps, frames of padding.
        Call::DepthwiseConv1d { frames } => seq![frames as int, 1024, 7, 7 - 1],
        Call::ConvNextResidual { frames } => seq![1024, frames as int, 1024 * frames],
        Call::SnakeBeta { channels, frames } => seq![
            channels as int,
            frames as int,
            channels * frames,
        ],
        Call::DilatedConv1d {
            frames,
            in_channels,
            out_channels,
            kernel_size,
            dilation,
            causal_padding,
        } => seq![
            frames as int,
            in_channels as int,
            out_channels as int,
            kernel_size as int,
            dilation as int,
            causal_padding as int,
        ],
        Call::TransConvChannels {
            in_frames,
            out_frames,
            in_channels,
            out_channels,
            kernel_size,
            stride,
        } => seq![
            in_frames as int,
            out_frames as int,
            in_channels as int,
            out_channels as int,
            kernel_size as int,
            stride as int,
        ],
        Call::Clamp { total } => seq![total as int],
        Call::RmsNorm { rows, cols, .. } => seq![rows as int, cols as int],
        Call::Rope { total, heads, steps, head_dim, offset, .. } => seq![
            total as int,
            heads as int,
            steps as int,
            head_dim as int,
            offset as int,
        ],
        Call::Permute { batch, steps, heads, head_dim } => seq![
            batch as int,
            steps as int,
            heads as int,
            head_dim as int,
            batch * steps * heads * head_dim,
        ],
        // Rows, columns, columns that take part.
        Call::Softmax { rows, cols } => seq![rows as int, cols as int, cols as int],
        Call::AttentionScores {
            batch,
            q_heads,
            kv_heads,
            query_steps,
            key_steps,
            head_dim,
            offset,
            ..
        } => seq![
            batch as int,
            q_heads as int,
            kv_heads as int,
            query_steps as int,
            key_steps as int,
            head_dim as int,
            offset as int,
        ],
        Call::ApplyValue { batch, q_heads, kv_heads, query_steps, key_steps, head_dim } => seq![
            batch as int,
            q_heads as int,
            kv_heads as int,
            query_steps as int,
            key_steps as int,
            head_dim as int,
            batch * query_steps * q_heads * head_dim,
        ],
        Call::WriteCache { heads, input_steps, cache_steps, head_dim, offset } => seq![
            1,
            heads as int,
            input_steps as int,
            cache_steps as int,
            head_dim as int,
            offset as int,
            heads * input_steps * head_dim,
        ],
        Call::ResidualAdd { total } => seq![total as int],
        Call::Swiglu { total } => seq![total as int],
    }
}

/// The floating-point numbers that a kernel is handed behind its dimensions, by their bits,
/// and a count behind them where the kernel takes one.
pub open spec fn constants(call: Call) -> Seq<Param> {
    match call {
        // A millionth.
        Call::LayerNorm { .. } => seq![Param::Float(0x3586_37bd)],
        // Minus one and one.
        Call::Clamp { .. } => seq![Param::Float(0xbf80_0000), Param::Float(0x3f80_0000)],
        Call::RmsNorm { epsilon, .. } => seq![Param::Float(epsilon)],
        Call::Rope { theta, .. } => seq![Param::Float(theta)],
        Call::AttentionScores { batch, q_heads, query_steps, key_steps, scale, .. } => seq![
            Param::Float(scale),
            Param::Int(((batch * q_heads * query_steps * key_steps) as usize) as i32),
        ],
        _ => seq![],
    }
}

#[verifier::spinoff_prover]
#[verifier::rlimit(60)]
proof fn lemma_scalars(call: Call)
    ensures
        launch::scalars(call) == ints(dimensions(call)) + constants(call),
{
    let given = launch::scalars(call);
    let expected = ints(dimensions(call)) + constants(call);
    match call {
        Call::AttentionScores { .. } => assert(given =~= expected),
        Call::ApplyValue { .. } => assert(given =~= expected),
        Call::WriteCache { .. } => assert(given =~= expected),
        Call::Rope { .. } => assert(given =~= expected),
        Call::Permute { .. } => assert(given =~= expected),
        _ => assert(given =~= expected),
    }
}

/// A kernel is handed the buffers that it reads, the one that it writes, the dimensions of
/// its call and its constants, in this order.
pub proof fn kernels_are_handed_what_they_take(call: Call, inputs: Inputs, output: Operand)
    ensures
        ({
            let read = inputs.operands().map_values(|o: Operand| Param::Buffer(o));
            launch::params_of(call, inputs, output) == read + seq![Param::Buffer(output)] + ints(
                dimensions(call),
            ) + constants(call)
        }),
{
    let read = inputs.operands().map_values(|o: Operand| Param::Buffer(o));
    assert(inputs.operands().push(output).map_values(|o: Operand| Param::Buffer(o)) =~= read
        + seq![Param::Buffer(output)]);
    lemma_scalars(call);
    let front = read + seq![Param::Buffer(output)];
    let a = ints(dimensions(call));
    let b = constants(call);
    assert(front + (a + b) =~= front + a + b);
}

/// Every call but a matrix product runs the kernel of its own work, out of the source that
/// holds it.
pub proof fn calls_run_their_own_kernels(call: Call)
    ensures
        launch::symbol_of(call) == match call {
            Call::Gemm { .. } => None,
            Call::RmsNorm { .. } => Some((Source::RmsNorm, "rmsnorm_f32"@)),
            Call::Rope { .. } => Some((Source::Rope, "rope_bhsd_f32"@)),
            Call::Permute { .. } => Some((Source::Layout, "permute_bshd_to_bhsd_f32"@)),
            Call::Softmax { .. } => Some((Source::Softmax, "masked_softmax_f32"@)),
            Call::AttentionScores { .. } => Some(
                (Source::Attention, "attention_scores_causal_f32"@),
            ),
            Call::ApplyValue { .. } => Some((Source::Attention, "attention_apply_value_f32"@)),
            Call::WriteCache { .. } => Some((Source::Attention, "write_kv_cache_f32"@)),
            Call::ResidualAdd { .. } => Some((Source::Elementwise, "residual_add_f32"@)),
            Call::Swiglu { .. } => Some((Source::Elementwise, "swiglu_f32"@)),
            other => Some(
                (
                    Source::Codec,
                    match other {
                        Call::RvqProject { .. } => "codec_rvq_project_f32"@,
                        Call::CausalConv1d { .. } => "codec_causal_conv1d_f32"@,
                        Call::TransposeCtToTc { .. } => "codec_transpose_ct_to_tc_f32"@,
                        Call::TransposeTcToCt { .. } => "codec_transpose_tc_to_ct_f32"@,
                        Call::ScaledResidualAdd { .. } => "codec_scaled_residual_add_f32"@,
                        Call::BiasAdd { .. } => "codec_bias_add_f32"@,
                        Call::Gelu { .. } => "codec_gelu_f32"@,
                        Call::LayerNorm { .. } => "codec_layernorm_f32"@,
                        Call::TransConv1d { .. } => "codec_transconv1d_f32"@,
                        Call::DepthwiseConv1d { .. } => "codec_depthwise_causal_conv1d_f32"@,
                        Call::ConvNextResidual { .. } => "codec_convnext_residual_f32"@,
                        Call::SnakeBeta { .. } => "codec_snake_beta_f32"@,
                        Call::DilatedConv1d { .. } => "codec_causal_conv1d_dilated_f32"@,
                        Call::TransConvChannels { .. } => "codec_transconv1d_channels_f32"@,
                        _ => "codec_clamp_f32"@,
                    },
                ),
            ),
        },
{
}

} // verus!
