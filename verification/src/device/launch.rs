//! From a kernel call to what the device driver is handed: symbol, grid and parameters.

use vstd::prelude::*;

use crate::device::op::{Call, Inputs, Operand};

verus! {

/// Threads per block, for every kernel.
pub const BLOCK: u32 = 256;

/// The C++ sources that the kernels are compiled from.
#[derive(Clone, Copy, PartialEq, Eq, Structural, Debug)]
pub enum Source {
    Codec,
    RmsNorm,
    Rope,
    Layout,
    Softmax,
    Attention,
    Elementwise,
}

/// A kernel parameter. A floating-point value is given by its 32 bits.
#[derive(Clone, Copy, PartialEq, Eq, Structural, Debug)]
pub enum Param {
    Buffer(Operand),
    Int(i32),
    Float(u32),
}

/// How threads are spread over a call.
#[derive(Clone, Copy, PartialEq, Eq, Structural, Debug)]
pub enum Spread {
    /// One thread per element.
    Elements(usize),
    /// One block per row, with this many bytes of shared memory per thread.
    Rows(usize, u32),
}

/// A kernel launch.
pub struct Launch {
    pub grid: u32,
    pub block: u32,
    pub shared_bytes: u32,
    pub params: Vec<Param>,
}

/// The product of the dimensions of a call that has one thread per element.
pub open spec fn element_count(call: Call) -> int {
    match call {
        Call::Gemm { m, n, .. } => m * n,
        Call::RvqProject { frames } => frames * 512,
        Call::CausalConv1d { frames } => frames * 1024,
        Call::TransposeCtToTc { channels, frames } => channels * frames,
        Call::TransposeTcToCt { frames, channels } => channels * frames,
        Call::ScaledResidualAdd { rows, cols } => rows * cols,
        Call::BiasAdd { rows, cols } => rows * cols,
        Call::Gelu { total } => total as int,
        Call::LayerNorm { rows, cols } => rows * cols,
        Call::TransConv1d { out_frames, .. } => 1024 * out_frames,
        Call::DepthwiseConv1d { frames } => 1024 * frames,
        Call::ConvNextResidual { frames } => 1024 * frames,
        Call::SnakeBeta { channels, frames } => channels * frames,
        Call::DilatedConv1d { frames, out_channels, .. } => frames * out_channels,
        Call::TransConvChannels { out_frames, out_channels, .. } => out_frames * out_channels,
        Call::Clamp { total } => total as int,
        Call::RmsNorm { rows, cols, .. } => rows * cols,
        Call::Rope { total, .. } => total as int,
        Call::Permute { batch, steps, heads, head_dim } => batch * steps * heads * head_dim,
        Call::Softmax { rows, cols } => rows * cols,
        Call::AttentionScores { batch, q_heads, query_steps, key_steps, .. } => batch * q_heads
            * query_steps * key_steps,
        Call::ApplyValue { batch, q_heads, query_steps, head_dim, .. } => batch * query_steps
            * q_heads * head_dim,
        Call::WriteCache { heads, input_steps, head_dim, .. } => heads * input_steps * head_dim,
        Call::ResidualAdd { total } => total as int,
        Call::Swiglu { total } => total as int,
    }
}

/// The products that are formed on the way to `element_count` fit in a machine word.
pub open spec fn countable(call: Call) -> bool {
    &&& element_count(call) <= usize::MAX
    &&& match call {
        Call::Permute { batch, steps, heads, .. } => batch * steps <= usize::MAX && batch * steps
            * heads <= usize::MAX,
        Call::AttentionScores { batch, q_heads, query_steps, .. } => batch * q_heads <= usize::MAX
            && batch * q_heads * query_steps <= usize::MAX,
        Call::ApplyValue { batch, q_heads, query_steps, .. } => batch * query_steps <= usize::MAX
            && batch * query_steps * q_heads <= usize::MAX,
        Call::WriteCache { heads, input_steps, .. } => heads * input_steps <= usize::MAX,
        _ => true,
    }
}

/// How the threads of a call are spread.
pub open spec fn spread(call: Call) -> Spread {
    match call {
        Call::RmsNorm { rows, .. } => Spread::Rows(rows, 4),
        Call::Softmax { rows, .. } => Spread::Rows(rows, 4),
        Call::LayerNorm { rows, .. } => Spread::Rows(rows, 8),
        _ => Spread::Elements(element_count(call) as usize),
    }
}

/// The number of blocks: one per row, or enough for one thread per element. The
/// counts are taken as 32-bit numbers, as the driver takes them.
pub open spec fn grid_of(spread: Spread) -> int {
    match spread {
        Spread::Elements(total) => ((total as u32) + 255) / 256,
        Spread::Rows(rows, _) => (rows as u32) as int,
    }
}

/// The bytes of shared memory per block.
pub open spec fn shared_of(spread: Spread) -> int {
    match spread {
        Spread::Elements(_) => 0,
        Spread::Rows(_, per_thread) => BLOCK * per_thread,
    }
}

/// The scalars that a kernel takes behind its buffers.
pub open spec fn scalars(call: Call) -> Seq<Param> {
    let total = Param::Int((element_count(call) as usize) as i32);
    match call {
        Call::Gemm { .. } => seq![],
        Call::RvqProject { frames } => seq![
            Param::Int(frames as i32),
            Param::Int(16),
            Param::Int(2048),
            Param::Int(256),
            Param::Int(512),
        ],
        Call::CausalConv1d { frames } => seq![
            Param::Int(frames as i32),
            Param::Int(512),
            Param::Int(1024),
            Param::Int(3),
            Param::Int(2),
        ],
        Call::TransposeCtToTc { channels, frames } => seq![
            Param::Int(channels as i32),
            Param::Int(frames as i32),
            total,
        ],
        Call::TransposeTcToCt { frames, channels } => seq![
            Param::Int(frames as i32),
            Param::Int(channels as i32),
            total,
        ],
        Call::ScaledResidualAdd { rows, cols } => seq![
            Param::Int(rows as i32),
            Param::Int(cols as i32),
        ],
        Call::BiasAdd { rows, cols } => seq![Param::Int(rows as i32), Param::Int(cols as i32)],
        Call::Gelu { .. } => seq![total],
        Call::LayerNorm { rows, cols } => seq![
            Param::Int(rows as i32),
            Param::Int(cols as i32),
            Param::Float(LAYERNORM_EPSILON),
        ],
        Call::TransConv1d { in_frames, out_frames } => seq![
            Param::Int(in_frames as i32),
            Param::Int(out_frames as i32),
            Param::Int(1024),
            Param::Int(2),
            Param::Int(2),
        ],
        Call::DepthwiseConv1d { frames } => seq![
            Param::Int(frames as i32),
            Param::Int(1024),
            Param::Int(7),
            Param::Int(6),
        ],
        Call::ConvNextResidual { frames } => seq![
            Param::Int(1024),
            Param::Int(frames as i32),
            total,
        ],
        Call::SnakeBeta { channels, frames } => seq![
            Param::Int(channels as i32),
            Param::Int(frames as i32),
            total,
        ],
        Call::DilatedConv1d {
            frames,
            in_channels,
            out_channels,
            kernel_size,
            dilation,
            causal_padding,
        } => seq![
            Param::Int(frames as i32),
            Param::Int(in_channels as i32),
            Param::Int(out_channels as i32),
            Param::Int(kernel_size as i32),
            Param::Int(dilation as i32),
            Param::Int(causal_padding as i32),
        ],
        Call::TransConvChannels {
            in_frames,
            out_frames,
            in_channels,
            out_channels,
            kernel_size,
            stride,
        } => seq![
            Param::Int(in_frames as i32),
            Param::Int(out_frames as i32),
            Param::Int(in_channels as i32),
            Param::Int(out_channels as i32),
            Param::Int(kernel_size as i32),
            Param::Int(stride as i32),
        ],
        Call::Clamp { .. } => seq![total, Param::Float(MINUS_ONE), Param::Float(ONE)],
        Call::RmsNorm { rows, cols, epsilon } => seq![
            Param::Int(rows as i32),
            Param::Int(cols as i32),
            Param::Float(epsilon),
        ],
        Call::Rope { heads, steps, head_dim, offset, theta, .. } => seq![
            total,
            Param::Int(heads as i32),
            Param::Int(steps as i32),
            Param::Int(head_dim as i32),
            Param::Int(offset as i32),
            Param::Float(theta),
        ],
        Call::Permute { batch, steps, heads, head_dim } => seq![
            Param::Int(batch as i32),
            Param::Int(steps as i32),
            Param::Int(heads as i32),
            Param::Int(head_dim as i32),
            total,
        ],
        Call::Softmax { rows, cols } => seq![
            Param::Int(rows as i32),
            Param::Int(cols as i32),
            Param::Int(cols as i32),
        ],
        Call::AttentionScores {
            batch,
            q_heads,
            kv_heads,
            query_steps,
            key_steps,
            head_dim,
            offset,
            scale,
        } => seq![
            Param::Int(batch as i32),
            Param::Int(q_heads as i32),
            Param::Int(kv_heads as i32),
            Param::Int(query_steps as i32),
            Param::Int(key_steps as i32),
            Param::Int(head_dim as i32),
            Param::Int(offset as i32),
            Param::Float(scale),
            total,
        ],
        Call::ApplyValue { batch, q_heads, kv_heads, query_steps, key_steps, head_dim } => seq![
            Param::Int(batch as i32),
            Param::Int(q_heads as i32),
            Param::Int(kv_heads as i32),
            Param::Int(query_steps as i32),
            Param::Int(key_steps as i32),
            Param::Int(head_dim as i32),
            total,
        ],
        Call::WriteCache { heads, input_steps, cache_steps, head_dim, offset } => seq![
            Param::Int(1),
            Param::Int(heads as i32),
            Param::Int(input_steps as i32),
            Param::Int(cache_steps as i32),
            Param::Int(head_dim as i32),
            Param::Int(offset as i32),
            total,
        ],
        Call::ResidualAdd { .. } => seq![total],
        Call::Swiglu { .. } => seq![total],
    }
}

/// The bits of the layer norm epsilon, `1e-6`.
pub const LAYERNORM_EPSILON: u32 = 0x3586_37bd;

/// The bits of `-1.0`.
pub const MINUS_ONE: u32 = 0xbf80_0000;

/// The bits of `1.0`.
pub const ONE: u32 = 0x3f80_0000;

/// The parameters of a launch: the buffers that are read, the one that is written, and
/// the scalars.
pub open spec fn params_of(call: Call, inputs: Inputs, output: Operand) -> Seq<Param> {
    inputs.operands().push(output).map_values(|o: Operand| Param::Buffer(o)) + scalars(call)
}

/// The number of elements of a call that has one thread per element.
pub fn count_elements(call: Call) -> (total: usize)
    requires
        countable(call),
    ensures
        total == element_count(call),
{
    match call {
        Call::Gemm { m, n, .. } => m * n,
        Call::RvqProject { frames } => frames * 512,
        Call::CausalConv1d { frames } => frames * 1024,
        Call::TransposeCtToTc { channels, frames } => channels * frames,
        Call::TransposeTcToCt { frames, channels } => channels * frames,
        Call::ScaledResidualAdd { rows, cols } => rows * cols,
        Call::BiasAdd { rows, cols } => rows * cols,
        Call::Gelu { total } => total,
        Call::LayerNorm { rows, cols } => rows * cols,
        Call::TransConv1d { out_frames, .. } => 1024 * out_frames,
        Call::DepthwiseConv1d { frames } => 1024 * frames,
        Call::ConvNextResidual { frames } => 1024 * frames,
        Call::SnakeBeta { channels, frames } => channels * frames,
        Call::DilatedConv1d { frames, out_channels, .. } => frames * out_channels,
        Call::TransConvChannels { out_frames, out_channels, .. } => out_frames * out_channels,
        Call::Clamp { total } => total,
        Call::RmsNorm { rows, cols, .. } => rows * cols,
        Call::Rope { total, .. } => total,
        Call::Permute { batch, steps, heads, head_dim } => batch * steps * heads * head_dim,
        Call::Softmax { rows, cols } => rows * cols,
        Call::AttentionScores { batch, q_heads, query_steps, key_steps, .. } => batch * q_heads
            * query_steps * key_steps,
        Call::ApplyValue { batch, q_heads, query_steps, head_dim, .. } => batch * query_steps
            * q_heads * head_dim,
        Call::WriteCache { heads, input_steps, head_dim, .. } => heads * input_steps * head_dim,
        Call::ResidualAdd { total } => total,
        Call::Swiglu { total } => total,
    }
}

fn int_param(value: usize) -> (param: Param)
    ensures
        param == Param::Int(value as i32),
{
    Param::Int(#[verifier::truncate] (value as i32))
}

fn push_ints(params: &mut Vec<Param>, values: &[usize])
    ensures
        final(params)@ == old(params)@ + values@.map_values(|v: usize| Param::Int(v as i32)),
{
    let ghost before = params@;
    let mut index: usize = 0;
    while index < values.len()
        invariant
            index <= values@.len(),
            params@ == before + values@.take(index as int).map_values(
                |v: usize| Param::Int(v as i32),
            ),
        decreases values@.len() - index,
    {
        params.push(int_param(values[index]));
        index += 1;
        proof {
            assert(params@ =~= before + values@.take(index as int).map_values(
                |v: usize| Param::Int(v as i32),
            ));
        }
    }
    proof {
        assert(values@.take(values@.len() as int) =~= values@);
    }
}

/// Appends the scalars that a kernel takes behind its buffers.
fn push_scalars(params: &mut Vec<Param>, call: Call)
    requires
        countable(call),
    ensures
        final(params)@ == old(params)@ + scalars(call),
{
    let total: usize = count_elements(call);
    match call {
        Call::Gemm { .. } => {},
        Call::RvqProject { frames } => {
            push_ints(params, &[frames, 16, 2048, 256, 512]);
        },
        Call::CausalConv1d { frames } => {
            push_ints(params, &[frames, 512, 1024, 3, 2]);
        },
        Call::TransposeCtToTc { channels, frames } => {
            push_ints(params, &[channels, frames, total]);
        },
        Call::TransposeTcToCt { frames, channels } => {
            push_ints(params, &[frames, channels, total]);
        },
        Call::ScaledResidualAdd { rows, cols } => {
            push_ints(params, &[rows, cols]);
        },
        Call::BiasAdd { rows, cols } => {
            push_ints(params, &[rows, cols]);
        },
        Call::Gelu { .. } => {
            push_ints(params, &[total]);
        },
        Call::LayerNorm { rows, cols } => {
            push_ints(params, &[rows, cols]);
            params.push(Param::Float(LAYERNORM_EPSILON));
        },
        Call::TransConv1d { in_frames, out_frames } => {
            push_ints(params, &[in_frames, out_frames, 1024, 2, 2]);
        },
        Call::DepthwiseConv1d { frames } => {
            push_ints(params, &[frames, 1024, 7, 6]);
        },
        Call::ConvNextResidual { frames } => {
            push_ints(params, &[1024, frames, total]);
        },
        Call::SnakeBeta { channels, frames } => {
            push_ints(params, &[channels, frames, total]);
        },
        Call::DilatedConv1d {
            frames,
            in_channels,
            out_channels,
            kernel_size,
            dilation,
            causal_padding,
        } => {
            push_ints(
                params,
                &[frames, in_channels, out_channels, kernel_size, dilation, causal_padding],
            );
        },
        Call::TransConvChannels {
            in_frames,
            out_frames,
            in_channels,
            out_channels,
            kernel_size,
            stride,
        } => {
            push_ints(
                params,
                &[in_frames, out_frames, in_channels, out_channels, kernel_size, stride],
            );
        },
        Call::Clamp { .. } => {
            push_ints(params, &[total]);
            params.push(Param::Float(MINUS_ONE));
            params.push(Param::Float(ONE));
        },
        Call::RmsNorm { rows, cols, epsilon } => {
            push_ints(params, &[rows, cols]);
            params.push(Param::Float(epsilon));
        },
        Call::Rope { heads, steps, head_dim, offset, theta, .. } => {
            push_ints(params, &[total, heads, steps, head_dim, offset]);
            params.push(Param::Float(theta));
        },
        Call::Permute { batch, steps, heads, head_dim } => {
            push_ints(params, &[batch, steps, heads, head_dim, total]);
        },
        Call::Softmax { rows, cols } => {
            push_ints(params, &[rows, cols, cols]);
        },
        Call::AttentionScores {
            batch,
            q_heads,
            kv_heads,
            query_steps,
            key_steps,
            head_dim,
            offset,
            scale,
        } => {
            push_ints(
                params,
                &[batch, q_heads, kv_heads, query_steps, key_steps, head_dim, offset],
            );
            params.push(Param::Float(scale));
            push_ints(params, &[total]);
        },
        Call::ApplyValue { batch, q_heads, kv_heads, query_steps, key_steps, head_dim } => {
            push_ints(
                params,
                &[batch, q_heads, kv_heads, query_steps, key_steps, head_dim, total],
            );
        },
        Call::WriteCache { heads, input_steps, cache_steps, head_dim, offset } => {
            push_ints(
                params,
                &[1, heads, input_steps, cache_steps, head_dim, offset, total],
            );
        },
        Call::ResidualAdd { .. } => {
            push_ints(params, &[total]);
        },
        Call::Swiglu { .. } => {
            push_ints(params, &[total]);
        },
    }
    proof {
        assert(params@ =~= old(params)@ + scalars(call));
    }
}

fn spread_threads(call: Call) -> (s: Spread)
    requires
        countable(call),
    ensures
        s == spread(call),
{
    match call {
        Call::RmsNorm { rows, .. } => Spread::Rows(rows, 4),
        Call::Softmax { rows, .. } => Spread::Rows(rows, 4),
        Call::LayerNorm { rows, .. } => Spread::Rows(rows, 8),
        _ => Spread::Elements(count_elements(call)),
    }
}

/// What the driver is handed for a kernel call. Counts and dimensions are passed as
/// 32-bit numbers.
pub fn launch(call: Call, inputs: Inputs, output: Operand) -> (launch: Launch)
    requires
        call !is Gemm,
        countable(call),
    ensures
        launch.grid == grid_of(spread(call)),
        launch.block == BLOCK,
        launch.shared_bytes == shared_of(spread(call)),
        launch.params@ == params_of(call, inputs, output),
{
    let read: Vec<Operand> = inputs.to_vec();
    let ghost buffers = read@.push(output).map_values(|o: Operand| Param::Buffer(o));
    let mut params: Vec<Param> = Vec::new();
    let mut index: usize = 0;
    while index < read.len()
        invariant
            index <= read@.len(),
            params@ == read@.take(index as int).map_values(|o: Operand| Param::Buffer(o)),
        decreases read@.len() - index,
    {
        params.push(Param::Buffer(read[index]));
        index += 1;
        proof {
            assert(params@ =~= read@.take(index as int).map_values(|o: Operand| Param::Buffer(o)));
        }
    }
    params.push(Param::Buffer(output));
    proof {
        assert(read@.take(read@.len() as int) =~= read@);
        assert(params@ =~= buffers);
    }
    push_scalars(&mut params, call);
    let (grid, shared_bytes): (u32, u32) = match spread_threads(call) {
        Spread::Elements(total) => {
            let narrow: u32 = #[verifier::truncate] (total as u32);
            let whole: u32 = narrow / BLOCK;
            (if narrow % BLOCK == 0 { whole } else { whole + 1 }, 0)
        },
        Spread::Rows(rows, per_thread) => (
            #[verifier::truncate]
            (rows as u32),
            BLOCK * per_thread,
        ),
    };
    Launch { grid, block: BLOCK, shared_bytes, params }
}

/// The source and the name of the kernel of a call; a matrix product has none.
pub open spec fn symbol_of(call: Call) -> Option<(Source, Seq<char>)> {
    match call {
        Call::Gemm { .. } => None,
        Call::RvqProject { .. } => Some((Source::Codec, "codec_rvq_project_f32"@)),
        Call::CausalConv1d { .. } => Some((Source::Codec, "codec_causal_conv1d_f32"@)),
        Call::TransposeCtToTc { .. } => Some((Source::Codec, "codec_transpose_ct_to_tc_f32"@)),
        Call::TransposeTcToCt { .. } => Some((Source::Codec, "codec_transpose_tc_to_ct_f32"@)),
        Call::ScaledResidualAdd { .. } => Some((Source::Codec, "codec_scaled_residual_add_f32"@)),
        Call::BiasAdd { .. } => Some((Source::Codec, "codec_bias_add_f32"@)),
        Call::Gelu { .. } => Some((Source::Codec, "codec_gelu_f32"@)),
        Call::LayerNorm { .. } => Some((Source::Codec, "codec_layernorm_f32"@)),
        Call::TransConv1d { .. } => Some((Source::Codec, "codec_transconv1d_f32"@)),
        Call::DepthwiseConv1d { .. } => Some(
            (Source::Codec, "codec_depthwise_causal_conv1d_f32"@),
        ),
        Call::ConvNextResidual { .. } => Some((Source::Codec, "codec_convnext_residual_f32"@)),
        Call::SnakeBeta { .. } => Some((Source::Codec, "codec_snake_beta_f32"@)),
        Call::DilatedConv1d { .. } => Some((Source::Codec, "codec_causal_conv1d_dilated_f32"@)),
        Call::TransConvChannels { .. } => Some((Source::Codec, "codec_transconv1d_channels_f32"@)),
        Call::Clamp { .. } => Some((Source::Codec, "codec_clamp_f32"@)),
        Call::RmsNorm { .. } => Some((Source::RmsNorm, "rmsnorm_f32"@)),
        Call::Rope { .. } => Some((Source::Rope, "rope_bhsd_f32"@)),
        Call::Permute { .. } => Some((Source::Layout, "permute_bshd_to_bhsd_f32"@)),
        Call::Softmax { .. } => Some((Source::Softmax, "masked_softmax_f32"@)),
        Call::AttentionScores { .. } => Some((Source::Attention, "attention_scores_causal_f32"@)),
        Call::ApplyValue { .. } => Some((Source::Attention, "attention_apply_value_f32"@)),
        Call::WriteCache { .. } => Some((Source::Attention, "write_kv_cache_f32"@)),
        Call::ResidualAdd { .. } => Some((Source::Elementwise, "residual_add_f32"@)),
        Call::Swiglu { .. } => Some((Source::Elementwise, "swiglu_f32"@)),
    }
}

/// The source and the name of the kernel of a call; a matrix product has none.
pub fn symbol(call: Call) -> (found: Option<(Source, &'static str)>)
    ensures
        found matches Some((source, name)) ==> symbol_of(call) == Some((source, name@)),
        found is None ==> symbol_of(call) is None,
{
    match call {
        Call::Gemm { .. } => None,
        Call::RvqProject { .. } => Some((Source::Codec, "codec_rvq_project_f32")),
        Call::CausalConv1d { .. } => Some((Source::Codec, "codec_causal_conv1d_f32")),
        Call::TransposeCtToTc { .. } => Some((Source::Codec, "codec_transpose_ct_to_tc_f32")),
        Call::TransposeTcToCt { .. } => Some((Source::Codec, "codec_transpose_tc_to_ct_f32")),
        Call::ScaledResidualAdd { .. } => Some((Source::Codec, "codec_scaled_residual_add_f32")),
        Call::BiasAdd { .. } => Some((Source::Codec, "codec_bias_add_f32")),
        Call::Gelu { .. } => Some((Source::Codec, "codec_gelu_f32")),
        Call::LayerNorm { .. } => Some((Source::Codec, "codec_layernorm_f32")),
        Call::TransConv1d { .. } => Some((Source::Codec, "codec_transconv1d_f32")),
        Call::DepthwiseConv1d { .. } => Some((Source::Codec, "codec_depthwise_causal_conv1d_f32")),
        Call::ConvNextResidual { .. } => Some((Source::Codec, "codec_convnext_residual_f32")),
        Call::SnakeBeta { .. } => Some((Source::Codec, "codec_snake_beta_f32")),
        Call::DilatedConv1d { .. } => Some((Source::Codec, "codec_causal_conv1d_dilated_f32")),
        Call::TransConvChannels { .. } => Some((Source::Codec, "codec_transconv1d_channels_f32")),
        Call::Clamp { .. } => Some((Source::Codec, "codec_clamp_f32")),
        Call::RmsNorm { .. } => Some((Source::RmsNorm, "rmsnorm_f32")),
        Call::Rope { .. } => Some((Source::Rope, "rope_bhsd_f32")),
        Call::Permute { .. } => Some((Source::Layout, "permute_bshd_to_bhsd_f32")),
        Call::Softmax { .. } => Some((Source::Softmax, "masked_softmax_f32")),
        Call::AttentionScores { .. } => Some((Source::Attention, "attention_scores_causal_f32")),
        Call::ApplyValue { .. } => Some((Source::Attention, "attention_apply_value_f32")),
        Call::WriteCache { .. } => Some((Source::Attention, "write_kv_cache_f32")),
        Call::ResidualAdd { .. } => Some((Source::Elementwise, "residual_add_f32")),
        Call::Swiglu { .. } => Some((Source::Elementwise, "swiglu_f32")),
    }
}

/// While an element count fits in 32 bits, the blocks of a launch hold one thread for
/// every element and no block is without an element.
pub proof fn grid_covers_elements(total: usize)
    requires
        0 < total <= u32::MAX,
    ensures
        grid_of(Spread::Elements(total)) * BLOCK >= total,
        (grid_of(Spread::Elements(total)) - 1) * BLOCK < total,
{
}

} // verus!
