//! The operations that a device plan is made of.

use vstd::prelude::*;

verus! {

/// Which tensor of a transformer layer. The codec has the two scales, the talker the norms
/// of the queries and the keys.
#[derive(Clone, Copy, PartialEq, Eq, Structural, Debug)]
pub enum LayerWeight {
    InputGamma,
    Query,
    Key,
    Value,
    Output,
    AttentionScale,
    PostGamma,
    Gate,
    Up,
    Down,
    MlpScale,
    QueryGamma,
    KeyGamma,
}

/// Which tensor of an upsampling stage.
#[derive(Clone, Copy, PartialEq, Eq, Structural, Debug)]
pub enum UpsampleWeight {
    TransWeight,
    TransBias,
    DepthwiseWeight,
    DepthwiseBias,
    NormGamma,
    NormBeta,
    Pointwise1Weight,
    Pointwise1Bias,
    Pointwise2Weight,
    Pointwise2Bias,
    Gamma,
}

/// Which tensor of a residual unit.
#[derive(Clone, Copy, PartialEq, Eq, Structural, Debug)]
pub enum ResidualWeight {
    Alpha1,
    Beta1,
    Conv1Weight,
    Conv1Bias,
    Alpha2,
    Beta2,
    Conv2Weight,
    Conv2Bias,
}

/// A tensor of the model that a kernel reads.
#[derive(Clone, Copy, PartialEq, Eq, Structural, Debug)]
pub enum Weight {
    FirstCodebook,
    RestCodebooks,
    FirstProjection,
    RestProjection,
    PreConvWeight,
    PreConvBias,
    InputProjection,
    InputBias,
    OutputProjection,
    OutputBias,
    FinalNorm,
    Layer { index: usize, part: LayerWeight },
    Upsample { stage: usize, tensor: UpsampleWeight },
    DecoderInitWeight,
    DecoderInitBias,
    BlockAlpha { block: usize },
    BlockBeta { block: usize },
    BlockTransWeight { block: usize },
    BlockTransBias { block: usize },
    Residual { block: usize, unit: usize, role: ResidualWeight },
    FinalAlpha,
    FinalBeta,
    FinalConvWeight,
    FinalConvBias,
}

/// A buffer on the device.
#[derive(Clone, Copy, PartialEq, Eq, Structural, Debug)]
pub enum Operand {
    /// A buffer that the caller of the plan brings.
    Input(usize),
    /// A tensor of the model.
    Weight(Weight),
    /// The buffer that the allocation of this number within the plan makes.
    Scratch(usize),
}

/// The buffers that a call reads, in the order in which the kernel takes them.
#[derive(Clone, Copy, PartialEq, Eq, Structural, Debug)]
pub enum Inputs {
    One(Operand),
    Two(Operand, Operand),
    Three(Operand, Operand, Operand),
    Five(Operand, Operand, Operand, Operand, Operand),
}

impl Inputs {
    /// The buffers as a sequence.
    pub open spec fn operands(self) -> Seq<Operand> {
        match self {
            Inputs::One(a) => seq![a],
            Inputs::Two(a, b) => seq![a, b],
            Inputs::Three(a, b, c) => seq![a, b, c],
            Inputs::Five(a, b, c, d, e) => seq![a, b, c, d, e],
        }
    }

    /// The buffers as a list.
    pub fn to_vec(&self) -> (list: Vec<Operand>)
        ensures
            list@ == self.operands(),
    {
        let mut list: Vec<Operand> = Vec::new();
        match *self {
            Inputs::One(a) => {
                list.push(a);
            },
            Inputs::Two(a, b) => {
                list.push(a);
                list.push(b);
            },
            Inputs::Three(a, b, c) => {
                list.push(a);
                list.push(b);
                list.push(c);
            },
            Inputs::Five(a, b, c, d, e) => {
                list.push(a);
                list.push(b);
                list.push(c);
                list.push(d);
                list.push(e);
            },
        }
        list
    }
}

/// A computation on the device, without the buffers it works on. A floating-point
/// argument is given by its 32 bits.
#[derive(Clone, Copy, PartialEq, Eq, Structural, Debug)]
pub enum Call {
    /// `c = a * b` on row-major matrices, `a` being `m` by `k` and `b` being `k` by `n`.
    Gemm { m: usize, n: usize, k: usize },
    /// Residual vector quantiser lookup and projection.
    RvqProject { frames: usize },
    /// The convolution in front of the transformer.
    CausalConv1d { frames: usize },
    /// Channel-major to frame-major.
    TransposeCtToTc { channels: usize, frames: usize },
    /// Frame-major to channel-major.
    TransposeTcToCt { frames: usize, channels: usize },
    /// `residual + update * scale`, the scale being per column.
    ScaledResidualAdd { rows: usize, cols: usize },
    /// Adds a bias to every row.
    BiasAdd { rows: usize, cols: usize },
    Gelu { total: usize },
    LayerNorm { rows: usize, cols: usize },
    /// Transposed convolution of an upsampling stage.
    TransConv1d { in_frames: usize, out_frames: usize },
    /// Depthwise causal convolution of an upsampling stage.
    DepthwiseConv1d { frames: usize },
    /// Channel-major residual plus a scaled frame-major update.
    ConvNextResidual { frames: usize },
    SnakeBeta { channels: usize, frames: usize },
    DilatedConv1d {
        frames: usize,
        in_channels: usize,
        out_channels: usize,
        kernel_size: usize,
        dilation: usize,
        causal_padding: usize,
    },
    TransConvChannels {
        in_frames: usize,
        out_frames: usize,
        in_channels: usize,
        out_channels: usize,
        kernel_size: usize,
        stride: usize,
    },
    /// Limits every sample to the closed interval from -1 to 1.
    Clamp { total: usize },
    RmsNorm { rows: usize, cols: usize, epsilon: u32 },
    Rope { total: usize, heads: usize, steps: usize, head_dim: usize, offset: usize, theta: u32 },
    /// Batch, step, head, dimension to batch, head, step, dimension.
    Permute { batch: usize, steps: usize, heads: usize, head_dim: usize },
    Softmax { rows: usize, cols: usize },
    AttentionScores {
        batch: usize,
        q_heads: usize,
        kv_heads: usize,
        query_steps: usize,
        key_steps: usize,
        head_dim: usize,
        offset: usize,
        scale: u32,
    },
    ApplyValue {
        batch: usize,
        q_heads: usize,
        kv_heads: usize,
        query_steps: usize,
        key_steps: usize,
        head_dim: usize,
    },
    /// Writes steps into a cache, from step `offset` on; the rest of the cache stays.
    WriteCache {
        heads: usize,
        input_steps: usize,
        cache_steps: usize,
        head_dim: usize,
        offset: usize,
    },
    ResidualAdd { total: usize },
    Swiglu { total: usize },
}

/// One step of a device plan.
#[derive(Clone, Copy, PartialEq, Eq, Structural, Debug)]
pub enum Op {
    /// Makes the next scratch buffer, of `len` elements of 32 bits.
    Alloc { len: usize },
    /// Runs `call` on `inputs` and leaves what it computes in `output`.
    Run { call: Call, inputs: Inputs, output: Operand },
}

/// The scratch buffer of number `index`.
pub open spec fn scratch(index: usize) -> Operand {
    Operand::Scratch(index)
}

/// An allocation of `len` elements.
pub open spec fn make(len: int) -> Op {
    Op::Alloc { len: len as usize }
}

/// A matrix product.
pub open spec fn gemm(m: usize, n: usize, k: usize) -> Call {
    Call::Gemm { m, n, k }
}

/// A call on one input.
pub open spec fn run1(call: Call, a: Operand, output: Operand) -> Op {
    Op::Run { call, inputs: Inputs::One(a), output }
}

/// A call on two inputs.
pub open spec fn run2(call: Call, a: Operand, b: Operand, output: Operand) -> Op {
    Op::Run { call, inputs: Inputs::Two(a, b), output }
}

/// A call on three inputs.
pub open spec fn run3(call: Call, a: Operand, b: Operand, c: Operand, output: Operand) -> Op {
    Op::Run { call, inputs: Inputs::Three(a, b, c), output }
}

/// What the buffers hold, in terms of values of any kind.
pub type Memory<V> = Map<Operand, V>;

/// The values that a call works from: its inputs, and for a partial update also what
/// the output held before.
pub open spec fn read_values<V>(s: Memory<V>, call: Call, inputs: Inputs, output: Operand) -> Seq<
    V,
> {
    let read = match inputs {
        Inputs::One(a) => seq![s[a]],
        Inputs::Two(a, b) => seq![s[a], s[b]],
        Inputs::Three(a, b, c) => seq![s[a], s[b], s[c]],
        Inputs::Five(a, b, c, d, e) => seq![s[a], s[b], s[c], s[d], s[e]],
    };
    if call is WriteCache {
        read.push(s[output])
    } else {
        read
    }
}

/// The memory after one step, where `f` says what a call computes from its inputs.
pub open spec fn step<V>(f: spec_fn(Call, Seq<V>) -> V, s: Memory<V>, op: Op) -> Memory<V> {
    match op {
        Op::Alloc { .. } => s,
        Op::Run { call, inputs, output } => s.insert(
            output,
            f(call, read_values(s, call, inputs, output)),
        ),
    }
}

/// The memory after the steps of `ops` from position `from` on.
pub open spec fn run_from<V>(
    f: spec_fn(Call, Seq<V>) -> V,
    s: Memory<V>,
    ops: Seq<Op>,
    from: int,
) -> Memory<V>
    decreases ops.len() - from,
{
    if from < 0 || from >= ops.len() {
        s
    } else {
        run_from(f, step(f, s, ops[from]), ops, from + 1)
    }
}

/// The memory after all steps of `ops`.
pub open spec fn run<V>(f: spec_fn(Call, Seq<V>) -> V, s: Memory<V>, ops: Seq<Op>) -> Memory<V> {
    run_from(f, s, ops, 0)
}

/// Steps that are run one list after the other are run as one list.
pub proof fn lemma_run_concat<V>(
    f: spec_fn(Call, Seq<V>) -> V,
    s: Memory<V>,
    a: Seq<Op>,
    b: Seq<Op>,
)
    ensures
        run(f, s, a + b) == run(f, run(f, s, a), b),
{
    lemma_run_from_concat(f, s, a, b, 0);
}

proof fn lemma_run_from_concat<V>(
    f: spec_fn(Call, Seq<V>) -> V,
    s: Memory<V>,
    a: Seq<Op>,
    b: Seq<Op>,
    from: int,
)
    requires
        0 <= from <= a.len(),
    ensures
        run_from(f, s, a + b, from) == run_from(f, run_from(f, s, a, from), b, 0),
    decreases a.len() - from,
{
    if from < a.len() {
        assert((a + b)[from] == a[from]);
        lemma_run_from_concat(f, step(f, s, a[from]), a, b, from + 1);
    } else {
        lemma_run_from_shift(f, s, a, b, 0);
    }
}

proof fn lemma_run_from_shift<V>(
    f: spec_fn(Call, Seq<V>) -> V,
    s: Memory<V>,
    a: Seq<Op>,
    b: Seq<Op>,
    from: int,
)
    requires
        0 <= from <= b.len(),
    ensures
        run_from(f, s, a + b, a.len() + from) == run_from(f, s, b, from),
    decreases b.len() - from,
{
    if from < b.len() {
        assert((a + b)[a.len() + from] == b[from]);
        lemma_run_from_shift(f, step(f, s, b[from]), a, b, from + 1);
    }
}

/// No step of `ops` writes to `o`.
pub open spec fn leaves_alone(ops: Seq<Op>, o: Operand) -> bool {
    forall|i: int|
        0 <= i < ops.len() ==> (#[trigger] ops[i] matches Op::Run { output, .. } ==> output != o)
}

/// A buffer that no step writes to keeps its value.
pub proof fn lemma_leaves_alone<V>(
    f: spec_fn(Call, Seq<V>) -> V,
    s: Memory<V>,
    ops: Seq<Op>,
    o: Operand,
)
    requires
        leaves_alone(ops, o),
    ensures
        run(f, s, ops)[o] == s[o],
{
    lemma_leaves_alone_from(f, s, ops, o, 0);
}

proof fn lemma_leaves_alone_from<V>(
    f: spec_fn(Call, Seq<V>) -> V,
    s: Memory<V>,
    ops: Seq<Op>,
    o: Operand,
    from: int,
)
    requires
        leaves_alone(ops, o),
        0 <= from <= ops.len(),
    ensures
        run_from(f, s, ops, from)[o] == s[o],
    decreases ops.len() - from,
{
    if from < ops.len() {
        lemma_leaves_alone_from(f, step(f, s, ops[from]), ops, o, from + 1);
    }
}

} // verus!
