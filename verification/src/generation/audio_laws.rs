//! What audio windows, trailing text and grown caches are for.

use vstd::arithmetic::power2::pow2;
use vstd::prelude::*;

use crate::generation::audio::{self, AudioWindow};
use crate::generation::cache;

verus! {

/// A window ends where its chunk ends and starts as far in front of the chunk as it may:
/// at the first code, or as many frames in front as the limit says. Of every frame in front
/// it leaves 1920 samples out.
pub proof fn windows_have_all_the_context_there_is(
    frames: int,
    total_frames: int,
    code_groups: int,
    left_context: int,
)
    requires
        0 <= frames <= total_frames,
        0 <= left_context <= usize::MAX,
        0 < code_groups,
        total_frames * code_groups <= usize::MAX,
        total_frames * 1920 <= usize::MAX,
    ensures
        ({
            let w = audio::window_of(frames, total_frames, code_groups, left_context);
            &&& w.decode_end == total_frames * code_groups
            &&& w.decode_start + (w.context_frames + frames) * code_groups == w.decode_end
            &&& w.context_frames <= left_context
            &&& w.context_frames + frames <= total_frames
            &&& w.decode_start == 0 || w.context_frames == left_context
            &&& w.context_samples == 1920 * w.context_frames
        }),
{
    let start = total_frames - frames;
    let context = if left_context <= start {
        left_context
    } else {
        start
    };
    let first = start - context;
    assert(0 <= first * code_groups <= total_frames * code_groups) by (nonlinear_arith)
        requires
            0 <= first <= total_frames,
            0 < code_groups,
    ;
    assert(first * code_groups + (context + frames) * code_groups == total_frames * code_groups)
        by (nonlinear_arith)
        requires
            first + context + frames == total_frames,
    ;
    assert(context <= total_frames && total_frames <= usize::MAX);
}

/// More context never starts a window later, and a limit that reaches back to the first
/// frame gives a window of everything.
pub proof fn more_context_reaches_further_back(
    frames: int,
    total_frames: int,
    code_groups: int,
    less: int,
    more: int,
)
    requires
        0 <= frames <= total_frames,
        0 <= less <= more <= usize::MAX,
        0 < code_groups,
        total_frames * code_groups <= usize::MAX,
        total_frames * 1920 <= usize::MAX,
    ensures
        audio::window_of(frames, total_frames, code_groups, more).decode_start
            <= audio::window_of(frames, total_frames, code_groups, less).decode_start,
        more >= total_frames - frames ==> audio::window_of(
            frames,
            total_frames,
            code_groups,
            more,
        ).decode_start == 0,
{
    windows_have_all_the_context_there_is(frames, total_frames, code_groups, less);
    windows_have_all_the_context_there_is(frames, total_frames, code_groups, more);
    let a = audio::window_of(frames, total_frames, code_groups, less);
    let b = audio::window_of(frames, total_frames, code_groups, more);
    let x = a.context_frames + frames;
    let y = b.context_frames + frames;
    if a.context_frames > b.context_frames {
        assert(b.decode_start == 0);
        assert(y * code_groups < x * code_groups) by (nonlinear_arith)
            requires
                y < x,
                0 < code_groups,
        ;
    } else {
        assert(x * code_groups <= y * code_groups) by (nonlinear_arith)
            requires
                x <= y,
                0 < code_groups,
        ;
    }
    if more >= total_frames - frames && b.decode_start != 0 {
        assert(y >= total_frames);
        assert(y * code_groups >= total_frames * code_groups) by (nonlinear_arith)
            requires
                y >= total_frames,
                0 < code_groups,
        ;
    }
}

/// Chunks of audio are put together without a gap and without an overlap: where the window
/// of a chunk decodes to its part of a waveform of 1920 samples per frame, the chunk has
/// exactly the samples of its own frames.
pub proof fn chunks_are_parts_of_the_waveform(
    wave: Seq<u32>,
    frames: int,
    total_frames: int,
    code_groups: int,
    left_context: int,
)
    requires
        0 <= frames <= total_frames,
        0 <= left_context <= usize::MAX,
        0 < code_groups,
        total_frames * code_groups <= usize::MAX,
        1920 * total_frames <= wave.len() <= usize::MAX,
    ensures
        ({
            let w = audio::window_of(frames, total_frames, code_groups, left_context);
            let first = total_frames - frames - w.context_frames;
            let decoded = wave.subrange(1920 * first, 1920 * total_frames);
            &&& w.decode_start == first * code_groups
            &&& audio::new_samples(decoded, w) == wave.subrange(
                1920 * (total_frames - frames),
                1920 * total_frames,
            )
        }),
{
    windows_have_all_the_context_there_is(frames, total_frames, code_groups, left_context);
    let w = audio::window_of(frames, total_frames, code_groups, left_context);
    let first = total_frames - frames - w.context_frames;
    assert(first * code_groups + (w.context_frames + frames) * code_groups == total_frames
        * code_groups) by (nonlinear_arith)
        requires
            first + w.context_frames + frames == total_frames,
    ;
    let decoded = wave.subrange(1920 * first, 1920 * total_frames);
    assert(audio::new_samples(decoded, w) =~= wave.subrange(
        1920 * (total_frames - frames),
        1920 * total_frames,
    ));
}

/// A decoder that gave fewer samples than the frames in front of a chunk have leaves the
/// chunk without samples; otherwise what was decoded is the part that is left out and the
/// samples of the chunk.
pub proof fn chunks_leave_out_their_context(decoded: Seq<u32>, window: AudioWindow)
    ensures
        decoded.len() <= window.context_samples ==> audio::new_samples(decoded, window).len() == 0,
        decoded.len() > window.context_samples ==> decoded == decoded.take(
            window.context_samples as int,
        ) + audio::new_samples(decoded, window),
{
    if decoded.len() > window.context_samples {
        assert(decoded =~= decoded.take(window.context_samples as int) + audio::new_samples(
            decoded,
            window,
        ));
    }
}

/// Trailing text that is one row behind the other is handed out row by row, each row once
/// and in order, and every later step gets the padding.
pub proof fn trailing_rows_are_fed_in_order(
    rows: Seq<Seq<u32>>,
    trailing: Seq<u32>,
    pad: Seq<u32>,
    hidden: int,
    k: int,
)
    requires
        0 < hidden,
        0 <= k,
        trailing.len() == rows.len() * hidden,
        forall|r: int| 0 <= r < rows.len() ==> (#[trigger] rows[r]).len() == hidden,
        forall|r: int, i: int|
            0 <= r < rows.len() && 0 <= i < hidden ==> #[trigger] rows[r][i] == trailing[r * hidden
                + i],
    ensures
        audio::trailing_row(trailing, pad, hidden, k) == if k < rows.len() {
            rows[k]
        } else {
            pad
        },
{
    let n = rows.len() as int;
    assert((k + 1) * hidden == k * hidden + hidden) by (nonlinear_arith);
    if k < n {
        assert(0 <= k * hidden && (k + 1) * hidden <= n * hidden) by (nonlinear_arith)
            requires
                0 <= k,
                k + 1 <= n,
                0 < hidden,
        ;
        let row = audio::trailing_row(trailing, pad, hidden, k);
        assert forall|i: int| 0 <= i < hidden implies row[i] == rows[k][i] by {
            assert(row[i] == trailing[k * hidden + i]);
        }
        assert(row =~= rows[k]);
    } else {
        assert((k + 1) * hidden > n * hidden) by (nonlinear_arith)
            requires
                k >= n,
                0 < hidden,
        ;
    }
}

/// A cache grows by doubling: its new size is the old one times a power of two, it is the
/// old one where that is enough, and half of a grown size would not have been enough.
pub proof fn caches_grow_by_doubling(current: int, required: int)
    requires
        current > 0,
    ensures
        current >= required ==> audio::doubled(current, required) == current,
        exists|k: nat| audio::doubled(current, required) == current * #[trigger] pow2(k),
        audio::doubled(current, required) >= required,
        audio::doubled(current, required) > current ==> audio::doubled(current, required) < 2
            * required,
    decreases
            (if current >= required {
                0
            } else {
                required - current
            }),
{
    vstd::arithmetic::power2::lemma2_to64();
    if current >= required {
        assert(audio::doubled(current, required) == current * pow2(0));
    } else {
        caches_grow_by_doubling(2 * current, required);
        let k = choose|k: nat| audio::doubled(2 * current, required) == 2 * current * #[trigger]
            pow2(k);
        vstd::arithmetic::power2::lemma_pow2_unfold((k + 1) as nat);
        assert(2 * current * pow2(k) == current * (2 * pow2(k))) by (nonlinear_arith);
        assert(audio::doubled(current, required) == current * pow2((k + 1) as nat));
    }
}

/// A cache is laid out head by head, a head step by step, and a step entry by entry, with
/// nothing between them.
pub proof fn caches_are_laid_out_by_head(h: int, s: int, d: int, capacity: int, head_dim: int)
    ensures
        cache::place(0, 0, 0, capacity, head_dim) == 0,
        cache::place(h, s, d + 1, capacity, head_dim) == cache::place(h, s, d, capacity, head_dim)
            + 1,
        cache::place(h, s + 1, d, capacity, head_dim) == cache::place(h, s, d, capacity, head_dim)
            + head_dim,
        cache::place(h + 1, s, d, capacity, head_dim) == cache::place(h, s, d, capacity, head_dim)
            + capacity * head_dim,
{
    assert((h * capacity + (s + 1)) * head_dim == (h * capacity + s) * head_dim + head_dim)
        by (nonlinear_arith);
    assert(((h + 1) * capacity + s) * head_dim == (h * capacity + s) * head_dim + capacity
        * head_dim) by (nonlinear_arith);
    assert((0 * capacity + 0) * head_dim + 0 == 0) by (nonlinear_arith);
}

} // verus!
