//! Index work of the decoder: masks, codes and codebook rows.

use vstd::prelude::*;

verus! {

/// Codes are taken modulo the size of a codebook.
pub const CODE_RANGE: u32 = 2048;

/// Which entries of the attention scores are masked: those of later frames. The list runs
/// over the batch, the asking frame and the asked frame.
pub fn causal_mask(batch: usize, frames: usize) -> (mask: Vec<bool>)
    requires
        batch * frames * frames <= usize::MAX,
    ensures
        mask@.len() == batch * frames * frames,
        forall|b: int, q: int, k: int|
            0 <= b < batch && 0 <= q < frames && 0 <= k < frames ==> #[trigger] mask@[(b * frames
                + q) * frames + k] == (k > q),
{
    let mut mask: Vec<bool> = Vec::new();
    let mut b: usize = 0;
    while b < batch
        invariant
            b <= batch,
            mask@.len() == b * frames * frames,
            forall|x: int, q: int, k: int|
                0 <= x < b && 0 <= q < frames && 0 <= k < frames ==> #[trigger] mask@[(x * frames
                    + q) * frames + k] == (k > q),
        decreases batch - b,
    {
        push_mask(&mut mask, b, frames);
        b += 1;
    }
    mask
}

proof fn lemma_place(x: int, q: int, k: int, frames: int, b: int)
    requires
        0 <= x < b,
        0 <= q < frames,
        0 <= k < frames,
    ensures
        0 <= (x * frames + q) * frames + k < b * frames * frames,
{
    assert(0 <= x * frames + q < b * frames) by (nonlinear_arith)
        requires
            0 <= x < b,
            0 <= q < frames,
    ;
    let row = x * frames + q;
    assert(0 <= row * frames + k < (b * frames) * frames) by (nonlinear_arith)
        requires
            0 <= row < b * frames,
            0 <= k < frames,
    ;
}

fn push_mask(mask: &mut Vec<bool>, b: usize, frames: usize)
    requires
        old(mask)@.len() == b * frames * frames,
    ensures
        final(mask)@.len() == (b + 1) * frames * frames,
        forall|i: int| 0 <= i < old(mask)@.len() ==> final(mask)@[i] == old(mask)@[i],
        forall|x: int, q: int, k: int|
            0 <= x <= b && 0 <= q < frames && 0 <= k < frames && (forall|y: int, r: int, s: int|
                0 <= y < b && 0 <= r < frames && 0 <= s < frames ==> #[trigger] old(mask)@[(y
                    * frames + r) * frames + s] == (s > r)) ==> #[trigger] final(mask)@[(x * frames
                + q) * frames + k] == (k > q),
{
    let ghost before = mask@;
    let mut q: usize = 0;
    proof {
        assert(b * frames * frames + 0 * frames == (b * frames + 0) * frames)
            by (nonlinear_arith);
    }
    while q < frames
        invariant
            q <= frames,
            before.len() == b * frames * frames,
            mask@.len() == (b * frames + q) * frames,
            before.len() <= mask@.len(),
            forall|i: int| 0 <= i < before.len() ==> mask@[i] == before[i],
            forall|r: int, k: int|
                0 <= r < q && 0 <= k < frames ==> #[trigger] mask@[(b * frames + r) * frames + k]
                    == (k > r),
        decreases frames - q,
    {
        let ghost row = mask@;
        let mut k: usize = 0;
        while k < frames
            invariant
                k <= frames,
                q < frames,
                row.len() == (b * frames + q) * frames,
                mask@.len() == (b * frames + q) * frames + k,
                forall|i: int| 0 <= i < row.len() ==> mask@[i] == row[i],
                forall|s: int|
                    0 <= s < k ==> #[trigger] mask@[(b * frames + q) * frames + s] == (s > q),
            decreases frames - k,
        {
            mask.push(k > q);
            k += 1;
        }
        proof {
            assert((b * frames + q) * frames + frames == (b * frames + (q + 1)) * frames)
                by (nonlinear_arith);
            assert forall|r: int, s: int| 0 <= r < q + 1 && 0 <= s < frames implies
                #[trigger] mask@[(b * frames + r) * frames + s] == (s > r) by {
                if r < q {
                    assert(0 <= (b * frames + r) * frames + s < (b * frames + q) * frames)
                        by (nonlinear_arith)
                        requires
                            0 <= r < q,
                            0 <= s < frames,
                            0 <= b,
                    ;
                    assert(row[(b * frames + r) * frames + s] == (s > r));
                }
            }
        }
        q += 1;
    }
    proof {
        assert((b * frames + frames) * frames == (b + 1) * frames * frames) by (nonlinear_arith);
        if forall|y: int, r: int, s: int|
            0 <= y < b && 0 <= r < frames && 0 <= s < frames ==> #[trigger] before[(y * frames + r)
                * frames + s] == (s > r) {
            assert forall|x: int, r: int, s: int|
                0 <= x <= b && 0 <= r < frames && 0 <= s < frames implies #[trigger] mask@[(x
                * frames + r) * frames + s] == (s > r) by {
                if x < b {
                    lemma_place(x, r, s, frames as int, b as int);
                    assert(before[(x * frames + r) * frames + s] == (s > r));
                }
            }
        }
    }
}

/// The codes of all frames, quantiser by quantiser, each modulo the size of a codebook.
/// `codes` holds one list for every frame.
pub fn frame_codes(codes: &Vec<Vec<u32>>, num_quantizers: usize) -> (data: Vec<i64>)
    requires
        forall|f: int|
            0 <= f < codes@.len() ==> (#[trigger] codes@[f])@.len() == num_quantizers,
    ensures
        data@.len() == num_quantizers * codes@.len(),
        forall|q: int, f: int|
            0 <= q < num_quantizers && 0 <= f < codes@.len() ==> #[trigger] data@[q * codes@.len()
                + f] == codes@[f]@[q] % CODE_RANGE,
{
    let ghost frames = codes@.len() as int;
    let mut data: Vec<i64> = Vec::new();
    let mut q: usize = 0;
    while q < num_quantizers
        invariant
            q <= num_quantizers,
            frames == codes@.len(),
            forall|f: int|
                0 <= f < codes@.len() ==> (#[trigger] codes@[f])@.len() == num_quantizers,
            data@.len() == q * frames,
            forall|r: int, f: int|
                0 <= r < q && 0 <= f < frames ==> #[trigger] data@[r * frames + f]
                    == codes@[f]@[r] % CODE_RANGE,
        decreases num_quantizers - q,
    {
        let ghost row = data@;
        let mut f: usize = 0;
        while f < codes.len()
            invariant
                f <= codes@.len(),
                q < num_quantizers,
                frames == codes@.len(),
                forall|g: int|
                    0 <= g < codes@.len() ==> (#[trigger] codes@[g])@.len() == num_quantizers,
                row.len() == q * frames,
                data@.len() == q * frames + f,
                forall|i: int| 0 <= i < row.len() ==> data@[i] == row[i],
                forall|g: int|
                    0 <= g < f ==> #[trigger] data@[q * frames + g] == codes@[g]@[q as int]
                        % CODE_RANGE,
            decreases codes@.len() - f,
        {
            data.push((codes[f][q] % CODE_RANGE) as i64);
            f += 1;
        }
        proof {
            assert(q * frames + frames == (q + 1) * frames) by (nonlinear_arith);
            assert forall|r: int, g: int| 0 <= r < q + 1 && 0 <= g < frames implies
                #[trigger] data@[r * frames + g] == codes@[g]@[r] % CODE_RANGE by {
                if r < q {
                    assert(0 <= r * frames + g < q * frames) by (nonlinear_arith)
                        requires
                            0 <= r < q,
                            0 <= g < frames,
                    ;
                    assert(row[r * frames + g] == codes@[g]@[r] % CODE_RANGE);
                }
            }
        }
        q += 1;
    }
    data
}

/// The row of a codebook that an index names; negative indices name the first one.
pub open spec fn row_of(index: i32) -> int {
    if index < 0 {
        0
    } else {
        index as int
    }
}

/// The rows of a codebook that the indices name, one behind the other. The numbers are
/// given by their bits.
pub fn embedding_lookup(codebook: &[u32], dim: usize, indices: &[i32]) -> (values: Vec<u32>)
    requires
        forall|i: int|
            0 <= i < indices@.len() ==> (row_of(#[trigger] indices@[i]) + 1) * dim
                <= codebook@.len(),
    ensures
        values@.len() == indices@.len() * dim,
        forall|i: int, d: int|
            0 <= i < indices@.len() && 0 <= d < dim ==> #[trigger] values@[i * dim + d]
                == codebook@[row_of(indices@[i]) * dim + d],
{
    let size: usize = codebook.len();
    let mut values: Vec<u32> = Vec::new();
    let mut at: usize = 0;
    while at < indices.len()
        invariant
            at <= indices@.len(),
            size == codebook@.len(),
            forall|i: int|
                0 <= i < indices@.len() ==> (row_of(#[trigger] indices@[i]) + 1) * dim
                    <= codebook@.len(),
            values@.len() == at * dim,
            forall|i: int, d: int|
                0 <= i < at && 0 <= d < dim ==> #[trigger] values@[i * dim + d]
                    == codebook@[row_of(indices@[i]) * dim + d],
        decreases indices@.len() - at,
    {
        let index: usize = if indices[at] < 0 {
            0
        } else {
            indices[at] as usize
        };
        proof {
            assert(index == row_of(indices@[at as int]));
            assert((index + 1) * dim == index * dim + dim) by (nonlinear_arith);
            assert(index * dim >= 0) by (nonlinear_arith);
        }
        let start: usize = index * dim;
        let ghost row = values@;
        let mut d: usize = 0;
        while d < dim
            invariant
                d <= dim,
                start == row_of(indices@[at as int]) * dim,
                start + dim <= size,
                size == codebook@.len(),
                row.len() == at * dim,
                values@.len() == at * dim + d,
                forall|i: int| 0 <= i < row.len() ==> values@[i] == row[i],
                forall|e: int|
                    0 <= e < d ==> #[trigger] values@[at * dim + e] == codebook@[start + e],
            decreases dim - d,
        {
            values.push(codebook[start + d]);
            d += 1;
        }
        proof {
            assert(at * dim + dim == (at + 1) * dim) by (nonlinear_arith);
            assert forall|i: int, e: int| 0 <= i < at + 1 && 0 <= e < dim implies
                #[trigger] values@[i * dim + e] == codebook@[row_of(indices@[i]) * dim + e] by {
                if i < at {
                    assert(0 <= i * dim + e < at * dim) by (nonlinear_arith)
                        requires
                            0 <= i < at,
                            0 <= e < dim,
                    ;
                    assert(row[i * dim + e] == codebook@[row_of(indices@[i]) * dim + e]);
                }
            }
        }
        at += 1;
    }
    values
}

} // verus!
