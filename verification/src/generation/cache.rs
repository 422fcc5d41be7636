//! Moving the attention history into a grown cache.

use vstd::prelude::*;

verus! {

/// A run of elements that is copied from an old cache into a new one.
#[derive(Clone, Copy, PartialEq, Eq, Structural, Debug)]
pub struct CacheCopy {
    pub source: usize,
    pub destination: usize,
    pub len: usize,
}

/// Where entry `d` of step `s` of head `h` lies in a cache of `capacity` steps.
pub open spec fn place(h: int, s: int, d: int, capacity: int, head_dim: int) -> int {
    (h * capacity + s) * head_dim + d
}

/// The copy of the first `steps` steps of head `h`.
pub open spec fn copy_of(h: int, steps: int, from: int, to: int, head_dim: int) -> CacheCopy {
    CacheCopy {
        source: place(h, 0, 0, from, head_dim) as usize,
        destination: place(h, 0, 0, to, head_dim) as usize,
        len: (steps * head_dim) as usize,
    }
}

proof fn lemma_run(h: int, heads: int, steps: int, capacity: int, head_dim: int)
    requires
        0 <= h < heads,
        0 <= steps <= capacity,
        0 <= head_dim,
    ensures
        0 <= place(h, 0, 0, capacity, head_dim),
        0 <= steps * head_dim,
        place(h, 0, 0, capacity, head_dim) + steps * head_dim <= heads * capacity * head_dim,
        0 <= h * capacity <= heads * capacity,
{
    assert(0 <= h * capacity && h * capacity + capacity <= heads * capacity) by (nonlinear_arith)
        requires
            0 <= h,
            h + 1 <= heads,
            0 <= capacity,
    ;
    let base = h * capacity;
    let end = heads * capacity;
    assert(0 <= base * head_dim) by (nonlinear_arith)
        requires
            0 <= base,
            0 <= head_dim,
    ;
    assert(0 <= steps * head_dim) by (nonlinear_arith)
        requires
            0 <= steps,
            0 <= head_dim,
    ;
    assert(base * head_dim + steps * head_dim <= end * head_dim) by (nonlinear_arith)
        requires
            base + steps <= end,
            0 <= head_dim,
    ;
}

/// The copies that move the first `steps` steps of every head from a cache of `from` steps
/// into one of `to` steps, head by head.
pub fn grow_cache(heads: usize, head_dim: usize, steps: usize, from: usize, to: usize) -> (copies:
    Vec<CacheCopy>)
    requires
        steps <= from <= to,
        heads * to <= usize::MAX,
        heads * to * head_dim <= usize::MAX,
    ensures
        copies@.len() == heads,
        forall|h: int|
            0 <= h < heads ==> #[trigger] copies@[h] == copy_of(
                h,
                steps as int,
                from as int,
                to as int,
                head_dim as int,
            ),
{
    let mut copies: Vec<CacheCopy> = Vec::new();
    let mut h: usize = 0;
    while h < heads
        invariant
            h <= heads,
            steps <= from <= to,
            heads * to <= usize::MAX,
            heads * to * head_dim <= usize::MAX,
            copies@.len() == h,
            forall|g: int|
                0 <= g < h ==> #[trigger] copies@[g] == copy_of(
                    g,
                    steps as int,
                    from as int,
                    to as int,
                    head_dim as int,
                ),
        decreases heads - h,
    {
        proof {
            let dim = head_dim as int;
            lemma_run(h as int, heads as int, steps as int, to as int, dim);
            lemma_run(h as int, heads as int, steps as int, from as int, dim);
            assert(h * from <= h * to) by (nonlinear_arith)
                requires
                    from <= to,
                    0 <= h,
            ;
            let a = h * from;
            let b = h * to;
            assert(a * dim <= b * dim) by (nonlinear_arith)
                requires
                    a <= b,
                    0 <= dim,
            ;
        }
        copies.push(
            CacheCopy {
                source: (h * from) * head_dim,
                destination: (h * to) * head_dim,
                len: steps * head_dim,
            },
        );
        h += 1;
    }
    copies
}

/// A grown cache keeps the full attention history: every entry of the first `steps` steps
/// is copied to its place in the new cache, and no copy of another head touches it.
pub proof fn history_is_kept(
    heads: int,
    head_dim: int,
    steps: int,
    from: int,
    to: int,
    h: int,
    s: int,
    d: int,
)
    requires
        0 <= h < heads,
        0 <= s < steps <= from <= to,
        0 <= d < head_dim,
        heads * to * head_dim <= usize::MAX,
    ensures
        ({
            let copy = copy_of(h, steps, from, to, head_dim);
            let at = s * head_dim + d;
            &&& 0 <= at < copy.len
            &&& copy.source + at == place(h, s, d, from, head_dim)
            &&& copy.destination + at == place(h, s, d, to, head_dim)
            &&& copy.source + copy.len <= heads * from * head_dim
            &&& copy.destination + copy.len <= heads * to * head_dim
        }),
        forall|g: int|
            0 <= g < heads && g != h ==> {
                let other = #[trigger] copy_of(g, steps, from, to, head_dim);
                let p = place(h, s, d, to, head_dim);
                p < other.destination || other.destination + other.len <= p
            },
{
    lemma_run(h, heads, steps, to, head_dim);
    lemma_run(h, heads, steps, from, head_dim);
    let a = h * from;
    let b = h * to;
    assert(a <= b) by (nonlinear_arith)
        requires
            a == h * from,
            b == h * to,
            from <= to,
            0 <= h,
    ;
    assert(a * head_dim <= b * head_dim) by (nonlinear_arith)
        requires
            a <= b,
            0 <= head_dim,
    ;
    assert(0 <= s * head_dim + d < steps * head_dim) by (nonlinear_arith)
        requires
            0 <= s,
            s + 1 <= steps,
            0 <= d < head_dim,
    ;
    assert((a + s) * head_dim == a * head_dim + s * head_dim) by (nonlinear_arith);
    assert((b + s) * head_dim == b * head_dim + s * head_dim) by (nonlinear_arith);
    assert forall|g: int| 0 <= g < heads && g != h implies {
        let other = #[trigger] copy_of(g, steps, from, to, head_dim);
        let p = place(h, s, d, to, head_dim);
        p < other.destination || other.destination + other.len <= p
    } by {
        lemma_run(g, heads, steps, to, head_dim);
        let c = g * to;
        if g < h {
            assert(c + to <= b) by (nonlinear_arith)
                requires
                    c == g * to,
                    b == h * to,
                    g + 1 <= h,
                    0 <= to,
            ;
            assert(c * head_dim + steps * head_dim <= b * head_dim) by (nonlinear_arith)
                requires
                    c + steps <= b,
                    0 <= head_dim,
            ;
        } else {
            assert(b + to <= c) by (nonlinear_arith)
                requires
                    c == g * to,
                    b == h * to,
                    h + 1 <= g,
                    0 <= to,
            ;
            assert(b * head_dim + steps * head_dim <= c * head_dim) by (nonlinear_arith)
                requires
                    b + steps <= c,
                    0 <= head_dim,
            ;
        }
    }
}

} // verus!
