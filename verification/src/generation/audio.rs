//! Audio chunks: which codes are decoded for them, and which samples are new.

use vstd::prelude::*;

use crate::codec::dims::SAMPLES_PER_FRAME;
use crate::error::{self, Error};
use crate::generation::options::SAMPLE_RATE;
use crate::generation::rollout::GeneratedCodesChunk;
use crate::lists::copy_range;
use crate::text::{self, push_usize};

verus! {

/// A chunk of audio. The samples are given by the bits of their 32-bit numbers.
#[derive(Debug)]
pub struct GeneratedAudioChunk {
    pub samples: Vec<u32>,
    pub sample_rate: u32,
    pub frames: usize,
    pub total_frames: usize,
    pub ended_by_eos: bool,
}

/// The codes that are decoded for a chunk: the chunk itself and the frames in front of it
/// that the decoder needs to get into its swing.
#[derive(Clone, Copy, PartialEq, Eq, Structural, Debug)]
pub struct AudioWindow {
    /// The first code that is decoded.
    pub decode_start: usize,
    /// The end of the codes that are decoded.
    pub decode_end: usize,
    /// The frames in front of the chunk.
    pub context_frames: usize,
    /// The samples of those frames, which are not new.
    pub context_samples: usize,
}

/// The lesser of two numbers.
pub open spec fn lesser(a: int, b: int) -> int {
    if a <= b {
        a
    } else {
        b
    }
}

/// The window of a chunk of `frames` frames that ends at frame `total_frames`.
pub open spec fn window_of(
    frames: int,
    total_frames: int,
    code_groups: int,
    left_context: int,
) -> AudioWindow {
    let start_frame = total_frames - frames;
    let context = lesser(left_context, start_frame);
    AudioWindow {
        decode_start: ((start_frame - context) * code_groups) as usize,
        decode_end: (total_frames * code_groups) as usize,
        context_frames: context as usize,
        context_samples: (context * SAMPLES_PER_FRAME) as usize,
    }
}

/// The window of a chunk of `frames` frames that ends at frame `total_frames`.
pub fn audio_window(frames: usize, total_frames: usize, code_groups: usize, left_context: usize)
    -> (window: AudioWindow)
    requires
        frames <= total_frames,
        total_frames * code_groups <= usize::MAX,
        total_frames * SAMPLES_PER_FRAME <= usize::MAX,
    ensures
        window == window_of(
            frames as int,
            total_frames as int,
            code_groups as int,
            left_context as int,
        ),
        window.decode_start <= window.decode_end,
{
    let start_frame: usize = total_frames - frames;
    let context_frames: usize = if left_context <= start_frame {
        left_context
    } else {
        start_frame
    };
    let decode_start_frame: usize = start_frame - context_frames;
    proof {
        assert(0 <= decode_start_frame * code_groups <= total_frames * code_groups)
            by (nonlinear_arith)
            requires
                0 <= decode_start_frame <= total_frames,
                0 <= code_groups,
        ;
    }
    AudioWindow {
        decode_start: decode_start_frame * code_groups,
        decode_end: total_frames * code_groups,
        context_frames,
        context_samples: context_frames * SAMPLES_PER_FRAME,
    }
}

/// The samples of a chunk: what was decoded for its window, without the samples of the
/// frames in front of it.
pub open spec fn new_samples(decoded: Seq<u32>, window: AudioWindow) -> Seq<u32> {
    decoded.subrange(
        lesser(window.context_samples as int, decoded.len() as int),
        decoded.len() as int,
    )
}

/// The chunk of audio for a chunk of codes, from what was decoded for its window.
pub fn audio_chunk(codes: &GeneratedCodesChunk, window: &AudioWindow, decoded: &[u32]) -> (chunk:
    GeneratedAudioChunk)
    ensures
        chunk.samples@ == new_samples(decoded@, *window),
        chunk.sample_rate == SAMPLE_RATE,
        chunk.frames == codes.frames,
        chunk.total_frames == codes.total_frames,
        chunk.ended_by_eos == codes.ended_by_eos,
{
    let start: usize = if window.context_samples <= decoded.len() {
        window.context_samples
    } else {
        decoded.len()
    };
    let samples: Vec<u32> = copy_range(decoded, start, decoded.len());
    GeneratedAudioChunk {
        samples,
        sample_rate: SAMPLE_RATE,
        frames: codes.frames,
        total_frames: codes.total_frames,
        ended_by_eos: codes.ended_by_eos,
    }
}

/// Where the decoder gives 1920 samples for every frame of a window, a chunk of audio has
/// exactly the samples of its own frames.
pub proof fn chunk_has_its_own_samples(
    decoded: Seq<u32>,
    frames: int,
    total_frames: int,
    code_groups: int,
    left_context: int,
)
    requires
        0 <= frames <= total_frames,
        0 <= left_context,
        0 < code_groups,
        total_frames * code_groups <= usize::MAX,
        total_frames * SAMPLES_PER_FRAME <= usize::MAX,
        ({
            let window = window_of(frames, total_frames, code_groups, left_context);
            decoded.len() == (window.context_frames + frames) * SAMPLES_PER_FRAME
        }),
    ensures
        ({
            let window = window_of(frames, total_frames, code_groups, left_context);
            &&& new_samples(decoded, window).len() == frames * SAMPLES_PER_FRAME
            &&& window.decode_end - window.decode_start == (window.context_frames + frames)
                * code_groups
        }),
{
    let start_frame = total_frames - frames;
    let context = lesser(left_context, start_frame);
    assert(0 <= (start_frame - context) * code_groups <= total_frames * code_groups)
        by (nonlinear_arith)
        requires
            0 <= start_frame - context <= total_frames,
            0 < code_groups,
    ;
    assert(total_frames * code_groups - (start_frame - context) * code_groups == (context + frames)
        * code_groups) by (nonlinear_arith)
        requires
            start_frame == total_frames - frames,
    ;
}

/// The text for codes that are no whole number of frames.
pub open spec fn divisible_text(len: nat, groups: nat) -> Seq<char> {
    "code length "@ + text::decimal(len) + " is not divisible by "@ + text::decimal(groups)
}

/// The number of frames that a list of codes has.
pub fn frames_of_codes(codes: &[i32], code_groups: usize) -> (frames: Result<usize, Error>)
    requires
        code_groups > 0,
    ensures
        match frames {
            Ok(n) => n * code_groups == codes@.len(),
            Err(e) => codes@.len() % (code_groups as nat) != 0 && error::is_invalid(
                e,
                divisible_text(codes@.len(), code_groups as nat),
            ),
        },
{
    if codes.len() % code_groups != 0 {
        let mut text = "code length ".to_owned();
        push_usize(&mut text, codes.len());
        text.append(" is not divisible by ");
        push_usize(&mut text, code_groups);
        return Err(Error::InvalidInput(text));
    }
    proof {
        vstd::arithmetic::div_mod::lemma_fundamental_div_mod(
            codes@.len() as int,
            code_groups as int,
        );
        assert(code_groups * (codes@.len() as int / code_groups as int) == (codes@.len() as int
            / code_groups as int) * code_groups) by (nonlinear_arith);
    }
    Ok(codes.len() / code_groups)
}

/// The text embedding that goes into the step behind frame `frame`: a row of the trailing
/// text while there is one, then the padding.
pub open spec fn trailing_row(trailing: Seq<u32>, pad: Seq<u32>, hidden: int, frame: int) -> Seq<
    u32,
> {
    if (frame + 1) * hidden <= trailing.len() {
        trailing.subrange(frame * hidden, (frame + 1) * hidden)
    } else {
        pad
    }
}

fn row(trailing: &[u32], from: usize, len: usize) -> (part: Vec<u32>)
    requires
        from + len <= trailing@.len(),
    ensures
        part@ == trailing@.subrange(from as int, from + len),
{
    let size: usize = trailing.len();
    let mut part: Vec<u32> = Vec::new();
    let mut index: usize = 0;
    while index < len
        invariant
            index <= len,
            from + len <= trailing@.len(),
            trailing@.len() == size,
            part@ == trailing@.subrange(from as int, from + index),
        decreases len - index,
    {
        part.push(trailing[from + index]);
        index += 1;
        proof {
            assert(part@ =~= trailing@.subrange(from as int, from + index));
        }
    }
    part
}

/// The text embeddings of the first `frames` steps.
pub fn trailing_rows(trailing: &[u32], pad: &[u32], frames: usize, hidden: usize) -> (rows: Vec<
    Vec<u32>,
>)
    requires
        frames * hidden <= usize::MAX,
    ensures
        rows@.len() == frames,
        forall|k: int|
            0 <= k < frames ==> (#[trigger] rows@[k])@ == trailing_row(
                trailing@,
                pad@,
                hidden as int,
                k,
            ),
{
    let size: usize = trailing.len();
    let mut rows: Vec<Vec<u32>> = Vec::new();
    let mut frame: usize = 0;
    while frame < frames
        invariant
            frame <= frames,
            frames * hidden <= usize::MAX,
            size == trailing@.len(),
            rows@.len() == frame,
            forall|k: int|
                0 <= k < frame ==> (#[trigger] rows@[k])@ == trailing_row(
                    trailing@,
                    pad@,
                    hidden as int,
                    k,
                ),
        decreases frames - frame,
    {
        proof {
            assert(frame * hidden + hidden == (frame + 1) * hidden) by (nonlinear_arith);
            assert((frame + 1) * hidden <= frames * hidden) by (nonlinear_arith)
                requires
                    frame + 1 <= frames,
                    0 <= hidden,
            ;
            assert(0 <= frame * hidden) by (nonlinear_arith);
        }
        let offset: usize = frame * hidden;
        if offset + hidden <= size {
            rows.push(row(trailing, offset, hidden));
        } else {
            let padding: Vec<u32> = row(pad, 0, pad.len());
            proof {
                assert(pad@.subrange(0, pad@.len() as int) =~= pad@);
            }
            rows.push(padding);
        }
        frame += 1;
    }
    rows
}

/// `current` doubled as often as it takes to hold `required`, and no more often.
pub open spec fn doubled(current: int, required: int) -> int
    decreases
            (if current >= required {
                0
            } else {
                required - current
            }),
{
    if current >= required || current <= 0 {
        current
    } else {
        doubled(2 * current, required)
    }
}

/// A grown cache holds what is asked of it, and never shrinks.
pub proof fn doubled_is_enough(current: int, required: int)
    requires
        current > 0,
    ensures
        doubled(current, required) >= required,
        doubled(current, required) >= current,
        current < required ==> doubled(current, required) < 2 * required,
    decreases
            (if current >= required {
                0
            } else {
                required - current
            }),
{
    if current < required {
        doubled_is_enough(2 * current, required);
    }
}

/// The capacity of a cache that must hold `required` steps: it is kept where it is enough,
/// and otherwise grows geometrically. `None` where a machine word cannot count that far.
pub fn grown_capacity(current: usize, required: usize) -> (grown: Option<usize>)
    requires
        current > 0,
    ensures
        match grown {
            Some(n) => n == doubled(current as int, required as int),
            None => doubled(current as int, required as int) > usize::MAX,
        },
{
    let mut capacity: usize = current;
    while capacity < required
        invariant
            capacity > 0,
            doubled(capacity as int, required as int) == doubled(current as int, required as int),
        decreases
                (if capacity >= required {
                    0
                } else {
                    required - capacity
                }),
    {
        if capacity > usize::MAX / 2 {
            proof {
                doubled_is_enough(2 * capacity as int, required as int);
            }
            return None;
        }
        capacity = 2 * capacity;
    }
    Some(capacity)
}

} // verus!
