//! What rollouts and streams on incoming text are for.

use vstd::prelude::*;

use crate::error::Error;
use crate::generation::engine::{self, HipTtsEngine, ModelFacts};
use crate::generation::options::{self, EngineOptions, GenerateOptions};
use crate::generation::rollout::{
    self, ChunkRun, FrameOutcome, GeneratedCodesChunk, RolloutModel, Script,
};
use crate::generation::text_stream::{self, TextModel, TextStreamConfig, Trailing};
use crate::generation::words;

verus! {

/// The semantic token of frame `k`: the prefill gives the first one, and the step behind a
/// frame the one of the next.
pub open spec fn told(first: i32, script: Script, k: int) -> i32 {
    if k <= 0 {
        first
    } else {
        script(k - 1).1
    }
}

/// The frames so far are those that the models gave, each with its semantic token in front
/// of its acoustic codes.
pub open spec fn so_far(m: RolloutModel, first: i32, script: Script) -> bool {
    let groups = m.config.code_groups as int;
    &&& 0 <= m.frame <= m.config.max_frames
    &&& m.codes.len() == m.frame * groups
    &&& m.history.len() == m.frame
    &&& m.frame < m.config.max_frames ==> m.semantic == told(first, script, m.frame)
    &&& forall|k: int|
        0 <= k < m.frame ==> {
            &&& #[trigger] m.history[k] == told(first, script, k)
            &&& m.history[k] != m.config.eos
            &&& m.codes.subrange(k * groups, k * groups + groups) == seq![told(first, script, k)]
                + script(k).0
        }
}

proof fn lemma_so_far(m: RolloutModel, first: i32, script: Script, left: nat)
    requires
        so_far(m, first, script),
        m.config.code_groups > 0,
        forall|k: int|
            0 <= k < m.config.max_frames ==> (#[trigger] script(k)).0.len()
                == m.config.code_groups - 1,
    ensures
        so_far(rollout::played(m, script, left), first, script),
        rollout::played(m, script, left).config == m.config,
        rollout::played(m, script, left).ended == m.ended,
    decreases left,
{
    let groups = m.config.code_groups as int;
    if left == 0 || m.frame >= m.config.max_frames || m.semantic == m.config.eos {
    } else {
        let (acoustic, semantic) = script(m.frame);
        let next = rollout::framed(m, acoustic, semantic);
        assert((m.frame + 1) * groups == m.frame * groups + groups) by (nonlinear_arith);
        assert(script(m.frame).0.len() == groups - 1);
        assert forall|k: int| 0 <= k < next.frame implies {
            &&& #[trigger] next.history[k] == told(first, script, k)
            &&& next.history[k] != m.config.eos
            &&& next.codes.subrange(k * groups, k * groups + groups) == seq![told(first, script, k)]
                + script(k).0
        } by {
            if k < m.frame {
                assert(next.history[k] == m.history[k]);
                assert(0 <= k * groups && k * groups + groups <= m.frame * groups)
                    by (nonlinear_arith)
                    requires
                        0 <= k,
                        k + 1 <= m.frame,
                        groups > 0,
                ;
                assert(next.codes.subrange(k * groups, k * groups + groups) =~= m.codes.subrange(
                    k * groups,
                    k * groups + groups,
                ));
            } else {
                assert(k == m.frame);
                assert(next.codes.subrange(k * groups, k * groups + groups) =~= seq![m.semantic]
                    + acoustic);
            }
        }
        lemma_so_far(next, first, script, (left - 1) as nat);
    }
}

proof fn lemma_goes_on(m: RolloutModel, script: Script, left: nat)
    requires
        left >= m.config.max_frames - m.frame,
    ensures
        ({
            let end = rollout::played(m, script, left);
            end.frame >= end.config.max_frames || end.semantic == end.config.eos
        }),
    decreases left,
{
    if left == 0 || m.frame >= m.config.max_frames || m.semantic == m.config.eos {
    } else {
        let (acoustic, semantic) = script(m.frame);
        lemma_goes_on(rollout::framed(m, acoustic, semantic), script, (left - 1) as nat);
    }
}

/// The codes of a request, frame by frame: frame `k` is the semantic token that the step
/// before it gave, or the prefill, and behind it the acoustic codes for it. The request
/// stops in front of the first token that ends the speech, which is then noted, or else
/// with its last frame.
pub proof fn requests_have_every_frame_up_to_their_end(
    m: RolloutModel,
    script: Script,
)
    requires
        m.frame == 0,
        m.codes.len() == 0,
        m.history.len() == 0,
        !m.ended,
        m.config.code_groups > 0,
        forall|k: int|
            0 <= k < m.config.max_frames ==> (#[trigger] script(k)).0.len()
                == m.config.code_groups - 1,
    ensures
        ({
            let end = rollout::completed(m, script);
            let groups = m.config.code_groups as int;
            let eos = m.config.eos;
            &&& 0 <= end.frame <= m.config.max_frames
            &&& end.codes.len() == end.frame * groups
            &&& forall|k: int|
                0 <= k < end.frame ==> {
                    &&& #[trigger] told(m.semantic, script, k) != eos
                    &&& end.codes.subrange(k * groups, k * groups + groups) == seq![
                        told(m.semantic, script, k),
                    ] + script(k).0
                }
            &&& end.history == Seq::new(end.frame as nat, |k: int| told(m.semantic, script, k))
            &&& end.frame < m.config.max_frames ==> told(m.semantic, script, end.frame) == eos
            &&& end.ended == (end.frame < m.config.max_frames)
        }),
{
    let left = m.config.max_frames as nat;
    let groups = m.config.code_groups as int;
    assert(0 * groups == 0);
    lemma_so_far(m, m.semantic, script, left);
    lemma_goes_on(m, script, left);
    let end = rollout::completed(m, script);
    assert(end.history =~= Seq::new(end.frame as nat, |k: int| told(m.semantic, script, k)));
    assert forall|k: int| 0 <= k < end.frame implies {
        &&& #[trigger] told(m.semantic, script, k) != m.config.eos
        &&& end.codes.subrange(k * groups, k * groups + groups) == seq![
            told(m.semantic, script, k),
        ] + script(k).0
    } by {
        assert(end.history[k] == told(m.semantic, script, k));
    }
}

/// A chunk has all codes behind those that were there before it, and says how many frames
/// there are by now.
pub proof fn chunks_follow_on(s: RolloutModel, start: int, c: GeneratedCodesChunk)
    requires
        text_stream::chunk_of(s, start, c),
        0 <= start <= s.codes.len(),
        s.config.code_groups > 0,
    ensures
        s.codes.take(start) + c.codes@ == s.codes,
        c.codes@.len() > 0,
        c.total_frames == s.frame,
        c.codes@.len() % (s.config.code_groups as nat) == 0 ==> c.frames * s.config.code_groups
            == c.codes@.len(),
        c.ended_by_eos == (s.ended || (s.frame < s.config.max_frames && s.semantic
            == s.config.eos)),
{
    assert(s.codes.take(start) + c.codes@ =~= s.codes);
    let n = c.codes@.len() as int;
    let groups = s.config.code_groups as int;
    vstd::arithmetic::div_mod::lemma_fundamental_div_mod(n, groups);
    assert(groups * (n / groups) == (n / groups) * groups) by (nonlinear_arith);
}

/// A stream that ends hands out all codes that it has; one that never started has none,
/// and was not ended by a token.
pub proof fn streams_end_with_all_their_codes(m: TextModel)
    ensures
        m.state is None ==> text_stream::finished(m).codes.len() == 0 && text_stream::finished(
            m,
        ).frames == 0 && !text_stream::finished(m).ended,
        m.state matches Some(s) ==> text_stream::finished(m).codes == s.codes
            && text_stream::finished(m).ended == s.ended && (s.config.code_groups > 0
            && s.codes.len() as int % s.config.code_groups as int == 0 ==> text_stream::finished(
            m,
        ).frames * s.config.code_groups == s.codes.len()),
        text_stream::no_codes().codes.len() == 0,
        text_stream::no_codes().frames == 0,
        !text_stream::no_codes().ended,
{
    if let Some(s) = m.state {
        let n = s.codes.len() as int;
        let groups = s.config.code_groups as int;
        if groups > 0 {
            vstd::arithmetic::div_mod::lemma_fundamental_div_mod(n, groups);
            assert(groups * (n / groups) == (n / groups) * groups) by (nonlinear_arith);
        }
    }
}

/// The prefill takes as many tokens as it may: as many as the lookahead says, or all that
/// are queued where there are fewer, and one at least. What it takes and what stays queued
/// is what was queued.
pub proof fn prefills_take_as_many_tokens_as_they_may(m: TextModel)
    requires
        m.queued.len() > 0,
    ensures
        ({
            let taken = m.queued.take(text_stream::prefill_len(m));
            let left = m.queued.skip(text_stream::prefill_len(m));
            let lookahead = m.config.text_lookahead_tokens;
            &&& taken + left == m.queued
            &&& taken.len() >= 1
            &&& lookahead > 0 ==> taken.len() <= lookahead
            &&& lookahead > 0 && left.len() > 0 ==> taken.len() == lookahead
            &&& lookahead == 0 ==> taken.len() == 1
        }),
{
    assert(m.queued.take(text_stream::prefill_len(m)) + m.queued.skip(text_stream::prefill_len(m))
        =~= m.queued);
}

/// Generation starts as soon as it may and not before: with text that is still coming in,
/// once as many tokens are queued as the option says and one at least; with finished text,
/// once there is any token.
pub proof fn streams_start_as_soon_as_they_may(m: TextModel)
    ensures
        !m.text_finished ==> (text_stream::can_start(m) <==> m.queued.len() >= 1
            && m.queued.len() >= m.config.options.min_start_tokens),
        m.text_finished ==> (text_stream::can_start(m) <==> m.queued.len() >= 1),
        text_stream::is_silent(m) ==> m.text_finished && m.queued.len() == 0,
        m.text_finished && m.queued.len() == 0 && m.eos_pending ==> text_stream::is_silent(m),
{
}

/// A step waits for text only while more text can come and fewer tokens are queued than the
/// option says, or none.
pub proof fn steps_wait_only_for_text_that_may_come(m: TextModel)
    requires
        text_stream::in_order(m),
    ensures
        text_stream::trailing_of(m) is None <==> !m.text_finished && (m.queued.len() == 0
            || m.queued.len() < m.config.options.min_resume_tokens),
{
}

/// The steps take the queued tokens one by one, in their order and each once; the step
/// behind the last token of a finished text takes the token that ends the text, once, and
/// all further steps take padding. A step that takes a token takes nothing else.
pub proof fn steps_take_tokens_in_order(m: TextModel, script: Script, left: nat)
    requires
        m.state is Some,
    ensures
        ({
            let given = text_stream::fed(m, script, left);
            let end = text_stream::text_played(m, script, left);
            let n = m.queued.len() as int;
            let ends = if m.eos_pending {
                1int
            } else {
                0int
            };
            &&& forall|i: int|
                0 <= i < given.len() && i < n ==> #[trigger] given[i] == Trailing::Token(
                    m.queued[i],
                )
            &&& given.len() > n && m.eos_pending ==> given[n] == Trailing::Eos
            &&& forall|i: int|
                n + ends <= i < given.len() ==> #[trigger] given[i] == Trailing::Pad
            &&& end.queued == m.queued.skip(
                if given.len() <= n {
                    given.len() as int
                } else {
                    n
                },
            )
            &&& end.text_finished == m.text_finished
            &&& end.pending == m.pending
        }),
    decreases left,
{
    text_stream::text_is_fed_in_order(m, script, left);
    let given = text_stream::fed(m, script, left);
    let n = m.queued.len() as int;
    if given.len() > n {
        assert(given[n] == text_stream::due(m, n));
    }
    lemma_text_stays(m, script, left);
}

proof fn lemma_text_stays(m: TextModel, script: Script, left: nat)
    ensures
        text_stream::text_played(m, script, left).text_finished == m.text_finished,
        text_stream::text_played(m, script, left).pending == m.pending,
    decreases left,
{
    let s = text_stream::state_of(m);
    if left == 0 || s.frame >= m.config.max_frames || rollout::sees_eos(s)
        || text_stream::text_taken(m) is None {
    } else {
        let (acoustic, semantic) = script(s.frame);
        let next = text_stream::with_state(
            text_stream::text_taken(m)->0,
            rollout::framed(s, acoustic, semantic),
        );
        lemma_text_stays(next, script, (left - 1) as nat);
    }
}

/// Text is cut behind white space, and behind punctuation only where the option says so.
/// What is handed out and what stays is the whole text, what stays holds no place to cut
/// at, and what is handed out ends with one.
pub proof fn text_is_cut_behind_words(
    m: TextModel,
    text: Seq<char>,
    stable: Seq<char>,
    rest: Seq<char>,
)
    requires
        text_stream::cut(m, text, stable, rest),
    ensures
        stable + rest == m.pending + text,
        forall|i: int|
            0 <= i < rest.len() ==> {
                &&& !words::is_space(#[trigger] rest[i])
                &&& m.config.options.flush_on_punctuation ==> !"\n!,.:;?"@.contains(rest[i])
            },
        stable.len() > 0 ==> words::is_space(stable.last()) || (
        m.config.options.flush_on_punctuation && "\n!,.:;?"@.contains(stable.last())),
{
    let whole = m.pending + text;
    let flush = m.config.options.flush_on_punctuation;
    assert forall|i: int| 0 <= i < rest.len() implies {
        &&& !words::is_space(#[trigger] rest[i])
        &&& flush ==> !"\n!,.:;?"@.contains(rest[i])
    } by {
        assert(whole[stable.len() + i] == rest[i]);
        assert(!words::cuts(whole[stable.len() + i], flush));
        clauses_end_with_punctuation(rest[i]);
    }
    if stable.len() > 0 {
        assert(whole[stable.len() - 1] == stable.last());
        clauses_end_with_punctuation(stable.last());
    }
}

/// A clause may end behind a full stop, a comma, a colon, a semicolon, an exclamation mark,
/// a question mark or a new line, and behind nothing else.
pub proof fn clauses_end_with_punctuation(c: char)
    ensures
        words::ends_clause(c) <==> "\n!,.:;?"@.contains(c),
{
    reveal_strlit("\n!,.:;?");
    let all = "\n!,.:;?"@;
    assert(all[0] == '\n' && all[1] == '!' && all[2] == ',' && all[3] == '.' && all[4] == ':'
        && all[5] == ';' && all[6] == '?');
}

/// Blanks, tabs and line ends are white space; letters, digits, punctuation and all other
/// characters of ASCII are not.
pub proof fn blanks_are_white_space(c: char)
    requires
        (c as u32) < 0x80,
    ensures
        words::is_space(c) <==> " \t\n\r"@.contains(c) || c as u32 == 0xb || c as u32 == 0xc,
{
    reveal_strlit(" \t\n\r");
    let all = " \t\n\r"@;
    assert(all[0] == ' ' && all[1] == '\t' && all[2] == '\n' && all[3] == '\r');
}

/// The step behind frame `k` runs at the position `k` steps behind the prefill, and with the
/// text of frame `k`: the first one follows on the prefill, and every further one on the one
/// before it.
pub proof fn steps_follow_on_the_prefill(m: RolloutModel, acoustic: Seq<i32>, semantic: i32)
    requires
        0 <= m.frame,
        m.frame + 1 < m.config.max_frames,
        m.config.prefill_steps + m.config.max_frames <= usize::MAX,
    ensures
        rollout::request_of(m).position == m.config.prefill_steps + m.frame,
        rollout::request_of(m).frame == m.frame,
        rollout::request_of(m).uses_history == m.config.uses_history,
        rollout::request_of(rollout::framed(m, acoustic, semantic)).position
            == rollout::request_of(m).position + 1,
        rollout::request_of(rollout::framed(m, acoustic, semantic)).frame == rollout::request_of(
            m,
        ).frame + 1,
        rollout::needs_decode(m),
{
}

/// A request asks for a step behind every frame but the last one that it may have, and stops
/// in front of the token that ends the speech wherever it may have another frame.
pub proof fn requests_stop_where_they_must(m: RolloutModel)
    ensures
        rollout::needs_decode(m) <==> m.frame + 1 < m.config.max_frames,
        rollout::sees_eos(m) <==> m.frame < m.config.max_frames && m.semantic == m.config.eos,
        rollout::at_end(m) <==> m.ended || m.frame >= m.config.max_frames,
        rollout::closed(m).ended <==> m.ended || rollout::sees_eos(m),
        rollout::closed(m).codes == m.codes,
        rollout::closed(m).frame == m.frame,
{
}

/// The semantic tokens are drawn as the options of the talker say, the acoustic ones as those
/// of the other model say; seeds lead to different random states; and the tokens before a
/// token matter unless the best one is taken and repeats are not penalised.
pub proof fn tokens_are_drawn_as_told(o: GenerateOptions, a: u64, b: u64)
    ensures
        options::talker_of(o).do_sample == o.do_sample,
        options::talker_of(o).top_k == o.top_k,
        options::talker_of(o).top_p == o.top_p,
        options::talker_of(o).temperature == o.temperature,
        options::subtalker_of(o).do_sample == o.subtalker_dosample,
        options::subtalker_of(o).top_k == o.subtalker_top_k,
        options::subtalker_of(o).top_p == o.subtalker_top_p,
        options::subtalker_of(o).temperature == o.subtalker_temperature,
        options::state_of(0) == 0x9e37_79b9_7f4a_7c15,
        options::state_of(a) ^ options::state_of(b) == a ^ b,
        a != b ==> options::state_of(a) != options::state_of(b),
        options::minds_history(o) <==> !(o.repetition_penalty == 0x3f80_0000 && !o.do_sample),
{
    assert(0u64 ^ 0x9e37_79b9_7f4a_7c15u64 == 0x9e37_79b9_7f4a_7c15u64) by (bit_vector);
    assert((a ^ 0x9e37_79b9_7f4a_7c15u64) ^ (b ^ 0x9e37_79b9_7f4a_7c15u64) == a ^ b)
        by (bit_vector);
    assert(a != b ==> a ^ 0x9e37_79b9_7f4a_7c15u64 != b ^ 0x9e37_79b9_7f4a_7c15u64)
        by (bit_vector);
}

/// A request runs with the engine's own tokens and groups, as many frames as it asks for,
/// and behind the prefill that it had; it starts without codes at the first token.
pub proof fn engines_start_requests_as_asked(
    engine: HipTtsEngine,
    o: GenerateOptions,
    prefill_steps: usize,
    semantic: i32,
)
    ensures
        ({
            let m = engine::started(engine, o, prefill_steps, semantic);
            &&& m.config.eos == engine.codec_eos_token
            &&& m.config.code_groups == engine.code_groups
            &&& m.config.max_frames == o.max_frames
            &&& m.config.prefill_steps == prefill_steps
            &&& m.config.uses_history == (o.repetition_penalty != 0x3f80_0000 || o.do_sample)
            &&& m.semantic == semantic && m.frame == 0 && !m.ended
            &&& m.codes.len() == 0 && m.history.len() == 0
        }),
{
}

/// Beyond ASCII, the white space is that of Unicode: the next line, the no-break space, the
/// Ogham space, the spaces of typography, the two separators, the narrow no-break space, the
/// mathematical space and the ideographic space.
pub proof fn spaces_beyond_ascii(c: char)
    requires
        c as u32 >= 0x80,
    ensures
        words::is_space(c) <==> seq![
            0x85u32, 0xa0, 0x1680, 0x2000, 0x2001, 0x2002, 0x2003, 0x2004, 0x2005, 0x2006, 0x2007,
            0x2008, 0x2009, 0x200a, 0x2028, 0x2029, 0x202f, 0x205f, 0x3000,
        ].contains(c as u32),
{
    let all = seq![
        0x85u32, 0xa0, 0x1680, 0x2000, 0x2001, 0x2002, 0x2003, 0x2004, 0x2005, 0x2006, 0x2007,
        0x2008, 0x2009, 0x200a, 0x2028, 0x2029, 0x202f, 0x205f, 0x3000,
    ];
    let n = c as u32;
    if words::is_space(c) {
        let at = if n == 0x85 {
            0int
        } else if n == 0xa0 {
            1
        } else if n == 0x1680 {
            2
        } else if n <= 0x200a {
            n - 0x2000 + 3
        } else if n == 0x2028 {
            14
        } else if n == 0x2029 {
            15
        } else if n == 0x202f {
            16
        } else if n == 0x205f {
            17
        } else {
            18
        };
        assert(all[at] == n);
    } else if all.contains(n) {
        let at = choose|at: int| 0 <= at < all.len() && all[at] == n;
        assert(all[at] == n);
    }
}

/// A stream on incoming text runs its models with its own settings, behind the prefill that
/// it had, from the token that the prefill gave.
pub proof fn text_streams_start_as_asked(
    config: TextStreamConfig,
    prefill_steps: usize,
    semantic: i32,
)
    ensures
        ({
            let m = text_stream::first_state(config, prefill_steps, semantic);
            &&& m.config.eos == config.eos
            &&& m.config.code_groups == config.code_groups
            &&& m.config.max_frames == config.max_frames
            &&& m.config.uses_history == config.uses_history
            &&& m.config.prefill_steps == prefill_steps
            &&& m.semantic == semantic && m.frame == 0 && !m.ended
            &&& m.codes.len() == 0 && m.history.len() == 0
        }),
{
}

/// An engine is loaded where its cache has room and its two models are of the same width; it
/// keeps the device, the room, the groups, the token and the width that it was given.
pub proof fn engines_are_loaded_with_models_that_fit(
    got: Result<HipTtsEngine, Error>,
    o: EngineOptions,
    facts: ModelFacts,
)
    requires
        engine::loaded(got, o, facts),
    ensures
        got is Ok <==> o.max_cache_steps > 0 && facts.predictor_talker_hidden
            == facts.talker_hidden,
        got matches Ok(e) ==> e.device == o.device && e.cache_steps == o.max_cache_steps
            && e.code_groups == facts.code_groups && e.codec_eos_token == facts.codec_eos_token
            && e.hidden == facts.talker_hidden,
{
}

/// The answers of the models are those of the frames from the first one on, in their order.
pub proof fn answers_belong_to_their_frames(outcomes: Seq<FrameOutcome>, first: int, i: int)
    requires
        0 <= i < outcomes.len(),
    ensures
        rollout::script_of(outcomes, first)(first + i) == (
            outcomes[i].acoustic@,
            outcomes[i].semantic,
        ),
{
}

/// A chunk has room for another frame while it has fewer than it may have, and the request
/// too.
pub proof fn chunks_have_room_for_so_many_frames(m: TextModel, run: ChunkRun)
    requires
        m.state is Some,
    ensures
        text_stream::has_room(m, run) <==> run.produced < run.max_frames && (m.state matches Some(s)
            && s.frame < m.config.max_frames),
{
}

} // verus!
