//! Code generation frame by frame, as decisions around the work of the models.

use vstd::prelude::*;

use crate::error::{self, invalid, Error};
use crate::lists::{append_all, copy_range};

verus! {

/// What stays fixed while codes are generated.
#[derive(Clone, Copy, PartialEq, Eq, Structural, Debug)]
pub struct RolloutConfig {
    /// The semantic token that ends the speech.
    pub eos: i32,
    /// Codes per frame.
    pub code_groups: usize,
    pub max_frames: usize,
    /// The cache steps of the prefill.
    pub prefill_steps: usize,
    /// Whether a semantic token is drawn with regard to the tokens before it.
    pub uses_history: bool,
}

/// The codes generated so far, and the semantic token of the next frame.
#[derive(Debug)]
pub struct Rollout {
    pub config: RolloutConfig,
    pub semantic: i32,
    pub semantic_history: Vec<i32>,
    pub codes: Vec<i32>,
    pub frame: usize,
    pub ended_by_eos: bool,
}

/// A rollout as a model.
#[verifier::ext_equal]
pub struct RolloutModel {
    pub config: RolloutConfig,
    pub semantic: i32,
    pub history: Seq<i32>,
    pub codes: Seq<i32>,
    pub frame: int,
    pub ended: bool,
}

impl View for Rollout {
    type V = RolloutModel;

    open spec fn view(&self) -> RolloutModel {
        RolloutModel {
            config: self.config,
            semantic: self.semantic,
            history: self.semantic_history@,
            codes: self.codes@,
            frame: self.frame as int,
            ended: self.ended_by_eos,
        }
    }
}

/// All codes of a request.
#[derive(Debug)]
pub struct GeneratedCodes {
    pub codes: Vec<i32>,
    pub frames: usize,
    pub ended_by_eos: bool,
}

/// The codes that a chunk adds.
#[derive(Debug)]
pub struct GeneratedCodesChunk {
    pub codes: Vec<i32>,
    pub frames: usize,
    /// The frames of this chunk and all chunks before it.
    pub total_frames: usize,
    pub ended_by_eos: bool,
}

/// A chunk under way.
#[derive(Clone, Copy, PartialEq, Eq, Structural, Debug)]
pub struct ChunkRun {
    /// The frames that the chunk may have.
    pub max_frames: usize,
    /// The number of codes in front of the chunk.
    pub start: usize,
    /// The frames that the chunk has so far.
    pub produced: usize,
}

/// What is to be done next for a chunk.
#[derive(Clone, Copy, PartialEq, Eq, Structural, Debug)]
pub enum FrameAction {
    /// The chunk is complete.
    Close,
    /// The acoustic codes of the next frame are to be predicted.
    Predict,
}

/// The semantic token of the next frame is to be decoded.
#[derive(Clone, Copy, PartialEq, Eq, Structural, Debug)]
pub struct DecodeRequest {
    /// The cache position of the step.
    pub position: usize,
    /// The frame whose text embedding goes into the step.
    pub frame: usize,
    pub uses_history: bool,
}

/// No more frames can follow.
pub open spec fn at_end(m: RolloutModel) -> bool {
    m.ended || m.frame >= m.config.max_frames
}

/// The next frame would be the end of the speech.
pub open spec fn sees_eos(m: RolloutModel) -> bool {
    m.frame < m.config.max_frames && m.semantic == m.config.eos
}

/// The model with the end of the speech noted, where it is reached.
pub open spec fn closed(m: RolloutModel) -> RolloutModel {
    if sees_eos(m) {
        RolloutModel { ended: true, ..m }
    } else {
        m
    }
}

/// The model with the codes of one more frame, its semantic token first.
pub open spec fn emitted(m: RolloutModel, acoustic: Seq<i32>) -> RolloutModel {
    RolloutModel {
        codes: m.codes.push(m.semantic) + acoustic,
        history: m.history.push(m.semantic),
        ..m
    }
}

/// Another frame may follow the current one, so its semantic token is decoded.
pub open spec fn needs_decode(m: RolloutModel) -> bool {
    m.frame + 1 < m.config.max_frames
}

/// The step that decodes the semantic token behind the current frame.
pub open spec fn request_of(m: RolloutModel) -> DecodeRequest {
    DecodeRequest {
        position: (m.config.prefill_steps + m.frame) as usize,
        frame: m.frame as usize,
        uses_history: m.config.uses_history,
    }
}

/// `c` is the chunk of the codes from number `start` on.
pub open spec fn chunk_of(s: RolloutModel, start: int, c: GeneratedCodesChunk) -> bool {
    let added = s.codes.subrange(start, s.codes.len() as int);
    &&& added.len() > 0
    &&& c.codes@ == added
    &&& c.frames == added.len() / (s.config.code_groups as nat)
    &&& c.total_frames == s.frame
    &&& c.ended_by_eos == closed(s).ended
}

/// The model behind the current frame.
pub open spec fn advanced(m: RolloutModel, semantic: i32) -> RolloutModel {
    RolloutModel { semantic, frame: m.frame + 1, ..m }
}

/// One whole frame: its acoustic codes, and the semantic token of the next frame where
/// one may follow.
pub open spec fn framed(m: RolloutModel, acoustic: Seq<i32>, semantic: i32) -> RolloutModel {
    let m1 = emitted(m, acoustic);
    if needs_decode(m) {
        advanced(m1, semantic)
    } else {
        advanced(m1, m.semantic)
    }
}

impl Rollout {
    pub open spec fn wf(&self) -> bool {
        &&& self.config.code_groups > 0
        &&& self.config.prefill_steps + self.config.max_frames <= usize::MAX
        &&& self.frame <= self.config.max_frames
    }

    /// A rollout behind the prefill, which gave the first semantic token.
    pub fn new(config: RolloutConfig, semantic: i32) -> (rollout: Rollout)
        requires
            config.code_groups > 0,
            config.prefill_steps + config.max_frames <= usize::MAX,
        ensures
            rollout.wf(),
            rollout@ == (RolloutModel {
                config,
                semantic,
                history: Seq::empty(),
                codes: Seq::empty(),
                frame: 0,
                ended: false,
            }),
    {
        Rollout {
            config,
            semantic,
            semantic_history: Vec::new(),
            codes: Vec::new(),
            frame: 0,
            ended_by_eos: false,
        }
    }

    /// Opens a chunk of at most `max_chunk_frames` frames; `None` where no more frames can
    /// follow.
    pub fn begin_chunk(&self, max_chunk_frames: usize) -> (run: Result<Option<ChunkRun>, Error>)
        ensures
            match run {
                Err(e) => max_chunk_frames == 0 && error::is_invalid(
                    e,
                    "max_chunk_frames must be non-zero"@,
                ),
                Ok(None) => max_chunk_frames > 0 && at_end(self@),
                Ok(Some(r)) => {
                    &&& max_chunk_frames > 0
                    &&& !at_end(self@)
                    &&& r.max_frames == max_chunk_frames
                    &&& r.start == self@.codes.len()
                    &&& r.produced == 0
                },
            },
    {
        if max_chunk_frames == 0 {
            return Err(invalid("max_chunk_frames must be non-zero"));
        }
        if self.ended_by_eos || self.frame >= self.config.max_frames {
            return Ok(None);
        }
        Ok(Some(ChunkRun { max_frames: max_chunk_frames, start: self.codes.len(), produced: 0 }))
    }

    /// What is to be done next: a frame is predicted while the chunk and the request have
    /// room and the semantic token does not end the speech.
    pub fn next_action(&mut self, run: &ChunkRun) -> (action: FrameAction)
        requires
            old(self).wf(),
        ensures
            final(self).wf(),
            ({
                let room = run.produced < run.max_frames && old(self)@.frame < old(
                    self,
                )@.config.max_frames;
                if room && !sees_eos(old(self)@) {
                    action is Predict && final(self)@ == old(self)@
                } else if room {
                    action is Close && final(self)@ == closed(old(self)@)
                } else {
                    action is Close && final(self)@ == old(self)@
                }
            }),
    {
        if run.produced < run.max_frames && self.frame < self.config.max_frames {
            if self.semantic == self.config.eos {
                self.ended_by_eos = true;
                return FrameAction::Close;
            }
            return FrameAction::Predict;
        }
        FrameAction::Close
    }

    /// Takes the acoustic codes of the frame. Where another frame may follow, its semantic
    /// token is asked for; otherwise the frame is complete.
    pub fn accept_acoustic(&mut self, run: &mut ChunkRun, acoustic: &[i32]) -> (request: Option<
        DecodeRequest,
    >)
        requires
            old(self).wf(),
            old(run).produced < old(run).max_frames,
            old(self).frame < old(self).config.max_frames,
        ensures
            final(self).wf(),
            final(run).max_frames == old(run).max_frames,
            final(run).start == old(run).start,
            final(run).produced == old(run).produced + 1,
            if needs_decode(old(self)@) {
                &&& final(self)@ == emitted(old(self)@, acoustic@)
                &&& request == Some(request_of(old(self)@))
            } else {
                &&& final(self)@ == advanced(
                    emitted(old(self)@, acoustic@),
                    old(self)@.semantic,
                )
                &&& request is None
            },
    {
        self.codes.push(self.semantic);
        append_all(&mut self.codes, acoustic);
        self.semantic_history.push(self.semantic);
        run.produced = run.produced + 1;
        if self.frame + 1 < self.config.max_frames {
            Some(
                DecodeRequest {
                    position: self.config.prefill_steps + self.frame,
                    frame: self.frame,
                    uses_history: self.config.uses_history,
                },
            )
        } else {
            self.frame = self.frame + 1;
            None
        }
    }

    /// Takes the semantic token of the next frame, which completes the current one.
    pub fn accept_semantic(&mut self, semantic: i32)
        requires
            old(self).wf(),
            old(self).frame < old(self).config.max_frames,
        ensures
            final(self).wf(),
            final(self)@ == advanced(old(self)@, semantic),
    {
        self.semantic = semantic;
        self.frame = self.frame + 1;
    }

    /// Closes a chunk; `None` where it added no codes.
    pub fn close_chunk(&mut self, run: &ChunkRun) -> (chunk: Option<GeneratedCodesChunk>)
        requires
            old(self).wf(),
            run.start <= old(self)@.codes.len(),
        ensures
            final(self).wf(),
            final(self)@ == closed(old(self)@),
            match chunk {
                None => old(self)@.codes.len() == run.start,
                Some(c) => chunk_of(old(self)@, run.start as int, c),
            },
    {
        if self.frame < self.config.max_frames && self.semantic == self.config.eos {
            self.ended_by_eos = true;
        }
        if self.codes.len() == run.start {
            return None;
        }
        let codes: Vec<i32> = copy_range(&self.codes, run.start, self.codes.len());
        Some(
            GeneratedCodesChunk {
                frames: codes.len() / self.config.code_groups,
                codes,
                total_frames: self.frame,
                ended_by_eos: self.ended_by_eos,
            },
        )
    }

    /// All codes so far.
    pub fn all_codes(&self) -> (all: GeneratedCodes)
        requires
            self.wf(),
        ensures
            all.codes@ == self@.codes,
            all.frames == self@.codes.len() / (self@.config.code_groups as nat),
            all.ended_by_eos == self@.ended,
    {
        let codes: Vec<i32> = copy_range(&self.codes, 0, self.codes.len());
        proof {
            assert(self.codes@.subrange(0, self.codes@.len() as int) =~= self.codes@);
        }
        GeneratedCodes {
            frames: codes.len() / self.config.code_groups,
            codes,
            ended_by_eos: self.ended_by_eos,
        }
    }
}

/// A stream of codes and audio on a fixed text.
#[derive(Debug)]
pub struct HipTtsStream {
    pub text: String,
    pub rollout: Rollout,
}

impl HipTtsStream {
    /// The codes of the stream so far.
    pub fn finish_codes(self) -> (all: GeneratedCodes)
        requires
            self.rollout.wf(),
        ensures
            all.codes@ == self.rollout@.codes,
            all.frames == self.rollout@.codes.len() / (self.rollout@.config.code_groups as nat),
            all.ended_by_eos == self.rollout@.ended,
    {
        let codes: Vec<i32> = self.rollout.codes;
        GeneratedCodes {
            frames: codes.len() / self.rollout.config.code_groups,
            codes,
            ended_by_eos: self.rollout.ended_by_eos,
        }
    }

    /// The text of the stream.
    pub fn text(&self) -> (text: &str)
        ensures
            text@ == self.text@,
    {
        self.text.as_str()
    }
}

/// What the models answered for a frame: its acoustic codes, and the semantic token of
/// the frame behind it.
#[derive(Debug)]
pub struct FrameOutcome {
    pub acoustic: Vec<i32>,
    pub semantic: i32,
}

/// The answers of the models for the frames from number `first` on.
pub open spec fn script_of(outcomes: Seq<FrameOutcome>, first: int) -> Script {
    |k: int| (outcomes[k - first].acoustic@, outcomes[k - first].semantic)
}

impl HipTtsStream {
    /// The next chunk of at most `max_chunk_frames` frames, where the models answer as
    /// `outcomes` say; `None` where no frame follows.
    pub fn next_codes_chunk(
        &mut self,
        max_chunk_frames: usize,
        outcomes: &Vec<FrameOutcome>,
    ) -> (chunk: Result<Option<GeneratedCodesChunk>, Error>)
        requires
            old(self).rollout.wf(),
            outcomes@.len() >= max_chunk_frames || outcomes@.len() >= old(
                self,
            ).rollout.config.max_frames - old(self).rollout.frame,
        ensures
            final(self).rollout.wf(),
            final(self).text == old(self).text,
            ({
                let m = old(self).rollout@;
                let script = script_of(outcomes@, m.frame);
                let end = played(m, script, max_chunk_frames as nat);
                if max_chunk_frames == 0 {
                    &&& chunk matches Err(e) && error::is_invalid(
                        e,
                        "max_chunk_frames must be non-zero"@,
                    )
                    &&& final(self).rollout@ == m
                } else if at_end(m) {
                    &&& chunk matches Ok(None)
                    &&& final(self).rollout@ == m
                } else {
                    &&& final(self).rollout@ == closed(end)
                    &&& end.config == m.config
                    &&& match chunk {
                        Err(_) => false,
                        Ok(None) => end.codes.len() == m.codes.len(),
                        Ok(Some(c)) => chunk_of(end, m.codes.len() as int, c),
                    }
                }
            }),
    {
        let mut run: ChunkRun = match self.rollout.begin_chunk(max_chunk_frames) {
            Err(e) => {
                return Err(e);
            },
            Ok(None) => {
                return Ok(None);
            },
            Ok(Some(run)) => run,
        };
        let ghost m = self.rollout@;
        let ghost script = script_of(outcomes@, m.frame);
        let ghost end = played(m, script, max_chunk_frames as nat);
        proof {
            lemma_played_frames(m, script, max_chunk_frames as nat);
        }
        let mut going: bool = true;
        while going
            invariant
                self.rollout.wf(),
                self.text == old(self).text,
                run.start == m.codes.len(),
                run.max_frames == max_chunk_frames,
                run.produced <= run.max_frames,
                m.codes.len() <= self.rollout@.codes.len(),
                self.rollout@.config == m.config,
                outcomes@.len() >= max_chunk_frames || outcomes@.len() >= m.config.max_frames
                    - m.frame,
                script == script_of(outcomes@, m.frame),
                end == played(m, script, max_chunk_frames as nat),
                self.rollout@.frame == m.frame + run.produced,
                going ==> played(
                    self.rollout@,
                    script,
                    (max_chunk_frames - run.produced) as nat,
                ) == end,
                !going ==> closed(self.rollout@) == closed(end),
                !going ==> self.rollout@.codes == end.codes && self.rollout@.frame == end.frame,
            decreases max_chunk_frames - run.produced + (if going {
                1int
            } else {
                0int
            }),
        {
            match self.rollout.next_action(&run) {
                FrameAction::Close => {
                    going = false;
                },
                FrameAction::Predict => {
                    let index: usize = run.produced;
                    let request = self.rollout.accept_acoustic(
                        &mut run,
                        outcomes[index].acoustic.as_slice(),
                    );
                    if request.is_some() {
                        self.rollout.accept_semantic(outcomes[index].semantic);
                    }
                },
            }
        }
        Ok(self.rollout.close_chunk(&run))
    }
}

/// All codes of a request, where the prefill gave `semantic` and the models answer as
/// `outcomes` say.
pub fn rollout(config: RolloutConfig, semantic: i32, outcomes: &Vec<FrameOutcome>) -> (all:
    GeneratedCodes)
    requires
        config.code_groups > 0,
        config.prefill_steps + config.max_frames <= usize::MAX,
        outcomes@.len() >= config.max_frames,
    ensures
        ({
            let m = RolloutModel {
                config,
                semantic,
                history: Seq::empty(),
                codes: Seq::empty(),
                frame: 0,
                ended: false,
            };
            let end = completed(m, script_of(outcomes@, 0));
            &&& all.codes@ == end.codes
            &&& all.frames == end.codes.len() / (config.code_groups as nat)
            &&& all.ended_by_eos == end.ended
        }),
{
    let mut stream = HipTtsStream { text: String::new(), rollout: Rollout::new(config, semantic) };
    let ghost m = stream.rollout@;
    proof {
        assert((m.config.max_frames - m.frame) as nat == config.max_frames as nat);
        assert(script_of(outcomes@, m.frame) == script_of(outcomes@, 0));
        lemma_played_frames(m, script_of(outcomes@, 0), config.max_frames as nat);
        if config.max_frames == 0 {
            assert(completed(m, script_of(outcomes@, 0)) == m);
        }
    }
    if config.max_frames > 0 {
        let _ = stream.next_codes_chunk(config.max_frames, outcomes);
    }
    stream.finish_codes()
}

/// What the models give for each frame: its acoustic codes, and the semantic token of
/// the frame behind it.
pub type Script = spec_fn(int) -> (Seq<i32>, i32);

/// The model behind at most `left` more frames.
pub open spec fn played(m: RolloutModel, script: Script, left: nat) -> RolloutModel
    decreases left,
{
    if left == 0 || m.frame >= m.config.max_frames || m.semantic == m.config.eos {
        m
    } else {
        let (acoustic, semantic) = script(m.frame);
        played(framed(m, acoustic, semantic), script, (left - 1) as nat)
    }
}

/// The model at the end of the request.
pub open spec fn completed(m: RolloutModel, script: Script) -> RolloutModel {
    closed(played(m, script, (m.config.max_frames - m.frame) as nat))
}

proof fn lemma_played_stops(m: RolloutModel, script: Script, left: nat)
    requires
        m.frame >= m.config.max_frames || m.semantic == m.config.eos,
    ensures
        played(m, script, left) == m,
{
}

/// Frames that are played in two goes are the frames that are played in one.
pub proof fn played_in_parts(m: RolloutModel, script: Script, a: nat, b: nat)
    ensures
        played(played(m, script, a), script, b) == played(m, script, a + b),
    decreases a,
{
    if m.frame >= m.config.max_frames || m.semantic == m.config.eos {
        lemma_played_stops(m, script, b);
    } else if a > 0 {
        let (acoustic, semantic) = script(m.frame);
        played_in_parts(framed(m, acoustic, semantic), script, (a - 1) as nat, b);
    } else {
        assert(played(m, script, 0) == m);
    }
}

/// The fixed settings and the frame count behind some frames.
proof fn lemma_played_frames(m: RolloutModel, script: Script, left: nat)
    requires
        0 <= m.frame <= m.config.max_frames,
    ensures
        played(m, script, left).config == m.config,
        m.frame <= played(m, script, left).frame <= m.config.max_frames,
        played(m, script, left).frame <= m.frame + left,
        played(m, script, left).ended == m.ended,
    decreases left,
{
    if !(left == 0 || m.frame >= m.config.max_frames || m.semantic == m.config.eos) {
        let (acoustic, semantic) = script(m.frame);
        lemma_played_frames(framed(m, acoustic, semantic), script, (left - 1) as nat);
    }
}

/// A request keeps its settings to its end, and never has more frames than it allows.
pub proof fn completed_keeps_settings(m: RolloutModel, script: Script)
    requires
        0 <= m.frame <= m.config.max_frames,
    ensures
        completed(m, script).config == m.config,
        m.frame <= completed(m, script).frame <= m.config.max_frames,
{
    lemma_played_frames(m, script, (m.config.max_frames - m.frame) as nat);
}

/// Whatever number of frames a chunk asks for, a request that goes on behind the chunk
/// ends with the same codes, the same frame count and the same reason to end as one that
/// is generated in one go.
pub proof fn chunks_do_not_change_the_result(m: RolloutModel, script: Script, chunk: nat)
    requires
        0 <= m.frame <= m.config.max_frames,
    ensures
        completed(closed(played(m, script, chunk)), script) == completed(m, script),
{
    let after = played(m, script, chunk);
    let left = (m.config.max_frames - m.frame) as nat;
    lemma_played_frames(m, script, chunk);
    let rest = (m.config.max_frames - after.frame) as nat;
    if sees_eos(after) {
        let noted = closed(after);
        lemma_played_stops(noted, script, rest);
        lemma_played_stops(after, script, rest);
        lemma_same_stop(m, script, chunk, left);
    } else {
        played_in_parts(m, script, chunk, rest);
        lemma_enough(m, script, left, (chunk + rest) as nat);
    }
}

/// A chunk that stops in front of the end of the speech has played all that can be played.
proof fn lemma_same_stop(m: RolloutModel, script: Script, a: nat, b: nat)
    requires
        0 <= m.frame <= m.config.max_frames,
        b >= m.config.max_frames - m.frame,
        sees_eos(played(m, script, a)),
    ensures
        played(m, script, b) == played(m, script, a),
    decreases a,
{
    if m.frame >= m.config.max_frames || m.semantic == m.config.eos {
    } else if a > 0 {
        let (acoustic, semantic) = script(m.frame);
        lemma_same_stop(
            framed(m, acoustic, semantic),
            script,
            (a - 1) as nat,
            (b - 1) as nat,
        );
    }
}

/// Room for more frames than the request has changes nothing.
proof fn lemma_enough(m: RolloutModel, script: Script, a: nat, b: nat)
    requires
        0 <= m.frame <= m.config.max_frames,
        a >= m.config.max_frames - m.frame,
        b >= m.config.max_frames - m.frame,
    ensures
        played(m, script, a) == played(m, script, b),
    decreases a,
{
    if m.frame >= m.config.max_frames || m.semantic == m.config.eos {
    } else {
        let (acoustic, semantic) = script(m.frame);
        lemma_enough(
            framed(m, acoustic, semantic),
            script,
            (a - 1) as nat,
            (b - 1) as nat,
        );
    }
}

/// Every frame has all its codes, the semantic tokens are remembered, and none of them
/// ends the speech.
pub open spec fn regular(m: RolloutModel) -> bool {
    &&& m.codes.len() == m.frame * m.config.code_groups
    &&& m.history.len() == m.frame
    &&& forall|i: int| 0 <= i < m.history.len() ==> #[trigger] m.history[i] != m.config.eos
    &&& forall|i: int|
        0 <= i < m.history.len() ==> m.codes[i * m.config.code_groups] == #[trigger] m.history[i]
}

/// Where the models give as many acoustic codes as a frame has, the codes are whole frames
/// that start with their semantic token, the token that ends the speech is never among
/// the semantic tokens, and a request never has more frames than it allows.
pub proof fn frames_stay_regular(m: RolloutModel, script: Script, left: nat)
    requires
        regular(m),
        m.config.code_groups > 0,
        0 <= m.frame <= m.config.max_frames,
        forall|k: int|
            m.frame <= k < m.config.max_frames ==> (#[trigger] script(k)).0.len()
                == m.config.code_groups - 1,
    ensures
        regular(played(m, script, left)),
        played(m, script, left).config == m.config,
        m.frame <= played(m, script, left).frame <= m.config.max_frames,
        m.codes.len() <= played(m, script, left).codes.len(),
        m.codes == played(m, script, left).codes.take(m.codes.len() as int),
    decreases left,
{
    lemma_played_frames(m, script, left);
    if left == 0 || m.frame >= m.config.max_frames || m.semantic == m.config.eos {
        assert(m.codes =~= m.codes.take(m.codes.len() as int));
    } else {
        let (acoustic, semantic) = script(m.frame);
        let next = framed(m, acoustic, semantic);
        let groups = m.config.code_groups as int;
        assert(acoustic.len() == groups - 1);
        assert((m.frame + 1) * groups == m.frame * groups + groups) by (nonlinear_arith);
        assert forall|i: int| 0 <= i < next.history.len() implies next.codes[i * groups]
            == #[trigger] next.history[i] by {
            if i < m.history.len() {
                assert(next.history[i] == m.history[i]);
                assert(0 <= i * groups < m.frame * groups) by (nonlinear_arith)
                    requires
                        0 <= i < m.frame,
                        groups > 0,
                ;
            } else {
                assert(i == m.frame);
            }
        }
        assert forall|i: int| 0 <= i < next.history.len() implies #[trigger] next.history[i]
            != m.config.eos by {
            if i < m.history.len() {
                assert(next.history[i] == m.history[i]);
            }
        }
        frames_stay_regular(next, script, (left - 1) as nat);
        let last = played(next, script, (left - 1) as nat);
        assert(m.codes =~= next.codes.take(m.codes.len() as int));
        assert(last.codes.take(next.codes.len() as int).take(m.codes.len() as int)
            =~= last.codes.take(m.codes.len() as int));
    }
}

/// `long` starts with `short`.
pub open spec fn starts_with(long: Seq<i32>, short: Seq<i32>) -> bool {
    short.len() <= long.len() && long.take(short.len() as int) == short
}

/// Frames are added behind the codes and tokens that are there.
pub proof fn lemma_played_appends(m: RolloutModel, script: Script, left: nat)
    ensures
        starts_with(played(m, script, left).codes, m.codes),
        starts_with(played(m, script, left).history, m.history),
    decreases left,
{
    if left == 0 || m.frame >= m.config.max_frames || m.semantic == m.config.eos {
        assert(m.codes.take(m.codes.len() as int) =~= m.codes);
        assert(m.history.take(m.history.len() as int) =~= m.history);
    } else {
        let (acoustic, semantic) = script(m.frame);
        let next = framed(m, acoustic, semantic);
        let last = played(next, script, (left - 1) as nat);
        lemma_played_appends(next, script, (left - 1) as nat);
        assert(next.codes.take(m.codes.len() as int) =~= m.codes);
        assert(next.history.take(m.history.len() as int) =~= m.history);
        assert(last.codes.take(next.codes.len() as int).take(m.codes.len() as int)
            =~= last.codes.take(m.codes.len() as int));
        assert(last.history.take(next.history.len() as int).take(m.history.len() as int)
            =~= last.history.take(m.history.len() as int));
    }
}

/// The same request with room for so many frames.
pub open spec fn with_room(m: RolloutModel, max_frames: usize) -> RolloutModel {
    RolloutModel { config: RolloutConfig { max_frames, ..m.config }, ..m }
}

/// Room for more frames only adds frames: the codes of a request start with the codes that
/// the same request has with less room, and where the speech ended before the lesser room
/// was used up, the two are the same but for their room.
pub proof fn more_room_only_adds_frames(m: RolloutModel, script: Script, max_frames: usize)
    requires
        0 <= m.frame <= m.config.max_frames <= max_frames,
    ensures
        ({
            let less = completed(m, script);
            let more = completed(with_room(m, max_frames), script);
            &&& starts_with(more.codes, less.codes)
            &&& starts_with(more.history, less.history)
            &&& less.frame <= more.frame
            &&& less.frame < m.config.max_frames ==> more == with_room(less, max_frames)
        }),
    decreases m.config.max_frames - m.frame,
{
    let wide = with_room(m, max_frames);
    let left = (m.config.max_frames - m.frame) as nat;
    let room = (max_frames - m.frame) as nat;
    if m.frame >= m.config.max_frames || m.semantic == m.config.eos {
        lemma_played_stops(m, script, left);
        lemma_played_appends(wide, script, room);
        lemma_played_frames(wide, script, room);
    } else {
        let (acoustic, semantic) = script(m.frame);
        let next = framed(m, acoustic, semantic);
        let wide_next = framed(wide, acoustic, semantic);
        if needs_decode(m) {
            assert(wide_next == with_room(next, max_frames));
            more_room_only_adds_frames(next, script, max_frames);
        } else {
            lemma_played_stops(next, script, (left - 1) as nat);
            lemma_played_appends(wide_next, script, (room - 1) as nat);
            lemma_played_frames(wide_next, script, (room - 1) as nat);
            assert(wide_next.codes == next.codes);
            assert(wide_next.history == next.history);
        }
    }
}

/// The stream behind a chunk that asks for so many frames.
pub open spec fn behind_chunk(m: RolloutModel, script: Script, frames: nat) -> RolloutModel {
    if at_end(m) {
        m
    } else {
        closed(played(m, script, frames))
    }
}

/// The stream behind one chunk after the other, each with a size of its own.
pub open spec fn behind_chunks(m: RolloutModel, script: Script, sizes: Seq<nat>) -> RolloutModel
    decreases sizes.len(),
{
    if sizes.len() == 0 {
        m
    } else {
        behind_chunk(behind_chunks(m, script, sizes.drop_last()), script, sizes.last())
    }
}

/// The codes of those chunks, one behind the other.
pub open spec fn codes_of_chunks(m: RolloutModel, script: Script, sizes: Seq<nat>) -> Seq<i32>
    decreases sizes.len(),
{
    if sizes.len() == 0 {
        Seq::empty()
    } else {
        let before = behind_chunks(m, script, sizes.drop_last()).codes;
        let after = behind_chunks(m, script, sizes).codes;
        codes_of_chunks(m, script, sizes.drop_last()) + after.skip(before.len() as int)
    }
}

/// The frames that those chunks ask for.
pub open spec fn frames_asked(sizes: Seq<nat>) -> nat
    decreases sizes.len(),
{
    if sizes.len() == 0 {
        0
    } else {
        frames_asked(sizes.drop_last()) + sizes.last()
    }
}

/// A stream whose end was noted stands in front of the token that ends the speech.
pub open spec fn end_is_seen(m: RolloutModel) -> bool {
    m.ended ==> sees_eos(m)
}

/// Chunks of any sizes, in any mixture, hand out the codes that one go has: their codes
/// follow on the codes in front of them, the stream behind them stands where one chunk of
/// all their frames would have left it, going on to the end gives what one go gives, and
/// so does draining the stream, which chunks that ask for all the frames do.
pub proof fn mixed_chunks_do_not_change_the_result(
    m: RolloutModel,
    script: Script,
    sizes: Seq<nat>,
)
    requires
        0 <= m.frame <= m.config.max_frames,
        end_is_seen(m),
    ensures
        ({
            let end = behind_chunks(m, script, sizes);
            &&& end.codes == m.codes + codes_of_chunks(m, script, sizes)
            &&& sizes.len() > 0 ==> end == closed(played(m, script, frames_asked(sizes)))
            &&& completed(end, script) == completed(m, script)
            &&& at_end(end) ==> end == completed(m, script)
            &&& sizes.len() > 0 && frames_asked(sizes) >= m.config.max_frames - m.frame ==> end
                == completed(m, script)
        }),
    decreases sizes.len(),
{
    let left = (m.config.max_frames - m.frame) as nat;
    if sizes.len() == 0 {
        assert(m.codes + Seq::<i32>::empty() =~= m.codes);
        if at_end(m) {
            lemma_played_stops(m, script, left);
        }
    } else {
        let fewer = sizes.drop_last();
        let size = sizes.last();
        let before = behind_chunks(m, script, fewer);
        let asked = frames_asked(fewer);
        let end = behind_chunks(m, script, sizes);
        mixed_chunks_do_not_change_the_result(m, script, fewer);
        let plain = played(m, script, asked);
        assert(fewer.len() == 0 ==> plain == m);
        lemma_played_frames(m, script, asked);
        played_in_parts(m, script, asked, size);
        if at_end(before) {
            lemma_played_stops(plain, script, size);
            assert(closed(plain) == before);
        } else {
            assert(before == plain);
        }
        assert(end == closed(played(m, script, asked + size)));
        chunks_do_not_change_the_result(m, script, asked + size);
        if at_end(end) {
            lemma_played_frames(m, script, asked + size);
            lemma_played_stops(end, script, (m.config.max_frames - end.frame) as nat);
        }
        if frames_asked(sizes) >= left {
            lemma_enough(m, script, left, asked + size);
        }
        if !at_end(before) {
            lemma_played_appends(before, script, size);
        }
        assert(starts_with(end.codes, before.codes)) by {
            assert(before.codes.take(before.codes.len() as int) =~= before.codes);
        }
        assert(before.codes + end.codes.skip(before.codes.len() as int) =~= end.codes) by {
            assert(end.codes =~= end.codes.take(before.codes.len() as int) + end.codes.skip(
                before.codes.len() as int,
            ));
        }
        assert(m.codes + codes_of_chunks(m, script, sizes) =~= (m.codes + codes_of_chunks(
            m,
            script,
            fewer,
        )) + end.codes.skip(before.codes.len() as int));
    }
}

} // verus!
