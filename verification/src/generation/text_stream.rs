//! Speech for text that is still coming in.

use std::collections::VecDeque;

use vstd::prelude::*;

use crate::error::{self, invalid, Error};
use crate::generation::audio::GeneratedAudioChunk;
use crate::generation::options::TextStreamOptions;
use crate::generation::rollout::{
    self, ChunkRun, DecodeRequest, FrameAction, FrameOutcome, GeneratedCodes,
    GeneratedCodesChunk, Rollout, RolloutConfig, RolloutModel, Script,
};
use crate::generation::words::{self, stable_prefix};
use crate::lists::copy_range;

verus! {

/// What a stream on incoming text hands out.
#[derive(Debug)]
pub enum IncrementalAudio {
    Chunk(GeneratedAudioChunk),
    NeedMoreText,
    Finished(GeneratedCodes),
}

/// What stays fixed in a stream on incoming text.
#[derive(Clone, Copy, PartialEq, Eq, Structural, Debug)]
pub struct TextStreamConfig {
    pub options: TextStreamOptions,
    /// The text tokens that go into the prefill at most.
    pub text_lookahead_tokens: usize,
    pub max_frames: usize,
    /// Codes per frame.
    pub code_groups: usize,
    /// The semantic token that ends the speech.
    pub eos: i32,
    /// Whether a semantic token is drawn with regard to the tokens before it.
    pub uses_history: bool,
}

/// The text that goes into a step behind the prefill.
#[derive(Clone, Copy, PartialEq, Eq, Structural, Debug)]
pub enum Trailing {
    Token(u32),
    /// The token that ends the text.
    Eos,
    Pad,
}

/// A stream on incoming text. The caller does the work of the tokenizer and of the models
/// and hands the results back.
#[derive(Debug)]
pub struct HipTextStream {
    pub config: TextStreamConfig,
    pub pending_text: String,
    pub queued_tokens: VecDeque<u32>,
    pub text_finished: bool,
    pub eos_pending: bool,
    pub eos_consumed: bool,
    pub state: Option<Rollout>,
    pub finished_codes: Option<GeneratedCodes>,
}

/// All codes of a request, as a model.
#[verifier::ext_equal]
pub struct CodesModel {
    pub codes: Seq<i32>,
    pub frames: int,
    pub ended: bool,
}

impl View for GeneratedCodes {
    type V = CodesModel;

    open spec fn view(&self) -> CodesModel {
        CodesModel {
            codes: self.codes@,
            frames: self.frames as int,
            ended: self.ended_by_eos,
        }
    }
}

/// A stream on incoming text, as a model.
#[verifier::ext_equal]
pub struct TextModel {
    pub config: TextStreamConfig,
    pub pending: Seq<char>,
    pub queued: Seq<u32>,
    pub text_finished: bool,
    pub eos_pending: bool,
    pub eos_consumed: bool,
    pub state: Option<RolloutModel>,
    pub done: Option<CodesModel>,
}

impl View for HipTextStream {
    type V = TextModel;

    open spec fn view(&self) -> TextModel {
        TextModel {
            config: self.config,
            pending: self.pending_text@,
            queued: self.queued_tokens@,
            text_finished: self.text_finished,
            eos_pending: self.eos_pending,
            eos_consumed: self.eos_consumed,
            state: match self.state {
                Some(state) => Some(state@),
                None => None,
            },
            done: match self.finished_codes {
                Some(codes) => Some(codes@),
                None => None,
            },
        }
    }
}

/// What follows from the pending text once `text` has been added: the stable part, which
/// can be turned into tokens, and the rest, which stays pending.
pub open spec fn cut(m: TextModel, text: Seq<char>, stable: Seq<char>, rest: Seq<char>) -> bool {
    let whole = m.pending + text;
    let flush = m.config.options.flush_on_punctuation;
    &&& whole == stable + rest
    &&& if words::is_unbroken(whole, flush) {
        stable.len() == 0
    } else {
        words::is_stable(whole, flush, stable.len() as int)
    }
}

/// Generation can start: enough tokens are there, or all that will ever come.
pub open spec fn can_start(m: TextModel) -> bool {
    &&& m.queued.len() > 0
    &&& m.queued.len() >= m.config.options.min_start_tokens || m.text_finished
}

/// The number of tokens that go into the prefill.
pub open spec fn prefill_len(m: TextModel) -> int {
    if m.config.text_lookahead_tokens <= m.queued.len() {
        if m.config.text_lookahead_tokens == 0 {
            1
        } else {
            m.config.text_lookahead_tokens as int
        }
    } else {
        m.queued.len() as int
    }
}

/// A stream that ends without any text.
pub open spec fn is_silent(m: TextModel) -> bool {
    m.text_finished && m.queued.len() == 0 && m.eos_pending
}

/// The result of a stream without any text.
pub open spec fn no_codes() -> CodesModel {
    CodesModel { codes: Seq::empty(), frames: 0, ended: false }
}

/// The text of the next step, and what is left of the text behind it. `None` where the
/// stream must wait for more text.
pub open spec fn trailing_of(m: TextModel) -> Option<(Trailing, TextModel)> {
    if !m.text_finished && m.queued.len() < m.config.options.min_resume_tokens {
        None
    } else if m.queued.len() > 0 {
        Some((Trailing::Token(m.queued[0]), TextModel { queued: m.queued.drop_first(), ..m }))
    } else if m.eos_pending {
        Some((Trailing::Eos, TextModel { eos_pending: false, eos_consumed: true, ..m }))
    } else if m.text_finished || m.eos_consumed {
        Some((Trailing::Pad, m))
    } else {
        None
    }
}

/// The token that ends the text is due once the text is finished, until a step takes it.
pub open spec fn in_order(m: TextModel) -> bool {
    &&& m.text_finished == (m.eos_pending || m.eos_consumed)
    &&& !(m.eos_pending && m.eos_consumed)
}

/// The token that ends the text is still to come while nothing has started. All calls keep
/// this, apart from the one that gives the state of the models up.
pub open spec fn intact(m: TextModel) -> bool {
    m.state is None ==> !m.eos_consumed
}

/// What a call for audio finds.
#[derive(Debug)]
pub enum AudioStep {
    /// The stream has ended.
    Finished(GeneratedCodes),
    NeedMoreText,
    /// The models are to be prefilled with these tokens.
    Prefill(Vec<u32>),
    /// Frames are to be generated.
    Generate,
}

/// What is to be done next for a chunk.
#[derive(Clone, Copy, PartialEq, Eq, Structural, Debug)]
pub enum TextFrameAction {
    /// The chunk is complete, or must wait for text.
    Close,
    /// The acoustic codes of the next frame are to be predicted. Where a frame may follow,
    /// its step takes this text.
    Predict(Option<Trailing>),
}

/// What is to be done with the codes of a chunk.
#[derive(Debug)]
pub enum ChunkOutcome {
    /// The codes of the chunk are to be decoded.
    Decode(GeneratedCodesChunk),
    NeedMoreText,
    Finished(GeneratedCodes),
}

fn duplicate(codes: &GeneratedCodes) -> (copy: GeneratedCodes)
    ensures
        copy@ == codes@,
{
    let list: Vec<i32> = copy_range(&codes.codes, 0, codes.codes.len());
    proof {
        assert(codes.codes@.subrange(0, codes.codes@.len() as int) =~= codes.codes@);
    }
    GeneratedCodes { codes: list, frames: codes.frames, ended_by_eos: codes.ended_by_eos }
}

fn split_text(text: &String, count: usize) -> (parts: (String, String))
    requires
        count <= text@.len(),
    ensures
        parts.0@ == text@.take(count as int),
        parts.1@ == text@.skip(count as int),
{
    let mut head = String::new();
    let mut tail = String::new();
    let mut index: usize = 0;
    proof {
        words::lemma_chars_at_most_bytes(text@);
        assert(text@.take(0) =~= Seq::<char>::empty());
    }
    let encoded: &[u8] = text.as_str().as_bytes();
    let size: usize = encoded.len();
    for ch in iter: text.as_str().chars()
        invariant
            iter.seq() == text@,
            index == iter.index(),
            count <= text@.len() <= size,
            head@ == text@.take(if index <= count {
                index as int
            } else {
                count as int
            }),
            tail@ == text@.subrange(
                count as int,
                if index <= count {
                    count as int
                } else {
                    index as int
                },
            ),
    {
        proof {
            assert(ch == text@[index as int]);
        }
        if index < count {
            head.push(ch);
            proof {
                assert(head@ =~= text@.take(index as int + 1));
            }
        } else {
            tail.push(ch);
            proof {
                assert(tail@ =~= text@.subrange(count as int, index as int + 1));
            }
        }
        index = index + 1;
    }
    (head, tail)
}

impl HipTextStream {
    pub open spec fn wf(&self) -> bool {
        &&& self.config.code_groups > 0
        &&& in_order(self@)
        &&& self.state matches Some(state) ==> {
            &&& state.wf()
            &&& state.config.max_frames == self.config.max_frames
            &&& state.config.code_groups == self.config.code_groups
            &&& state.config.eos == self.config.eos
        }
    }

    /// A stream that no text has reached.
    pub fn new(config: TextStreamConfig) -> (stream: HipTextStream)
        requires
            config.code_groups > 0,
        ensures
            stream.wf(),
            intact(stream@),
            stream@ == (TextModel {
                config,
                pending: Seq::empty(),
                queued: Seq::empty(),
                text_finished: false,
                eos_pending: false,
                eos_consumed: false,
                state: None,
                done: None,
            }),
    {
        HipTextStream {
            config,
            pending_text: String::new(),
            queued_tokens: VecDeque::new(),
            text_finished: false,
            eos_pending: false,
            eos_consumed: false,
            state: None,
            finished_codes: None,
        }
    }

    /// Adds text. The part that can be turned into tokens, where there is one, is handed
    /// out; its tokens are to be queued.
    pub fn push_text(&mut self, text: &str) -> (stable: Result<Option<String>, Error>)
        requires
            old(self).wf(),
        ensures
            final(self).wf(),
            intact(old(self)@) ==> intact(final(self)@),
            match stable {
                Err(e) => {
                    &&& old(self)@.text_finished
                    &&& error::is_invalid(e, "cannot push text after finish_text"@)
                    &&& final(self)@ == old(self)@
                },
                Ok(part) => {
                    let handed = match part {
                        Some(p) => p@,
                        None => Seq::empty(),
                    };
                    &&& !old(self)@.text_finished
                    &&& part matches Some(p) ==> p@.len() > 0
                    &&& cut(old(self)@, text@, handed, final(self)@.pending)
                    &&& final(self)@ == (TextModel {
                        pending: final(self)@.pending,
                        ..old(self)@
                    })
                },
            },
    {
        if self.text_finished {
            return Err(invalid("cannot push text after finish_text"));
        }
        self.pending_text.append(text);
        let ghost whole = self.pending_text@;
        match stable_prefix(
            self.pending_text.as_str(),
            self.config.options.flush_on_punctuation,
        ) {
            None => {
                proof {
                    assert(whole =~= Seq::<char>::empty() + whole);
                }
                Ok(None)
            },
            Some((_, count)) => {
                let (head, tail) = split_text(&self.pending_text, count);
                self.pending_text = tail;
                proof {
                    assert(whole =~= whole.take(count as int) + whole.skip(count as int));
                    assert(words::cuts(
                        whole[count - 1],
                        self.config.options.flush_on_punctuation,
                    ));
                }
                Ok(Some(head))
            },
        }
    }

    /// Queues the tokens of a part of the text.
    pub fn enqueue_tokens(&mut self, tokens: &[u32])
        requires
            old(self).wf(),
        ensures
            final(self).wf(),
            intact(old(self)@) ==> intact(final(self)@),
            final(self)@ == (TextModel { queued: old(self)@.queued + tokens@, ..old(self)@ }),
    {
        let ghost before = self@;
        let mut index: usize = 0;
        proof {
            assert(before.queued + tokens@.take(0) =~= before.queued);
        }
        while index < tokens.len()
            invariant
                self.wf(),
                index <= tokens@.len(),
                self@ == (TextModel {
                    queued: before.queued + tokens@.take(index as int),
                    ..before
                }),
            decreases tokens@.len() - index,
        {
            self.queued_tokens.push_back(tokens[index]);
            index += 1;
            proof {
                assert(self@.queued =~= before.queued + tokens@.take(index as int));
            }
        }
        proof {
            assert(tokens@.take(tokens@.len() as int) =~= tokens@);
        }
    }

    /// Ends the text. Pending text is handed out first: its tokens are to be queued, and
    /// the call is to be made again, which then ends the text.
    pub fn finish_text(&mut self) -> (rest: Option<String>)
        requires
            old(self).wf(),
        ensures
            final(self).wf(),
            intact(old(self)@) ==> intact(final(self)@),
            if old(self)@.text_finished {
                rest is None && final(self)@ == old(self)@
            } else if old(self)@.pending.len() > 0 {
                &&& rest matches Some(text) && text@ == old(self)@.pending
                &&& final(self)@ == (TextModel { pending: Seq::empty(), ..old(self)@ })
            } else {
                &&& rest is None
                &&& final(self)@ == (TextModel {
                    text_finished: true,
                    eos_pending: true,
                    ..old(self)@
                })
            },
    {
        if self.text_finished {
            return None;
        }
        let whole: usize = self.pending_text.as_str().unicode_len();
        if whole > 0 {
            let (head, tail) = split_text(&self.pending_text, whole);
            proof {
                assert(self.pending_text@.take(whole as int) =~= self.pending_text@);
                assert(self.pending_text@.skip(whole as int) =~= Seq::<char>::empty());
            }
            self.pending_text = tail;
            return Some(head);
        }
        self.text_finished = true;
        self.eos_pending = true;
        None
    }

    /// Whether the models have nothing left to generate.
    pub fn is_generation_finished(&self) -> (finished: bool)
        requires
            self.wf(),
        ensures
            finished == (self@.state matches Some(s) && rollout::at_end(s)),
    {
        match &self.state {
            Some(state) => state.ended_by_eos || state.frame >= self.config.max_frames,
            None => false,
        }
    }

    /// All codes of the stream. It has ended with them.
    pub fn finish_codes(&mut self) -> (codes: GeneratedCodes)
        requires
            old(self).wf(),
        ensures
            final(self).wf(),
            intact(old(self)@) ==> intact(final(self)@),
            codes@ == finished(old(self)@),
            final(self)@ == (TextModel { done: Some(finished(old(self)@)), ..old(self)@ }),
    {
        let codes = match &self.state {
            Some(state) => state.all_codes(),
            None => GeneratedCodes { codes: Vec::new(), frames: 0, ended_by_eos: false },
        };
        self.finished_codes = Some(duplicate(&codes));
        codes
    }

    /// The tokens of the prefill leave the queue.
    fn take_prefill(&mut self) -> (tokens: Vec<u32>)
        requires
            old(self).wf(),
            old(self)@.queued.len() > 0,
        ensures
            final(self).wf(),
            intact(old(self)@) ==> intact(final(self)@),
            tokens@ == old(self)@.queued.take(prefill_len(old(self)@)),
            final(self)@ == (TextModel {
                queued: old(self)@.queued.skip(prefill_len(old(self)@)),
                ..old(self)@
            }),
    {
        let ghost before = self@;
        let queued: usize = self.queued_tokens.len();
        let mut lookahead: usize = self.config.text_lookahead_tokens;
        if lookahead > queued {
            lookahead = queued;
        }
        if lookahead == 0 {
            lookahead = 1;
        }
        let mut tokens: Vec<u32> = Vec::new();
        let mut index: usize = 0;
        proof {
            assert(before.queued.take(0) =~= Seq::<u32>::empty());
            assert(before.queued.skip(0) =~= before.queued);
        }
        while index < lookahead
            invariant
                self.wf(),
                index <= lookahead <= before.queued.len(),
                tokens@ == before.queued.take(index as int),
                self@ == (TextModel { queued: before.queued.skip(index as int), ..before }),
            decreases lookahead - index,
        {
            match self.queued_tokens.pop_front() {
                Some(token) => {
                    tokens.push(token);
                },
                None => {
                    proof {
                        assert(before.queued.skip(index as int).len() > 0);
                    }
                },
            }
            index += 1;
            proof {
                assert(tokens@ =~= before.queued.take(index as int));
                assert(self@.queued =~= before.queued.skip(index as int));
            }
        }
        tokens
    }

    /// What a call for audio of at most `max_chunk_frames` frames finds.
    pub fn begin_audio(&mut self, max_chunk_frames: usize) -> (step: Result<AudioStep, Error>)
        requires
            old(self).wf(),
        ensures
            final(self).wf(),
            intact(old(self)@) ==> intact(final(self)@),
            ({
                let m = old(self)@;
                if max_chunk_frames == 0 {
                    &&& step matches Err(e) && error::is_invalid(
                        e,
                        "max_chunk_frames must be non-zero"@,
                    )
                    &&& final(self)@ == m
                } else if m.done is Some {
                    &&& step matches Ok(AudioStep::Finished(codes)) && Some(codes@) == m.done
                    &&& final(self)@ == m
                } else if m.state is Some {
                    step matches Ok(AudioStep::Generate) && final(self)@ == m
                } else if can_start(m) {
                    &&& step matches Ok(AudioStep::Prefill(tokens)) && tokens@ == m.queued.take(
                        prefill_len(m),
                    )
                    &&& final(self)@ == (TextModel { queued: m.queued.skip(prefill_len(m)), ..m })
                } else if is_silent(m) {
                    &&& step matches Ok(AudioStep::Finished(codes)) && codes@ == no_codes()
                    &&& final(self)@ == (TextModel { done: Some(no_codes()), ..m })
                } else {
                    step matches Ok(AudioStep::NeedMoreText) && final(self)@ == m
                }
            }),
            intact(old(self)@) && old(self)@.text_finished ==> !(step matches Ok(
                AudioStep::NeedMoreText,
            )),
    {
        if max_chunk_frames == 0 {
            return Err(invalid("max_chunk_frames must be non-zero"));
        }
        if let Some(codes) = &self.finished_codes {
            return Ok(AudioStep::Finished(duplicate(codes)));
        }
        if self.state.is_some() {
            return Ok(AudioStep::Generate);
        }
        let queued: usize = self.queued_tokens.len();
        if queued > 0 && (queued >= self.config.options.min_start_tokens || self.text_finished) {
            return Ok(AudioStep::Prefill(self.take_prefill()));
        }
        if self.text_finished && queued == 0 && self.eos_pending {
            let codes = self.finish_codes();
            proof {
                assert(codes@ =~= no_codes());
            }
            return Ok(AudioStep::Finished(codes));
        }
        Ok(AudioStep::NeedMoreText)
    }

    /// Takes the result of the prefill.
    pub fn started(&mut self, prefill_steps: usize, semantic: i32)
        requires
            old(self).wf(),
            prefill_steps + old(self).config.max_frames <= usize::MAX,
        ensures
            final(self).wf(),
            intact(old(self)@) ==> intact(final(self)@),
            final(self)@ == (TextModel {
                state: Some(first_state(old(self)@.config, prefill_steps, semantic)),
                ..old(self)@
            }),
    {
        let config = RolloutConfig {
            eos: self.config.eos,
            code_groups: self.config.code_groups,
            max_frames: self.config.max_frames,
            prefill_steps,
            uses_history: self.config.uses_history,
        };
        self.state = Some(Rollout::new(config, semantic));
    }

    /// Gives the state of the models up, where their work has failed.
    pub fn abandon(&mut self)
        requires
            old(self).wf(),
        ensures
            final(self).wf(),
            final(self)@ == (TextModel { state: None, ..old(self)@ }),
    {
        self.state = None;
    }

    /// The text of the next step; `None` where the stream must wait for more text.
    pub fn next_trailing(&mut self) -> (trailing: Option<Trailing>)
        requires
            old(self).wf(),
            old(self)@.state is Some,
        ensures
            final(self).wf(),
            intact(old(self)@) ==> intact(final(self)@),
            match trailing_of(old(self)@) {
                Some((t, m)) => trailing == Some(t) && final(self)@ == m,
                None => trailing is None && final(self)@ == old(self)@,
            },
    {
        let ghost before = self@;
        if !self.text_finished && self.queued_tokens.len() < self.config.options.min_resume_tokens {
            return None;
        }
        if let Some(token) = self.queued_tokens.pop_front() {
            proof {
                assert(before.queued.drop_first() =~= before.queued.subrange(
                    1,
                    before.queued.len() as int,
                ));
            }
            return Some(Trailing::Token(token));
        }
        if self.eos_pending {
            self.eos_pending = false;
            self.eos_consumed = true;
            return Some(Trailing::Eos);
        }
        if self.text_finished || self.eos_consumed {
            return Some(Trailing::Pad);
        }
        None
    }
}

/// The result of a stream that ends now.
pub open spec fn finished(m: TextModel) -> CodesModel {
    match m.state {
        Some(s) => CodesModel {
            codes: s.codes,
            frames: s.codes.len() as int / s.config.code_groups as int,
            ended: s.ended,
        },
        None => no_codes(),
    }
}

/// The state of the models behind the prefill.
pub open spec fn first_state(config: TextStreamConfig, prefill_steps: usize, semantic: i32)
    -> RolloutModel {
    RolloutModel {
        config: RolloutConfig {
            eos: config.eos,
            code_groups: config.code_groups,
            max_frames: config.max_frames,
            prefill_steps,
            uses_history: config.uses_history,
        },
        semantic,
        history: Seq::empty(),
        codes: Seq::empty(),
        frame: 0,
        ended: false,
    }
}

/// The state of the models, where they have one.
pub open spec fn state_of(m: TextModel) -> RolloutModel {
    m.state->0
}

/// The chunk and the request have room for another frame.
pub open spec fn has_room(m: TextModel, run: ChunkRun) -> bool {
    run.produced < run.max_frames && state_of(m).frame < m.config.max_frames
}

/// The model with another state of the models.
pub open spec fn with_state(m: TextModel, state: RolloutModel) -> TextModel {
    TextModel { state: Some(state), ..m }
}

impl HipTextStream {
    /// Opens a chunk; `None` where no more frames can follow.
    pub fn begin_chunk(&self, max_chunk_frames: usize) -> (run: Option<ChunkRun>)
        requires
            self.wf(),
            max_chunk_frames > 0,
        ensures
            match run {
                None => self@.state is None || rollout::at_end(state_of(self@)),
                Some(r) => {
                    &&& self@.state is Some
                    &&& !rollout::at_end(state_of(self@))
                    &&& r == (ChunkRun {
                        max_frames: max_chunk_frames,
                        start: state_of(self@).codes.len() as usize,
                        produced: 0,
                    })
                    &&& r.start == state_of(self@).codes.len()
                },
            },
    {
        match &self.state {
            None => None,
            Some(state) => match state.begin_chunk(max_chunk_frames) {
                Ok(run) => run,
                Err(_) => None,
            },
        }
    }

    /// What is to be done next for a chunk: a frame is predicted while there is room for it
    /// and its semantic token does not end the speech. Where another frame may follow, text
    /// for its step is taken first; without any, the chunk is closed.
    pub fn next_frame(&mut self, run: &ChunkRun) -> (action: TextFrameAction)
        requires
            old(self).wf(),
            old(self)@.state is Some,
        ensures
            final(self).wf(),
            intact(old(self)@) ==> intact(final(self)@),
            final(self)@.state is Some,
            ({
                let m = old(self)@;
                let s = state_of(m);
                if !has_room(m, *run) {
                    action is Close && final(self)@ == m
                } else if rollout::sees_eos(s) {
                    action is Close && final(self)@ == with_state(m, rollout::closed(s))
                } else if !rollout::needs_decode(s) {
                    action == TextFrameAction::Predict(None) && final(self)@ == m
                } else {
                    match trailing_of(m) {
                        Some((t, after)) => action == TextFrameAction::Predict(Some(t))
                            && final(self)@ == after,
                        None => action is Close && final(self)@ == m,
                    }
                }
            }),
    {
        match self.state.take() {
            None => TextFrameAction::Close,
            Some(mut state) => {
                let action = state.next_action(run);
                let last: bool = state.frame >= self.config.max_frames || state.frame + 1
                    >= self.config.max_frames;
                self.state = Some(state);
                match action {
                    FrameAction::Close => TextFrameAction::Close,
                    FrameAction::Predict => {
                        if last {
                            TextFrameAction::Predict(None)
                        } else {
                            match self.next_trailing() {
                                Some(trailing) => TextFrameAction::Predict(Some(trailing)),
                                None => TextFrameAction::Close,
                            }
                        }
                    },
                }
            },
        }
    }

    /// Takes the acoustic codes of the frame. Where another frame may follow, its semantic
    /// token is asked for; otherwise the frame is complete.
    pub fn accept_acoustic(&mut self, run: &mut ChunkRun, acoustic: &[i32]) -> (request: Option<
        DecodeRequest,
    >)
        requires
            old(self).wf(),
            old(self)@.state is Some,
            has_room(old(self)@, *old(run)),
        ensures
            final(self).wf(),
            intact(old(self)@) ==> intact(final(self)@),
            final(run).max_frames == old(run).max_frames,
            final(run).start == old(run).start,
            final(run).produced == old(run).produced + 1,
            ({
                let m = old(self)@;
                let s = state_of(m);
                if rollout::needs_decode(s) {
                    &&& final(self)@ == with_state(m, rollout::emitted(s, acoustic@))
                    &&& request == Some(rollout::request_of(s))
                } else {
                    &&& final(self)@ == with_state(
                        m,
                        rollout::advanced(rollout::emitted(s, acoustic@), s.semantic),
                    )
                    &&& request is None
                }
            }),
    {
        match self.state.take() {
            None => None,
            Some(mut state) => {
                let request = state.accept_acoustic(run, acoustic);
                self.state = Some(state);
                request
            },
        }
    }

    /// Takes the semantic token of the next frame, which completes the current one.
    pub fn accept_semantic(&mut self, semantic: i32)
        requires
            old(self).wf(),
            old(self)@.state is Some,
            state_of(old(self)@).frame < old(self)@.config.max_frames,
        ensures
            final(self).wf(),
            intact(old(self)@) ==> intact(final(self)@),
            final(self)@ == with_state(
                old(self)@,
                rollout::advanced(state_of(old(self)@), semantic),
            ),
    {
        match self.state.take() {
            None => {},
            Some(mut state) => {
                state.accept_semantic(semantic);
                self.state = Some(state);
            },
        }
    }

    /// Closes a chunk; `None` where it added no codes.
    pub fn close_chunk(&mut self, run: &ChunkRun) -> (chunk: Option<GeneratedCodesChunk>)
        requires
            old(self).wf(),
            old(self)@.state is Some,
            run.start <= state_of(old(self)@).codes.len(),
        ensures
            final(self).wf(),
            intact(old(self)@) ==> intact(final(self)@),
            final(self)@ == with_state(old(self)@, rollout::closed(state_of(old(self)@))),
            match chunk {
                None => state_of(old(self)@).codes.len() == run.start,
                Some(c) => chunk_of(state_of(old(self)@), run.start as int, c),
            },
    {
        match self.state.take() {
            None => None,
            Some(mut state) => {
                let chunk = state.close_chunk(run);
                self.state = Some(state);
                chunk
            },
        }
    }

    /// What is to be done with the codes of a chunk that `close_chunk` or `begin_chunk`
    /// gave.
    pub fn end_audio(&mut self, chunk: Option<GeneratedCodesChunk>) -> (outcome: ChunkOutcome)
        requires
            old(self).wf(),
        ensures
            final(self).wf(),
            intact(old(self)@) ==> intact(final(self)@),
            match chunk {
                Some(c) => outcome == ChunkOutcome::Decode(c) && final(self)@ == old(self)@,
                None => if old(self)@.state matches Some(s) && rollout::at_end(s) {
                    &&& outcome matches ChunkOutcome::Finished(codes) && codes@ == finished(
                        old(self)@,
                    )
                    &&& final(self)@ == (TextModel {
                        done: Some(finished(old(self)@)),
                        ..old(self)@
                    })
                } else {
                    outcome is NeedMoreText && final(self)@ == old(self)@
                },
            },
    {
        match chunk {
            Some(chunk) => ChunkOutcome::Decode(chunk),
            None => {
                if self.is_generation_finished() {
                    ChunkOutcome::Finished(self.finish_codes())
                } else {
                    ChunkOutcome::NeedMoreText
                }
            },
        }
    }

    /// The next chunk of at most `max_chunk_frames` frames, where the models answer as
    /// `outcomes` say; `None` where no frame follows, or none can without more text.
    pub fn next_codes_chunk(&mut self, max_chunk_frames: usize, outcomes: &Vec<FrameOutcome>)
        -> (chunk: Option<GeneratedCodesChunk>)
        requires
            old(self).wf(),
            max_chunk_frames > 0,
            outcomes@.len() >= max_chunk_frames,
        ensures
            final(self).wf(),
            intact(old(self)@) ==> intact(final(self)@),
            ({
                let m = old(self)@;
                let s = state_of(m);
                if m.state is None || rollout::at_end(s) {
                    chunk is None && final(self)@ == m
                } else {
                    let script = rollout::script_of(outcomes@, s.frame);
                    let end = text_played(m, script, max_chunk_frames as nat);
                    &&& final(self)@ == with_state(end, rollout::closed(state_of(end)))
                    &&& match chunk {
                        None => state_of(end).codes.len() == s.codes.len(),
                        Some(c) => chunk_of(state_of(end), s.codes.len() as int, c),
                    }
                }
            }),
            old(self)@.text_finished && old(self)@.state is Some && chunk is None
                ==> rollout::at_end(state_of(final(self)@)),
    {
        let mut run: ChunkRun = match self.begin_chunk(max_chunk_frames) {
            None => {
                return None;
            },
            Some(run) => run,
        };
        let ghost m = self@;
        let ghost s = state_of(m);
        let ghost script = rollout::script_of(outcomes@, s.frame);
        let ghost end = text_played(m, script, max_chunk_frames as nat);
        proof {
            if m.text_finished {
                finished_text_fills_chunks(m, script, max_chunk_frames as nat);
            }
        }
        let mut going: bool = true;
        while going
            invariant
                self.wf(),
                self@.state is Some,
                outcomes@.len() >= max_chunk_frames,
                script == rollout::script_of(outcomes@, s.frame),
                run.start == s.codes.len(),
                run.max_frames == max_chunk_frames,
                run.produced <= run.max_frames,
                s.codes.len() <= state_of(self@).codes.len(),
                state_of(self@).frame == s.frame + run.produced,
                going ==> text_played(
                    self@,
                    script,
                    (max_chunk_frames - run.produced) as nat,
                ) == end,
                !going ==> with_state(self@, rollout::closed(state_of(self@))) == with_state(
                    end,
                    rollout::closed(state_of(end)),
                ),
                !going ==> same_chunk(state_of(self@), state_of(end)),
            decreases max_chunk_frames - run.produced + (if going {
                1int
            } else {
                0int
            }),
        {
            match self.next_frame(&run) {
                TextFrameAction::Close => {
                    going = false;
                },
                TextFrameAction::Predict(_) => {
                    let index: usize = run.produced;
                    let request = self.accept_acoustic(
                        &mut run,
                        outcomes[index].acoustic.as_slice(),
                    );
                    if request.is_some() {
                        self.accept_semantic(outcomes[index].semantic);
                    }
                },
            }
        }
        self.close_chunk(&run)
    }
}

/// Two states of the models give the same chunk.
pub open spec fn same_chunk(a: RolloutModel, b: RolloutModel) -> bool {
    &&& a.codes == b.codes
    &&& a.frame == b.frame
    &&& a.config == b.config
    &&& rollout::closed(a).ended == rollout::closed(b).ended
}

/// `c` has the codes from number `start` on.
pub open spec fn chunk_of(s: RolloutModel, start: int, c: GeneratedCodesChunk) -> bool {
    rollout::chunk_of(s, start, c)
}

/// The text that is left once the next frame has taken its part of it; `None` where the
/// frame must wait.
pub open spec fn text_taken(m: TextModel) -> Option<TextModel> {
    if !rollout::needs_decode(state_of(m)) {
        Some(m)
    } else {
        match trailing_of(m) {
            Some((_, after)) => Some(after),
            None => None,
        }
    }
}

/// The model behind at most `left` more frames: fewer where the speech or the request
/// ends, or where text is missing.
pub open spec fn text_played(m: TextModel, script: Script, left: nat) -> TextModel
    decreases left,
{
    let s = state_of(m);
    if left == 0 || s.frame >= m.config.max_frames || rollout::sees_eos(s) {
        m
    } else {
        match text_taken(m) {
            None => m,
            Some(after) => {
                let (acoustic, semantic) = script(s.frame);
                text_played(
                    with_state(after, rollout::framed(s, acoustic, semantic)),
                    script,
                    (left - 1) as nat,
                )
            },
        }
    }
}

/// Once all text is there, a stream on incoming text never waits: the models run just as
/// they do on a fixed text.
pub proof fn finished_text_never_waits(m: TextModel, script: Script, left: nat)
    requires
        m.text_finished,
        m.state is Some,
        state_of(m).config.max_frames == m.config.max_frames,
    ensures
        state_of(text_played(m, script, left)) == rollout::played(state_of(m), script, left),
    decreases left,
{
    let s = state_of(m);
    if left == 0 || s.frame >= m.config.max_frames || rollout::sees_eos(s) {
    } else {
        let (acoustic, semantic) = script(s.frame);
        let after = text_taken(m)->0;
        finished_text_never_waits(
            with_state(after, rollout::framed(s, acoustic, semantic)),
            script,
            (left - 1) as nat,
        );
    }
}

/// A stream that has all its text and has given nothing up always has an answer to a call
/// for audio other than to wait: it has ended, it generates, it starts, or it ends without
/// any text.
pub proof fn finished_text_starts_or_ends(m: TextModel)
    requires
        in_order(m),
        intact(m),
        m.text_finished,
    ensures
        m.done is Some || m.state is Some || can_start(m) || is_silent(m),
{
}

/// A chunk that is asked for once all text is there has frames, or the speech is over
/// behind it: the stream does not ask for more text.
pub proof fn finished_text_fills_chunks(m: TextModel, script: Script, left: nat)
    requires
        m.text_finished,
        m.state is Some,
        state_of(m).config.max_frames == m.config.max_frames,
        !rollout::at_end(state_of(m)),
        left > 0,
    ensures
        ({
            let end = state_of(text_played(m, script, left));
            end.codes.len() > state_of(m).codes.len() || rollout::at_end(rollout::closed(end))
        }),
{
    let s = state_of(m);
    finished_text_never_waits(m, script, left);
    if !rollout::sees_eos(s) {
        let (acoustic, semantic) = script(s.frame);
        rollout::lemma_played_appends(
            rollout::framed(s, acoustic, semantic),
            script,
            (left - 1) as nat,
        );
    }
}

/// Frames that are asked for in two goes, without text in between, are the frames that are
/// asked for in one.
pub proof fn text_played_in_parts(m: TextModel, script: Script, a: nat, b: nat)
    ensures
        text_played(text_played(m, script, a), script, b) == text_played(m, script, a + b),
    decreases a,
{
    let s = state_of(m);
    if a == 0 {
        assert(text_played(m, script, 0) == m);
    } else if s.frame >= m.config.max_frames || rollout::sees_eos(s) || text_taken(m) is None {
        assert(text_played(m, script, a) == m);
        assert(text_played(m, script, b) == m);
    } else {
        let (acoustic, semantic) = script(s.frame);
        let after = text_taken(m)->0;
        text_played_in_parts(
            with_state(after, rollout::framed(s, acoustic, semantic)),
            script,
            (a - 1) as nat,
            b,
        );
    }
}

/// The text that goes into the steps of at most `left` more frames, in order.
pub open spec fn fed(m: TextModel, script: Script, left: nat) -> Seq<Trailing>
    decreases left,
{
    let s = state_of(m);
    if left == 0 || s.frame >= m.config.max_frames || rollout::sees_eos(s) || text_taken(
        m,
    ) is None {
        Seq::empty()
    } else {
        let (acoustic, semantic) = script(s.frame);
        let next = with_state(text_taken(m)->0, rollout::framed(s, acoustic, semantic));
        let rest = fed(next, script, (left - 1) as nat);
        if rollout::needs_decode(s) {
            seq![(trailing_of(m)->0).0] + rest
        } else {
            rest
        }
    }
}

/// Entry `i` of the text that a stream has to give: its queued tokens, the token that ends
/// the text where it is due, and padding.
pub open spec fn due(m: TextModel, i: int) -> Trailing {
    if i < m.queued.len() {
        Trailing::Token(m.queued[i])
    } else if i == m.queued.len() && m.eos_pending {
        Trailing::Eos
    } else {
        Trailing::Pad
    }
}

/// The queued tokens go into the steps in their order, each exactly once; the token that
/// ends the text follows them, at most once, and padding follows that. What no step has
/// taken stays queued.
pub proof fn text_is_fed_in_order(m: TextModel, script: Script, left: nat)
    requires
        m.state is Some,
    ensures
        ({
            let given = fed(m, script, left);
            let end = text_played(m, script, left);
            let taken = if given.len() <= m.queued.len() {
                given.len() as int
            } else {
                m.queued.len() as int
            };
            &&& forall|i: int| 0 <= i < given.len() ==> #[trigger] given[i] == due(m, i)
            &&& end.queued == m.queued.skip(taken)
            &&& given.len() > m.queued.len() ==> !end.eos_pending
            &&& given.len() <= m.queued.len() ==> end.eos_pending == m.eos_pending
        }),
    decreases left,
{
    let s = state_of(m);
    let given = fed(m, script, left);
    assert(m.queued.skip(0) =~= m.queued);
    if left == 0 || s.frame >= m.config.max_frames || rollout::sees_eos(s) || text_taken(
        m,
    ) is None {
    } else {
        let (acoustic, semantic) = script(s.frame);
        let next = with_state(text_taken(m)->0, rollout::framed(s, acoustic, semantic));
        let rest = fed(next, script, (left - 1) as nat);
        text_is_fed_in_order(next, script, (left - 1) as nat);
        if rollout::needs_decode(s) {
            assert(given == seq![(trailing_of(m)->0).0] + rest);
            assert forall|i: int| 0 <= i < given.len() implies #[trigger] given[i] == due(m, i) by {
                if i > 0 {
                    assert(given[i] == rest[i - 1]);
                    assert(rest[i - 1] == due(next, i - 1));
                }
            }
            if m.queued.len() > 0 {
                let taken = if rest.len() <= next.queued.len() {
                    rest.len() as int
                } else {
                    next.queued.len() as int
                };
                assert(m.queued.drop_first().skip(taken) =~= m.queued.skip(taken + 1));
            } else {
                assert(next.queued == m.queued);
            }
        } else {
            assert(given == rest);
        }
    }
}

/// Text that comes in two pieces is handed to the tokenizer up to the same place as text
/// that comes in one.
pub proof fn pushes_add_up(
    m: TextModel,
    a: Seq<char>,
    b: Seq<char>,
    first: Seq<char>,
    between: Seq<char>,
    second: Seq<char>,
    rest: Seq<char>,
)
    requires
        cut(m, a, first, between),
        cut(TextModel { pending: between, ..m }, b, second, rest),
    ensures
        cut(m, a + b, first + second, rest),
{
    let flush = m.config.options.flush_on_punctuation;
    let left = m.pending + a;
    let middle = between + b;
    let whole = m.pending + (a + b);
    assert(whole =~= left + b);
    assert(left == first + between);
    assert(whole =~= first + middle);
    assert(whole =~= (first + second) + rest);
    let n = first.len() as int;
    assert forall|i: int| 0 <= i < between.len() implies !words::cuts(
        #[trigger] between[i],
        flush,
    ) by {
        assert(left[n + i] == between[i]);
    }
    assert forall|i: int| 0 <= i < middle.len() implies whole[n + i] == #[trigger] middle[i] by {}
    if words::is_unbroken(middle, flush) {
        assert(first + second =~= first);
        assert forall|i: int| n <= i < whole.len() implies !words::cuts(
            #[trigger] whole[i],
            flush,
        ) by {
            assert(whole[i] == middle[i - n]);
        }
        if n > 0 {
            assert(whole[n - 1] == left[n - 1]);
            assert(words::is_stable(whole, flush, n));
            assert(words::cuts(whole[n - 1], flush));
        }
    } else {
        let k = second.len() as int;
        assert(whole[n + k - 1] == middle[k - 1]);
        assert(words::cuts(whole[n + k - 1], flush));
        assert forall|i: int| n + k <= i < whole.len() implies !words::cuts(
            #[trigger] whole[i],
            flush,
        ) by {
            assert(whole[i] == middle[i - n]);
        }
        assert(words::is_stable(whole, flush, n + k));
    }
}

} // verus!
