//! Options, rollouts, streams, audio chunks and WAV files.

use qwen3_tts_hip::codec::initial::HipCodecInitial;
use qwen3_tts_hip::device::op::{Op, Operand};
use qwen3_tts_hip::error::Error;
use qwen3_tts_hip::generation::audio::{
    audio_chunk, audio_window, frames_of_codes, grown_capacity, trailing_rows, AudioWindow,
};
use qwen3_tts_hip::generation::cache::grow_cache;
use qwen3_tts_hip::generation::engine::{HipTtsEngine, ModelFacts};
use qwen3_tts_hip::generation::options::{
    EngineOptions, GenerateOptions, Language, Speaker, StreamOptions, TextStreamOptions,
    DEFAULT_PENALTY, DEFAULT_STREAM_LEFT_CONTEXT_FRAMES, NINE_TENTHS, ONE, SAMPLE_RATE,
};
use qwen3_tts_hip::generation::rollout::{
    rollout, ChunkRun, FrameAction, FrameOutcome, GeneratedCodes, GeneratedCodesChunk, HipTtsStream,
    Rollout, RolloutConfig,
};
use qwen3_tts_hip::generation::text_stream::{
    AudioStep, ChunkOutcome, HipTextStream, TextFrameAction, TextStreamConfig, Trailing,
};
use qwen3_tts_hip::wav::{samples_to_pcm16_bytes, to_wav_bytes};

const EOS: i32 = 99;

fn message<T>(result: Result<T, Error>) -> String {
    match result {
        Ok(_) => panic!("expected an error"),
        Err(e) => e.message(),
    }
}

#[test]
fn defaults_are_those_of_the_model() {
    let o = GenerateOptions::default();
    assert_eq!((o.speaker, o.language, o.max_frames), (Speaker::Ryan, Language::English, 240));
    assert!(o.decode_audio && o.do_sample && o.subtalker_dosample);
    assert_eq!((o.top_k, o.subtalker_top_k, o.seed), (50, 50, 0));
    assert_eq!(f32::from_bits(o.top_p), 1.0);
    assert_eq!(f32::from_bits(o.temperature), 0.9);
    assert_eq!(f32::from_bits(o.repetition_penalty), 1.05);
    assert_eq!(f32::from_bits(o.subtalker_temperature), 0.9);
    assert_eq!((ONE, NINE_TENTHS, DEFAULT_PENALTY), (1.0f32.to_bits(), 0.9f32.to_bits(), 1.05f32.to_bits()));
    assert_eq!(o.initial_rng_state(), 0x9e37_79b9_7f4a_7c15);
    let seeded = GenerateOptions { seed: 5, ..o };
    assert_eq!(seeded.initial_rng_state(), 5 ^ 0x9e37_79b9_7f4a_7c15);
    let e = EngineOptions::default();
    assert_eq!((e.device, e.max_cache_steps), (0, 512));
    let s = StreamOptions::default();
    assert_eq!((s.text_lookahead_tokens, s.left_context_frames), (8, 25));
    let t = TextStreamOptions::default();
    assert_eq!((t.min_start_tokens, t.min_resume_tokens, t.flush_on_punctuation), (8, 1, true));
    // A frame is 1920 samples, or 80 milliseconds.
    assert_eq!(1920 * 1000 / SAMPLE_RATE, 80);
}

#[test]
fn options_are_checked() {
    let good = GenerateOptions::default();
    assert!(good.validate(Ok(()), Ok(())).is_ok());
    let o = GenerateOptions { max_frames: 0, ..good };
    assert_eq!(message(o.validate(Ok(()), Ok(()))), "invalid input: max_frames must be non-zero");
    for penalty in [0.0f32, -0.0, -1.5, f32::NEG_INFINITY] {
        let o = GenerateOptions { repetition_penalty: penalty.to_bits(), ..good };
        assert_eq!(
            message(o.validate(Ok(()), Ok(()))),
            "invalid input: repetition_penalty must be positive"
        );
    }
    for penalty in [f32::MIN_POSITIVE, 1.0, f32::INFINITY, f32::NAN, -f32::NAN] {
        assert_eq!(penalty <= 0.0, false);
        let o = GenerateOptions { repetition_penalty: penalty.to_bits(), ..good };
        assert!(o.validate(Ok(()), Ok(())).is_ok());
    }
    let bad = |text: &str| Err(Error::InvalidInput(text.to_string()));
    assert_eq!(message(good.validate(bad("talker"), bad("sub"))), "invalid input: talker");
    assert_eq!(message(good.validate(Ok(()), bad("sub"))), "invalid input: sub");
    let t = good.talker_sampling();
    assert_eq!((t.do_sample, t.top_k, t.temperature), (true, 50, NINE_TENTHS));
    let s = GenerateOptions { subtalker_top_k: 3, ..good }.subtalker_sampling();
    assert_eq!(s.top_k, 3);
    assert!(good.uses_history());
    let greedy = GenerateOptions { do_sample: false, ..good };
    assert!(greedy.uses_history());
    assert!(!GenerateOptions { repetition_penalty: ONE, ..greedy }.uses_history());
    assert_eq!(
        message(StreamOptions { text_lookahead_tokens: 0, left_context_frames: 1 }.validate()),
        "invalid input: text_lookahead_tokens must be non-zero"
    );
    let t = TextStreamOptions::default();
    assert!(t.validate().is_ok());
    assert_eq!(
        message(TextStreamOptions { min_start_tokens: 0, ..t }.validate()),
        "invalid input: min_start_tokens must be non-zero"
    );
    assert_eq!(
        message(TextStreamOptions { min_resume_tokens: 0, ..t }.validate()),
        "invalid input: min_resume_tokens must be non-zero"
    );
}

fn facts() -> ModelFacts {
    ModelFacts {
        code_groups: 16,
        codec_eos_token: EOS,
        predictor_talker_hidden: 1024,
        talker_hidden: 1024,
    }
}

#[test]
fn engines_are_loaded_and_grow() {
    let mut engine = HipTtsEngine::load(2, &facts()).unwrap_or_else(|e| panic!("{}", e.message()));
    assert_eq!((engine.device, engine.cache_steps, engine.code_groups), (2, 512, 16));
    assert!(engine.reserve(512) && engine.cache_steps == 512);
    assert!(engine.reserve(513) && engine.cache_steps == 1024);
    assert!(engine.reserve(5000) && engine.cache_steps == 8192);
    assert!(!engine.reserve(usize::MAX) && engine.cache_steps == 8192);
    let engine = HipTtsEngine::load_with_max_frames(0, 240, &facts());
    assert!(matches!(engine, Ok(e) if e.cache_steps == 496));
    assert_eq!(
        message(HipTtsEngine::load_with_max_frames(0, 0, &facts())),
        "invalid input: max_frames must be non-zero"
    );
    let none = EngineOptions { device: 0, max_cache_steps: 0 };
    assert_eq!(
        message(HipTtsEngine::load_with_options(&none, &facts())),
        "invalid input: max_cache_steps must be non-zero"
    );
    let other = ModelFacts { predictor_talker_hidden: 512, ..facts() };
    assert_eq!(
        message(HipTtsEngine::load(0, &other)),
        "invalid input: CodePredictor talker hidden 512 does not match talker hidden 1024"
    );
}

#[test]
fn caches_double_until_they_are_large_enough() {
    assert_eq!(grown_capacity(512, 1), Some(512));
    assert_eq!(grown_capacity(3, 25), Some(48));
    assert_eq!(grown_capacity(1, usize::MAX), None);
    // Two heads of two entries, two steps out of three kept, room for five.
    let copies = grow_cache(2, 2, 2, 3, 5);
    let old: Vec<u32> = (0..12).collect();
    let mut new = vec![100u32; 20];
    for c in &copies {
        new[c.destination..c.destination + c.len].copy_from_slice(&old[c.source..c.source + c.len]);
    }
    for h in 0..2 {
        for s in 0..2 {
            for d in 0..2 {
                assert_eq!(new[(h * 5 + s) * 2 + d], old[(h * 3 + s) * 2 + d]);
            }
        }
    }
    assert_eq!(new.iter().filter(|v| **v == 100).count(), 12);
}

fn outcomes(semantics: &[i32]) -> Vec<FrameOutcome> {
    semantics
        .iter()
        .enumerate()
        .map(|(i, s)| FrameOutcome { acoustic: vec![10 * i as i32, 10 * i as i32 + 1], semantic: *s })
        .collect()
}

fn config(max_frames: usize) -> RolloutConfig {
    RolloutConfig { eos: EOS, code_groups: 3, max_frames, prefill_steps: 7, uses_history: true }
}

#[test]
fn rollouts_end_with_the_speech_or_the_request() {
    let all = rollout(config(4), 1, &outcomes(&[2, 3, EOS, 5]));
    assert_eq!(all.codes, [1, 0, 1, 2, 10, 11, 3, 20, 21]);
    assert_eq!((all.frames, all.ended_by_eos), (3, true));
    let all = rollout(config(2), 1, &outcomes(&[2, EOS]));
    assert_eq!(all.codes, [1, 0, 1, 2, 10, 11]);
    assert_eq!((all.frames, all.ended_by_eos), (2, false));
    let all = rollout(config(2), EOS, &outcomes(&[2, 3]));
    assert_eq!((all.codes.len(), all.frames, all.ended_by_eos), (0, 0, true));
}

#[test]
fn mixed_chunk_sizes_do_not_change_the_codes() {
    for script in [[2, 3, 4, 5, 6, EOS, 8, 9], [2, 3, 4, 5, 6, 7, 8, 9]] {
        let whole = rollout(config(8), 1, &outcomes(&script));
        for sizes in [vec![1usize, 3, 2, 8], vec![5, 1, 1, 1], vec![7, 7], vec![2, 1, 9, 4]] {
            let mut stream = HipTtsStream { text: String::new(), rollout: Rollout::new(config(8), 1) };
            let mut codes = Vec::new();
            for size in sizes {
                let rest: Vec<FrameOutcome> =
                    outcomes(&script).drain(stream.rollout.frame..).collect();
                match stream.next_codes_chunk(size, &rest) {
                    Ok(Some(chunk)) => codes.extend(chunk.codes),
                    Ok(None) => {}
                    Err(e) => panic!("{}", e.message()),
                }
            }
            assert_eq!(codes, whole.codes);
            let all = stream.finish_codes();
            assert_eq!((all.codes, all.ended_by_eos), (whole.codes.clone(), whole.ended_by_eos));
        }
    }
}

#[test]
fn more_room_only_adds_frames() {
    let script = [2, 3, 4, 5, EOS, 7, 8, 9];
    let mut before = Vec::new();
    for max_frames in 1..9usize {
        let all = rollout(config(max_frames), 1, &outcomes(&script));
        assert!(all.codes.starts_with(&before));
        assert_eq!(all.frames, max_frames.min(5));
        assert_eq!(all.ended_by_eos, max_frames > 5);
        before = all.codes;
    }
}

#[test]
fn every_frame_has_its_samples() {
    let engine = HipTtsEngine::load(0, &facts()).unwrap_or_else(|e| panic!("{}", e.message()));
    let codec = HipCodecInitial { tensors: vec![] };
    for frames in 1..4usize {
        let plans = match engine.decode_codes(&codec, &vec![1; 16 * frames]) {
            Ok(Some(plans)) => plans,
            other => panic!("{:?}", other.is_ok()),
        };
        let lens: Vec<usize> = plans
            .decoder
            .ops
            .iter()
            .filter_map(|op| if let Op::Alloc { len } = op { Some(*len) } else { None })
            .collect();
        assert_eq!(plans.decoder_outputs.waveform, Operand::Scratch(71));
        assert_eq!((lens.len(), lens[71]), (72, 1920 * frames));
    }
}

#[test]
fn chunk_sizes_do_not_change_the_codes() {
    let script = [2, 3, 4, 5, 6, EOS, 8, 9];
    let whole = rollout(config(8), 1, &outcomes(&script));
    for chunk in 1..9usize {
        let mut stream = HipTtsStream { text: "t".to_string(), rollout: Rollout::new(config(8), 1) };
        assert_eq!(stream.text(), "t");
        let mut codes = Vec::new();
        let mut ended = false;
        loop {
            let from = stream.rollout.frame;
            let rest: Vec<FrameOutcome> = outcomes(&script).drain(from..).collect();
            match stream.next_codes_chunk(chunk, &rest) {
                Ok(Some(c)) => {
                    assert!(c.frames <= chunk && c.codes.len() == 3 * c.frames);
                    codes.extend_from_slice(&c.codes);
                    assert_eq!(c.total_frames * 3, codes.len());
                    ended = c.ended_by_eos;
                }
                Ok(None) => break,
                Err(e) => panic!("{}", e.message()),
            }
        }
        assert_eq!(codes, whole.codes);
        assert_eq!(ended, whole.ended_by_eos);
        let all = stream.finish_codes();
        assert_eq!((all.codes, all.frames), (whole.codes.clone(), whole.frames));
    }
    let mut stream = HipTtsStream { text: String::new(), rollout: Rollout::new(config(8), 1) };
    assert_eq!(
        message(stream.next_codes_chunk(0, &vec![])),
        "invalid input: max_chunk_frames must be non-zero"
    );
}

#[test]
fn frames_are_generated_step_by_step() {
    let mut r = Rollout::new(config(3), 1);
    let mut run = match r.begin_chunk(2) {
        Ok(Some(run)) => run,
        other => panic!("{:?}", other),
    };
    assert_eq!(run, ChunkRun { max_frames: 2, start: 0, produced: 0 });
    assert_eq!(r.next_action(&run), FrameAction::Predict);
    let request = r.accept_acoustic(&mut run, &[5, 6]);
    assert!(matches!(request, Some(q) if q.position == 7 && q.frame == 0 && q.uses_history));
    r.accept_semantic(2);
    assert_eq!(r.semantic_history, [1]);
    assert_eq!(r.next_action(&run), FrameAction::Predict);
    r.accept_acoustic(&mut run, &[7, 8]);
    r.accept_semantic(EOS);
    assert_eq!(r.next_action(&run), FrameAction::Close);
    let chunk = r.close_chunk(&run);
    assert!(matches!(chunk, Some(c) if c.codes == [1, 5, 6, 2, 7, 8] && c.ended_by_eos));
    assert!(matches!(r.begin_chunk(2), Ok(None)));
    assert_eq!(r.all_codes().frames, 2);
}

fn text_config(max_frames: usize) -> TextStreamConfig {
    TextStreamConfig {
        options: TextStreamOptions {
            min_start_tokens: 3,
            min_resume_tokens: 2,
            flush_on_punctuation: true,
        },
        text_lookahead_tokens: 2,
        max_frames,
        code_groups: 3,
        eos: EOS,
        uses_history: false,
    }
}

#[test]
fn incoming_text_is_cut_at_words() {
    let mut s = HipTextStream::new(text_config(4));
    assert!(matches!(s.push_text("Hel"), Ok(None)));
    assert!(matches!(s.push_text("lo wor"), Ok(Some(t)) if t == "Hello "));
    assert!(matches!(s.push_text("ld. And"), Ok(Some(t)) if t == "world. "));
    assert_eq!(s.finish_text(), Some("And".to_string()));
    assert!(!s.text_finished);
    assert_eq!(s.finish_text(), None);
    assert!(s.text_finished && s.eos_pending);
    assert_eq!(s.finish_text(), None);
    assert_eq!(message(s.push_text("x")), "invalid input: cannot push text after finish_text");
}

#[test]
fn pieces_of_text_add_up() {
    let text = "One, two three\u{3000}four! five";
    let chars: Vec<char> = text.chars().collect();
    let mut whole = HipTextStream::new(text_config(4));
    let expected = whole.push_text(text).unwrap_or(None).unwrap_or_default();
    for size in 1..chars.len() {
        let mut s = HipTextStream::new(text_config(4));
        let mut handed = String::new();
        for piece in chars.chunks(size) {
            let piece: String = piece.iter().collect();
            if let Ok(Some(part)) = s.push_text(&piece) {
                handed.push_str(&part);
            }
        }
        assert_eq!(handed, expected);
        assert_eq!(s.pending_text, whole.pending_text);
    }
}

#[test]
fn streams_start_with_enough_text() {
    let mut s = HipTextStream::new(text_config(4));
    assert_eq!(message(s.begin_audio(0)), "invalid input: max_chunk_frames must be non-zero");
    assert!(matches!(s.begin_audio(2), Ok(AudioStep::NeedMoreText)));
    s.enqueue_tokens(&[11, 12]);
    assert!(matches!(s.begin_audio(2), Ok(AudioStep::NeedMoreText)));
    s.enqueue_tokens(&[13, 14, 15]);
    assert!(matches!(s.begin_audio(2), Ok(AudioStep::Prefill(t)) if t == [11, 12]));
    s.started(7, 1);
    assert!(matches!(s.begin_audio(2), Ok(AudioStep::Generate)));
    s.abandon();
    assert!(s.state.is_none());
    // With all text there, fewer tokens are enough.
    let mut s = HipTextStream::new(text_config(4));
    s.enqueue_tokens(&[11]);
    s.finish_text();
    assert!(matches!(s.begin_audio(2), Ok(AudioStep::Prefill(t)) if t == [11]));
    // Without any text there is nothing to say.
    let mut s = HipTextStream::new(text_config(4));
    s.finish_text();
    assert!(matches!(s.begin_audio(2), Ok(AudioStep::Finished(c)) if c.codes.is_empty() && !c.ended_by_eos));
    assert!(matches!(s.begin_audio(2), Ok(AudioStep::Finished(c)) if c.frames == 0));
}

#[test]
fn finished_text_never_waits() {
    for tokens in 0..7u32 {
        let mut s = HipTextStream::new(text_config(8));
        s.enqueue_tokens(&(0..tokens).collect::<Vec<u32>>());
        s.finish_text();
        assert!(s.eos_pending && !s.eos_consumed);
        let script = [2, 3, 4, 5, EOS, 7, 8, 9];
        for _ in 0..9 {
            match s.begin_audio(2) {
                Ok(AudioStep::Finished(_)) => break,
                Ok(AudioStep::Prefill(_)) => s.started(7, 1),
                Ok(AudioStep::Generate) => {}
                other => panic!("{:?}", other),
            }
            let from = s.state.as_ref().map(|r| r.frame).unwrap_or(0);
            let rest: Vec<FrameOutcome> = outcomes(&script).drain(from..).collect();
            let chunk = s.next_codes_chunk(2, &rest);
            assert!(!matches!(s.end_audio(chunk), ChunkOutcome::NeedMoreText));
        }
        let frames = s.finished_codes.as_ref().map(|c| c.frames);
        assert_eq!(frames, Some(if tokens == 0 { 0 } else { 5 }));
    }
}

#[test]
fn engines_give_the_codes_of_their_rollouts() {
    let engine = HipTtsEngine { code_groups: 3, codec_eos_token: EOS, ..tts_engine() };
    let options = GenerateOptions { max_frames: 4, ..GenerateOptions::default() };
    let script = outcomes(&[2, 3, EOS, 5]);
    let codes = engine.generate_codes(&options, Ok(()), 7, 1, &script);
    let codes = codes.unwrap_or_else(|e| panic!("{}", e.message()));
    assert_eq!(codes.codes, [1, 0, 1, 2, 10, 11, 3, 20, 21]);
    assert_eq!((codes.frames, codes.ended_by_eos), (3, true));
    let refused = Err(Error::InvalidInput("no".to_string()));
    assert_eq!(message(engine.generate_codes(&options, refused, 7, 1, &script)), "invalid input: no");
}

fn tts_engine() -> HipTtsEngine {
    HipTtsEngine::load(0, &facts()).unwrap_or_else(|e| panic!("{}", e.message()))
}

#[test]
fn text_is_fed_in_order_and_waited_for() {
    let mut s = HipTextStream::new(text_config(8));
    s.enqueue_tokens(&[11, 12, 13, 14, 15]);
    assert!(matches!(s.begin_audio(9), Ok(AudioStep::Prefill(_))));
    s.started(7, 1);
    assert_eq!(s.next_trailing(), Some(Trailing::Token(13)));
    assert_eq!(s.next_trailing(), Some(Trailing::Token(14)));
    assert_eq!(s.next_trailing(), None);
    s.finish_text();
    assert_eq!(s.next_trailing(), Some(Trailing::Token(15)));
    assert_eq!(s.next_trailing(), Some(Trailing::Eos));
    assert_eq!(s.next_trailing(), Some(Trailing::Pad));
    assert_eq!(s.next_trailing(), Some(Trailing::Pad));
}

#[test]
fn finished_text_gives_the_codes_of_a_fixed_text() {
    let script = [2, 3, 4, EOS, 6, 7, 8, 9];
    let whole = rollout(config(8), 1, &outcomes(&script));
    let mut s = HipTextStream::new(text_config(8));
    s.enqueue_tokens(&[11, 12, 13]);
    s.finish_text();
    assert!(matches!(s.begin_audio(3), Ok(AudioStep::Prefill(_))));
    s.started(7, 1);
    let mut codes = Vec::new();
    loop {
        let from = s.state.as_ref().map(|r| r.frame).unwrap_or(0);
        let rest: Vec<FrameOutcome> = outcomes(&script).drain(from..).collect();
        let chunk = s.next_codes_chunk(3, &rest);
        match s.end_audio(chunk) {
            ChunkOutcome::Decode(c) => codes.extend_from_slice(&c.codes),
            ChunkOutcome::Finished(all) => {
                assert_eq!(all.codes, codes);
                assert!(all.ended_by_eos);
                break;
            }
            ChunkOutcome::NeedMoreText => panic!("all text is there"),
        }
    }
    assert_eq!(codes, whole.codes);
    assert!(matches!(s.begin_audio(3), Ok(AudioStep::Finished(c)) if c.codes == whole.codes));
}

#[test]
fn chunks_wait_for_text() {
    let mut s = HipTextStream::new(text_config(8));
    s.enqueue_tokens(&[11, 12, 13, 14]);
    assert!(matches!(s.begin_audio(9), Ok(AudioStep::Prefill(_))));
    s.started(7, 1);
    let script = outcomes(&[2, 3, 4, 5, 6, 7, 8, 9]);
    let chunk = s.next_codes_chunk(8, &script);
    assert!(matches!(s.end_audio(chunk), ChunkOutcome::Decode(c) if c.frames == 1));
    let chunk = s.next_codes_chunk(8, &script);
    assert!(matches!(s.end_audio(chunk), ChunkOutcome::NeedMoreText));
    let mut run = match s.begin_chunk(1) {
        Some(run) => run,
        None => panic!("frames can follow"),
    };
    assert_eq!(s.next_frame(&run), TextFrameAction::Close);
    s.enqueue_tokens(&[15]);
    assert_eq!(s.next_frame(&run), TextFrameAction::Predict(Some(Trailing::Token(14))));
    let request = s.accept_acoustic(&mut run, &[1, 2]);
    assert!(matches!(request, Some(q) if q.position == 8 && !q.uses_history));
    s.accept_semantic(3);
    assert!(matches!(s.close_chunk(&run), Some(c) if c.total_frames == 2));
    assert!(!s.is_generation_finished());
}

#[test]
fn streams_are_started_by_the_engine() {
    let engine = HipTtsEngine::load(0, &facts()).unwrap_or_else(|e| panic!("{}", e.message()));
    let options = GenerateOptions::default();
    let stream = engine.start_stream("hi", &options, 9, 4);
    assert_eq!(stream.text(), "hi");
    assert_eq!(stream.rollout.config.prefill_steps, 9);
    assert_eq!((stream.rollout.semantic, stream.rollout.config.eos), (4, EOS));
    let t = TextStreamOptions::default();
    assert!(engine.start_text_stream(&options, Ok(()), &t, 8).is_ok());
    let bad = TextStreamOptions { min_resume_tokens: 0, ..t };
    assert_eq!(
        message(engine.start_text_stream(&options, Ok(()), &bad, 8)),
        "invalid input: min_resume_tokens must be non-zero"
    );
    let refused = Err(Error::InvalidInput("x".to_string()));
    assert_eq!(message(engine.start_text_stream(&options, refused, &bad, 8)), "invalid input: x");
}

#[test]
fn audio_windows_tile_the_samples() {
    let first = audio_window(6, 6, 16, 25);
    assert_eq!(
        first,
        AudioWindow { decode_start: 0, decode_end: 96, context_frames: 0, context_samples: 0 }
    );
    let later = audio_window(6, 60, 16, DEFAULT_STREAM_LEFT_CONTEXT_FRAMES);
    assert_eq!(
        later,
        AudioWindow {
            decode_start: 29 * 16,
            decode_end: 60 * 16,
            context_frames: 25,
            context_samples: 25 * 1920,
        }
    );
    let decoded: Vec<u32> = (0..31 * 1920).collect();
    let codes = GeneratedCodesChunk {
        codes: vec![],
        frames: 6,
        total_frames: 60,
        ended_by_eos: true,
    };
    let chunk = audio_chunk(&codes, &later, &decoded);
    assert_eq!(chunk.samples.len(), 6 * 1920);
    assert_eq!(chunk.samples[0], 25 * 1920);
    assert_eq!((chunk.sample_rate, chunk.frames, chunk.total_frames), (24000, 6, 60));
    assert!(chunk.ended_by_eos);
    assert_eq!(audio_chunk(&codes, &later, &decoded[..10]).samples.len(), 0);
}

#[test]
fn codes_are_whole_frames() {
    assert!(matches!(frames_of_codes(&[0; 32], 16), Ok(2)));
    assert_eq!(
        message(frames_of_codes(&[0; 33], 16)),
        "invalid input: code length 33 is not divisible by 16"
    );
    let engine = HipTtsEngine::load(0, &facts()).unwrap_or_else(|e| panic!("{}", e.message()));
    let codec = HipCodecInitial { tensors: vec![] };
    assert!(matches!(engine.decode_codes(&codec, &[]), Ok(None)));
    let plans = match engine.decode_codes(&codec, &[1; 48]) {
        Ok(Some(plans)) => plans,
        other => panic!("{:?}", other.is_ok()),
    };
    assert_eq!(plans.frames, 3);
    assert_eq!(plans.upsample_outputs.frames_1, 12);
    assert_eq!(plans.decoder_outputs.frames_4, 3 * 1920);
    assert!(engine.decode_codes(&codec, &[1; 47]).is_err());
    let odd = HipTtsEngine { code_groups: 8, ..engine };
    assert_eq!(
        message(odd.decode_codes(&codec, &[1; 24])),
        "invalid input: codes length 24 does not match frames*groups 48"
    );
}

#[test]
fn trailing_text_is_padded() {
    let rows = trailing_rows(&[1, 2, 3, 4, 5], &[8, 9], 3, 2);
    assert_eq!(rows, vec![vec![1, 2], vec![3, 4], vec![8, 9]]);
}

#[test]
fn speech_is_put_together() {
    let options = GenerateOptions::default();
    let codes = GeneratedCodes { codes: vec![1, 2, 3], frames: 1, ended_by_eos: true };
    assert!(HipTtsEngine::decodes(&options, &codes));
    assert!(!HipTtsEngine::decodes(&GenerateOptions { decode_audio: false, ..options }, &codes));
    let none = GeneratedCodes { codes: vec![], frames: 0, ended_by_eos: true };
    assert!(!HipTtsEngine::decodes(&options, &none));
    let silent = GenerateOptions { decode_audio: false, ..options };
    let same = || GeneratedCodes { codes: vec![1, 2, 3], frames: 1, ended_by_eos: true };
    assert!(HipTtsEngine::generate("t", &silent, same(), vec![7]).samples.is_empty());
    assert!(HipTtsEngine::generate("t", &options, none, vec![7]).samples.is_empty());
    let speech = HipTtsEngine::generate("t", &options, codes, vec![7]);
    assert_eq!((speech.text.as_str(), speech.frames, speech.sample_rate), ("t", 1, 24000));
    assert_eq!((speech.codes.clone(), speech.samples.clone()), (vec![1, 2, 3], vec![7]));
    assert_eq!(speech.to_wav_bytes(&[5]).map(|b| b.len()).unwrap_or(0), 46);
}

#[test]
fn wav_files_are_read_back() {
    let samples = [0i16, 1, -1, 255, 256, i16::MAX, i16::MIN, -300];
    let bytes = to_wav_bytes(&samples, 24_000).unwrap_or_default();
    assert_eq!(bytes.len(), 44 + 16);
    assert_eq!(&bytes[..4], b"RIFF");
    assert_eq!(bytes[4..8], 52u32.to_le_bytes());
    assert_eq!(&bytes[8..16], b"WAVEfmt ");
    assert_eq!(bytes[28..32], 48_000u32.to_le_bytes());
    assert_eq!(bytes[40..44], 16u32.to_le_bytes());
    let mut reader = match hound::WavReader::new(bytes.as_slice()) {
        Ok(reader) => reader,
        Err(e) => panic!("{}", e),
    };
    let spec = reader.spec();
    assert_eq!((spec.channels, spec.sample_rate, spec.bits_per_sample), (1, 24_000, 16));
    let read: Vec<i16> = reader.samples::<i16>().map(|s| s.unwrap_or(77)).collect();
    assert_eq!(read, samples);
    let pcm = samples_to_pcm16_bytes(&samples);
    assert_eq!(pcm, bytes[44..]);
    assert_eq!(to_wav_bytes(&[], 8000).unwrap_or_default().len(), 44);
}
