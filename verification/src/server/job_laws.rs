//! What the fields of a form, the paths of the server and the headers of its answers are for.

use vstd::prelude::*;

use crate::error::Error;
use crate::generation::options::{self, Language, Speaker};
use crate::numbers;
use crate::scan;
use crate::server::form::{self, FieldModel};
use crate::server::jobs::{self, Figures, GenerationRequest, JobFault, ParsedFields, Route, Spoken};
use crate::text;

verus! {

/// A count that a form may hold: the one that its field writes, or the usual one.
pub open spec fn holds_count(
    form: Seq<FieldModel>,
    name: Seq<char>,
    usual: usize,
    count: usize,
) -> bool {
    match form::lookup(form, name) {
        None => count == usual,
        Some(value) => value == text::decimal(count as nat),
    }
}

/// A switch that a form may hold: the one that its field writes, or the usual one.
pub open spec fn holds_switch(
    form: Seq<FieldModel>,
    name: Seq<char>,
    usual: bool,
    on: bool,
) -> bool {
    match form::lookup(form, name) {
        None => on == usual,
        Some(value) => if on {
            value == "1"@ || value == "true"@ || value == "yes"@ || value == "on"@
        } else {
            value == "0"@ || value == "false"@ || value == "no"@ || value == "off"@
        },
    }
}

/// A floating-point number that a form may hold, by its bits.
pub open spec fn holds_number(taken: Option<Result<u32, String>>, usual: u32, bits: u32) -> bool {
    match taken {
        None => bits == usual,
        Some(Ok(b)) => b == bits,
        Some(Err(_)) => false,
    }
}

proof fn lemma_count(form: Seq<FieldModel>, name: Seq<char>, usual: usize, count: usize)
    requires
        holds_count(form, name, usual, count),
    ensures
        jobs::count_in(form, name, usual) == Ok::<usize, Seq<char>>(count),
{
    numbers::numerals_are_read_back(count as nat, usize::MAX as nat);
}

proof fn lemma_switch(form: Seq<FieldModel>, name: Seq<char>, usual: bool, on: bool)
    requires
        holds_switch(form, name, usual, on),
    ensures
        jobs::switch_in(form, name, usual) == Ok::<bool, Seq<char>>(on),
{
    switches_are_read(name);
}

/// A switch is on for a one, a true, a yes or an on, and off for a zero, a false, a no or an
/// off, whatever the case of their letters.
pub proof fn switches_are_read(value: Seq<char>)
    ensures
        numbers::switch_of(numbers::lowered(value)) == numbers::switch_of(value),
        numbers::switch_of("1"@) == Some(true),
        numbers::switch_of("true"@) == Some(true),
        numbers::switch_of("yes"@) == Some(true),
        numbers::switch_of("on"@) == Some(true),
        numbers::switch_of("0"@) == Some(false),
        numbers::switch_of("false"@) == Some(false),
        numbers::switch_of("no"@) == Some(false),
        numbers::switch_of("off"@) == Some(false),
        numbers::switch_of("TRUE"@) == Some(true),
        numbers::switch_of("Off"@) == Some(false),
        numbers::switch_of(""@) is None,
        numbers::switch_of("2"@) is None,
{
    assert(numbers::lowered(numbers::lowered(value)) =~= numbers::lowered(value));
    reveal_strlit("1");
    reveal_strlit("true");
    reveal_strlit("yes");
    reveal_strlit("on");
    reveal_strlit("0");
    reveal_strlit("false");
    reveal_strlit("no");
    reveal_strlit("off");
    reveal_strlit("TRUE");
    reveal_strlit("Off");
    reveal_strlit("");
    reveal_strlit("2");
    assert(numbers::lowered("1"@) =~= "1"@);
    assert(numbers::lowered("true"@) =~= "true"@);
    assert(numbers::lowered("yes"@) =~= "yes"@);
    assert(numbers::lowered("on"@) =~= "on"@);
    assert(numbers::lowered("0"@) =~= "0"@);
    assert(numbers::lowered("false"@) =~= "false"@);
    assert(numbers::lowered("no"@) =~= "no"@);
    assert(numbers::lowered("off"@) =~= "off"@);
    assert(numbers::lowered("TRUE"@) =~= "true"@);
    assert(numbers::lowered("Off"@) =~= "off"@);
    assert(numbers::lowered(""@) =~= ""@);
    assert(numbers::lowered("2"@) =~= "2"@);
    assert("2"@[0] == '2' && "1"@[0] == '1' && "0"@[0] == '0');
    let zero = "0"@;
    assert("1"@[0] != zero[0]);
    assert("on"@[1] == 'n' && "no"@[1] == 'o');
    assert("true"@.len() == 4 && "yes"@.len() == 3 && "on"@.len() == 2 && "false"@.len() == 5
        && "no"@.len() == 2 && "off"@.len() == 3 && "1"@.len() == 1 && "0"@.len() == 1);
    assert("yes"@[0] == 'y' && "off"@[0] == 'o');
}

/// Every option of a request comes from the field of its own name, and has its usual value
/// where the form lacks the field; a form whose fields can all be read and used is accepted.
pub proof fn options_come_from_their_own_fields(
    form: Seq<FieldModel>,
    taken: ParsedFields,
    has_prompt: bool,
    job: GenerationRequest,
)
    requires
        scan::trimmed(
            match form::lookup(form, "text"@) {
                Some(value) => value,
                None => "She said she would be here by noon."@,
            },
        ) == job.text@,
        job.text@.len() > 0,
        holds_count(form, "max_frames"@, 120, job.options.max_frames),
        job.options.max_frames > 0,
        match taken.speaker {
            None => job.options.speaker == Speaker::Ryan,
            Some(Ok(speaker)) => job.options.speaker == speaker,
            Some(Err(_)) => false,
        },
        match taken.language {
            None => job.options.language == Language::English,
            Some(Ok(language)) => job.options.language == language,
            Some(Err(_)) => false,
        },
        !job.options.decode_audio,
        holds_number(taken.wav_gain, 0x3f80_0000, job.wav_gain),
        holds_number(taken.repetition_penalty, 0x3f86_6666, job.options.repetition_penalty),
        job.options.repetition_penalty != 0,
        job.options.repetition_penalty < 0x8000_0000,
        holds_switch(form, "do_sample"@, true, job.options.do_sample),
        holds_count(form, "top_k"@, 50, job.options.top_k),
        holds_number(taken.top_p, 0x3f80_0000, job.options.top_p),
        holds_number(taken.temperature, 0x3f66_6666, job.options.temperature),
        holds_switch(form, "subtalker_dosample"@, true, job.options.subtalker_dosample),
        holds_count(form, "subtalker_top_k"@, 50, job.options.subtalker_top_k),
        holds_number(taken.subtalker_top_p, 0x3f80_0000, job.options.subtalker_top_p),
        holds_number(taken.subtalker_temperature, 0x3f66_6666, job.options.subtalker_temperature),
        match form::lookup(form, "seed"@) {
            None => job.options.seed == 0,
            Some(value) => value == text::decimal(job.options.seed as nat),
        },
        holds_count(
            form,
            "text_lookahead_tokens"@,
            8,
            job.stream_options.text_lookahead_tokens,
        ),
        job.stream_options.text_lookahead_tokens > 0,
        holds_count(form, "stream_chunk_frames"@, 6, job.stream_chunk_frames),
        job.stream_chunk_frames > 0,
        holds_count(form, "left_context_frames"@, 25, job.stream_options.left_context_frames),
        holds_switch(form, "use_voice_clone"@, false, job.use_voice_clone),
        job.use_voice_clone ==> has_prompt,
    ensures
        jobs::is_job(job, form, taken),
        forall|i: int|
            0 <= i < jobs::faults(form, taken, has_prompt).len() ==> #[trigger] jobs::faults(
                form,
                taken,
                has_prompt,
            )[i] is None,
{
    let o = job.options;
    lemma_count(form, "max_frames"@, 120, o.max_frames);
    lemma_count(form, "top_k"@, 50, o.top_k);
    lemma_count(form, "subtalker_top_k"@, 50, o.subtalker_top_k);
    lemma_count(form, "text_lookahead_tokens"@, 8, job.stream_options.text_lookahead_tokens);
    lemma_count(form, "stream_chunk_frames"@, 6, job.stream_chunk_frames);
    lemma_count(form, "left_context_frames"@, 25, job.stream_options.left_context_frames);
    lemma_switch(form, "do_sample"@, true, o.do_sample);
    lemma_switch(form, "subtalker_dosample"@, true, o.subtalker_dosample);
    lemma_switch(form, "use_voice_clone"@, false, job.use_voice_clone);
    numbers::numerals_are_read_back(o.seed as nat, u64::MAX as nat);
    assert(job.options == jobs::options_in(form, taken));
}

/// The first thing that is wrong with a request decides its error, and what each of them is:
/// no text, no frames, no such voice or language, a penalty that is not positive, no tokens
/// to look ahead, chunks without frames, a voice to clone where there is none.
pub proof fn unusable_fields_are_refused(
    form: Seq<FieldModel>,
    taken: ParsedFields,
    has_prompt: bool,
    e: Error,
)
    ensures
        ({
            let all = jobs::faults(form, taken, has_prompt);
            let says = |i: int, why: Seq<char>| all[i] == Some(JobFault::Text(why));
            &&& all.len() == 19
            &&& form::lookup(form, "text"@) == Some(""@) ==> says(0, "text must not be empty"@)
            &&& form::lookup(form, "max_frames"@) == Some(text::decimal(0)) ==> says(
                1,
                "max_frames must be non-zero"@,
            )
            &&& taken.speaker == Some(Err::<Speaker, Error>(e)) ==> all[2] == Some(
                JobFault::Reader(e),
            )
            &&& taken.language == Some(Err::<Language, Error>(e)) ==> all[3] == Some(
                JobFault::Reader(e),
            )
            &&& taken.repetition_penalty == Some(Ok::<u32, String>(0)) ==> says(
                5,
                "repetition_penalty must be positive"@,
            )
            &&& form::lookup(form, "text_lookahead_tokens"@) == Some(text::decimal(0)) ==> says(
                15,
                "text_lookahead_tokens must be non-zero"@,
            )
            &&& form::lookup(form, "stream_chunk_frames"@) == Some(text::decimal(0)) ==> says(
                16,
                "stream_chunk_frames must be non-zero"@,
            )
            &&& form::lookup(form, "use_voice_clone"@) == Some("true"@) && !has_prompt ==> says(
                18,
                "voice clone mode requires starting the server with voice_clone_prompt_json"@,
            )
        }),
{
    numbers::numerals_are_read_back(0, usize::MAX as nat);
    switches_are_read(Seq::empty());
    reveal_strlit("");
}

/// A penalty is positive unless it is zero or its sign is minus; what is no number passes.
pub proof fn penalties_must_be_positive(bits: u32)
    ensures
        options::not_positive(0),
        0 < bits < 0x8000_0000 ==> !options::not_positive(bits),
        bits >= 0x8000_0000 && bits - 0x8000_0000 <= 0x7f80_0000 ==> options::not_positive(bits),
        bits >= 0x8000_0000 && bits - 0x8000_0000 > 0x7f80_0000 ==> !options::not_positive(bits),
{
}

/// What an engine does where it is told nothing: it speaks English as Ryan for at most 240
/// frames, samples from the fifty best tokens at a temperature of nine tenths with a
/// penalty of five hundredths on repeated ones, and decodes what it has generated.
pub proof fn requests_have_usual_options()
    ensures
        ({
            let o = options::default_options();
            &&& o.speaker == Speaker::Ryan && o.language == Language::English
            &&& o.max_frames == 240 && o.decode_audio && o.seed == 0
            &&& o.do_sample && o.top_k == 50
            &&& o.top_p == 0x3f80_0000 && o.temperature == 0x3f66_6666
            &&& o.repetition_penalty == 0x3f86_6666
            &&& o.subtalker_dosample && o.subtalker_top_k == 50
            &&& o.subtalker_top_p == 0x3f80_0000 && o.subtalker_temperature == 0x3f66_6666
            &&& o.fault() is None
            &&& options::SAMPLE_RATE == 24_000
            &&& options::DEFAULT_MAX_CACHE_STEPS == 512
            &&& options::DEFAULT_PREFILL_HEADROOM == 256
            &&& options::DEFAULT_STREAM_LEFT_CONTEXT_FRAMES == 25
            &&& options::DEFAULT_TEXT_LOOKAHEAD_TOKENS == 8
        }),
{
}

/// The server has a page, a health check and an icon to get, and speech to post for, whole
/// or as a stream; it has nothing else, whatever the method.
pub proof fn the_server_has_five_paths(method: Seq<char>, path: Seq<char>)
    ensures
        jobs::route_of("GET"@, "/"@) == Route::Index,
        jobs::route_of("GET"@, "/health"@) == Route::Health,
        jobs::route_of("GET"@, "/favicon.ico"@) == Route::Favicon,
        jobs::route_of("POST"@, "/api/generate"@) == Route::Generate,
        jobs::route_of("POST"@, "/api/stream"@) == Route::Stream,
        method != "GET"@ && method != "POST"@ ==> jobs::route_of(method, path) == Route::NotFound,
        method == "GET"@ && path != "/"@ && path != "/health"@ && path != "/favicon.ico"@
            ==> jobs::route_of(method, path) == Route::NotFound,
        method == "POST"@ && path != "/api/generate"@ && path != "/api/stream"@ ==> jobs::route_of(
            method,
            path,
        ) == Route::NotFound,
{
    reveal_strlit("GET");
    reveal_strlit("POST");
    reveal_strlit("/");
    reveal_strlit("/health");
    reveal_strlit("/favicon.ico");
    reveal_strlit("/api/generate");
    reveal_strlit("/api/stream");
    assert("GET"@.len() == 3 && "POST"@.len() == 4);
    assert("/"@.len() == 1 && "/health"@.len() == 7 && "/favicon.ico"@.len() == 12);
    assert("/api/generate"@.len() == 13 && "/api/stream"@.len() == 11);
}

/// The headers of an answer with a WAV file show each figure under its own name.
pub proof fn answers_show_their_figures(
    figures: Figures,
    speech: Spoken,
    o: options::GenerateOptions,
)
    ensures
        ({
            let headers = jobs::wav_headers(figures, speech, o);
            let shows = |name: Seq<char>, value: Seq<char>| headers.contains((name, value));
            let count = |n: usize| text::decimal(n as nat);
            &&& headers.len() == 26
            &&& shows("Content-Type"@, "audio/wav"@)
            &&& shows("Cache-Control"@, "no-store"@)
            &&& shows("X-TTS-Load-Seconds"@, figures.load_seconds@)
            &&& shows("X-TTS-Generation-Seconds"@, figures.generation_seconds@)
            &&& shows("X-TTS-Decode-Seconds"@, figures.decode_seconds@)
            &&& shows("X-TTS-Wav-Seconds"@, figures.wav_seconds@)
            &&& shows(
                "X-TTS-Time-To-First-Audio-Seconds"@,
                figures.time_to_first_audio_seconds@,
            )
            &&& shows("X-TTS-Inference-Seconds"@, figures.inference_seconds@)
            &&& shows("X-TTS-Audio-Seconds"@, figures.audio_seconds@)
            &&& shows("X-TTS-Generation-RTF"@, figures.generation_rtf@)
            &&& shows("X-TTS-Decode-RTF"@, figures.decode_rtf@)
            &&& shows("X-TTS-Inference-RTF"@, figures.inference_rtf@)
            &&& shows("X-TTS-Frames"@, count(speech.frames))
            &&& shows("X-TTS-Samples"@, count(speech.samples))
            &&& shows(
                "X-TTS-Ended-By-EOS"@,
                if speech.ended_by_eos {
                    "true"@
                } else {
                    "false"@
                },
            )
            &&& shows(
                "X-TTS-Voice-Clone"@,
                if speech.voice_clone {
                    "true"@
                } else {
                    "false"@
                },
            )
            &&& shows("X-TTS-Repetition-Penalty"@, figures.repetition_penalty@)
            &&& shows(
                "X-TTS-Do-Sample"@,
                if o.do_sample {
                    "true"@
                } else {
                    "false"@
                },
            )
            &&& shows("X-TTS-Top-K"@, count(o.top_k))
            &&& shows("X-TTS-Top-P"@, figures.top_p@)
            &&& shows("X-TTS-Temperature"@, figures.temperature@)
            &&& shows(
                "X-TTS-Subtalker-Do-Sample"@,
                if o.subtalker_dosample {
                    "true"@
                } else {
                    "false"@
                },
            )
            &&& shows("X-TTS-Subtalker-Top-K"@, count(o.subtalker_top_k))
            &&& shows("X-TTS-Subtalker-Top-P"@, figures.subtalker_top_p@)
            &&& shows("X-TTS-Subtalker-Temperature"@, figures.subtalker_temperature@)
            &&& shows("X-TTS-Seed"@, text::decimal(o.seed as nat))
        }),
{
    let h = jobs::wav_headers(figures, speech, o);
    assert forall|i: int| 0 <= i < h.len() implies h.contains(#[trigger] h[i]) by {}
    assert(h.contains(h[0]) && h.contains(h[1]) && h.contains(h[2]) && h.contains(h[3])
        && h.contains(h[4]) && h.contains(h[5]) && h.contains(h[6]) && h.contains(h[7])
        && h.contains(h[8]) && h.contains(h[9]) && h.contains(h[10]) && h.contains(h[11])
        && h.contains(h[12]));
    assert(h.contains(h[13]) && h.contains(h[14]) && h.contains(h[15]) && h.contains(h[16])
        && h.contains(h[17]) && h.contains(h[18]) && h.contains(h[19]) && h.contains(h[20])
        && h.contains(h[21]) && h.contains(h[22]) && h.contains(h[23]) && h.contains(h[24])
        && h.contains(h[25]));
}

/// The headers of a stream say how its samples are to be played and what was asked for.
pub proof fn streams_say_how_they_are_played(job: GenerationRequest)
    ensures
        ({
            let headers = jobs::stream_headers(job);
            let shows = |name: Seq<char>, value: Seq<char>| headers.contains((name, value));
            &&& headers.len() == 8
            &&& shows("Content-Type"@, "application/octet-stream"@)
            &&& shows("Cache-Control"@, "no-store"@)
            &&& shows("X-TTS-Sample-Rate"@, text::decimal(24_000))
            &&& shows("X-TTS-Sample-Format"@, "s16le"@)
            &&& shows("X-TTS-Chunk-Frames"@, text::decimal(job.stream_chunk_frames as nat))
            &&& shows(
                "X-TTS-Text-Lookahead-Tokens"@,
                text::decimal(job.stream_options.text_lookahead_tokens as nat),
            )
            &&& shows(
                "X-TTS-Left-Context-Frames"@,
                text::decimal(job.stream_options.left_context_frames as nat),
            )
            &&& shows(
                "X-TTS-Voice-Clone"@,
                if job.use_voice_clone {
                    "true"@
                } else {
                    "false"@
                },
            )
        }),
{
    let h = jobs::stream_headers(job);
    assert(h.contains(h[0]) && h.contains(h[1]) && h.contains(h[2]) && h.contains(h[3])
        && h.contains(h[4]) && h.contains(h[5]) && h.contains(h[6]) && h.contains(h[7]));
}

/// Only a request that says that it carries a form is taken for one, whatever it says behind
/// that.
pub proof fn forms_are_announced(headers: Seq<FieldModel>, behind: Seq<char>)
    ensures
        form::lookup(headers, "content-type"@) == Some(
            "application/x-www-form-urlencoded"@ + behind,
        ) ==> jobs::carries_form(headers),
        form::lookup(headers, "content-type"@) is None ==> !jobs::carries_form(headers),
        form::lookup(headers, "content-type"@) == Some("application/json"@)
            ==> !jobs::carries_form(headers),
{
    let start = "application/x-www-form-urlencoded"@;
    assert((start + behind).take(start.len() as int) =~= start);
    reveal_strlit("application/x-www-form-urlencoded");
    reveal_strlit("application/json");
    assert("application/json"@.len() == 16 && start.len() == 33);
}

} // verus!
