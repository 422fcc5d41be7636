//! What the server is asked to speak, and how it answers.

use vstd::prelude::*;

use crate::error::{self, invalid, Error};
use crate::generation::engine::GeneratedSpeech;
use crate::generation::options::{
    self, GenerateOptions, Language, Speaker, StreamOptions, DEFAULT_PENALTY,
    DEFAULT_STREAM_LEFT_CONTEXT_FRAMES, DEFAULT_TEXT_LOOKAHEAD_TOKENS, NINE_TENTHS, ONE,
    SAMPLE_RATE,
};
use crate::server::form::{self, field, Field, FieldModel};
use crate::numbers::{self, invalid_value, parse_bool, parse_u64, parse_usize};
use crate::scan::{self, begins, trim};
use crate::server::request::Request;
use crate::server::response::{self, text_response, Response};
use crate::text::{self, chars_of, push_decimal, push_usize, same_text};
use crate::wav;

verus! {

/// The frames of a chunk where a request names no number.
pub const DEFAULT_STREAM_CHUNK_FRAMES: usize = 6;

/// The frames of a request that names no number.
pub const DEFAULT_REQUEST_FRAMES: usize = 120;

/// The number of best tokens that are sampled from where a request names none.
pub const DEFAULT_TOP_K: usize = 50;

/// What a request asks for.
#[derive(Debug)]
pub struct GenerationRequest {
    pub text: String,
    pub options: GenerateOptions,
    pub stream_options: StreamOptions,
    /// The bits of the gain.
    pub wav_gain: u32,
    pub stream_chunk_frames: usize,
    pub use_voice_clone: bool,
}

/// The fields of a form that hold voices, languages and floating-point numbers, each as
/// its reader took it; `None` where the form lacks the field. Numbers are given by their
/// bits, faults of numbers by their text.
#[derive(Debug)]
pub struct ParsedFields {
    pub speaker: Option<Result<Speaker, Error>>,
    pub language: Option<Result<Language, Error>>,
    pub wav_gain: Option<Result<u32, String>>,
    pub repetition_penalty: Option<Result<u32, String>>,
    pub top_p: Option<Result<u32, String>>,
    pub temperature: Option<Result<u32, String>>,
    pub subtalker_top_p: Option<Result<u32, String>>,
    pub subtalker_temperature: Option<Result<u32, String>>,
}

/// The texts of a form for the readers of voices, languages and floating-point numbers;
/// `None` where the form lacks the field.
#[derive(Debug)]
pub struct ReaderTexts {
    pub speaker: Option<String>,
    pub language: Option<String>,
    pub wav_gain: Option<String>,
    pub repetition_penalty: Option<String>,
    pub top_p: Option<String>,
    pub temperature: Option<String>,
    pub subtalker_top_p: Option<String>,
    pub subtalker_temperature: Option<String>,
}

/// `text` is what the form holds under `name`.
pub open spec fn is_field(text: Option<String>, form: Seq<FieldModel>, name: Seq<char>) -> bool {
    match (text, form::lookup(form, name)) {
        (Some(t), Some(value)) => t@ == value,
        (None, None) => true,
        _ => false,
    }
}

/// Every reader gets the field of its name.
pub open spec fn are_texts(texts: ReaderTexts, form: Seq<FieldModel>) -> bool {
    &&& is_field(texts.speaker, form, "speaker"@)
    &&& is_field(texts.language, form, "language"@)
    &&& is_field(texts.wav_gain, form, "wav_gain"@)
    &&& is_field(texts.repetition_penalty, form, "repetition_penalty"@)
    &&& is_field(texts.top_p, form, "top_p"@)
    &&& is_field(texts.temperature, form, "temperature"@)
    &&& is_field(texts.subtalker_top_p, form, "subtalker_top_p"@)
    &&& is_field(texts.subtalker_temperature, form, "subtalker_temperature"@)
}

fn field_text(form: &Vec<Field>, name: &str) -> (text: Option<String>)
    ensures
        is_field(text, form::fields_model(form@), name@),
{
    match field(form, name) {
        None => None,
        Some(value) => Some(value.to_owned()),
    }
}

/// The texts of a form that are to be read as voices, languages and floating-point numbers.
pub fn texts_to_read(form: &Vec<Field>) -> (texts: ReaderTexts)
    ensures
        are_texts(texts, form::fields_model(form@)),
{
    ReaderTexts {
        speaker: field_text(form, "speaker"),
        language: field_text(form, "language"),
        wav_gain: field_text(form, "wav_gain"),
        repetition_penalty: field_text(form, "repetition_penalty"),
        top_p: field_text(form, "top_p"),
        temperature: field_text(form, "temperature"),
        subtalker_top_p: field_text(form, "subtalker_top_p"),
        subtalker_temperature: field_text(form, "subtalker_temperature"),
    }
}

/// Why a request cannot be used.
pub enum JobFault {
    /// The text of an error about unusable input.
    Text(Seq<char>),
    /// An error of a reader.
    Reader(Error),
}

/// `e` reports the fault.
pub open spec fn reports(e: Error, fault: JobFault) -> bool {
    match fault {
        JobFault::Text(text) => error::is_invalid(e, text),
        JobFault::Reader(inner) => e == inner,
    }
}

/// The text that is spoken: the one of the form without the white space around it.
pub open spec fn text_in(form: Seq<FieldModel>) -> Seq<char> {
    match form::lookup(form, "text"@) {
        Some(text) => scan::trimmed(text),
        None => scan::trimmed("She said she would be here by noon."@),
    }
}

/// A count in a form.
pub open spec fn count_in(form: Seq<FieldModel>, name: Seq<char>, default: usize) -> Result<
    usize,
    Seq<char>,
> {
    match form::lookup(form, name) {
        None => Ok(default),
        Some(value) => match numbers::parsed(value, usize::MAX as nat) {
            Ok(n) => Ok(n as usize),
            Err(fault) => Err(numbers::invalid_text(name, numbers::fault_text(fault))),
        },
    }
}

/// A seed in a form.
pub open spec fn seed_in(form: Seq<FieldModel>, name: Seq<char>) -> Result<u64, Seq<char>> {
    match form::lookup(form, name) {
        None => Ok(0),
        Some(value) => match numbers::parsed(value, u64::MAX as nat) {
            Ok(n) => Ok(n as u64),
            Err(fault) => Err(numbers::invalid_text(name, numbers::fault_text(fault))),
        },
    }
}

/// A switch in a form.
pub open spec fn switch_in(form: Seq<FieldModel>, name: Seq<char>, default: bool) -> Result<
    bool,
    Seq<char>,
> {
    match form::lookup(form, name) {
        None => Ok(default),
        Some(value) => match numbers::switch_of(value) {
            Some(on) => Ok(on),
            None => Err(numbers::invalid_text(name, numbers::lowered(value))),
        },
    }
}

/// A floating-point number in a form.
pub open spec fn number_in(
    taken: Option<Result<u32, String>>,
    name: Seq<char>,
    default: u32,
) -> Result<u32, Seq<char>> {
    match taken {
        None => Ok(default),
        Some(Ok(bits)) => Ok(bits),
        Some(Err(why)) => Err(numbers::invalid_text(name, why@)),
    }
}

/// The fault of a field that cannot be read.
pub open spec fn fault_in<T>(value: Result<T, Seq<char>>) -> Option<JobFault> {
    match value {
        Ok(_) => None,
        Err(why) => Some(JobFault::Text(why)),
    }
}

/// The fault of a count that cannot be read or is zero.
pub open spec fn zero_fault(value: Result<usize, Seq<char>>, text: Seq<char>) -> Option<JobFault> {
    match value {
        Ok(n) => if n == 0 {
            Some(JobFault::Text(text))
        } else {
            None
        },
        Err(why) => Some(JobFault::Text(why)),
    }
}

/// The fault of a field that a reader took.
pub open spec fn reader_fault<T>(taken: Option<Result<T, Error>>) -> Option<JobFault> {
    match taken {
        Some(Err(e)) => Some(JobFault::Reader(e)),
        _ => None,
    }
}

/// What may be wrong with a request, in the order in which it is looked at.
pub open spec fn faults(form: Seq<FieldModel>, taken: ParsedFields, has_prompt: bool) -> Seq<
    Option<JobFault>,
> {
    seq![
        (if text_in(form).len() == 0 {
            Some(JobFault::Text("text must not be empty"@))
        } else {
            None
        }),
        zero_fault(
            count_in(form, "max_frames"@, DEFAULT_REQUEST_FRAMES),
            "max_frames must be non-zero"@,
        ),
        reader_fault(taken.speaker),
        reader_fault(taken.language),
        fault_in(number_in(taken.wav_gain, "wav_gain"@, ONE)),
        (match number_in(taken.repetition_penalty, "repetition_penalty"@, DEFAULT_PENALTY) {
            Ok(bits) => if options::not_positive(bits) {
                Some(JobFault::Text("repetition_penalty must be positive"@))
            } else {
                None
            },
            Err(why) => Some(JobFault::Text(why)),
        }),
        fault_in(switch_in(form, "do_sample"@, true)),
        fault_in(count_in(form, "top_k"@, DEFAULT_TOP_K)),
        fault_in(number_in(taken.top_p, "top_p"@, ONE)),
        fault_in(number_in(taken.temperature, "temperature"@, NINE_TENTHS)),
        fault_in(switch_in(form, "subtalker_dosample"@, true)),
        fault_in(count_in(form, "subtalker_top_k"@, DEFAULT_TOP_K)),
        fault_in(number_in(taken.subtalker_top_p, "subtalker_top_p"@, ONE)),
        fault_in(number_in(taken.subtalker_temperature, "subtalker_temperature"@, NINE_TENTHS)),
        fault_in(seed_in(form, "seed"@)),
        zero_fault(
            count_in(form, "text_lookahead_tokens"@, DEFAULT_TEXT_LOOKAHEAD_TOKENS),
            "text_lookahead_tokens must be non-zero"@,
        ),
        zero_fault(
            count_in(form, "stream_chunk_frames"@, DEFAULT_STREAM_CHUNK_FRAMES),
            "stream_chunk_frames must be non-zero"@,
        ),
        fault_in(count_in(form, "left_context_frames"@, DEFAULT_STREAM_LEFT_CONTEXT_FRAMES)),
        (match switch_in(form, "use_voice_clone"@, false) {
            Ok(on) => if on && !has_prompt {
                Some(
                    JobFault::Text(
                        "voice clone mode requires starting the server with voice_clone_prompt_json"@,
                    ),
                )
            } else {
                None
            },
            Err(why) => Some(JobFault::Text(why)),
        }),
    ]
}

/// Fault number `i` is the first one, and `e` reports it.
pub open spec fn decided_by(faults: Seq<Option<JobFault>>, i: int, e: Error) -> bool {
    &&& 0 <= i < faults.len()
    &&& faults[i] matches Some(fault) && reports(e, fault)
    &&& forall|j: int| 0 <= j < i ==> #[trigger] faults[j] is None
}

/// The options that a form without faults asks for.
pub open spec fn options_in(form: Seq<FieldModel>, taken: ParsedFields) -> GenerateOptions {
    GenerateOptions {
        speaker: match taken.speaker {
            Some(Ok(speaker)) => speaker,
            _ => Speaker::Ryan,
        },
        language: match taken.language {
            Some(Ok(language)) => language,
            _ => Language::English,
        },
        max_frames: count_in(form, "max_frames"@, DEFAULT_REQUEST_FRAMES)->Ok_0,
        decode_audio: false,
        do_sample: switch_in(form, "do_sample"@, true)->Ok_0,
        top_k: count_in(form, "top_k"@, DEFAULT_TOP_K)->Ok_0,
        top_p: number_in(taken.top_p, "top_p"@, ONE)->Ok_0,
        temperature: number_in(taken.temperature, "temperature"@, NINE_TENTHS)->Ok_0,
        repetition_penalty: number_in(
            taken.repetition_penalty,
            "repetition_penalty"@,
            DEFAULT_PENALTY,
        )->Ok_0,
        subtalker_dosample: switch_in(form, "subtalker_dosample"@, true)->Ok_0,
        subtalker_top_k: count_in(form, "subtalker_top_k"@, DEFAULT_TOP_K)->Ok_0,
        subtalker_top_p: number_in(taken.subtalker_top_p, "subtalker_top_p"@, ONE)->Ok_0,
        subtalker_temperature: number_in(
            taken.subtalker_temperature,
            "subtalker_temperature"@,
            NINE_TENTHS,
        )->Ok_0,
        seed: seed_in(form, "seed"@)->Ok_0,
    }
}

/// `job` is what a form without faults asks for.
pub open spec fn is_job(
    job: GenerationRequest,
    form: Seq<FieldModel>,
    taken: ParsedFields,
) -> bool {
    &&& job.text@ == text_in(form)
    &&& job.options == options_in(form, taken)
    &&& job.stream_options == (StreamOptions {
        text_lookahead_tokens: count_in(
            form,
            "text_lookahead_tokens"@,
            DEFAULT_TEXT_LOOKAHEAD_TOKENS,
        )->Ok_0,
        left_context_frames: count_in(
            form,
            "left_context_frames"@,
            DEFAULT_STREAM_LEFT_CONTEXT_FRAMES,
        )->Ok_0,
    })
    &&& job.wav_gain == number_in(taken.wav_gain, "wav_gain"@, ONE)->Ok_0
    &&& job.stream_chunk_frames == count_in(
        form,
        "stream_chunk_frames"@,
        DEFAULT_STREAM_CHUNK_FRAMES,
    )->Ok_0
    &&& job.use_voice_clone == switch_in(form, "use_voice_clone"@, false)->Ok_0
}

fn read_count(form: &Vec<Field>, name: &str, default: usize) -> (count: Result<usize, Error>)
    ensures
        match (count, count_in(form::fields_model(form@), name@, default)) {
            (Ok(n), Ok(expected)) => n == expected,
            (Err(e), Err(why)) => error::is_invalid(e, why),
            _ => false,
        },
{
    match field(form, name) {
        None => Ok(default),
        Some(value) => parse_usize(value, name),
    }
}

/// A count that must not be zero; `text` is what a user reads where it is.
fn read_positive(form: &Vec<Field>, name: &str, default: usize, text: &str) -> (count: Result<
    usize,
    Error,
>)
    ensures
        ({
            let value = count_in(form::fields_model(form@), name@, default);
            match (count, zero_fault(value, text@)) {
                (Ok(n), None) => value == Ok::<usize, Seq<char>>(n),
                (Err(e), Some(fault)) => reports(e, fault),
                _ => false,
            }
        }),
{
    match read_count(form, name, default) {
        Err(e) => Err(e),
        Ok(n) => {
            if n == 0 {
                Err(invalid(text))
            } else {
                Ok(n)
            }
        },
    }
}

fn read_seed(form: &Vec<Field>, name: &str) -> (seed: Result<u64, Error>)
    ensures
        match (seed, seed_in(form::fields_model(form@), name@)) {
            (Ok(n), Ok(expected)) => n == expected,
            (Err(e), Err(why)) => error::is_invalid(e, why),
            _ => false,
        },
{
    match field(form, name) {
        None => Ok(0),
        Some(value) => parse_u64(value, name),
    }
}

fn read_switch(form: &Vec<Field>, name: &str, default: bool) -> (switch: Result<bool, Error>)
    ensures
        match (switch, switch_in(form::fields_model(form@), name@, default)) {
            (Ok(on), Ok(expected)) => on == expected,
            (Err(e), Err(why)) => error::is_invalid(e, why),
            _ => false,
        },
{
    match field(form, name) {
        None => Ok(default),
        Some(value) => parse_bool(value, name),
    }
}

fn read_number(taken: Option<Result<u32, String>>, name: &str, default: u32) -> (number: Result<
    u32,
    Error,
>)
    ensures
        match (number, number_in(taken, name@, default)) {
            (Ok(bits), Ok(expected)) => bits == expected,
            (Err(e), Err(why)) => error::is_invalid(e, why),
            _ => false,
        },
{
    match taken {
        None => Ok(default),
        Some(Ok(bits)) => Ok(bits),
        Some(Err(why)) => Err(invalid_value(name, why.as_str())),
    }
}

fn read_text(form: &Vec<Field>) -> (text: Result<String, Error>)
    ensures
        match text {
            Ok(t) => t@ == text_in(form::fields_model(form@)) && t@.len() > 0,
            Err(e) => text_in(form::fields_model(form@)).len() == 0 && error::is_invalid(
                e,
                "text must not be empty"@,
            ),
        },
{
    let text: String = match field(form, "text") {
        Some(value) => trim(value),
        None => trim("She said she would be here by noon."),
    };
    if chars_of(text.as_str()).len() == 0 {
        return Err(invalid("text must not be empty"));
    }
    Ok(text)
}

/// What a form asks for. The first fault decides the error. `has_prompt` says whether the
/// server has a voice to clone.
pub fn parse_generation_request(form: &Vec<Field>, taken: ParsedFields, has_prompt: bool) -> (job:
    Result<GenerationRequest, Error>)
    ensures
        match job {
            Ok(job) => {
                let all = faults(form::fields_model(form@), taken, has_prompt);
                &&& forall|i: int| 0 <= i < all.len() ==> #[trigger] all[i] is None
                &&& is_job(job, form::fields_model(form@), taken)
            },
            Err(e) => exists|i: int| #[trigger]
                decided_by(faults(form::fields_model(form@), taken, has_prompt), i, e),
        },
{
    let ghost all = faults(form::fields_model(form@), taken, has_prompt);
    let text: String = match read_text(form) {
        Ok(value) => value,
        Err(e) => {
            assert(decided_by(all, 0, e));
            return Err(e);
        },
    };
    assert(all[0] is None);
    let max_frames: usize = match read_positive(
        form,
        "max_frames",
        DEFAULT_REQUEST_FRAMES,
        "max_frames must be non-zero",
    ) {
        Ok(value) => value,
        Err(e) => {
            assert(decided_by(all, 1, e));
            return Err(e);
        },
    };
    assert(all[1] is None);
    let speaker: Speaker = match taken.speaker {
        None => Speaker::Ryan,
        Some(Ok(speaker)) => speaker,
        Some(Err(e)) => {
            assert(decided_by(all, 2, e));
            return Err(e);
        },
    };
    assert(all[2] is None);
    let language: Language = match taken.language {
        None => Language::English,
        Some(Ok(language)) => language,
        Some(Err(e)) => {
            assert(decided_by(all, 3, e));
            return Err(e);
        },
    };
    assert(all[3] is None);
    let wav_gain: u32 = match read_number(taken.wav_gain, "wav_gain", ONE) {
        Ok(value) => value,
        Err(e) => {
            assert(decided_by(all, 4, e));
            return Err(e);
        },
    };
    assert(all[4] is None);
    let repetition_penalty: u32 = match read_number(
        taken.repetition_penalty,
        "repetition_penalty",
        DEFAULT_PENALTY,
    ) {
        Ok(value) => value,
        Err(e) => {
            assert(decided_by(all, 5, e));
            return Err(e);
        },
    };
    if repetition_penalty == 0 || (0x8000_0000 <= repetition_penalty && repetition_penalty
        <= 0xff80_0000) {
        let e = invalid("repetition_penalty must be positive");
        assert(decided_by(all, 5, e));
        return Err(e);
    }
    assert(all[5] is None);
    let do_sample: bool = match read_switch(form, "do_sample", true) {
        Ok(value) => value,
        Err(e) => {
            assert(decided_by(all, 6, e));
            return Err(e);
        },
    };
    assert(all[6] is None);
    let top_k: usize = match read_count(form, "top_k", DEFAULT_TOP_K) {
        Ok(value) => value,
        Err(e) => {
            assert(decided_by(all, 7, e));
            return Err(e);
        },
    };
    assert(all[7] is None);
    let top_p: u32 = match read_number(taken.top_p, "top_p", ONE) {
        Ok(value) => value,
        Err(e) => {
            assert(decided_by(all, 8, e));
            return Err(e);
        },
    };
    assert(all[8] is None);
    let temperature: u32 = match read_number(taken.temperature, "temperature", NINE_TENTHS) {
        Ok(value) => value,
        Err(e) => {
            assert(decided_by(all, 9, e));
            return Err(e);
        },
    };
    assert(all[9] is None);
    let subtalker_dosample: bool = match read_switch(form, "subtalker_dosample", true) {
        Ok(value) => value,
        Err(e) => {
            assert(decided_by(all, 10, e));
            return Err(e);
        },
    };
    assert(all[10] is None);
    let subtalker_top_k: usize = match read_count(form, "subtalker_top_k", DEFAULT_TOP_K) {
        Ok(value) => value,
        Err(e) => {
            assert(decided_by(all, 11, e));
            return Err(e);
        },
    };
    assert(all[11] is None);
    let subtalker_top_p: u32 = match read_number(taken.subtalker_top_p, "subtalker_top_p", ONE) {
        Ok(value) => value,
        Err(e) => {
            assert(decided_by(all, 12, e));
            return Err(e);
        },
    };
    assert(all[12] is None);
    let subtalker_temperature: u32 = match read_number(
        taken.subtalker_temperature,
        "subtalker_temperature",
        NINE_TENTHS,
    ) {
        Ok(value) => value,
        Err(e) => {
            assert(decided_by(all, 13, e));
            return Err(e);
        },
    };
    assert(all[13] is None);
    let seed: u64 = match read_seed(form, "seed") {
        Ok(value) => value,
        Err(e) => {
            assert(decided_by(all, 14, e));
            return Err(e);
        },
    };
    assert(all[14] is None);
    let text_lookahead_tokens: usize = match read_positive(
        form,
        "text_lookahead_tokens",
        DEFAULT_TEXT_LOOKAHEAD_TOKENS,
        "text_lookahead_tokens must be non-zero",
    ) {
        Ok(value) => value,
        Err(e) => {
            assert(decided_by(all, 15, e));
            return Err(e);
        },
    };
    assert(all[15] is None);
    let stream_chunk_frames: usize = match read_positive(
        form,
        "stream_chunk_frames",
        DEFAULT_STREAM_CHUNK_FRAMES,
        "stream_chunk_frames must be non-zero",
    ) {
        Ok(value) => value,
        Err(e) => {
            assert(decided_by(all, 16, e));
            return Err(e);
        },
    };
    assert(all[16] is None);
    let left_context_frames: usize = match read_count(
        form,
        "left_context_frames",
        DEFAULT_STREAM_LEFT_CONTEXT_FRAMES,
    ) {
        Ok(value) => value,
        Err(e) => {
            assert(decided_by(all, 17, e));
            return Err(e);
        },
    };
    assert(all[17] is None);
    let use_voice_clone: bool = match read_switch(form, "use_voice_clone", false) {
        Ok(value) => value,
        Err(e) => {
            assert(decided_by(all, 18, e));
            return Err(e);
        },
    };
    if use_voice_clone && !has_prompt {
        let e = invalid(
            "voice clone mode requires starting the server with voice_clone_prompt_json",
        );
        assert(decided_by(all, 18, e));
        return Err(e);
    }
    assert(all[18] is None);
    Ok(
        GenerationRequest {
            text,
            options: GenerateOptions {
                speaker,
                language,
                max_frames,
                decode_audio: false,
                do_sample,
                top_k,
                top_p,
                temperature,
                repetition_penalty,
                subtalker_dosample,
                subtalker_top_k,
                subtalker_top_p,
                subtalker_temperature,
                seed,
            },
            stream_options: StreamOptions { text_lookahead_tokens, left_context_frames },
            wav_gain,
            stream_chunk_frames,
            use_voice_clone,
        },
    )
}

/// A request that the server takes meets what the engine asks of its options.
pub proof fn accepted_requests_are_valid(
    form: Seq<FieldModel>,
    taken: ParsedFields,
    has_prompt: bool,
    job: GenerationRequest,
)
    requires
        forall|i: int|
            0 <= i < faults(form, taken, has_prompt).len() ==> #[trigger] faults(
                form,
                taken,
                has_prompt,
            )[i] is None,
        is_job(job, form, taken),
    ensures
        job.options.fault() is None,
        job.stream_options.text_lookahead_tokens > 0,
        job.stream_chunk_frames > 0,
        job.text@.len() > 0,
        job.use_voice_clone ==> has_prompt,
{
    let all = faults(form, taken, has_prompt);
    assert(all[0] is None);
    assert(all[1] is None);
    assert(all[5] is None);
    assert(all[15] is None);
    assert(all[16] is None);
    assert(all[18] is None);
}

/// What the server does for a request.
#[derive(Clone, Copy, PartialEq, Eq, Structural, Debug)]
pub enum Route {
    Index,
    Health,
    Favicon,
    Generate,
    Stream,
    NotFound,
}

/// What the server does for a method and a path.
pub open spec fn route_of(method: Seq<char>, path: Seq<char>) -> Route {
    if method == "GET"@ {
        if path == "/"@ {
            Route::Index
        } else if path == "/health"@ {
            Route::Health
        } else if path == "/favicon.ico"@ {
            Route::Favicon
        } else {
            Route::NotFound
        }
    } else if method == "POST"@ {
        if path == "/api/generate"@ {
            Route::Generate
        } else if path == "/api/stream"@ {
            Route::Stream
        } else {
            Route::NotFound
        }
    } else {
        Route::NotFound
    }
}

/// What the server does for a request.
pub fn route(request: &Request) -> (route: Route)
    ensures
        route == route_of(request.method@, request.path@),
{
    let method: &str = request.method.as_str();
    let path: &str = request.path.as_str();
    if same_text(method, "GET") {
        if same_text(path, "/") {
            Route::Index
        } else if same_text(path, "/health") {
            Route::Health
        } else if same_text(path, "/favicon.ico") {
            Route::Favicon
        } else {
            Route::NotFound
        }
    } else if same_text(method, "POST") {
        if same_text(path, "/api/generate") {
            Route::Generate
        } else if same_text(path, "/api/stream") {
            Route::Stream
        } else {
            Route::NotFound
        }
    } else {
        Route::NotFound
    }
}

/// The request carries a form.
pub open spec fn carries_form(headers: Seq<FieldModel>) -> bool {
    match form::lookup(headers, "content-type"@) {
        Some(value) => scan::starts_with(value, "application/x-www-form-urlencoded"@),
        None => false,
    }
}

/// The refusal of a request that carries no form; `None` where it carries one.
pub fn refuse_other_content(request: &Request) -> (refusal: Option<Response>)
    ensures
        match refusal {
            None => carries_form(form::fields_model(request.headers@)),
            Some(r) => !carries_form(form::fields_model(request.headers@)) && response::is_text(
                r,
                415,
                "Unsupported Media Type"@,
                "expected application/x-www-form-urlencoded\n"@,
            ),
        },
{
    let accepted: bool = match field(&request.headers, "content-type") {
        Some(value) => begins(value, "application/x-www-form-urlencoded"),
        None => false,
    };
    if accepted {
        return None;
    }
    Some(
        text_response(
            415,
            "Unsupported Media Type",
            "expected application/x-www-form-urlencoded\n",
        ),
    )
}

/// The answer to a request whose form is unusable. Any other error is handed back.
pub fn bad_request(e: Error) -> (answer: Result<Response, Error>)
    ensures
        match e {
            Error::InvalidInput(message) => answer matches Ok(r) && response::is_text(
                r,
                400,
                "Bad Request"@,
                message@ + "\n"@,
            ),
            _ => answer == Err::<Response, Error>(e),
        },
{
    match e {
        Error::InvalidInput(message) => {
            let mut text: String = message;
            text.append("\n");
            Ok(text_response(400, "Bad Request", text.as_str()))
        },
        other => Err(other),
    }
}

/// The answer to a request that failed.
pub fn failure_response(e: &Error) -> (answer: Response)
    ensures
        response::is_text(answer, 500, "Internal Server Error"@, error::error_text(*e)),
{
    let text: String = e.message();
    text_response(500, "Internal Server Error", text.as_str())
}

/// How a switch is written.
pub open spec fn switch_text(on: bool) -> Seq<char> {
    if on {
        "true"@
    } else {
        "false"@
    }
}

fn switch_word(on: bool) -> (word: String)
    ensures
        word@ == switch_text(on),
{
    if on {
        "true".to_owned()
    } else {
        "false".to_owned()
    }
}

fn count_text(n: usize) -> (numeral: String)
    ensures
        numeral@ == text::decimal(n as nat),
{
    let mut numeral = String::new();
    push_usize(&mut numeral, n);
    proof {
        assert(numeral@ =~= text::decimal(n as nat));
    }
    numeral
}

fn number_text(n: u64) -> (numeral: String)
    ensures
        numeral@ == text::decimal(n as nat),
{
    let mut numeral = String::new();
    push_decimal(&mut numeral, n);
    proof {
        assert(numeral@ =~= text::decimal(n as nat));
    }
    numeral
}

fn push_header(headers: &mut Vec<Field>, name: &str, value: String)
    ensures
        form::fields_model(final(headers)@) == form::fields_model(old(headers)@).push(
            (name@, value@),
        ),
{
    headers.push(Field { name: name.to_owned(), value });
    proof {
        assert(form::fields_model(headers@) =~= form::fields_model(old(headers)@).push(
            (name@, value@),
        ));
    }
}

/// Measured and floating-point figures of a request, as they are printed.
#[derive(Debug)]
pub struct Figures {
    pub load_seconds: String,
    pub generation_seconds: String,
    pub decode_seconds: String,
    pub wav_seconds: String,
    pub time_to_first_audio_seconds: String,
    pub inference_seconds: String,
    pub audio_seconds: String,
    pub generation_rtf: String,
    pub decode_rtf: String,
    pub inference_rtf: String,
    pub repetition_penalty: String,
    pub top_p: String,
    pub temperature: String,
    pub subtalker_top_p: String,
    pub subtalker_temperature: String,
}

/// What came of a request.
#[derive(Clone, Copy, PartialEq, Eq, Structural, Debug)]
pub struct Spoken {
    pub frames: usize,
    pub samples: usize,
    pub ended_by_eos: bool,
    pub voice_clone: bool,
}

/// The headers of a WAV answer.
pub open spec fn wav_headers(figures: Figures, speech: Spoken, options: GenerateOptions) -> Seq<
    FieldModel,
> {
    seq![
        ("Content-Type"@, "audio/wav"@),
        ("Cache-Control"@, "no-store"@),
        ("X-TTS-Load-Seconds"@, figures.load_seconds@),
        ("X-TTS-Generation-Seconds"@, figures.generation_seconds@),
        ("X-TTS-Decode-Seconds"@, figures.decode_seconds@),
        ("X-TTS-Wav-Seconds"@, figures.wav_seconds@),
        ("X-TTS-Time-To-First-Audio-Seconds"@, figures.time_to_first_audio_seconds@),
        ("X-TTS-Inference-Seconds"@, figures.inference_seconds@),
        ("X-TTS-Audio-Seconds"@, figures.audio_seconds@),
        ("X-TTS-Generation-RTF"@, figures.generation_rtf@),
        ("X-TTS-Decode-RTF"@, figures.decode_rtf@),
        ("X-TTS-Inference-RTF"@, figures.inference_rtf@),
        ("X-TTS-Frames"@, text::decimal(speech.frames as nat)),
        ("X-TTS-Samples"@, text::decimal(speech.samples as nat)),
        ("X-TTS-Ended-By-EOS"@, switch_text(speech.ended_by_eos)),
        ("X-TTS-Voice-Clone"@, switch_text(speech.voice_clone)),
        ("X-TTS-Repetition-Penalty"@, figures.repetition_penalty@),
        ("X-TTS-Do-Sample"@, switch_text(options.do_sample)),
        ("X-TTS-Top-K"@, text::decimal(options.top_k as nat)),
        ("X-TTS-Top-P"@, figures.top_p@),
        ("X-TTS-Temperature"@, figures.temperature@),
        ("X-TTS-Subtalker-Do-Sample"@, switch_text(options.subtalker_dosample)),
        ("X-TTS-Subtalker-Top-K"@, text::decimal(options.subtalker_top_k as nat)),
        ("X-TTS-Subtalker-Top-P"@, figures.subtalker_top_p@),
        ("X-TTS-Subtalker-Temperature"@, figures.subtalker_temperature@),
        ("X-TTS-Seed"@, text::decimal(options.seed as nat)),
    ]
}

/// Speech as a WAV file, with what came of its request.
#[derive(Debug)]
pub struct SpeechFile {
    pub spoken: Spoken,
    pub wav: Vec<u8>,
}

impl SpeechFile {
    /// The file has a header and two bytes for every sample.
    pub open spec fn wf(&self) -> bool {
        self.wav@.len() == 44 + 2 * self.spoken.samples
    }
}

/// `file` is the file of the speech, whose samples `pcm` are as sixteen-bit numbers.
pub open spec fn is_speech_file(
    file: SpeechFile,
    speech: GeneratedSpeech,
    pcm: Seq<i16>,
    voice_clone: bool,
) -> bool {
    &&& file.spoken == (Spoken {
        frames: speech.frames,
        samples: speech.samples@.len() as usize,
        ended_by_eos: speech.ended_by_eos,
        voice_clone,
    })
    &&& file.spoken.samples == speech.samples@.len()
    &&& file.wav@ == wav::wav_header(speech.sample_rate as int, 2 * pcm.len() as int) + wav::pcm16(
        pcm,
    )
}

/// The file of the speech of a request, from its samples as sixteen-bit numbers.
pub fn speech_file(speech: &GeneratedSpeech, pcm: &[i16], voice_clone: bool) -> (file: Result<
    SpeechFile,
    Error,
>)
    requires
        pcm@.len() == speech.samples@.len(),
        speech.sample_rate * 2 <= u32::MAX,
    ensures
        match file {
            Ok(f) => {
                &&& pcm@.len() * 2 <= u32::MAX - 36
                &&& f.wf()
                &&& is_speech_file(f, *speech, pcm@, voice_clone)
            },
            Err(e) => pcm@.len() * 2 > u32::MAX - 36 && error::is_invalid(
                e,
                "wav is too large"@,
            ),
        },
{
    let spoken = Spoken {
        frames: speech.frames,
        samples: speech.samples.len(),
        ended_by_eos: speech.ended_by_eos,
        voice_clone,
    };
    match speech.to_wav_bytes(pcm) {
        Err(e) => Err(e),
        Ok(wav) => {
            proof {
                wav::wav_lengths(pcm@, speech.sample_rate);
                wav::pcm_length(pcm@);
            }
            Ok(SpeechFile { spoken, wav })
        },
    }
}

/// The last field of a name is the one that is found.
proof fn lemma_last_of_name(fields: Seq<FieldModel>, name: Seq<char>, i: int)
    requires
        0 <= i < fields.len(),
        fields[i].0 == name,
        forall|j: int| i < j < fields.len() ==> (#[trigger] fields[j]).0 != name,
    ensures
        form::lookup(fields, name) == Some(fields[i].1),
    decreases fields.len(),
{
    if i < fields.len() - 1 {
        lemma_last_of_name(fields.drop_last(), name, i);
    }
}

proof fn lemma_samples_header(figures: Figures, speech: Spoken, options: GenerateOptions)
    ensures
        form::lookup(wav_headers(figures, speech, options), "X-TTS-Samples"@) == Some(
            text::decimal(speech.samples as nat),
        ),
{
    reveal_strlit("X-TTS-Samples");
    reveal_strlit("X-TTS-Ended-By-EOS");
    reveal_strlit("X-TTS-Voice-Clone");
    reveal_strlit("X-TTS-Repetition-Penalty");
    reveal_strlit("X-TTS-Do-Sample");
    reveal_strlit("X-TTS-Top-K");
    reveal_strlit("X-TTS-Top-P");
    reveal_strlit("X-TTS-Temperature");
    reveal_strlit("X-TTS-Subtalker-Do-Sample");
    reveal_strlit("X-TTS-Subtalker-Top-K");
    reveal_strlit("X-TTS-Subtalker-Top-P");
    reveal_strlit("X-TTS-Subtalker-Temperature");
    reveal_strlit("X-TTS-Seed");
    let headers = wav_headers(figures, speech, options);
    assert(headers.len() == 26);
    assert forall|j: int| 13 < j < headers.len() implies (#[trigger] headers[j]).0
        != "X-TTS-Samples"@ by {
        assert(headers[j].0.len() != 13);
    }
    lemma_last_of_name(headers, "X-TTS-Samples"@, 13);
}

/// `answer` is the answer with a WAV file.
pub open spec fn is_wav_answer(
    answer: Response,
    figures: Figures,
    file: SpeechFile,
    options: GenerateOptions,
) -> bool {
    &&& answer.code == 200
    &&& answer.reason@ == "OK"@
    &&& form::fields_model(answer.headers@) == wav_headers(figures, file.spoken, options)
    &&& answer.body@ == file.wav@
}

/// The answer to a request for a WAV file. It says how many samples its body has.
pub fn wav_response(figures: Figures, file: SpeechFile, options: &GenerateOptions) -> (answer:
    Response)
    requires
        file.wf(),
    ensures
        is_wav_answer(answer, figures, file, *options),
        form::lookup(form::fields_model(answer.headers@), "X-TTS-Samples"@) == Some(
            text::decimal(file.spoken.samples as nat),
        ),
        answer.body@.len() == 44 + 2 * file.spoken.samples,
{
    let speech: Spoken = file.spoken;
    let mut headers: Vec<Field> = Vec::new();
    push_header(&mut headers, "Content-Type", "audio/wav".to_owned());
    push_header(&mut headers, "Cache-Control", "no-store".to_owned());
    push_header(&mut headers, "X-TTS-Load-Seconds", figures.load_seconds);
    push_header(&mut headers, "X-TTS-Generation-Seconds", figures.generation_seconds);
    push_header(&mut headers, "X-TTS-Decode-Seconds", figures.decode_seconds);
    push_header(&mut headers, "X-TTS-Wav-Seconds", figures.wav_seconds);
    push_header(&mut headers, "X-TTS-Time-To-First-Audio-Seconds", figures.time_to_first_audio_seconds);
    push_header(&mut headers, "X-TTS-Inference-Seconds", figures.inference_seconds);
    push_header(&mut headers, "X-TTS-Audio-Seconds", figures.audio_seconds);
    push_header(&mut headers, "X-TTS-Generation-RTF", figures.generation_rtf);
    push_header(&mut headers, "X-TTS-Decode-RTF", figures.decode_rtf);
    push_header(&mut headers, "X-TTS-Inference-RTF", figures.inference_rtf);
    push_header(&mut headers, "X-TTS-Frames", count_text(speech.frames));
    push_header(&mut headers, "X-TTS-Samples", count_text(speech.samples));
    push_header(&mut headers, "X-TTS-Ended-By-EOS", switch_word(speech.ended_by_eos));
    push_header(&mut headers, "X-TTS-Voice-Clone", switch_word(speech.voice_clone));
    push_header(&mut headers, "X-TTS-Repetition-Penalty", figures.repetition_penalty);
    push_header(&mut headers, "X-TTS-Do-Sample", switch_word(options.do_sample));
    push_header(&mut headers, "X-TTS-Top-K", count_text(options.top_k));
    push_header(&mut headers, "X-TTS-Top-P", figures.top_p);
    push_header(&mut headers, "X-TTS-Temperature", figures.temperature);
    push_header(&mut headers, "X-TTS-Subtalker-Do-Sample", switch_word(options.subtalker_dosample));
    push_header(&mut headers, "X-TTS-Subtalker-Top-K", count_text(options.subtalker_top_k));
    push_header(&mut headers, "X-TTS-Subtalker-Top-P", figures.subtalker_top_p);
    push_header(&mut headers, "X-TTS-Subtalker-Temperature", figures.subtalker_temperature);
    push_header(&mut headers, "X-TTS-Seed", number_text(options.seed));
    proof {
        assert(form::fields_model(headers@) =~= wav_headers(figures, speech, *options));
        lemma_samples_header(figures, speech, *options);
    }
    Response { code: 200, reason: "OK".to_owned(), headers, body: file.wav }
}

/// The answer with the speech of a request carries all its samples: its header shows how
/// many the speech has, and its body is a WAV file of exactly these, 44 bytes and two for
/// every sample.
pub proof fn speech_answers_carry_all_samples(
    figures: Figures,
    speech: GeneratedSpeech,
    pcm: Seq<i16>,
    options: GenerateOptions,
    voice_clone: bool,
    file: SpeechFile,
    answer: Response,
)
    requires
        pcm.len() == speech.samples@.len(),
        pcm.len() * 2 <= u32::MAX - 36,
        speech.sample_rate * 2 <= u32::MAX,
        is_speech_file(file, speech, pcm, voice_clone),
        is_wav_answer(answer, figures, file, options),
    ensures
        form::lookup(form::fields_model(answer.headers@), "X-TTS-Samples"@) == Some(
            text::decimal(speech.samples@.len()),
        ),
        answer.body@ == wav::wav_header(speech.sample_rate as int, 2 * pcm.len() as int)
            + wav::pcm16(pcm),
        answer.body@.len() == 44 + 2 * speech.samples@.len(),
{
    lemma_samples_header(figures, file.spoken, options);
    wav::wav_lengths(pcm, speech.sample_rate);
    wav::pcm_length(pcm);
}

/// The headers of a stream of samples.
pub open spec fn stream_headers(job: GenerationRequest) -> Seq<FieldModel> {
    seq![
        ("Content-Type"@, "application/octet-stream"@),
        ("Cache-Control"@, "no-store"@),
        ("X-TTS-Sample-Rate"@, text::decimal(SAMPLE_RATE as nat)),
        ("X-TTS-Sample-Format"@, "s16le"@),
        ("X-TTS-Chunk-Frames"@, text::decimal(job.stream_chunk_frames as nat)),
        (
            "X-TTS-Text-Lookahead-Tokens"@,
            text::decimal(job.stream_options.text_lookahead_tokens as nat),
        ),
        (
            "X-TTS-Left-Context-Frames"@,
            text::decimal(job.stream_options.left_context_frames as nat),
        ),
        ("X-TTS-Voice-Clone"@, switch_text(job.use_voice_clone)),
    ]
}

/// The headers of a stream of samples.
pub fn list_stream_headers(job: &GenerationRequest) -> (headers: Vec<Field>)
    ensures
        form::fields_model(headers@) == stream_headers(*job),
{
    let mut headers: Vec<Field> = Vec::new();
    push_header(&mut headers, "Content-Type", "application/octet-stream".to_owned());
    push_header(&mut headers, "Cache-Control", "no-store".to_owned());
    push_header(&mut headers, "X-TTS-Sample-Rate", number_text(SAMPLE_RATE as u64));
    push_header(&mut headers, "X-TTS-Sample-Format", "s16le".to_owned());
    push_header(&mut headers, "X-TTS-Chunk-Frames", count_text(job.stream_chunk_frames));
    push_header(
        &mut headers,
        "X-TTS-Text-Lookahead-Tokens",
        count_text(job.stream_options.text_lookahead_tokens),
    );
    push_header(
        &mut headers,
        "X-TTS-Left-Context-Frames",
        count_text(job.stream_options.left_context_frames),
    );
    push_header(&mut headers, "X-TTS-Voice-Clone", switch_word(job.use_voice_clone));
    proof {
        assert(form::fields_model(headers@) =~= stream_headers(*job));
    }
    headers
}

/// What a stream has sent so far.
#[derive(Clone, Copy, PartialEq, Eq, Structural, Debug)]
pub struct StreamTotals {
    pub samples: usize,
    pub frames: usize,
    pub ended_by_eos: bool,
}

impl StreamTotals {
    /// A stream that has sent nothing.
    pub fn new() -> (totals: StreamTotals)
        ensures
            totals == (StreamTotals { samples: 0, frames: 0, ended_by_eos: false }),
    {
        StreamTotals { samples: 0, frames: 0, ended_by_eos: false }
    }

    /// Counts a chunk of `samples` samples that ends at frame `total_frames`.
    pub fn count(&mut self, samples: usize, total_frames: usize, ended_by_eos: bool)
        requires
            old(self).samples + samples <= usize::MAX,
        ensures
            *final(self) == (StreamTotals {
                samples: (old(self).samples + samples) as usize,
                frames: total_frames,
                ended_by_eos,
            }),
    {
        self.samples = self.samples + samples;
        self.frames = total_frames;
        self.ended_by_eos = ended_by_eos;
    }
}

} // verus!
