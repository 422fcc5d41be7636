//! The demo server.

use qwen3_tts_hip::error::Error;
use qwen3_tts_hip::generation::options::{Language, Speaker, DEFAULT_PENALTY, NINE_TENTHS, ONE};
use qwen3_tts_hip::generation::engine::GeneratedSpeech;
use qwen3_tts_hip::server::form::{field, hex_value, parse_form, percent_decode, Field};
use qwen3_tts_hip::server::jobs::{
    bad_request, failure_response, list_stream_headers, parse_generation_request,
    refuse_other_content, route, speech_file, texts_to_read, wav_response, Figures, ParsedFields,
    Route, Spoken, StreamTotals,
};
use qwen3_tts_hip::server::request::{
    find_header_end, parse_head, Request, RequestReader, MAX_REQUEST_BYTES,
};
use qwen3_tts_hip::server::response::{
    chunked_headers, empty_response, finish_chunked_response, header, html_response,
    sanitize_header_value, text_response, write_chunk, Response,
};
use qwen3_tts_hip::wav::to_wav_bytes;

fn message<T>(result: Result<T, Error>) -> String {
    match result {
        Ok(_) => panic!("expected an error"),
        Err(e) => e.message(),
    }
}

#[test]
fn form_values_are_decoded() {
    assert!(matches!(percent_decode(b"a+b%20c%C3%A9"), Ok(t) if t == "a b c\u{e9}"));
    assert!(matches!(percent_decode(b"50%"), Ok(t) if t == "50%"));
    assert!(matches!(percent_decode(b"50%4"), Ok(t) if t == "50%4"));
    assert!(matches!(percent_decode(b"%4f%4F"), Ok(t) if t == "OO"));
    assert_eq!(message(percent_decode(b"%zz")), "invalid input: invalid percent escape");
    let why = std::str::from_utf8(&[0xff]).unwrap_err();
    assert_eq!(
        message(percent_decode(b"%ff")),
        format!("invalid input: form value is not UTF-8: {}", why)
    );
    assert!(matches!(hex_value(b'9'), Ok(9)));
    assert!(matches!(hex_value(b'a'), Ok(10)));
    assert!(matches!(hex_value(b'F'), Ok(15)));
    assert_eq!(message(hex_value(b'g')), "invalid input: invalid percent escape");
}

#[test]
fn escaped_bytes_are_read_back() {
    let text = "Grüße, 100% + more & less = \u{1f600}";
    let escaped: String = text.bytes().map(|b| format!("%{:02X}", b)).collect();
    assert!(matches!(percent_decode(escaped.as_bytes()), Ok(t) if t == text));
    assert!(matches!(percent_decode(b"plain-text_1"), Ok(t) if t == "plain-text_1"));
}

#[test]
fn forms_are_taken_apart() {
    let form = parse_form(b"text=Hi+there&&seed=1&flag&seed=2&a=b=c").unwrap_or_default();
    assert_eq!(form.len(), 5);
    assert_eq!(field(&form, "text"), Some("Hi there"));
    assert_eq!(field(&form, "seed"), Some("2"));
    assert_eq!(field(&form, "flag"), Some(""));
    assert_eq!(field(&form, "a"), Some("b=c"));
    assert_eq!(field(&form, "b"), None);
    assert_eq!(parse_form(b"").unwrap_or_default().len(), 0);
    assert_eq!(message(parse_form(b"a=%zz&b=%ff")), "invalid input: invalid percent escape");
    let why = std::str::from_utf8(&[b'a', 0xff]).unwrap_err();
    assert_eq!(
        message(parse_form(&[b'a', 0xff])),
        format!("invalid input: form body is not UTF-8: {}", why)
    );
}

#[test]
fn headers_end_with_an_empty_line() {
    assert_eq!(find_header_end(b"ab\r\n\r\ncd\r\n\r\n"), Some(2));
    assert_eq!(find_header_end(b"\r\n\r\r\n\r\n"), Some(3));
    assert_eq!(find_header_end(b"ab\r\n\r"), None);
    assert_eq!(find_header_end(b""), None);
}

#[test]
fn heads_are_taken_apart() {
    let head = parse_head(b"POST  /api/generate?x=1 HTTP/1.1\r\nContent-Length:  12 \r\nX: a:b\r\nnone")
        .unwrap_or_else(|e| panic!("{}", e.message()));
    assert_eq!((head.method.as_str(), head.path.as_str()), ("POST", "/api/generate"));
    assert_eq!(head.content_length, 12);
    assert_eq!(head.headers.len(), 2);
    assert_eq!(field(&head.headers, "x"), Some("a:b"));
    assert_eq!(message(parse_head(b"")), "invalid input: missing method");
    assert_eq!(message(parse_head(b"GET \r\nA: b")), "invalid input: missing path");
    assert_eq!(
        message(parse_head(b"GET /\r\nContent-Length: x")),
        "invalid input: invalid content-length: invalid digit found in string"
    );
    assert_eq!(
        message(parse_head(b"GET /\r\nContent-Length: 65537")),
        "invalid input: request body is too large"
    );
    let why = std::str::from_utf8(&[0xff]).unwrap_err();
    assert_eq!(message(parse_head(&[0xff])), format!("invalid input: invalid HTTP headers: {}", why));
}

fn read(pieces: &[&[u8]]) -> Result<Option<Request>, Error> {
    let mut reader = RequestReader::new();
    for piece in pieces {
        match reader.feed(piece) {
            Err(e) => return Err(e),
            Ok((_, Some(request))) => return Ok(Some(request)),
            Ok((next, None)) => reader = next,
        }
    }
    Ok(None)
}

#[test]
fn pieces_of_a_request_do_not_matter() {
    let bytes = b"POST /api/stream HTTP/1.1\r\nContent-Length: 5\r\n\r\nhello";
    for cut in 1..bytes.len() {
        let request = match read(&[&bytes[..cut], &bytes[cut..]]) {
            Ok(Some(request)) => request,
            other => panic!("{:?}", other),
        };
        assert_eq!(request.path, "/api/stream");
        assert_eq!(request.body, b"hello");
    }
    assert!(matches!(read(&[&bytes[..40]]), Ok(None)));
    assert!(matches!(read(&[b"GET / HTTP/1.1\r\n\r\n"]), Ok(Some(r)) if r.body.is_empty()));
}

#[test]
fn broken_requests_are_refused() {
    assert_eq!(message(read(&[b""])), "invalid input: connection closed");
    let head: &[u8] = b"POST / HTTP/1.1\r\nContent-Length: 5\r\n\r\n";
    assert_eq!(message(read(&[head, b""])), "invalid input: truncated request body");
    let long = vec![b'a'; MAX_REQUEST_BYTES + 1];
    assert_eq!(message(read(&[&long])), "invalid input: request is too large");
    assert_eq!(message(read(&[head, &long])), "invalid input: request is too large");
    assert!(matches!(read(&[&long[1..]]), Ok(None)));
}

#[test]
fn responses_are_written() {
    let response = text_response(200, "OK", "ok\n");
    assert_eq!(
        response.to_bytes(),
        b"HTTP/1.1 200 OK\r\nContent-Length: 3\r\nConnection: close\r\nContent-Type: text/plain; charset=utf-8\r\n\r\nok\n"
    );
    assert_eq!(
        empty_response().to_bytes(),
        b"HTTP/1.1 204 No Content\r\nContent-Length: 0\r\nConnection: close\r\n\r\n"
    );
    let page = html_response("<p>\u{e9}");
    assert_eq!(
        page.to_bytes(),
        "HTTP/1.1 200 OK\r\nContent-Length: 5\r\nConnection: close\r\nContent-Type: text/html; charset=utf-8\r\nCache-Control: no-store\r\n\r\n<p>\u{e9}".as_bytes()
    );
}

#[test]
fn header_values_stay_on_one_line() {
    assert_eq!(sanitize_header_value("a\r\nX: b"), "a  X: b");
    assert_eq!(sanitize_header_value("plain"), "plain");
    let response = Response {
        code: 200,
        reason: "OK".to_string(),
        headers: vec![header("A", "1\r\nB: 2")],
        body: vec![],
    };
    let text = String::from_utf8(response.to_bytes()).unwrap_or_default();
    assert!(text.contains("A: 1  B: 2\r\n\r\n"));
}

#[test]
fn chunks_are_framed() {
    let head = chunked_headers(200, "OK", &vec![header("A", "b")]);
    assert_eq!(
        head,
        b"HTTP/1.1 200 OK\r\nTransfer-Encoding: chunked\r\nConnection: close\r\nA: b\r\n\r\n"
    );
    assert_eq!(write_chunk(b""), b"");
    assert_eq!(write_chunk(b"hello world, hello"), b"12\r\nhello world, hello\r\n");
    assert_eq!(write_chunk(&[7u8; 171])[..4], *b"ab\r\n");
    assert_eq!(finish_chunked_response(), b"0\r\n\r\n");
}

#[test]
fn chunks_are_put_together_again() {
    let parts: Vec<Vec<u8>> = vec![vec![1; 300], vec![], vec![13, 10], vec![48; 16]];
    let mut wire = Vec::new();
    for part in &parts {
        wire.extend_from_slice(&write_chunk(part));
    }
    wire.extend_from_slice(&finish_chunked_response());
    let mut body = Vec::new();
    let mut at = 0;
    loop {
        let line = wire[at..].iter().position(|b| *b == 13).unwrap_or(0);
        let digits = String::from_utf8(wire[at..at + line].to_vec()).unwrap_or_default();
        let size = usize::from_str_radix(&digits, 16).unwrap_or(0);
        at += line + 2;
        body.extend_from_slice(&wire[at..at + size]);
        at += size + 2;
        if size == 0 {
            break;
        }
    }
    assert_eq!(at, wire.len());
    assert_eq!(body, parts.concat());
}

fn request(method: &str, path: &str, content_type: Option<&str>) -> Request {
    Request {
        method: method.to_string(),
        path: path.to_string(),
        headers: content_type.map(|t| vec![header("content-type", t)]).unwrap_or_default(),
        body: vec![],
    }
}

#[test]
fn requests_are_routed() {
    let of = |method: &str, path: &str| route(&request(method, path, None));
    assert_eq!(of("GET", "/"), Route::Index);
    assert_eq!(of("GET", "/health"), Route::Health);
    assert_eq!(of("GET", "/favicon.ico"), Route::Favicon);
    assert_eq!(of("POST", "/api/generate"), Route::Generate);
    assert_eq!(of("POST", "/api/stream"), Route::Stream);
    assert_eq!(of("GET", "/api/stream"), Route::NotFound);
    assert_eq!(of("POST", "/"), Route::NotFound);
    assert_eq!(of("PUT", "/"), Route::NotFound);
}

#[test]
fn only_forms_are_accepted() {
    let form = "application/x-www-form-urlencoded; charset=utf-8";
    assert!(refuse_other_content(&request("POST", "/", Some(form))).is_none());
    for other in [None, Some("application/json"), Some("application/x-www-form")] {
        let refusal = refuse_other_content(&request("POST", "/", other));
        assert!(matches!(refusal, Some(r) if r.code == 415
            && r.body == b"expected application/x-www-form-urlencoded\n"));
    }
}

#[test]
fn failures_are_answered() {
    let answer = bad_request(Error::InvalidInput("no text".to_string()));
    assert!(matches!(answer, Ok(r) if r.code == 400 && r.body == b"no text\n"));
    let other = Error::LibraryNotFound { name: "x".to_string() };
    assert!(matches!(bad_request(other), Err(Error::LibraryNotFound { .. })));
    let e = Error::Rocblas { call: "c".to_string(), status: 3 };
    let answer = failure_response(&e);
    assert_eq!((answer.code, answer.reason.as_str()), (500, "Internal Server Error"));
    assert_eq!(answer.body, b"rocBLAS call c failed with status 3");
}

fn nothing() -> ParsedFields {
    ParsedFields {
        speaker: None,
        language: None,
        wav_gain: None,
        repetition_penalty: None,
        top_p: None,
        temperature: None,
        subtalker_top_p: None,
        subtalker_temperature: None,
    }
}

fn form(body: &str) -> Vec<Field> {
    parse_form(body.as_bytes()).unwrap_or_default()
}

#[test]
fn an_empty_form_asks_for_the_defaults() {
    let job = parse_generation_request(&form(""), nothing(), false)
        .unwrap_or_else(|e| panic!("{}", e.message()));
    assert_eq!(job.text, "She said she would be here by noon.");
    let o = job.options;
    assert_eq!((o.speaker, o.language, o.max_frames), (Speaker::Ryan, Language::English, 120));
    assert!(!o.decode_audio && o.do_sample && o.subtalker_dosample);
    assert_eq!((o.top_k, o.subtalker_top_k, o.seed), (50, 50, 0));
    assert_eq!((o.top_p, o.temperature, o.repetition_penalty), (ONE, NINE_TENTHS, DEFAULT_PENALTY));
    assert_eq!((job.stream_options.text_lookahead_tokens, job.stream_options.left_context_frames), (8, 25));
    assert_eq!((job.wav_gain, job.stream_chunk_frames, job.use_voice_clone), (ONE, 6, false));
}

#[test]
fn forms_set_the_options() {
    let body = "text=+Hi+&max_frames=9&do_sample=off&top_k=0&subtalker_dosample=NO&subtalker_top_k=4&seed=77&text_lookahead_tokens=3&stream_chunk_frames=2&left_context_frames=0&use_voice_clone=yes";
    let taken = ParsedFields {
        speaker: Some(Ok(Speaker::Eric)),
        language: Some(Ok(Language::Korean)),
        wav_gain: Some(Ok(2.0f32.to_bits())),
        repetition_penalty: Some(Ok(1.5f32.to_bits())),
        top_p: Some(Ok(0.5f32.to_bits())),
        temperature: Some(Ok(0.25f32.to_bits())),
        subtalker_top_p: Some(Ok(0.75f32.to_bits())),
        subtalker_temperature: Some(Ok(3.0f32.to_bits())),
    };
    let job = parse_generation_request(&form(body), taken, true)
        .unwrap_or_else(|e| panic!("{}", e.message()));
    let o = job.options;
    assert_eq!(job.text, "Hi");
    assert_eq!((o.speaker, o.language, o.max_frames), (Speaker::Eric, Language::Korean, 9));
    assert_eq!((o.do_sample, o.top_k, o.subtalker_dosample, o.subtalker_top_k), (false, 0, false, 4));
    assert_eq!((o.seed, o.top_p, o.subtalker_temperature), (77, 0.5f32.to_bits(), 3.0f32.to_bits()));
    assert_eq!((job.stream_options.text_lookahead_tokens, job.stream_options.left_context_frames), (3, 0));
    assert_eq!((job.wav_gain, job.stream_chunk_frames, job.use_voice_clone), (2.0f32.to_bits(), 2, true));
    assert!(o.validate(Ok(()), Ok(())).is_ok());
}

#[test]
fn the_first_fault_of_a_form_is_reported() {
    let why = |body: &str| message(parse_generation_request(&form(body), nothing(), false));
    assert_eq!(why("text=++&max_frames=0"), "invalid input: text must not be empty");
    assert_eq!(why("max_frames=0&top_k=x"), "invalid input: max_frames must be non-zero");
    assert_eq!(why("max_frames=x"), "invalid input: invalid max_frames: invalid digit found in string");
    assert_eq!(why("do_sample=perhaps"), "invalid input: invalid do_sample: perhaps");
    assert_eq!(why("top_k="), "invalid input: invalid top_k: cannot parse integer from empty string");
    assert_eq!(why("subtalker_dosample=x"), "invalid input: invalid subtalker_dosample: x");
    assert_eq!(
        why("seed=99999999999999999999"),
        "invalid input: invalid seed: number too large to fit in target type"
    );
    assert_eq!(why("text_lookahead_tokens=0"), "invalid input: text_lookahead_tokens must be non-zero");
    assert_eq!(why("stream_chunk_frames=0"), "invalid input: stream_chunk_frames must be non-zero");
    assert_eq!(
        why("left_context_frames=-1"),
        "invalid input: invalid left_context_frames: invalid digit found in string"
    );
    assert_eq!(
        why("use_voice_clone=1"),
        "invalid input: voice clone mode requires starting the server with voice_clone_prompt_json"
    );
    let taken = ParsedFields {
        speaker: Some(Err(Error::InvalidInput("no such speaker".to_string()))),
        wav_gain: Some(Err("invalid float literal".to_string())),
        ..nothing()
    };
    assert_eq!(
        message(parse_generation_request(&form("top_k=x"), taken, false)),
        "invalid input: no such speaker"
    );
    let taken = ParsedFields { wav_gain: Some(Err("invalid float literal".to_string())), ..nothing() };
    assert_eq!(
        message(parse_generation_request(&form("top_k=x"), taken, false)),
        "invalid input: invalid wav_gain: invalid float literal"
    );
    let taken = ParsedFields { repetition_penalty: Some(Ok((-1.0f32).to_bits())), ..nothing() };
    assert_eq!(
        message(parse_generation_request(&form(""), taken, false)),
        "invalid input: repetition_penalty must be positive"
    );
}

#[test]
fn wav_answers_carry_their_figures() {
    let f = |n: u32| format!("{}.000000", n);
    let figures = Figures {
        load_seconds: f(1),
        generation_seconds: f(2),
        decode_seconds: f(3),
        wav_seconds: f(4),
        time_to_first_audio_seconds: f(5),
        inference_seconds: f(6),
        audio_seconds: f(7),
        generation_rtf: f(8),
        decode_rtf: f(9),
        inference_rtf: f(10),
        repetition_penalty: f(11),
        top_p: f(12),
        temperature: f(13),
        subtalker_top_p: f(14),
        subtalker_temperature: f(15),
    };
    let speech = GeneratedSpeech {
        text: "t".to_string(),
        codes: vec![1; 48],
        frames: 3,
        ended_by_eos: true,
        samples: vec![0; 5760],
        sample_rate: 24_000,
    };
    let pcm: Vec<i16> = (0..5760).collect();
    let file = speech_file(&speech, &pcm, false).unwrap_or_else(|e| panic!("{}", e.message()));
    assert_eq!(
        file.spoken,
        Spoken { frames: 3, samples: 5760, ended_by_eos: true, voice_clone: false }
    );
    let wav = to_wav_bytes(&pcm, 24_000).unwrap_or_default();
    assert_eq!((wav.len(), &file.wav), (44 + 2 * 5760, &wav));
    let job = parse_generation_request(&form("seed=8"), nothing(), false)
        .unwrap_or_else(|e| panic!("{}", e.message()));
    let answer = wav_response(figures, file, &job.options);
    assert_eq!((answer.code, answer.headers.len(), answer.body.len()), (200, 26, 44 + 2 * 5760));
    assert_eq!(answer.body, wav);
    let get = |name: &str| field(&answer.headers, name).map(|v| v.to_string());
    assert_eq!(get("Content-Type"), Some("audio/wav".to_string()));
    assert_eq!(get("X-TTS-Load-Seconds"), Some("1.000000".to_string()));
    assert_eq!(get("X-TTS-Inference-RTF"), Some("10.000000".to_string()));
    assert_eq!(get("X-TTS-Frames"), Some("3".to_string()));
    assert_eq!(get("X-TTS-Samples"), Some("5760".to_string()));
    assert_eq!(get("X-TTS-Ended-By-EOS"), Some("true".to_string()));
    assert_eq!(get("X-TTS-Voice-Clone"), Some("false".to_string()));
    assert_eq!(get("X-TTS-Top-K"), Some("50".to_string()));
    assert_eq!(get("X-TTS-Subtalker-Temperature"), Some("15.000000".to_string()));
    assert_eq!(get("X-TTS-Seed"), Some("8".to_string()));
    let headers = list_stream_headers(&job);
    assert_eq!(headers.len(), 8);
    assert_eq!(field(&headers, "X-TTS-Sample-Rate"), Some("24000"));
    assert_eq!(field(&headers, "X-TTS-Left-Context-Frames"), Some("25"));
}

#[test]
fn every_reader_gets_its_own_field() {
    let body = "speaker=a&language=b&wav_gain=c&repetition_penalty=d&top_p=e&temperature=f&subtalker_top_p=g&subtalker_temperature=h&top_p=i";
    let texts = texts_to_read(&form(body));
    assert_eq!(texts.speaker.as_deref(), Some("a"));
    assert_eq!(texts.language.as_deref(), Some("b"));
    assert_eq!(texts.wav_gain.as_deref(), Some("c"));
    assert_eq!(texts.repetition_penalty.as_deref(), Some("d"));
    assert_eq!(texts.top_p.as_deref(), Some("i"));
    assert_eq!(texts.temperature.as_deref(), Some("f"));
    assert_eq!(texts.subtalker_top_p.as_deref(), Some("g"));
    assert_eq!(texts.subtalker_temperature.as_deref(), Some("h"));
    let texts = texts_to_read(&form("top_k=3&top_p="));
    assert_eq!((texts.speaker, texts.wav_gain, texts.temperature), (None, None, None));
    assert_eq!(texts.top_p.as_deref(), Some(""));
}

#[test]
fn streams_are_counted() {
    let mut totals = StreamTotals::new();
    totals.count(100, 6, false);
    totals.count(50, 9, true);
    assert_eq!(totals, StreamTotals { samples: 150, frames: 9, ended_by_eos: true });
}
