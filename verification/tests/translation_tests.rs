use gramslator::app_state::AppState;
use gramslator::translation::client::{
    build_translate_body, build_translate_request_head, decimal_bytes, find_translated_text,
    parse_translate_response, response_read_step, strip_chunked_framing,
    translated_text_in_response, write_json_escaped, BufferFull, ReadOutcome, ResponseRead,
    TranslateError, WriteBuf, MAX_RESPONSE_LEN,
};
use gramslator::translation::helpers::{
    check_translation_cache, extract_transcript, record_translation, translate_response,
    TranscriptMessage, TranslationCache,
};
use gramslator::translate::{
    check_translation_cache as en_es_check, translate_response as en_es_response, LastTranslation,
};
use gramslator::translation::translation_task::{
    debounce_step, plan_translation, DebounceAction, DebounceEvent, DebounceState,
    TranslationPlan, TRANSLATE_DEBOUNCE_DEADLINE_MS,
};

const OK_RESPONSE: &[u8] = b"HTTP/1.1 200 OK\r\nContent-Type: application/json; charset=UTF-8\r\n\r\n{\n  \"data\": {\n    \"translations\": [\n      {\n        \"translatedText\": \"Hola mundo\"\n      }\n    ]\n  }\n}\n";

const CHUNKED_RESPONSE: &[u8] = b"HTTP/1.1 200 OK\r\nTransfer-Encoding: chunked\r\n\r\n38\r\n{\"data\":{\"translations\":[{\"translatedText\":\"Bonjour\"}]}}\r\n0\r\n\r\n";

#[test]
fn strip_chunked_framing_extracts_single_chunk() {
    let body = b"16\r\n{\"translatedText\":\"x\"}\r\n0\r\n\r\n";
    assert_eq!(strip_chunked_framing(body), b"{\"translatedText\":\"x\"}".to_vec());
}

#[test]
fn strip_chunked_framing_leaves_plain_body() {
    let body = b"{\"translatedText\":\"x\"}";
    assert_eq!(strip_chunked_framing(body), body.to_vec());
}

#[test]
fn strip_chunked_framing_trims_when_terminator_missing() {
    let body = b"  1a\r\n{\"a\":1}  \r\n";
    assert_eq!(strip_chunked_framing(body), b"{\"a\":1}".to_vec());
}

#[test]
fn strip_chunked_framing_joins_chunks() {
    assert_eq!(strip_chunked_framing(b"3\r\nabc\r\n3\r\ndef\r\n0\r\n\r\n"), b"abcdef".to_vec());
    assert_eq!(strip_chunked_framing(b"A\r\n0123456789\r\n2 \r\nab\r\n0\r\n\r\n"), b"0123456789ab".to_vec());
    assert_eq!(strip_chunked_framing(b"3\r\nabc\r\nzz\r\ndef"), b"abc".to_vec());
    assert_eq!(strip_chunked_framing(b"3\r\nabcX3\r\ndef\r\n"), b"abc".to_vec());
    assert_eq!(strip_chunked_framing(b"0\r\n\r\n"), Vec::<u8>::new());
}

#[test]
fn strip_chunked_framing_rejects_non_hex_size() {
    let body = b"zz\r\n{\"a\":1}\r\n0\r\n";
    assert_eq!(strip_chunked_framing(body), body.to_vec());
}

#[test]
fn find_translated_text_locates_value() {
    let body = b"{\"translatedText\": \"Hola\"}";
    assert_eq!(find_translated_text(body), Some((20, 24)));
    assert_eq!(find_translated_text(b"{\"other\": \"x\"}"), None);
}

#[test]
fn parse_response_with_whitespace_around_colon() {
    let mut rx = [0u8; 64];
    let n = parse_translate_response(OK_RESPONSE, &mut rx).unwrap();
    assert_eq!(&rx[..n], b"Hola mundo");
}

#[test]
fn parse_chunked_response() {
    let mut rx = [0u8; 64];
    let n = parse_translate_response(CHUNKED_RESPONSE, &mut rx).unwrap();
    assert_eq!(&rx[..n], b"Bonjour");
}

#[test]
fn parse_response_truncates_to_buffer() {
    let mut rx = [7u8; 4];
    let n = parse_translate_response(OK_RESPONSE, &mut rx).unwrap();
    assert_eq!(n, 4);
    assert_eq!(&rx, b"Hola");
}

#[test]
fn parse_response_errors() {
    let mut rx = [0u8; 16];
    assert_eq!(
        parse_translate_response(b"HTTP/1.1 200 OK\r\nContent-Length: 3\r\n", &mut rx),
        Err(TranslateError::ResponseReadFailed)
    );
    assert_eq!(
        parse_translate_response(b"HTTP/1.1 200 OK\r\n\r\n{\"error\":1}", &mut rx),
        Err(TranslateError::ParseFailed)
    );
    assert_eq!(
        parse_translate_response(b"HTTP/1.1 200 OK\r\n\r\n\xff\xfe", &mut rx),
        Err(TranslateError::ParseFailed)
    );
    assert_eq!(rx, [0u8; 16]);
}

#[test]
fn translated_text_in_response_slices_the_response() {
    assert_eq!(translated_text_in_response(OK_RESPONSE), Ok(b"Hola mundo".to_vec()));
}

#[test]
fn response_read_step_cases() {
    assert_eq!(response_read_step(0, MAX_RESPONSE_LEN, ReadOutcome::Bytes(100)), ResponseRead::More(100));
    assert_eq!(response_read_step(100, MAX_RESPONSE_LEN, ReadOutcome::Bytes(0)), ResponseRead::Done(100));
    assert_eq!(response_read_step(100, MAX_RESPONSE_LEN, ReadOutcome::Error), ResponseRead::Done(100));
    assert_eq!(
        response_read_step(0, MAX_RESPONSE_LEN, ReadOutcome::Error),
        ResponseRead::Failed(TranslateError::ResponseReadFailed)
    );
    assert_eq!(
        response_read_step(2000, MAX_RESPONSE_LEN, ReadOutcome::Bytes(48)),
        ResponseRead::Failed(TranslateError::ResponseReadFailed)
    );
    assert_eq!(response_read_step(2000, MAX_RESPONSE_LEN, ReadOutcome::Bytes(47)), ResponseRead::More(2047));
}

#[test]
fn write_buf_appends_until_full() {
    let mut w = WriteBuf::new(4);
    assert_eq!(w.write_str("ab"), Ok(()));
    assert_eq!(w.write_str("abc"), Err(BufferFull));
    assert_eq!(w.write_bytes(b"cd"), Ok(()));
    assert_eq!(w.pos(), 4);
    assert_eq!(w.written(), b"abcd");
    assert_eq!(w.write_bytes(b""), Ok(()));
    assert_eq!(w.write_bytes(b"e"), Err(BufferFull));
}

#[test]
fn json_escaping() {
    let mut w = WriteBuf::new(64);
    write_json_escaped(&mut w, "a\"b\\c\nd\re\tf é").unwrap();
    assert_eq!(w.written(), "a\\\"b\\\\c\\nd\\re\\tf é".as_bytes());
}

#[test]
fn json_escaping_of_control_characters() {
    let mut w = WriteBuf::new(64);
    write_json_escaped(&mut w, "\u{1}\u{8}\u{c}\u{1f}x").unwrap();
    assert_eq!(w.written(), b"\\u0001\\b\\f\\u001fx");
}

#[test]
fn json_escaping_overflow_keeps_whole_characters() {
    let mut w = WriteBuf::new(3);
    assert_eq!(write_json_escaped(&mut w, "ab\u{e9}"), Err(TranslateError::BodyTooLong));
    assert_eq!(w.written(), b"ab");
    let mut w = WriteBuf::new(5);
    assert_eq!(write_json_escaped(&mut w, "a\u{1}"), Err(TranslateError::BodyTooLong));
    assert_eq!(w.written(), b"a");
}

#[test]
fn json_escaping_overflow_is_body_too_long() {
    let mut w = WriteBuf::new(3);
    assert_eq!(write_json_escaped(&mut w, "ab\""), Err(TranslateError::BodyTooLong));
}

#[test]
fn decimal_rendering() {
    assert_eq!(decimal_bytes(0), b"0".to_vec());
    assert_eq!(decimal_bytes(7), b"7".to_vec());
    assert_eq!(decimal_bytes(512), b"512".to_vec());
    assert_eq!(decimal_bytes(16000), b"16000".to_vec());
}

#[test]
fn request_body_is_exact_json() {
    let body = build_translate_body("say \"hi\"", "en", "es").unwrap();
    assert_eq!(
        String::from_utf8(body).unwrap(),
        "{\"q\":\"say \\\"hi\\\"\",\"source\":\"en\",\"target\":\"es\",\"format\":\"text\"}"
    );
}

#[test]
fn request_body_too_long() {
    let text = "x".repeat(500);
    assert_eq!(build_translate_body(&text, "en", "es"), Err(TranslateError::BodyTooLong));
    let text = "x".repeat(461);
    assert_eq!(build_translate_body(&text, "en", "es"), Err(TranslateError::BodyTooLong));
    let text = "x".repeat(460);
    assert_eq!(build_translate_body(&text, "en", "es").unwrap().len(), 512);
}

#[test]
fn request_head_is_exact() {
    let head = build_translate_request_head("KEY123", 57).unwrap();
    assert_eq!(
        String::from_utf8(head).unwrap(),
        "POST /language/translate/v2?key=KEY123 HTTP/1.1\r\nHost: translation.googleapis.com\r\nContent-Type: application/json\r\nContent-Length: 57\r\nConnection: close\r\n\r\n"
    );
}

#[test]
fn request_head_too_long() {
    let key = "k".repeat(1000);
    assert_eq!(build_translate_request_head(&key, 10), Err(TranslateError::RequestFailed));
}

#[test]
fn extract_transcript_cases() {
    let json = "{\"type\":\"TurnInfo\",\"transcript\":\"hello world\",\"words\":[]}";
    assert_eq!(extract_transcript(json), Some("hello world"));
    assert_eq!(extract_transcript("{\"transcript\":\"\"}"), None);
    assert_eq!(extract_transcript("{\"other\":\"x\"}"), None);
    assert_eq!(extract_transcript("{\"transcript\":\"unterminated"), None);
    assert_eq!(extract_transcript("{\"transcript\":\"caf\u{e9} ok\"}"), Some("caf\u{e9} ok"));
}

#[test]
fn cache_hits_only_on_same_text_and_language() {
    let mut cache = TranslationCache::new();
    assert_eq!(check_translation_cache(&cache, "hello", "es"), None);
    record_translation(&mut cache, "hello", "es", "hola");
    assert_eq!(check_translation_cache(&cache, "hello", "es"), Some("hola".to_string()));
    assert_eq!(check_translation_cache(&cache, "hello", "ja"), None);
    assert_eq!(check_translation_cache(&cache, "hello!", "es"), None);
}

#[test]
fn translate_response_success_updates_cache_and_state() {
    let mut state = AppState::new();
    let mut cache = TranslationCache::new();
    let wake = translate_response(&mut state, &mut cache, "hello", "es", Ok(b"hola"));
    assert!(wake);
    assert_eq!(state.translation, "hola");
    assert_eq!(check_translation_cache(&cache, "hello", "es"), Some("hola".to_string()));
    let wake = translate_response(&mut state, &mut cache, "hello", "es", Ok(b"hola"));
    assert!(!wake);
}

#[test]
fn translate_response_invalid_utf8_uses_placeholder() {
    let mut state = AppState::new();
    let mut cache = TranslationCache::new();
    let wake = translate_response(&mut state, &mut cache, "hi", "es", Ok(b"\xff"));
    assert!(wake);
    assert_eq!(state.translation, "<invalid UTF-8>");
}

#[test]
fn translate_response_failure_changes_nothing() {
    let mut state = AppState::new();
    let mut cache = TranslationCache::new();
    let wake = translate_response(&mut state, &mut cache, "hi", "es", Err(TranslateError::ParseFailed));
    assert!(!wake);
    assert_eq!(state.translation, "");
    assert!(cache.last.is_none());
}

#[test]
fn debounce_deadline_matches_design() {
    assert_eq!(TRANSLATE_DEBOUNCE_DEADLINE_MS, 500);
}

#[test]
fn debounce_translates_latest_frame_on_deadline() {
    let mut st = DebounceState::new();
    let a = debounce_step(&mut st, DebounceEvent::Message(TranscriptMessage::DgJson("one".to_string())));
    assert!(matches!(a, DebounceAction::ArmDeadline));
    let a = debounce_step(&mut st, DebounceEvent::Message(TranscriptMessage::DgJson("two".to_string())));
    assert!(matches!(a, DebounceAction::KeepDebouncing));
    match debounce_step(&mut st, DebounceEvent::DeadlineReached) {
        DebounceAction::Translate(j) => assert_eq!(j, "two"),
        _ => panic!("expected a translation"),
    }
    assert!(st.pending.is_none());
    assert_eq!(st.last.as_deref(), Some("two"));
}

#[test]
fn debounce_flush_translates_immediately() {
    let mut st = DebounceState::new();
    debounce_step(&mut st, DebounceEvent::Message(TranscriptMessage::DgJson("x".to_string())));
    match debounce_step(&mut st, DebounceEvent::Message(TranscriptMessage::Flush)) {
        DebounceAction::Translate(j) => assert_eq!(j, "x"),
        _ => panic!("expected a translation"),
    }
}

#[test]
fn debounce_idle_flush_and_deadline_do_nothing() {
    let mut st = DebounceState::new();
    assert!(matches!(debounce_step(&mut st, DebounceEvent::Message(TranscriptMessage::Flush)), DebounceAction::Wait));
    assert!(matches!(debounce_step(&mut st, DebounceEvent::DeadlineReached), DebounceAction::Wait));
    assert!(matches!(
        debounce_step(&mut st, DebounceEvent::Message(TranscriptMessage::Retranslate)),
        DebounceAction::Wait
    ));
}

#[test]
fn retranslate_repeats_last_frame() {
    let mut st = DebounceState::new();
    debounce_step(&mut st, DebounceEvent::Message(TranscriptMessage::DgJson("frame".to_string())));
    debounce_step(&mut st, DebounceEvent::DeadlineReached);
    match debounce_step(&mut st, DebounceEvent::Message(TranscriptMessage::Retranslate)) {
        DebounceAction::Translate(j) => assert_eq!(j, "frame"),
        _ => panic!("expected a translation"),
    }
    assert!(st.pending.is_none());
}

#[test]
fn plan_translation_cases() {
    let mut state = AppState::new();
    let mut cache = TranslationCache::new();
    let frame = "{\"transcript\":\"hello\"}";
    assert!(matches!(plan_translation(&mut state, &cache, "{}", "es"), TranslationPlan::NoTranscript));
    match plan_translation(&mut state, &cache, frame, "es") {
        TranslationPlan::Request(t) => assert_eq!(t, "hello"),
        _ => panic!("expected a request"),
    }
    record_translation(&mut cache, "hello", "es", "hola");
    assert!(matches!(plan_translation(&mut state, &cache, frame, "es"), TranslationPlan::Cached(true)));
    assert_eq!(state.translation, "hola");
    assert!(matches!(plan_translation(&mut state, &cache, frame, "es"), TranslationPlan::Cached(false)));
    assert!(matches!(plan_translation(&mut state, &cache, frame, "ja"), TranslationPlan::Request(_)));
}

#[test]
fn en_es_cache_is_keyed_by_input() {
    let mut cache = LastTranslation::new();
    assert_eq!(en_es_check(&cache, "hello"), None);
    en_es_response(&mut cache, "hello", Ok(b"hola"));
    assert_eq!(en_es_check(&cache, "hello"), Some("hola".to_string()));
    assert_eq!(en_es_check(&cache, "bye"), None);
    en_es_response(&mut cache, "bye", Err(gramslator::translate::TranslateError::RequestFailed));
    assert_eq!(en_es_check(&cache, "hello"), Some("hola".to_string()));
}

#[test]
fn en_es_extract_transcript() {
    assert_eq!(gramslator::translate::extract_transcript("{\"transcript\":\"hi\"}"), Some("hi"));
}
