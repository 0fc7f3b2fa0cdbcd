//! Transcript extraction, the single-entry translation cache, and how a
//! finished translation is applied to the shared state.

use vstd::prelude::*;
use vstd::string::StringSliceAdditionalSpecFns;

use crate::app_state::{self, AppState};
use crate::scan;
use crate::translation::client::{self, TranslateError};

verus! {

/// A message sent from the WebSocket receive loop to the translation task.
pub enum TranscriptMessage {
    /// A Deepgram JSON frame containing a (possibly partial) transcript.
    DgJson(String),
    /// No more frames are coming — translate the buffered transcript
    /// immediately, skipping the idle-timeout debounce.
    Flush,
    /// The target language changed — re-translate the most recent
    /// transcript immediately with the new language.
    Retranslate,
}

/// The bytes of `"transcript":"`.
pub open spec fn transcript_key() -> Seq<u8> {
    seq![0x22, 0x74, 0x72, 0x61, 0x6e, 0x73, 0x63, 0x72, 0x69, 0x70, 0x74, 0x22, 0x3a, 0x22]
}

fn transcript_key_bytes() -> (v: Vec<u8>)
    ensures
        v@ == transcript_key(),
{
    vec![0x22, 0x74, 0x72, 0x61, 0x6e, 0x73, 0x63, 0x72, 0x69, 0x70, 0x74, 0x22, 0x3a, 0x22]
}
/// Byte range of the `"transcript"` value in a Deepgram JSON frame: the text
/// after the first `"transcript":"` up to the next quote, when non-empty.
pub open spec fn transcript_range(json: Seq<u8>) -> Option<(int, int)> {
    match scan::first_match(json, transcript_key()) {
        Some(k) => {
            let value_start = k + transcript_key().len();
            match scan::first_match(
                json.subrange(value_start, json.len() as int),
                client::quote(),
            ) {
                Some(e) => if e == 0 {
                    None
                } else {
                    Some((value_start, value_start + e))
                },
                None => None,
            }
        },
        None => None,
    }
}

/// The transcript is the text between `"transcript":"` and the next quote:
/// after text holding no quote, a value `t` holding none either is found
/// exactly, and an empty value (`"transcript":""`) yields no transcript,
/// whatever follows it.
pub proof fn transcript_is_the_quoted_value(pre: Seq<u8>, t: Seq<u8>, rest: Seq<u8>)
    requires
        forall|i: int| 0 <= i < pre.len() ==> pre[i] != 0x22,
        forall|i: int| 0 <= i < t.len() ==> t[i] != 0x22,
    ensures
        transcript_range(pre + transcript_key() + t + seq![0x22u8] + rest) == if t.len() == 0 {
            None::<(int, int)>
        } else {
            Some((pre.len() + 14int, pre.len() + 14int + t.len()))
        },
{
    let key = transcript_key();
    let json = pre + key + t + seq![0x22u8] + rest;
    let p = pre.len() as int;
    let n = json.len() as int;
    assert(json.subrange(p, p + 14) =~= key);
    assert forall|j: int| 0 <= j < p implies !scan::matches_at(json, key, j) by {
        assert(json.subrange(j, j + 14)[0] == json[j]);
        assert(json[j] == pre[j]);
    }
    scan::lemma_first_match_is(json, key, p);
    let tail = json.subrange(p + 14, n);
    assert(tail =~= t + seq![0x22u8] + rest);
    assert(tail.subrange(t.len() as int, t.len() + 1 as int) =~= client::quote());
    assert forall|j: int| 0 <= j < t.len() implies !scan::matches_at(tail, client::quote(), j) by {
        assert(tail.subrange(j, j + 1)[0] == tail[j]);
        assert(tail[j] == t[j]);
    }
    scan::lemma_first_match_is(tail, client::quote(), t.len() as int);
}

/// Any transcript found is non-empty, holds no quote byte, and is closed by
/// a quote.
pub proof fn transcript_has_no_quote(json: Seq<u8>)
    ensures
        transcript_range(json) matches Some((a, b)) ==> {
            &&& 0 <= a < b < json.len()
            &&& json[b] == 0x22
            &&& forall|k: int| a <= k < b ==> json[k] != 0x22
        },
{
    scan::lemma_first_match_bounds(json, transcript_key());
    if let Some(k) = scan::first_match(json, transcript_key()) {
        let v = k + 14;
        let tail = json.subrange(v, json.len() as int);
        scan::lemma_first_match_bounds(tail, client::quote());
        if let Some(e) = scan::first_match(tail, client::quote()) {
            assert(tail.subrange(e, e + 1)[0] == tail[e]);
            assert forall|k2: int| v <= k2 < v + e implies json[k2] != 0x22 by {
                assert(!scan::matches_at(tail, client::quote(), k2 - v));
                assert(tail.subrange(k2 - v, k2 - v + 1) =~= seq![tail[k2 - v]]);
                assert(tail[k2 - v] == json[k2]);
            }
        }
    }
}

/// Extract the `"transcript"` value from a Deepgram JSON response.
///
/// Returns `None` if the field is missing, malformed, or empty.
pub fn extract_transcript<'a>(json: &'a str) -> (r: Option<&'a str>)
    ensures
        match transcript_range(json.spec_bytes()) {
            Some((a, b)) => r is Some && r->0.spec_bytes() == json.spec_bytes().subrange(a, b),
            None => r is None,
        },
{
    let bytes = json.as_bytes();
    let n = bytes.len();
    let key = transcript_key_bytes();
    let q = client::quote_bytes();
    let k = match scan::find_bytes(bytes, key.as_slice()) {
        Some(k) => k,
        None => {
            return None;
        },
    };
    let value_start = k + key.len();
    let rest = vstd::slice::slice_subrange(bytes, value_start, n);
    let e = match scan::find_bytes(rest, q.as_slice()) {
        Some(e) => e,
        None => {
            return None;
        },
    };
    if e == 0 {
        return None;
    }
    let value = vstd::slice::slice_subrange(bytes, value_start, value_start + e);
    proof {
        vstd::utf8::encode_utf8_valid_utf8(json@);
        assert(bytes@.subrange(k as int, value_start as int) == transcript_key());
        assert(bytes@[value_start - 1] == bytes@.subrange(k as int, value_start as int)[13]);
        if value_start < n {
            scan::lemma_after_ascii_not_continuation(bytes@, value_start as int);
        }
        assert(rest@.subrange(e as int, e + 1) == client::quote());
        assert(bytes@[value_start + e] == rest@.subrange(e as int, e + 1)[0]);
        scan::lemma_valid_subrange(bytes@, value_start as int, value_start + e);
    }
    match scan::str_from_utf8(value) {
        Some(t) => Some(t),
        None => None,
    }
}

/// The single-entry translation cache: the most recently translated input,
/// its target language and its translation.
pub struct TranslationCache {
    pub last: Option<(String, String, String)>,
}

impl TranslationCache {
    /// An empty cache.
    pub fn new() -> (c: TranslationCache)
        ensures
            c.last is None,
    {
        TranslationCache { last: None }
    }
}

/// The cached translation of `transcript` into `target_lang`, if the cache
/// holds it.
pub open spec fn cached_translation(cache: TranslationCache, transcript: Seq<char>, target_lang: Seq<char>) -> Option<Seq<char>> {
    match cache.last {
        Some((input, lang, result)) => if input@ == transcript && lang@ == target_lang {
            Some(result@)
        } else {
            None
        },
        None => None,
    }
}

/// `cache` holds `translated` as the translation of `transcript` into
/// `target_lang`.
pub open spec fn records(cache: TranslationCache, transcript: Seq<char>, target_lang: Seq<char>, translated: Seq<char>) -> bool {
    cache.last matches Some((input, lang, result)) && input@ == transcript && lang@ == target_lang
        && result@ == translated
}

/// A recorded translation is found again: looking up the same text and
/// language gives it back, and any other text or language finds nothing.
pub proof fn cache_finds_what_was_recorded(
    cache: TranslationCache,
    transcript: Seq<char>,
    target_lang: Seq<char>,
    translated: Seq<char>,
    other_text: Seq<char>,
    other_lang: Seq<char>,
)
    requires
        records(cache, transcript, target_lang, translated),
    ensures
        cached_translation(cache, transcript, target_lang) == Some(translated),
        other_text != transcript || other_lang != target_lang ==> cached_translation(
            cache,
            other_text,
            other_lang,
        ) is None,
{
}

/// Check the single-entry translation cache. Returns the cached translation
/// if `transcript` and `target_lang` both match the most recently translated
/// input.
pub fn check_translation_cache(cache: &TranslationCache, transcript: &str, target_lang: &str) -> (r:
    Option<String>)
    ensures
        match cached_translation(*cache, transcript@, target_lang@) {
            Some(result) => r is Some && r->0@ == result,
            None => r is None,
        },
{
    match &cache.last {
        Some((prev_input, prev_lang, prev_result)) => {
            if scan::str_eq(prev_input.as_str(), transcript) && scan::str_eq(
                prev_lang.as_str(),
                target_lang,
            ) {
                Some(prev_result.clone())
            } else {
                None
            }
        },
        None => None,
    }
}

/// Remember `translated` as the translation of `transcript` into `target_lang`.
pub fn record_translation(
    cache: &mut TranslationCache,
    transcript: &str,
    target_lang: &str,
    translated: &str,
)
    ensures
        records(*final(cache), transcript@, target_lang@, translated@),
{
    cache.last = Some((transcript.to_owned(), target_lang.to_owned(), translated.to_owned()));
}

/// The text shown for the bytes a translation request returned: the text
/// they encode, or a placeholder when they are not valid UTF-8.
pub open spec fn received_text(bytes: Seq<u8>) -> Seq<char> {
    if vstd::utf8::valid_utf8(bytes) {
        vstd::utf8::decode_utf8(bytes)
    } else {
        "<invalid UTF-8>"@
    }
}

/// Apply the outcome of translating `transcript` into `target_lang`.
///
/// On success the translated bytes (decoded, or a placeholder when they are
/// not valid UTF-8) update both the translation cache and the shared state;
/// the result says whether the display must be woken.  A failed request
/// changes nothing.
pub fn translate_response(
    state: &mut AppState,
    cache: &mut TranslationCache,
    transcript: &str,
    target_lang: &str,
    outcome: Result<&[u8], TranslateError>,
) -> (wake_display: bool)
    ensures
        match outcome {
            Ok(bytes) => {
                &&& records(*final(cache), transcript@, target_lang@, received_text(bytes@))
                &&& final(state).translation@ == received_text(bytes@)
                &&& wake_display == (old(state).translation@ != received_text(bytes@))
                &&& final(state).transcript == old(state).transcript
                &&& final(state).wifi_status == old(state).wifi_status
                &&& final(state).deepgram_status == old(state).deepgram_status
                &&& final(state).translate_status == old(state).translate_status
            },
            Err(_) => !wake_display && *final(state) == *old(state) && *final(cache) == *old(cache),
        },
{
    match outcome {
        Ok(bytes) => {
            let translated: &str = match scan::str_from_utf8(bytes) {
                Some(t) => {
                    proof {
                        vstd::utf8::encode_utf8_decode_utf8(t@);
                    }
                    t
                },
                None => "<invalid UTF-8>",
            };
            record_translation(cache, transcript, target_lang, translated);
            app_state::update_translation(state, translated)
        },
        Err(_) => false,
    }
}

} // verus!
