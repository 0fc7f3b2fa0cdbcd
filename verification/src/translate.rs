//! Fixed English-to-Spanish translation.
//!
//! The same Google Translate v2 client as [`crate::translation`], with a
//! single-entry cache keyed by the input text alone: this path always
//! translates from English to Spanish.

use vstd::prelude::*;

use crate::scan;
use crate::translation::helpers;

pub use crate::translation::client::TranslateError;
pub use crate::translation::helpers::extract_transcript;

verus! {

/// The single-entry translation cache: the most recently translated input
/// and its translation.
pub struct LastTranslation {
    pub last: Option<(String, String)>,
}

impl LastTranslation {
    /// An empty cache.
    pub fn new() -> (c: LastTranslation)
        ensures
            c.last is None,
    {
        LastTranslation { last: None }
    }
}

/// Check the single-entry translation cache. Returns the cached translation
/// if `transcript` matches the most recently translated input.
pub fn check_translation_cache(cache: &LastTranslation, transcript: &str) -> (r: Option<String>)
    ensures
        match cache.last {
            Some((input, result)) => if input@ == transcript@ {
                r is Some && r->0@ == result@
            } else {
                r is None
            },
            None => r is None,
        },
{
    match &cache.last {
        Some((prev_input, prev_result)) => {
            if scan::str_eq(prev_input.as_str(), transcript) {
                Some(prev_result.clone())
            } else {
                None
            }
        },
        None => None,
    }
}

/// Apply the outcome of translating `transcript` from English to Spanish:
/// on success the translated bytes (decoded, or a placeholder when they are
/// not valid UTF-8) become the cached translation of `transcript`; a failed
/// request leaves the cache as it was.
pub fn translate_response(
    cache: &mut LastTranslation,
    transcript: &str,
    outcome: Result<&[u8], TranslateError>,
)
    ensures
        match outcome {
            Ok(bytes) => final(cache).last matches Some((input, result)) && input@ == transcript@
                && result@ == helpers::received_text(bytes@),
            Err(_) => *final(cache) == *old(cache),
        },
{
    match outcome {
        Ok(bytes) => {
            let translated: &str = match scan::str_from_utf8(bytes) {
                Some(t) => {
                    proof {
                        vstd::utf8::encode_utf8_decode_utf8(t@);
                    }
                    t
                },
                None => "<invalid UTF-8>",
            };
            cache.last = Some((transcript.to_owned(), translated.to_owned()));
        },
        Err(_) => {},
    }
}

} // verus!
