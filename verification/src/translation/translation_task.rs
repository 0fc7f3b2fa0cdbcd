//! Decisions of the background translation task.
//!
//! The task receives Deepgram JSON frames, debounces rapid partial
//! transcripts for up to [`TRANSLATE_DEBOUNCE_DEADLINE_MS`], then translates
//! the latest one, skipping the network round-trip on a cache hit.  The
//! waiting, the timer and the network request are the caller's; the
//! functions here decide what happens on each message or expired deadline.

use vstd::prelude::*;
use vstd::string::StringSliceAdditionalSpecFns;

use crate::app_state::{self, AppState};
use crate::translation::helpers::{self, TranscriptMessage, TranslationCache};

verus! {

/// Maximum time to buffer partial transcripts before translating, in ms.
pub const TRANSLATE_DEBOUNCE_DEADLINE_MS: u64 = 500;

/// What the translation task holds between messages.
pub struct DebounceState {
    /// The newest frame received while a debounce is running; `None` while
    /// the task waits for a first frame.
    pub pending: Option<String>,
    /// The frame most recently handed out for translation.
    pub last: Option<String>,
}

impl DebounceState {
    /// The state of a task that has received nothing yet.
    pub fn new() -> (s: DebounceState)
        ensures
            s.pending is None,
            s.last is None,
    {
        DebounceState { pending: None, last: None }
    }
}

/// What woke the translation task.
pub enum DebounceEvent {
    /// A message arrived from the WebSocket receive loop.
    Message(TranscriptMessage),
    /// The debounce deadline expired.
    DeadlineReached,
}

/// What the translation task does next.
pub enum DebounceAction {
    /// Nothing to translate: wait for the next message.
    Wait,
    /// A debounce started: arm the deadline, then wait for messages or it.
    ArmDeadline,
    /// Keep waiting for messages or the deadline already armed.
    KeepDebouncing,
    /// Translate this Deepgram frame now.
    Translate(String),
}

/// Advance the debounce on `event`.
///
/// A first frame starts a debounce and newer frames replace it while it
/// runs.  The buffered frame is translated when the deadline expires, when
/// a flush arrives, or when the target language changes.  While nothing is
/// buffered, a flush or an expired deadline does nothing, and a language
/// change re-translates the frame translated last, if there is one.
pub fn debounce_step(st: &mut DebounceState, event: DebounceEvent) -> (action: DebounceAction)
    ensures
        match event {
            DebounceEvent::Message(TranscriptMessage::DgJson(json)) => {
                &&& final(st).pending == Some(json)
                &&& final(st).last == old(st).last
                &&& action == if old(st).pending is None {
                    DebounceAction::ArmDeadline
                } else {
                    DebounceAction::KeepDebouncing
                }
            },
            _ => match old(st).pending {
                Some(p) => {
                    &&& final(st).pending is None
                    &&& final(st).last matches Some(l) && l@ == p@
                    &&& action == DebounceAction::Translate(p)
                },
                None => {
                    &&& final(st).pending is None
                    &&& final(st).last == old(st).last
                    &&& if (event matches DebounceEvent::Message(TranscriptMessage::Retranslate))
                        && old(st).last is Some {
                        action matches DebounceAction::Translate(t) && t@ == old(st).last->0@
                    } else {
                        action == DebounceAction::Wait
                    }
                },
            },
        },
{
    match event {
        DebounceEvent::Message(TranscriptMessage::DgJson(json)) => {
            let was_idle = st.pending.is_none();
            st.pending = Some(json);
            if was_idle {
                DebounceAction::ArmDeadline
            } else {
                DebounceAction::KeepDebouncing
            }
        },
        other => {
            let pending = st.pending.take();
            match pending {
                Some(p) => {
                    st.last = Some(p.clone());
                    DebounceAction::Translate(p)
                },
                None => {
                    let retranslate = match other {
                        DebounceEvent::Message(TranscriptMessage::Retranslate) => true,
                        _ => false,
                    };
                    if retranslate {
                        match &st.last {
                            Some(l) => DebounceAction::Translate(l.clone()),
                            None => DebounceAction::Wait,
                        }
                    } else {
                        DebounceAction::Wait
                    }
                },
            }
        },
    }
}

/// What to do with a frame handed out for translation.
pub enum TranslationPlan {
    /// The frame carries no transcript: nothing to translate.
    NoTranscript,
    /// The translation was cached and has been applied to the shared state;
    /// `true` when the display must be woken.
    Cached(bool),
    /// Request a translation of this transcript.
    Request(String),
}

/// The transcript text of a Deepgram frame, when it has one.
pub open spec fn frame_transcript(json: Seq<u8>) -> Option<Seq<char>> {
    match helpers::transcript_range(json) {
        Some((a, b)) => Some(vstd::utf8::decode_utf8(json.subrange(a, b))),
        None => None,
    }
}

/// Decide what a frame handed out for translation into `target_lang`
/// leads to.
///
/// A frame without a transcript is dropped.  On a cache hit the cached
/// translation updates the shared state right away and no request is made.
/// Otherwise the transcript is to be sent to the translation service.
pub fn plan_translation(
    state: &mut AppState,
    cache: &TranslationCache,
    json: &str,
    target_lang: &str,
) -> (p: TranslationPlan)
    ensures
        match frame_transcript(json.spec_bytes()) {
            None => p is NoTranscript && *final(state) == *old(state),
            Some(t) => match helpers::cached_translation(*cache, t, target_lang@) {
                Some(result) => {
                    &&& p == TranslationPlan::Cached(old(state).translation@ != result)
                    &&& final(state).translation@ == result
                    &&& final(state).transcript == old(state).transcript
                    &&& final(state).wifi_status == old(state).wifi_status
                    &&& final(state).deepgram_status == old(state).deepgram_status
                    &&& final(state).translate_status == old(state).translate_status
                },
                None => p matches TranslationPlan::Request(s) && s@ == t && *final(state)
                    == *old(state),
            },
        },
{
    let transcript = match helpers::extract_transcript(json) {
        Some(t) => t,
        None => {
            return TranslationPlan::NoTranscript;
        },
    };
    proof {
        vstd::utf8::encode_utf8_decode_utf8(transcript@);
    }
    match helpers::check_translation_cache(cache, transcript, target_lang) {
        Some(result) => {
            let wake = app_state::update_translation(state, result.as_str());
            TranslationPlan::Cached(wake)
        },
        None => TranslationPlan::Request(transcript.to_owned()),
    }
}

} // verus!
