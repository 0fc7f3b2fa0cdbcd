//! Shared application state for cross-task communication.
//!
//! [`AppState`] holds the current transcript, translation, and service
//! connection statuses.  The firmware keeps a single instance behind a
//! critical-section mutex; every update reports whether the visible state
//! actually changed, so callers only wake the display (and only fire new
//! translation requests) when something is different.

use vstd::prelude::*;

use crate::scan;

verus! {

/// Connection status for a remote service (WiFi, Deepgram, Google Translate).
#[derive(Debug, Clone, Copy, PartialEq, Eq, Structural)]
pub enum ServiceStatus {
    /// Not yet attempted.
    Idle,
    /// TCP/TLS/WS handshake or WiFi association in progress.
    Connecting,
    /// Actively connected and operational.
    Connected,
    /// Last attempt failed; will retry.
    Error,
}

/// Application-visible state shared between tasks.
pub struct AppState {
    /// The most recent transcript received from Deepgram.
    pub transcript: String,
    /// The most recent translation received from Google Translate.
    pub translation: String,
    /// WiFi connection status.
    pub wifi_status: ServiceStatus,
    /// Deepgram WebSocket connection status.
    pub deepgram_status: ServiceStatus,
    /// Google Translate connection status.
    pub translate_status: ServiceStatus,
}

/// Snapshot of the shared state, returned by [`read_state`].
pub struct StateSnapshot {
    pub transcript: String,
    pub translation: String,
    pub wifi_status: ServiceStatus,
    pub deepgram_status: ServiceStatus,
    pub translate_status: ServiceStatus,
}

impl AppState {
    /// The state before anything has been written: empty texts, every
    /// service idle.
    pub fn new() -> (s: AppState)
        ensures
            s.transcript@ == Seq::<char>::empty(),
            s.translation@ == Seq::<char>::empty(),
            s.wifi_status == ServiceStatus::Idle,
            s.deepgram_status == ServiceStatus::Idle,
            s.translate_status == ServiceStatus::Idle,
    {
        AppState {
            transcript: String::new(),
            translation: String::new(),
            wifi_status: ServiceStatus::Idle,
            deepgram_status: ServiceStatus::Idle,
            translate_status: ServiceStatus::Idle,
        }
    }
}

/// `after` is `before` with its transcript set to `text`; `changed` says
/// whether the transcript differed, and an unchanged state is left as it
/// was.
pub open spec fn transcript_update(before: AppState, after: AppState, text: Seq<char>, changed: bool) -> bool {
    &&& changed == (before.transcript@ != text)
    &&& after.transcript@ == text
    &&& after.translation == before.translation
    &&& after.wifi_status == before.wifi_status
    &&& after.deepgram_status == before.deepgram_status
    &&& after.translate_status == before.translate_status
    &&& !changed ==> after == before
}

/// `after` is `before` with its translation set to `text`; `changed` says
/// whether the translation differed, and an unchanged state is left as it
/// was.
pub open spec fn translation_update(before: AppState, after: AppState, text: Seq<char>, changed: bool) -> bool {
    &&& changed == (before.translation@ != text)
    &&& after.translation@ == text
    &&& after.transcript == before.transcript
    &&& after.wifi_status == before.wifi_status
    &&& after.deepgram_status == before.deepgram_status
    &&& after.translate_status == before.translate_status
    &&& !changed ==> after == before
}

/// Update the current transcript.
///
/// Returns `true` if the transcript actually changed (i.e. it differs from
/// the previously stored value).  Callers should only fire translation
/// requests and display updates when this returns `true`.
pub fn update_transcript(state: &mut AppState, text: &str) -> (changed: bool)
    ensures
        transcript_update(*old(state), *final(state), text@, changed),
{
    if scan::str_eq(state.transcript.as_str(), text) {
        return false;
    }
    state.transcript = text.to_owned();
    true
}

/// Update the current translation.  Returns `true` if the value actually
/// changed.
pub fn update_translation(state: &mut AppState, text: &str) -> (changed: bool)
    ensures
        translation_update(*old(state), *final(state), text@, changed),
{
    if scan::str_eq(state.translation.as_str(), text) {
        return false;
    }
    state.translation = text.to_owned();
    true
}

/// Update the WiFi connection status.  Returns `true` if it changed.
pub fn update_wifi_status(state: &mut AppState, status: ServiceStatus) -> (changed: bool)
    ensures
        changed == (old(state).wifi_status != status),
        final(state).wifi_status == status,
        final(state).transcript == old(state).transcript,
        final(state).translation == old(state).translation,
        final(state).deepgram_status == old(state).deepgram_status,
        final(state).translate_status == old(state).translate_status,
{
    if state.wifi_status == status {
        return false;
    }
    state.wifi_status = status;
    true
}

/// Update the Deepgram connection status.  Returns `true` if it changed.
pub fn update_deepgram_status(state: &mut AppState, status: ServiceStatus) -> (changed: bool)
    ensures
        changed == (old(state).deepgram_status != status),
        final(state).deepgram_status == status,
        final(state).transcript == old(state).transcript,
        final(state).translation == old(state).translation,
        final(state).wifi_status == old(state).wifi_status,
        final(state).translate_status == old(state).translate_status,
{
    if state.deepgram_status == status {
        return false;
    }
    state.deepgram_status = status;
    true
}

/// Update the Google Translate connection status.  Returns `true` if it changed.
pub fn update_translate_status(state: &mut AppState, status: ServiceStatus) -> (changed: bool)
    ensures
        changed == (old(state).translate_status != status),
        final(state).translate_status == status,
        final(state).transcript == old(state).transcript,
        final(state).translation == old(state).translation,
        final(state).wifi_status == old(state).wifi_status,
        final(state).deepgram_status == old(state).deepgram_status,
{
    if state.translate_status == status {
        return false;
    }
    state.translate_status = status;
    true
}

/// `snap` shows `state`: its values, or the initial ones before any write.
pub open spec fn shows(snap: StateSnapshot, state: Option<AppState>) -> bool {
    match state {
        Some(s) => {
            &&& snap.transcript@ == s.transcript@
            &&& snap.translation@ == s.translation@
            &&& snap.wifi_status == s.wifi_status
            &&& snap.deepgram_status == s.deepgram_status
            &&& snap.translate_status == s.translate_status
        },
        None => {
            &&& snap.transcript@ == Seq::<char>::empty()
            &&& snap.translation@ == Seq::<char>::empty()
            &&& snap.wifi_status == ServiceStatus::Idle
            &&& snap.deepgram_status == ServiceStatus::Idle
            &&& snap.translate_status == ServiceStatus::Idle
        },
    }
}

/// Read a snapshot of the current state.
///
/// If no state has been written yet, all strings are empty and all
/// statuses are [`ServiceStatus::Idle`].
pub fn read_state(state: &Option<AppState>) -> (snap: StateSnapshot)
    ensures
        shows(snap, *state),
{
    match state {
        Some(s) => StateSnapshot {
            transcript: s.transcript.clone(),
            translation: s.translation.clone(),
            wifi_status: s.wifi_status,
            deepgram_status: s.deepgram_status,
            translate_status: s.translate_status,
        },
        None => StateSnapshot {
            transcript: String::new(),
            translation: String::new(),
            wifi_status: ServiceStatus::Idle,
            deepgram_status: ServiceStatus::Idle,
            translate_status: ServiceStatus::Idle,
        },
    }
}

/// A read after an update shows what was written: once the transcript is
/// set to `text`, a snapshot shows `text` as the transcript and everything
/// else as it was before the update.
pub proof fn read_shows_transcript_update(
    before: AppState,
    after: AppState,
    text: Seq<char>,
    changed: bool,
    snap: StateSnapshot,
)
    requires
        transcript_update(before, after, text, changed),
        shows(snap, Some(after)),
    ensures
        snap.transcript@ == text,
        snap.translation@ == before.translation@,
        snap.wifi_status == before.wifi_status,
        snap.deepgram_status == before.deepgram_status,
        snap.translate_status == before.translate_status,
{
}

/// A read after an update of the translation shows the new translation and
/// everything else as it was before the update.
pub proof fn read_shows_translation_update(
    before: AppState,
    after: AppState,
    text: Seq<char>,
    changed: bool,
    snap: StateSnapshot,
)
    requires
        translation_update(before, after, text, changed),
        shows(snap, Some(after)),
    ensures
        snap.translation@ == text,
        snap.transcript@ == before.transcript@,
        snap.wifi_status == before.wifi_status,
        snap.deepgram_status == before.deepgram_status,
        snap.translate_status == before.translate_status,
{
}

/// Repeating an update changes nothing: writing the same transcript twice
/// reports a change at most the first time, and the second write leaves
/// the state as it was.
pub proof fn transcript_update_idempotent(
    s0: AppState,
    s1: AppState,
    s2: AppState,
    text: Seq<char>,
    first: bool,
    second: bool,
)
    requires
        transcript_update(s0, s1, text, first),
        transcript_update(s1, s2, text, second),
    ensures
        !second,
        s2 == s1,
{
}

/// Repeating an update of the translation changes nothing the second time.
pub proof fn translation_update_idempotent(
    s0: AppState,
    s1: AppState,
    s2: AppState,
    text: Seq<char>,
    first: bool,
    second: bool,
)
    requires
        translation_update(s0, s1, text, first),
        translation_update(s1, s2, text, second),
    ensures
        !second,
        s2 == s1,
{
}

} // verus!
