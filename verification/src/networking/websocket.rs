//! Handling of incoming WebSocket frames from the transcription service.

use vstd::prelude::*;
use vstd::string::StringSliceAdditionalSpecFns;

use crate::app_state::{self, AppState};
use crate::scan;
use crate::translation::helpers;

verus! {

/// The kind of a received WebSocket frame.
#[derive(Debug, Clone, Copy, PartialEq, Eq, Structural)]
pub enum FrameKind {
    Text,
    Binary,
    Ping,
    Pong,
    Close,
    Continue,
}

/// What the receive loop must do after a frame was handled.
pub struct FrameAction {
    /// The connection should be considered closed.
    pub closed: bool,
    /// The display must be woken to show the latest transcript.
    pub wake_display: bool,
    /// The frame's JSON, to forward to the translation task.
    pub forward_json: Option<String>,
    /// A pong carrying the frame's payload must be sent back.
    pub send_pong: bool,
}

/// The text a text frame carries: its payload decoded, or a placeholder when
/// the payload is not valid UTF-8.
pub open spec fn frame_text(payload: Seq<u8>) -> Seq<char> {
    if vstd::utf8::valid_utf8(payload) {
        vstd::utf8::decode_utf8(payload)
    } else {
        "<invalid UTF-8>"@
    }
}

/// Process a single incoming WebSocket frame.
///
/// A text frame whose JSON carries a non-empty transcript updates the shared
/// transcript and always wakes the display; the JSON is forwarded for
/// translation only when the transcript changed.  A close frame ends the
/// connection, a ping is answered with a pong, and every other frame is
/// ignored.
pub fn handle_ws_frame(frame: FrameKind, payload: &[u8], state: &mut AppState) -> (action:
    FrameAction)
    ensures
        action.closed == (frame == FrameKind::Close),
        action.send_pong == (frame == FrameKind::Ping),
        frame != FrameKind::Text ==> !action.wake_display && action.forward_json is None
            && *final(state) == *old(state),
        frame == FrameKind::Text ==> {
            let json_bytes = vstd::utf8::encode_utf8(frame_text(payload@));
            match helpers::transcript_range(json_bytes) {
                None => !action.wake_display && action.forward_json is None && *final(state)
                    == *old(state),
                Some((a, b)) => {
                    let t = vstd::utf8::decode_utf8(json_bytes.subrange(a, b));
                    &&& action.wake_display
                    &&& final(state).transcript@ == t
                    &&& final(state).translation == old(state).translation
                    &&& final(state).wifi_status == old(state).wifi_status
                    &&& final(state).deepgram_status == old(state).deepgram_status
                    &&& final(state).translate_status == old(state).translate_status
                    &&& if old(state).transcript@ != t {
                        action.forward_json is Some && action.forward_json->0@ == frame_text(
                            payload@,
                        )
                    } else {
                        action.forward_json is None
                    }
                },
            }
        },
{
    match frame {
        FrameKind::Text => {
            let json: &str = match scan::str_from_utf8(payload) {
                Some(j) => {
                    proof {
                        vstd::utf8::encode_utf8_decode_utf8(j@);
                    }
                    j
                },
                None => "<invalid UTF-8>",
            };
            match helpers::extract_transcript(json) {
                Some(transcript) => {
                    proof {
                        vstd::utf8::encode_utf8_decode_utf8(transcript@);
                    }
                    let changed = app_state::update_transcript(state, transcript);
                    let forward_json = if changed {
                        Some(json.to_owned())
                    } else {
                        None
                    };
                    FrameAction { closed: false, wake_display: true, forward_json, send_pong: false }
                },
                None => FrameAction {
                    closed: false,
                    wake_display: false,
                    forward_json: None,
                    send_pong: false,
                },
            }
        },
        FrameKind::Close => FrameAction {
            closed: true,
            wake_display: false,
            forward_json: None,
            send_pong: false,
        },
        FrameKind::Ping => FrameAction {
            closed: false,
            wake_display: false,
            forward_json: None,
            send_pong: true,
        },
        _ => FrameAction { closed: false, wake_display: false, forward_json: None, send_pong: false },
    }
}

} // verus!
