//! What the display task redraws on each wake-up.
//!
//! The display shows the current translation (large, top section) and
//! transcript (small, bottom section), a centred status text while WiFi or
//! the transcription service is not connected, and a small indicator for the
//! translation service.  Each time the task wakes it reads a snapshot of the
//! shared state; [`plan_frame`] compares it with what is on screen and says
//! what has to be redrawn.  Word-wrapping, scrolling and drawing are the
//! caller's.

use vstd::prelude::*;

use crate::app_state::StateSnapshot;
use crate::rendering::status;
use crate::scan;

verus! {

/// What the display currently shows.
pub struct DisplayMemory {
    /// The transcript last laid out.
    pub last_transcript: String,
    /// The translation last laid out.
    pub last_translation: String,
    /// The primary status text last drawn.
    pub last_primary_status: &'static str,
    /// The translate indicator last drawn.
    pub last_tr_status: &'static str,
}

impl DisplayMemory {
    /// The memory of a blank screen.
    pub fn new() -> (m: DisplayMemory)
        ensures
            m.last_transcript@ == Seq::<char>::empty(),
            m.last_translation@ == Seq::<char>::empty(),
            m.last_primary_status@ == Seq::<char>::empty(),
            m.last_tr_status@ == Seq::<char>::empty(),
    {
        proof {
            reveal_strlit("");
        }
        DisplayMemory {
            last_transcript: String::new(),
            last_translation: String::new(),
            last_primary_status: "",
            last_tr_status: "",
        }
    }
}

/// What to redraw for one snapshot.
pub struct FramePlan {
    /// The translation changed: lay out this text in the translation section.
    pub translation_text: Option<String>,
    /// The transcript changed: lay out this text in the transcript section.
    pub transcript_text: Option<String>,
    /// The primary status changed: redraw the status area with this text
    /// (an empty text only clears it).
    pub primary_status: Option<&'static str>,
    /// The primary status was cleared: the translation section must be
    /// repainted.
    pub repaint_translation: bool,
    /// The translate indicator changed: redraw it with this text.
    pub translate_status: Option<&'static str>,
    /// The translation section may be drawn: no primary status covers it.
    pub translation_visible: bool,
}

/// Compare a snapshot of the shared state with what is on screen, record the
/// new content and say what has to be redrawn.
///
/// A text is laid out again only when it changed.  The primary status is
/// redrawn when its text changed, and clearing it repaints the translation
/// under it.  The translation section is not drawn while a primary status
/// is shown.
pub fn plan_frame(mem: &mut DisplayMemory, snap: StateSnapshot) -> (plan: FramePlan)
    ensures
        final(mem).last_translation@ == snap.translation@,
        final(mem).last_transcript@ == snap.transcript@,
        final(mem).last_primary_status@ == status::primary_status(
            snap.wifi_status,
            snap.deepgram_status,
        ),
        final(mem).last_tr_status@ == status::translate_status(snap.translate_status),
        if snap.translation@ != old(mem).last_translation@ {
            plan.translation_text matches Some(t) && t@ == snap.translation@
        } else {
            plan.translation_text is None
        },
        if snap.transcript@ != old(mem).last_transcript@ {
            plan.transcript_text matches Some(t) && t@ == snap.transcript@
        } else {
            plan.transcript_text is None
        },
        if status::primary_status(snap.wifi_status, snap.deepgram_status)
            != old(mem).last_primary_status@ {
            &&& plan.primary_status matches Some(s) && s@ == status::primary_status(
                snap.wifi_status,
                snap.deepgram_status,
            )
            &&& plan.repaint_translation == (status::primary_status(
                snap.wifi_status,
                snap.deepgram_status,
            ).len() == 0)
        } else {
            plan.primary_status is None && !plan.repaint_translation
        },
        if status::translate_status(snap.translate_status) != old(mem).last_tr_status@ {
            plan.translate_status matches Some(s) && s@ == status::translate_status(
                snap.translate_status,
            )
        } else {
            plan.translate_status is None
        },
        plan.translation_visible == (status::primary_status(
            snap.wifi_status,
            snap.deepgram_status,
        ).len() == 0),
{
    let translation_text = if scan::str_eq(snap.translation.as_str(), mem.last_translation.as_str()) {
        None
    } else {
        mem.last_translation = snap.translation.clone();
        Some(snap.translation)
    };
    let transcript_text = if scan::str_eq(snap.transcript.as_str(), mem.last_transcript.as_str()) {
        None
    } else {
        mem.last_transcript = snap.transcript.clone();
        Some(snap.transcript)
    };
    let primary = status::primary_status_text(snap.wifi_status, snap.deepgram_status);
    let (primary_status, repaint_translation) = if scan::str_eq(primary, mem.last_primary_status) {
        (None, false)
    } else {
        mem.last_primary_status = primary;
        (Some(primary), primary.is_empty())
    };
    let tr = status::translate_status_text(snap.translate_status);
    let translate_status = if scan::str_eq(tr, mem.last_tr_status) {
        None
    } else {
        mem.last_tr_status = tr;
        Some(tr)
    };
    let translation_visible = mem.last_primary_status.is_empty();
    FramePlan {
        translation_text,
        transcript_text,
        primary_status,
        repaint_translation,
        translate_status,
        translation_visible,
    }
}

} // verus!
