//! The status texts the display shows for the network services.

use vstd::prelude::*;

use crate::app_state::ServiceStatus;

verus! {

/// The centered status text for WiFi/Deepgram issues: WiFi problems take
/// precedence; nothing is shown when both services are connected.
pub open spec fn primary_status(wifi: ServiceStatus, deepgram: ServiceStatus) -> Seq<char> {
    match wifi {
        ServiceStatus::Idle | ServiceStatus::Connecting => "Connecting to WiFi..."@,
        ServiceStatus::Error => "WiFi disconnected"@,
        ServiceStatus::Connected => match deepgram {
            ServiceStatus::Idle | ServiceStatus::Connecting => "Connecting to Deepgram..."@,
            ServiceStatus::Error => "Deepgram disconnected"@,
            ServiceStatus::Connected => ""@,
        },
    }
}

/// The small Translate indicator: shown while connecting and after an error.
pub open spec fn translate_status(translate: ServiceStatus) -> Seq<char> {
    match translate {
        ServiceStatus::Connecting => "TR..."@,
        ServiceStatus::Error => "TR!"@,
        _ => ""@,
    }
}

/// Build centered status text for WiFi/Deepgram issues (plain English).
/// Returns empty string when both are healthy.
pub fn primary_status_text(wifi: ServiceStatus, deepgram: ServiceStatus) -> (s: &'static str)
    ensures
        s@ == primary_status(wifi, deepgram),
{
    match wifi {
        ServiceStatus::Idle | ServiceStatus::Connecting => {
            return "Connecting to WiFi...";
        },
        ServiceStatus::Error => {
            return "WiFi disconnected";
        },
        ServiceStatus::Connected => {},
    }
    match deepgram {
        ServiceStatus::Idle | ServiceStatus::Connecting => {
            return "Connecting to Deepgram...";
        },
        ServiceStatus::Error => {
            return "Deepgram disconnected";
        },
        ServiceStatus::Connected => {},
    }
    ""
}

/// Build small indicator text for Translate status (top-right corner).
pub fn translate_status_text(translate: ServiceStatus) -> (s: &'static str)
    ensures
        s@ == translate_status(translate),
{
    match translate {
        ServiceStatus::Connecting => "TR...",
        ServiceStatus::Error => "TR!",
        _ => "",
    }
}

} // verus!
