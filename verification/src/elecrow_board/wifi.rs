//! Decisions of the WiFi bring-up and link monitoring tasks.
//!
//! Association and DHCP are retried up to [`MAX_WIFI_RETRIES`] times, with
//! timeouts, so the device does not hang forever on a flaky network.  The
//! radio calls, timeouts and delays are the caller's; these functions decide
//! what each outcome leads to and which status the display shows.

use vstd::prelude::*;

use crate::app_state::{self, AppState, ServiceStatus};

verus! {

/// How long one association attempt may take, in seconds.
pub const WIFI_CONNECT_TIMEOUT_SECS: u64 = 10;

/// How long to wait for a DHCP lease after associating, in seconds.
pub const DHCP_TIMEOUT_SECS: u64 = 15;

/// Number of association attempts before giving up.
pub const MAX_WIFI_RETRIES: usize = 5;

/// Pause between attempts, in seconds.
pub const RETRY_DELAY_SECS: u64 = 2;

/// Where the bring-up stands.
#[derive(Debug, Clone, Copy, PartialEq, Eq, Structural)]
pub enum WifiPhase {
    /// Association attempt `n` (counting from 1) is to be made.
    Associating(usize),
    /// Attempt `n` associated; waiting for the DHCP lease.
    WaitingForDhcp(usize),
    /// Associated and configured: the task is done.
    Connected,
    /// Every attempt failed.
    GaveUp,
}

/// The outcome of what the current phase waited for.
#[derive(Debug, Clone, Copy, PartialEq, Eq, Structural)]
pub enum WifiEvent {
    /// The access point accepted the association.
    Associated,
    /// The association failed with an error.
    AssociationFailed,
    /// The association did not finish within its timeout.
    AssociationTimedOut,
    /// The stack received its IP configuration.
    DhcpConfigured,
    /// No lease arrived within the DHCP timeout.
    DhcpTimedOut,
}

/// What the caller does after an outcome.
#[derive(Debug, Clone, Copy, PartialEq, Eq, Structural)]
pub struct WifiStep {
    /// Abort the pending association first, so the driver resets cleanly.
    pub disconnect: bool,
    /// Then wait [`RETRY_DELAY_SECS`].
    pub back_off: bool,
    /// Then publish this WiFi status (waking the display when it changed
    /// the shared state): [`ServiceStatus::Error`] on giving up.
    pub publish: Option<ServiceStatus>,
    /// Then continue in this phase.
    pub next: WifiPhase,
}

/// Whether `phase` is one a bring-up in progress can be in.
pub open spec fn phase_in_progress(phase: WifiPhase) -> bool {
    match phase {
        WifiPhase::Associating(n) => 1 <= n <= MAX_WIFI_RETRIES,
        WifiPhase::WaitingForDhcp(n) => 1 <= n <= MAX_WIFI_RETRIES,
        _ => false,
    }
}

/// Whether `event` is an outcome of what `phase` waits for.
pub open spec fn event_fits(phase: WifiPhase, event: WifiEvent) -> bool {
    match phase {
        WifiPhase::Associating(_) => event is Associated || event is AssociationFailed
            || event is AssociationTimedOut,
        WifiPhase::WaitingForDhcp(_) => event is DhcpConfigured || event is DhcpTimedOut,
        _ => false,
    }
}

/// The phase after attempt `n` failed: the next attempt, or giving up after
/// the last one.
pub open spec fn after_failure(n: usize) -> WifiPhase {
    if n < MAX_WIFI_RETRIES {
        WifiPhase::Associating((n + 1) as usize)
    } else {
        WifiPhase::GaveUp
    }
}

/// The status published when the bring-up moves to `next`: the WiFi error
/// when it gives up, nothing otherwise.
pub open spec fn published_status(next: WifiPhase) -> Option<ServiceStatus> {
    if next is GaveUp {
        Some(ServiceStatus::Error)
    } else {
        None
    }
}

/// The step the bring-up takes when `event` ends what `phase` waited for.
pub open spec fn wifi_transition(phase: WifiPhase, event: WifiEvent) -> WifiStep {
    let step = wifi_move(phase, event);
    WifiStep { publish: published_status(step.next), ..step }
}

/// Disconnecting, backing off and the next phase of the step that `event`
/// in `phase` leads to.
pub open spec fn wifi_move(phase: WifiPhase, event: WifiEvent) -> WifiStep {
    match phase {
        WifiPhase::Associating(n) => match event {
            WifiEvent::Associated => WifiStep {
                disconnect: false,
                back_off: false,
                publish: None,
                next: WifiPhase::WaitingForDhcp(n),
            },
            WifiEvent::AssociationFailed => WifiStep {
                disconnect: false,
                back_off: true,
                publish: None,
                next: after_failure(n),
            },
            _ => WifiStep { disconnect: true, back_off: true, publish: None, next: after_failure(n) },
        },
        WifiPhase::WaitingForDhcp(n) => match event {
            WifiEvent::DhcpConfigured => WifiStep {
                disconnect: false,
                back_off: false,
                publish: None,
                next: WifiPhase::Connected,
            },
            _ => WifiStep { disconnect: true, back_off: true, publish: None, next: after_failure(n) },
        },
        _ => WifiStep { disconnect: false, back_off: false, publish: None, next: phase },
    }
}

/// Decide how the bring-up continues after `event` ended what `phase`
/// waited for.
///
/// A successful association moves on to DHCP and a lease ends the task.  A
/// failed association backs off before the next attempt; a timed-out one
/// or a missing lease also disconnects first.  After the last attempt the
/// task gives up and publishes the WiFi error status.
pub fn wifi_connect_step(phase: WifiPhase, event: WifiEvent) -> (step: WifiStep)
    requires
        phase_in_progress(phase),
        event_fits(phase, event),
    ensures
        step == wifi_transition(phase, event),
{
    let mv = match phase {
        WifiPhase::Associating(n) => match event {
            WifiEvent::Associated => WifiStep {
                disconnect: false,
                back_off: false,
                publish: None,
                next: WifiPhase::WaitingForDhcp(n),
            },
            WifiEvent::AssociationFailed => WifiStep {
                disconnect: false,
                back_off: true,
                publish: None,
                next: next_attempt(n),
            },
            _ => WifiStep { disconnect: true, back_off: true, publish: None, next: next_attempt(n) },
        },
        WifiPhase::WaitingForDhcp(n) => match event {
            WifiEvent::DhcpConfigured => WifiStep {
                disconnect: false,
                back_off: false,
                publish: None,
                next: WifiPhase::Connected,
            },
            _ => WifiStep { disconnect: true, back_off: true, publish: None, next: next_attempt(n) },
        },
        _ => WifiStep { disconnect: false, back_off: false, publish: None, next: phase },
    };
    let publish = match mv.next {
        WifiPhase::GaveUp => Some(ServiceStatus::Error),
        _ => None,
    };
    WifiStep { disconnect: mv.disconnect, back_off: mv.back_off, publish, next: mv.next }
}

fn next_attempt(n: usize) -> (p: WifiPhase)
    requires
        n <= MAX_WIFI_RETRIES,
    ensures
        p == after_failure(n),
{
    if n < MAX_WIFI_RETRIES {
        WifiPhase::Associating(n + 1)
    } else {
        WifiPhase::GaveUp
    }
}

/// The bring-up is bounded: a step never leaves the phases a bring-up can
/// be in, the attempt number only moves from `n` to `n + 1`, and the task
/// gives up only after attempt [`MAX_WIFI_RETRIES`] failed; giving up, and
/// only giving up, publishes the WiFi error status.
pub proof fn wifi_attempts_bounded(phase: WifiPhase, event: WifiEvent)
    requires
        phase_in_progress(phase),
        event_fits(phase, event),
    ensures
        ({
            let next = wifi_transition(phase, event).next;
            &&& phase_in_progress(next) || next is Connected || next is GaveUp
            &&& next is GaveUp ==> (phase matches WifiPhase::Associating(n) && n == MAX_WIFI_RETRIES)
                || (phase matches WifiPhase::WaitingForDhcp(m) && m == MAX_WIFI_RETRIES)
            &&& next matches WifiPhase::Associating(m) ==> (phase matches WifiPhase::Associating(n)
                && m == n + 1) || (phase matches WifiPhase::WaitingForDhcp(k) && m == k + 1)
            &&& wifi_transition(phase, event).publish == if next is GaveUp {
                Some(ServiceStatus::Error)
            } else {
                None::<ServiceStatus>
            }
        }),
{
}

/// A change of the WiFi link reported by the network stack.
#[derive(Debug, Clone, Copy, PartialEq, Eq, Structural)]
pub enum LinkEvent {
    /// Monitoring started; association is already under way.
    Started,
    /// The link (L2) came up; DHCP is pending.
    LinkUp,
    /// The IP configuration is in place.
    ConfigUp,
    /// The link dropped.
    LinkDown,
}

/// The WiFi status the display shows after a link event.
pub open spec fn link_status(event: LinkEvent) -> ServiceStatus {
    match event {
        LinkEvent::Started => ServiceStatus::Connecting,
        LinkEvent::LinkUp => ServiceStatus::Connecting,
        LinkEvent::ConfigUp => ServiceStatus::Connected,
        LinkEvent::LinkDown => ServiceStatus::Error,
    }
}

/// Publish the status a bring-up step names in the shared state.  Returns
/// `true` when the WiFi status changed, so the display must be woken.
pub fn apply_wifi_step(state: &mut AppState, step: WifiStep) -> (changed: bool)
    ensures
        match step.publish {
            Some(status) => {
                &&& final(state).wifi_status == status
                &&& changed == (old(state).wifi_status != status)
                &&& final(state).transcript == old(state).transcript
                &&& final(state).translation == old(state).translation
                &&& final(state).deepgram_status == old(state).deepgram_status
                &&& final(state).translate_status == old(state).translate_status
            },
            None => !changed && *final(state) == *old(state),
        },
{
    match step.publish {
        Some(status) => app_state::update_wifi_status(state, status),
        None => false,
    }
}

/// Record a link event in the shared state.  Returns `true` when the WiFi
/// status changed, so the display must be woken.
pub fn apply_link_event(state: &mut AppState, event: LinkEvent) -> (changed: bool)
    ensures
        final(state).wifi_status == link_status(event),
        changed == (old(state).wifi_status != link_status(event)),
        final(state).transcript == old(state).transcript,
        final(state).translation == old(state).translation,
        final(state).deepgram_status == old(state).deepgram_status,
        final(state).translate_status == old(state).translate_status,
{
    let status = match event {
        LinkEvent::Started => ServiceStatus::Connecting,
        LinkEvent::LinkUp => ServiceStatus::Connecting,
        LinkEvent::ConfigUp => ServiceStatus::Connected,
        LinkEvent::LinkDown => ServiceStatus::Error,
    };
    app_state::update_wifi_status(state, status)
}

} // verus!
