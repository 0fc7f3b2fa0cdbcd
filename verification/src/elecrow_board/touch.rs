//! GT911 capacitive touch handling for the ELECROW CrowPanel 3.5" HMI.
//!
//! The display is rotated 270° CCW + vertically flipped relative to the
//! panel's native 320×480 portrait orientation.  The GT911 reports native
//! panel coordinates, so the mapping is:
//!
//! - **Display X** (0..480, horizontal) = **479 − Touch Y**
//! - **Display Y** (0..320, vertical)   = **319 − Touch X**
//!
//! Touches are classified as "left" or "right" of the display midpoint and
//! reported once per finger-down (again only when sliding into the other
//! zone).

use vstd::prelude::*;

verus! {

/// Display width in pixels (after 270° rotation).
pub const DISPLAY_WIDTH: u16 = 480;

/// Touch panel native width in pixels (portrait, before rotation).
pub const TOUCH_PANEL_WIDTH: u16 = 320;

/// Display-X threshold for zone split: left is [0, MID), right is [MID, 480).
pub const ZONE_MID_X: u16 = 240;

/// Number of controller initialisation attempts before touch is disabled.
pub const INIT_ATTEMPTS: u32 = 5;

/// Touch zone identifier for debounce tracking.
#[derive(Debug, Clone, Copy, PartialEq, Eq, Structural)]
pub enum Zone {
    Left,
    Right,
}

/// What one poll of the controller returned.
#[derive(Debug, Clone, Copy, PartialEq, Eq, Structural)]
pub enum TouchReading {
    /// A finger at native panel coordinates `(x, y)`.
    Touched { x: u16, y: u16 },
    /// No finger on the panel.
    Released,
    /// No new data since the last poll.
    NotReady,
}

/// A touch worth reporting: its zone and display coordinates.
#[derive(Debug, Clone, Copy, PartialEq, Eq, Structural)]
pub struct TouchReport {
    pub zone: Zone,
    pub display_x: u16,
    pub display_y: u16,
}

/// Map native panel coordinates to display coordinates.
pub fn touch_to_display(x: u16, y: u16) -> (d: (u16, u16))
    requires
        y < DISPLAY_WIDTH,
        x < TOUCH_PANEL_WIDTH,
    ensures
        d.0 == DISPLAY_WIDTH - 1 - y,
        d.1 == TOUCH_PANEL_WIDTH - 1 - x,
{
    ((DISPLAY_WIDTH - 1) - y, (TOUCH_PANEL_WIDTH - 1) - x)
}

/// The zone a display X coordinate falls into.
pub fn classify_zone(display_x: u16) -> (z: Zone)
    ensures
        z == if display_x < ZONE_MID_X {
            Zone::Left
        } else {
            Zone::Right
        },
{
    if display_x < ZONE_MID_X {
        Zone::Left
    } else {
        Zone::Right
    }
}

/// Advance the debounce state with one poll.  Returns the new active zone
/// and the touch to report, if any: a touch is reported on initial contact
/// and when the finger slides into the other zone; lifting the finger resets
/// the state; a poll without new data changes nothing.
pub fn touch_step(active: Option<Zone>, reading: TouchReading) -> (r: (Option<Zone>, Option<TouchReport>))
    requires
        reading matches TouchReading::Touched { x, y } ==> y < DISPLAY_WIDTH && x < TOUCH_PANEL_WIDTH,
    ensures
        match reading {
            TouchReading::Touched { x, y } => {
                let dx = (DISPLAY_WIDTH - 1 - y) as u16;
                let dy = (TOUCH_PANEL_WIDTH - 1 - x) as u16;
                let zone = if dx < ZONE_MID_X {
                    Zone::Left
                } else {
                    Zone::Right
                };
                &&& r.0 == Some(zone)
                &&& r.1 == if active == Some(zone) {
                    None
                } else {
                    Some(TouchReport { zone, display_x: dx, display_y: dy })
                }
            },
            TouchReading::Released => r.0 is None && r.1 is None,
            TouchReading::NotReady => r.0 == active && r.1 is None,
        },
{
    match reading {
        TouchReading::Touched { x, y } => {
            let (dx, dy) = touch_to_display(x, y);
            let zone = classify_zone(dx);
            let same = match active {
                Some(Zone::Left) => zone == Zone::Left,
                Some(Zone::Right) => zone == Zone::Right,
                None => false,
            };
            if same {
                (Some(zone), None)
            } else {
                (Some(zone), Some(TouchReport { zone, display_x: dx, display_y: dy }))
            }
        },
        TouchReading::Released => (None, None),
        TouchReading::NotReady => (active, None),
    }
}

/// What to do after initialisation attempt `attempt` (counting from 0).
#[derive(Debug, Clone, Copy, PartialEq, Eq, Structural)]
pub enum InitDecision {
    /// The controller answered: start polling.
    Ready,
    /// Wait and try again.
    Retry,
    /// Every attempt failed: touch stays disabled.
    GiveUp,
}

/// Decide how controller initialisation continues after an attempt.
pub fn init_decision(attempt: u32, succeeded: bool) -> (d: InitDecision)
    requires
        attempt < INIT_ATTEMPTS,
    ensures
        d == if succeeded {
            InitDecision::Ready
        } else if attempt + 1 < INIT_ATTEMPTS {
            InitDecision::Retry
        } else {
            InitDecision::GiveUp
        },
{
    if succeeded {
        InitDecision::Ready
    } else if attempt < INIT_ATTEMPTS - 1 {
        InitDecision::Retry
    } else {
        InitDecision::GiveUp
    }
}

} // verus!
