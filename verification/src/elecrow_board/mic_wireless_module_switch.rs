//! The analog switch (U8/SGM3799) that routes GPIO9/GPIO10 either to the
//! microphone or to the wireless module.

use vstd::prelude::*;

verus! {

/// Which device the shared pins are routed to.
#[derive(Debug, Clone, Copy, PartialEq, Eq, Structural)]
pub enum SwitchState {
    Mic,
    WirelessModule,
}

/// The level of the switch control pin (GPIO45) for a routing: low routes
/// the pins to the microphone, high to the wireless module.
pub fn switch_output_high(state: SwitchState) -> (high: bool)
    ensures
        high == (state == SwitchState::WirelessModule),
{
    match state {
        SwitchState::Mic => false,
        SwitchState::WirelessModule => true,
    }
}

} // verus!
