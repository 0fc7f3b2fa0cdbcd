//! Decision logic of the ELECROW CrowPanel 3.5" board drivers.
//!
//! The register-level bring-up of each peripheral is done by the firmware
//! around this crate; what the drivers compute — touch coordinate mapping,
//! microphone clock rates and sample conversion, the display's wire format —
//! lives here.

pub mod display;
pub mod mic;
pub mod mic_wireless_module_switch;
pub mod touch;
pub mod wifi;
