//! Gramslator: speech-to-translation display firmware logic.
//!
//! This crate holds the hardware-independent logic of the device: the
//! shared application state, HTTP/WebSocket/JSON framing used to talk to the
//! transcription and translation services, the software framebuffer with
//! dirty-region tracking, and the small decision procedures of the board
//! drivers.

pub mod app_state;
pub mod elecrow_board;
pub mod flash_data;
pub mod net;
pub mod networking;
pub mod rendering;
pub mod scan;
pub mod translate;
pub mod translation;

use vstd::prelude::*;

verus! {

/// PCM sample rate in Hz, shared between mic hardware init and Deepgram.
pub const SAMPLE_RATE: u32 = 8_000;

} // verus!
