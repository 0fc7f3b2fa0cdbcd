//! Decisions of the persistent audio streaming task.
//!
//! The task keeps a WebSocket connection to the transcription service open,
//! streams microphone audio over it and, since the TLS connection cannot be
//! split into independent halves, drains the responses between two audio
//! chunks.  When the connection fails or the server closes it, the pending
//! transcript is flushed to the translation task, the connection is closed
//! and the task reconnects after [`RECONNECT_DELAY_SECS`].  The I/O is the
//! caller's; [`stream_step`] decides what follows each outcome.

use vstd::prelude::*;

verus! {

/// Delay before reconnecting after a connection error or a finished stream,
/// in seconds.
pub const RECONNECT_DELAY_SECS: u64 = 3;

/// How long to poll for a response between two audio chunks, in ms.
pub const RECV_POLL_MS: u64 = 5;

/// Fixed WebSocket mask key used for the frames the device sends.
pub const MASK_KEY: u32 = 0xDEAD_BEEF;

/// Where the streaming task stands.
#[derive(Debug, Clone, Copy, PartialEq, Eq, Structural)]
pub enum StreamPhase {
    /// Open the WebSocket to the transcription service.
    Connecting,
    /// Wait [`RECONNECT_DELAY_SECS`], then connect again.
    BackingOff,
    /// Read a microphone chunk, reduce it to mono and send it.
    SendingAudio,
    /// Poll for a response frame and handle it.
    Draining,
    /// Flush the pending transcript to the translation task, close the
    /// connection, then back off.
    Ending,
}

/// The outcome of the work a phase did.
#[derive(Debug, Clone, Copy, PartialEq, Eq, Structural)]
pub enum StreamEvent {
    /// The WebSocket is open.
    Connected,
    /// Opening the WebSocket failed.
    ConnectFailed,
    /// The audio chunk was sent and flushed.
    AudioSent,
    /// Sending or flushing the audio chunk failed.
    AudioFailed,
    /// A frame was received and handled; `true` when it closed the
    /// connection.
    FrameHandled(bool),
    /// No frame arrived within [`RECV_POLL_MS`].
    NothingReady,
    /// Receiving a frame failed.
    ReceiveFailed,
    /// The phase's work (a delay, or flushing and closing) is done.
    Finished,
}

/// Whether `event` is an outcome of the work `phase` does.
pub open spec fn stream_event_fits(phase: StreamPhase, event: StreamEvent) -> bool {
    match phase {
        StreamPhase::Connecting => event is Connected || event is ConnectFailed,
        StreamPhase::SendingAudio => event is AudioSent || event is AudioFailed,
        StreamPhase::Draining => event is FrameHandled || event is NothingReady
            || event is ReceiveFailed,
        StreamPhase::BackingOff | StreamPhase::Ending => event is Finished,
    }
}

/// The phase that follows `event` in `phase`.
pub open spec fn stream_next(phase: StreamPhase, event: StreamEvent) -> StreamPhase {
    match (phase, event) {
        (StreamPhase::Connecting, StreamEvent::Connected) => StreamPhase::SendingAudio,
        (StreamPhase::Connecting, _) => StreamPhase::BackingOff,
        (StreamPhase::SendingAudio, StreamEvent::AudioSent) => StreamPhase::Draining,
        (StreamPhase::SendingAudio, _) => StreamPhase::Ending,
        (StreamPhase::Draining, StreamEvent::NothingReady) => StreamPhase::SendingAudio,
        (StreamPhase::Draining, StreamEvent::FrameHandled(closed)) => if closed {
            StreamPhase::Ending
        } else {
            StreamPhase::Draining
        },
        (StreamPhase::Draining, _) => StreamPhase::Ending,
        (StreamPhase::Ending, _) => StreamPhase::BackingOff,
        (StreamPhase::BackingOff, _) => StreamPhase::Connecting,
    }
}

/// Decide the phase that follows `event`.
///
/// An open connection alternates between sending an audio chunk and
/// draining every response that is ready; any failure, or a frame that
/// closes the connection, ends the stream.  A failed connection attempt, and
/// an ended stream, back off before connecting again.
pub fn stream_step(phase: StreamPhase, event: StreamEvent) -> (next: StreamPhase)
    requires
        stream_event_fits(phase, event),
    ensures
        next == stream_next(phase, event),
{
    match phase {
        StreamPhase::Connecting => match event {
            StreamEvent::Connected => StreamPhase::SendingAudio,
            _ => StreamPhase::BackingOff,
        },
        StreamPhase::SendingAudio => match event {
            StreamEvent::AudioSent => StreamPhase::Draining,
            _ => StreamPhase::Ending,
        },
        StreamPhase::Draining => match event {
            StreamEvent::NothingReady => StreamPhase::SendingAudio,
            StreamEvent::FrameHandled(closed) => if closed {
                StreamPhase::Ending
            } else {
                StreamPhase::Draining
            },
            _ => StreamPhase::Ending,
        },
        StreamPhase::Ending => StreamPhase::BackingOff,
        StreamPhase::BackingOff => StreamPhase::Connecting,
    }
}

/// A stream never reconnects without backing off first, and it always
/// passes through [`StreamPhase::Ending`] (which flushes the pending
/// transcript and closes the connection) when an open connection is left.
pub proof fn stream_leaves_connection_through_ending(phase: StreamPhase, event: StreamEvent)
    requires
        stream_event_fits(phase, event),
    ensures
        stream_next(phase, event) is Connecting ==> phase is BackingOff,
        (phase is SendingAudio || phase is Draining) ==> (stream_next(phase, event) is SendingAudio
            || stream_next(phase, event) is Draining || stream_next(phase, event) is Ending),
{
}

} // verus!
