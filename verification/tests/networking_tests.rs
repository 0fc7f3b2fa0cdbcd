use gramslator::app_state::AppState;
use gramslator::networking::connection::{
    claim_slot, pick_free_slot, pool_exhausted, release_slot, tcp_attempt_step, used_slots,
    TcpAttempt, MAX_CONNECTIONS, MAX_TCP_RETRIES,
};
use gramslator::networking::deepgram::{
    deepgram_listen_request, deepgram_transport, parse_bool, parse_u16_decimal, upgrade_response_step, ConfigError,
    DeepgramTransport, UpgradeProgress, UPGRADE_RESPONSE_CAPACITY,
};
use gramslator::networking::find_header_end;
use gramslator::networking::streaming::{stream_step, StreamEvent, StreamPhase};
use gramslator::networking::websocket::{handle_ws_frame, FrameKind};

#[test]
fn header_end_found_at_first_blank_line() {
    assert_eq!(find_header_end(b"HTTP/1.1 101\r\n\r\nbody\r\n\r\n"), Some(12));
    assert_eq!(find_header_end(b"\r\n\r\n"), Some(0));
    assert_eq!(find_header_end(b"HTTP/1.1 101\r\n\r"), None);
    assert_eq!(find_header_end(b""), None);
    assert_eq!(gramslator::net::find_header_end(b"a\r\n\r\n"), Some(1));
    assert_eq!(gramslator::net::find_header_end(b"a\r\n"), None);
}

#[test]
fn pool_slots() {
    assert_eq!(MAX_CONNECTIONS, 4);
    assert_eq!(pick_free_slot(0b0000), Some(0));
    assert_eq!(pick_free_slot(0b0101), Some(1));
    assert_eq!(pick_free_slot(0b0111), Some(3));
    assert_eq!(pick_free_slot(0b1111), None);
    assert_eq!(claim_slot(0b0001, 1), 0b0011);
    assert_eq!(release_slot(0b0011, 1), 0b0001);
    assert_eq!(release_slot(claim_slot(0b1001, 2), 2), 0b1001);
    assert_eq!(used_slots(0b1011), 3);
    assert!(pool_exhausted(0b1111));
    assert!(!pool_exhausted(0b0111));
}

#[test]
fn tcp_attempts() {
    assert_eq!(MAX_TCP_RETRIES, 5);
    assert_eq!(tcp_attempt_step(1, true), TcpAttempt::Connected);
    assert_eq!(tcp_attempt_step(1, false), TcpAttempt::Retry);
    assert_eq!(tcp_attempt_step(4, false), TcpAttempt::Retry);
    assert_eq!(tcp_attempt_step(5, false), TcpAttempt::Failed);
    assert_eq!(tcp_attempt_step(5, true), TcpAttempt::Connected);
}

#[test]
fn listen_request_bytes() {
    let req = deepgram_listen_request("api.deepgram.com", "SECRET", 16000);
    assert_eq!(
        String::from_utf8(req).unwrap(),
        "GET /v2/listen?eot_threshold=0.7&eot_timeout_ms=5000&model=flux-general-en&encoding=linear16&sample_rate=16000 HTTP/1.1\r\n\
         Host: api.deepgram.com\r\n\
         Upgrade: websocket\r\n\
         Connection: Upgrade\r\n\
         Sec-WebSocket-Key: dGhlIHNhbXBsZSBub25jZQ==\r\n\
         Sec-WebSocket-Version: 13\r\n\
         Authorization: Token SECRET\r\n\
         \r\n"
    );
}

#[test]
fn upgrade_handshake_outcomes() {
    let cap = UPGRADE_RESPONSE_CAPACITY;
    let ok = b"HTTP/1.1 101 Switching Protocols\r\nUpgrade: websocket\r\nConnection: Upgrade\r\n\r\n";
    assert_eq!(upgrade_response_step(ok, ok.len(), cap), UpgradeProgress::Accepted);
    let denied = b"HTTP/1.1 401 Unauthorized\r\nContent-Length: 0\r\n\r\n";
    assert_eq!(upgrade_response_step(denied, 10, cap), UpgradeProgress::Rejected);
    let partial = b"HTTP/1.1 101 Switching";
    assert_eq!(upgrade_response_step(partial, 5, cap), UpgradeProgress::NeedMore);
    assert_eq!(upgrade_response_step(partial, 0, cap), UpgradeProgress::ConnectionClosed);
    assert_eq!(upgrade_response_step(partial, 5, partial.len()), UpgradeProgress::HeadersTooLarge);
    // "101" only counts in the status line
    let late = b"HTTP/1.1 500 Oops\r\nX-Code: 101\r\n\r\n";
    assert_eq!(upgrade_response_step(late, 3, cap), UpgradeProgress::Rejected);
}

#[test]
fn transport_defaults_and_overrides() {
    assert_eq!(deepgram_transport(None, None), Ok(DeepgramTransport { use_tls: true, port: 443 }));
    assert_eq!(
        deepgram_transport(Some("false"), Some("8080")),
        Ok(DeepgramTransport { use_tls: false, port: 8080 })
    );
    assert_eq!(deepgram_transport(Some("true"), Some("+80")), Err(ConfigError::InvalidPort));
    assert_eq!(deepgram_transport(Some("true"), Some("0080")), Ok(DeepgramTransport { use_tls: true, port: 80 }));
    assert_eq!(deepgram_transport(None, Some("-1")), Err(ConfigError::InvalidPort));
    assert_eq!(deepgram_transport(None, Some("65536")), Err(ConfigError::InvalidPort));
    assert_eq!(deepgram_transport(None, Some("99999999999999999999")), Err(ConfigError::InvalidPort));
    assert_eq!(deepgram_transport(Some("yes"), None), Err(ConfigError::InvalidUseTls));
    assert_eq!(deepgram_transport(Some("TRUE"), None), Err(ConfigError::InvalidUseTls));
    assert_eq!(deepgram_transport(None, Some("70000")), Err(ConfigError::InvalidPort));
    assert_eq!(deepgram_transport(None, Some("")), Err(ConfigError::InvalidPort));
    assert_eq!(deepgram_transport(None, Some("8o")), Err(ConfigError::InvalidPort));
    assert_eq!(deepgram_transport(None, Some("65535")), Ok(DeepgramTransport { use_tls: true, port: 65535 }));
}

#[test]
fn text_frame_updates_transcript_and_forwards_changes() {
    let mut s = AppState::new();
    let frame = b"{\"type\":\"TurnInfo\",\"transcript\":\"hello there\"}";
    let a = handle_ws_frame(FrameKind::Text, frame, &mut s);
    assert!(!a.closed && !a.send_pong && a.wake_display);
    assert_eq!(a.forward_json.as_deref(), Some(std::str::from_utf8(frame).unwrap()));
    assert_eq!(s.transcript, "hello there");
    let a = handle_ws_frame(FrameKind::Text, frame, &mut s);
    assert!(a.wake_display);
    assert!(a.forward_json.is_none());
}

#[test]
fn text_frame_without_transcript_changes_nothing() {
    let mut s = AppState::new();
    let a = handle_ws_frame(FrameKind::Text, b"{\"type\":\"Connected\"}", &mut s);
    assert!(!a.wake_display && a.forward_json.is_none() && !a.closed);
    let a = handle_ws_frame(FrameKind::Text, b"\xff\"transcript\":\"x\"", &mut s);
    assert!(!a.wake_display && a.forward_json.is_none());
    assert_eq!(s.transcript, "");
}

#[test]
fn control_frames() {
    let mut s = AppState::new();
    let a = handle_ws_frame(FrameKind::Close, b"", &mut s);
    assert!(a.closed && !a.send_pong);
    let a = handle_ws_frame(FrameKind::Ping, b"abc", &mut s);
    assert!(a.send_pong && !a.closed && !a.wake_display);
    let a = handle_ws_frame(FrameKind::Binary, b"\"transcript\":\"x\"", &mut s);
    assert!(!a.closed && !a.send_pong && !a.wake_display && a.forward_json.is_none());
    let a = handle_ws_frame(FrameKind::Pong, b"", &mut s);
    assert!(!a.closed && !a.send_pong);
}

#[test]
fn streaming_cycle() {
    assert_eq!(stream_step(StreamPhase::Connecting, StreamEvent::Connected), StreamPhase::SendingAudio);
    assert_eq!(stream_step(StreamPhase::Connecting, StreamEvent::ConnectFailed), StreamPhase::BackingOff);
    assert_eq!(stream_step(StreamPhase::BackingOff, StreamEvent::Finished), StreamPhase::Connecting);
    assert_eq!(stream_step(StreamPhase::SendingAudio, StreamEvent::AudioSent), StreamPhase::Draining);
    assert_eq!(stream_step(StreamPhase::SendingAudio, StreamEvent::AudioFailed), StreamPhase::Ending);
    assert_eq!(stream_step(StreamPhase::Draining, StreamEvent::NothingReady), StreamPhase::SendingAudio);
    assert_eq!(stream_step(StreamPhase::Draining, StreamEvent::FrameHandled(false)), StreamPhase::Draining);
    assert_eq!(stream_step(StreamPhase::Draining, StreamEvent::FrameHandled(true)), StreamPhase::Ending);
    assert_eq!(stream_step(StreamPhase::Draining, StreamEvent::ReceiveFailed), StreamPhase::Ending);
    assert_eq!(stream_step(StreamPhase::Ending, StreamEvent::Finished), StreamPhase::BackingOff);
}

#[test]
fn port_numbers_are_digits_only() {
    assert_eq!(parse_u16_decimal("443"), Some(443));
    assert_eq!(parse_u16_decimal("0"), Some(0));
    assert_eq!(parse_u16_decimal("65535"), Some(65535));
    assert_eq!(parse_u16_decimal("65536"), None);
    assert_eq!(parse_u16_decimal("+443"), None);
    assert_eq!(parse_u16_decimal(" 443"), None);
    assert_eq!(parse_u16_decimal(""), None);
}

#[test]
fn booleans_are_exact_words() {
    assert_eq!(parse_bool("true"), Some(true));
    assert_eq!(parse_bool("false"), Some(false));
    assert_eq!(parse_bool("True"), None);
    assert_eq!(parse_bool(" true"), None);
    assert_eq!(parse_bool(""), None);
}
