use gramslator::app_state::{AppState, ServiceStatus};
use gramslator::elecrow_board::display::{address_window_args, encode_region, flush_window, WIRE_BUF_SIZE};
use gramslator::elecrow_board::mic::{downmix_to_mono, pdm_rates};
use gramslator::elecrow_board::mic_wireless_module_switch::{switch_output_high, SwitchState};
use gramslator::elecrow_board::touch::{
    classify_zone, init_decision, touch_step, touch_to_display, InitDecision, TouchReading, TouchReport, Zone,
};
use gramslator::elecrow_board::wifi::{
    apply_link_event, apply_wifi_step, wifi_connect_step, LinkEvent, WifiEvent, WifiPhase, WifiStep, MAX_WIFI_RETRIES,
};

#[test]
fn touch_coordinates_are_rotated() {
    assert_eq!(touch_to_display(0, 0), (479, 319));
    assert_eq!(touch_to_display(319, 479), (0, 0));
    assert_eq!(touch_to_display(100, 200), (279, 219));
}

#[test]
fn zones_split_at_midpoint() {
    assert_eq!(classify_zone(0), Zone::Left);
    assert_eq!(classify_zone(239), Zone::Left);
    assert_eq!(classify_zone(240), Zone::Right);
    assert_eq!(classify_zone(479), Zone::Right);
}

#[test]
fn touch_debounce() {
    // finger down on the right half (touch y small => display x large)
    let (active, report) = touch_step(None, TouchReading::Touched { x: 10, y: 20 });
    assert_eq!(active, Some(Zone::Right));
    assert_eq!(report, Some(TouchReport { zone: Zone::Right, display_x: 459, display_y: 309 }));
    // holding in the same zone reports nothing
    let (active, report) = touch_step(active, TouchReading::Touched { x: 12, y: 25 });
    assert_eq!((active, report), (Some(Zone::Right), None));
    // no new data keeps the state
    let (active, report) = touch_step(active, TouchReading::NotReady);
    assert_eq!((active, report), (Some(Zone::Right), None));
    // sliding into the left half reports again
    let (active, report) = touch_step(active, TouchReading::Touched { x: 12, y: 400 });
    assert_eq!(active, Some(Zone::Left));
    assert_eq!(report, Some(TouchReport { zone: Zone::Left, display_x: 79, display_y: 307 }));
    // lifting resets
    let (active, report) = touch_step(active, TouchReading::Released);
    assert_eq!((active, report), (None, None));
}

#[test]
fn touch_init_retries() {
    assert_eq!(init_decision(0, true), InitDecision::Ready);
    assert_eq!(init_decision(0, false), InitDecision::Retry);
    assert_eq!(init_decision(3, false), InitDecision::Retry);
    assert_eq!(init_decision(4, false), InitDecision::GiveUp);
}

#[test]
fn microphone_clocks() {
    assert_eq!(pdm_rates(16_000), (32_000, 1_024_000));
    assert_eq!(pdm_rates(8_000), (16_000, 512_000));
}

#[test]
fn downmix_keeps_every_other_sample() {
    let mut buf = [0u8, 1, 0, 1, 2, 3, 2, 3, 4, 5, 4, 5];
    let n = downmix_to_mono(&mut buf, 12);
    assert_eq!(n, 6);
    assert_eq!(&buf[..6], &[0, 1, 2, 3, 4, 5]);
    let mut odd = [7u8, 8, 7, 8, 9, 10];
    assert_eq!(downmix_to_mono(&mut odd, 6), 3);
    assert_eq!(&odd[..4], &[7, 8, 9, 10]);
}

#[test]
fn address_window_is_big_endian() {
    assert_eq!(address_window_args(0x0102, 0x01DF), vec![0x01, 0x02, 0x01, 0xDF]);
    assert_eq!(address_window_args(0, 319), vec![0, 0, 1, 63]);
}

#[test]
fn flush_window_bounds() {
    assert_eq!(flush_window(10, 20, 0, 5), None);
    assert_eq!(flush_window(10, 20, 5, 0), None);
    assert_eq!(flush_window(10, 20, 5, 5), Some((10, 20, 14, 24)));
}

#[test]
fn wire_format_shifts_channels() {
    // 2x2 framebuffer, encode the right column
    let fb = [0u8, 1, 2, 3, 4, 5, 6, 7, 8, 9, 10, 63];
    let wire = encode_region(&fb, 2, 1, 0, 1, 2);
    assert_eq!(wire, vec![12, 16, 20, 36, 40, 252]);
    assert_eq!(WIRE_BUF_SIZE % 3, 0);
}

#[test]
fn mic_switch_levels() {
    assert!(!switch_output_high(SwitchState::Mic));
    assert!(switch_output_high(SwitchState::WirelessModule));
}

#[test]
fn wifi_bring_up_succeeds() {
    let s = wifi_connect_step(WifiPhase::Associating(1), WifiEvent::Associated);
    assert_eq!(s, WifiStep { disconnect: false, back_off: false, publish: None, next: WifiPhase::WaitingForDhcp(1) });
    let s = wifi_connect_step(WifiPhase::WaitingForDhcp(1), WifiEvent::DhcpConfigured);
    assert_eq!(s.next, WifiPhase::Connected);
}

#[test]
fn wifi_retries_then_gives_up() {
    assert_eq!(MAX_WIFI_RETRIES, 5);
    let s = wifi_connect_step(WifiPhase::Associating(1), WifiEvent::AssociationFailed);
    assert_eq!(s, WifiStep { disconnect: false, back_off: true, publish: None, next: WifiPhase::Associating(2) });
    let s = wifi_connect_step(WifiPhase::Associating(2), WifiEvent::AssociationTimedOut);
    assert_eq!(s, WifiStep { disconnect: true, back_off: true, publish: None, next: WifiPhase::Associating(3) });
    let s = wifi_connect_step(WifiPhase::WaitingForDhcp(3), WifiEvent::DhcpTimedOut);
    assert_eq!(s, WifiStep { disconnect: true, back_off: true, publish: None, next: WifiPhase::Associating(4) });
    let s = wifi_connect_step(WifiPhase::Associating(5), WifiEvent::AssociationFailed);
    assert_eq!(s, WifiStep { disconnect: false, back_off: true, publish: Some(ServiceStatus::Error), next: WifiPhase::GaveUp });
    let s = wifi_connect_step(WifiPhase::WaitingForDhcp(5), WifiEvent::DhcpTimedOut);
    assert_eq!(s, WifiStep { disconnect: true, back_off: true, publish: Some(ServiceStatus::Error), next: WifiPhase::GaveUp });
}

#[test]
fn wifi_giving_up_publishes_the_error() {
    let mut st = AppState::new();
    let quiet = wifi_connect_step(WifiPhase::Associating(1), WifiEvent::AssociationFailed);
    assert!(!apply_wifi_step(&mut st, quiet));
    assert_eq!(st.wifi_status, ServiceStatus::Idle);
    let last = wifi_connect_step(WifiPhase::Associating(5), WifiEvent::AssociationTimedOut);
    assert!(apply_wifi_step(&mut st, last));
    assert_eq!(st.wifi_status, ServiceStatus::Error);
    assert!(!apply_wifi_step(&mut st, last));
    assert_eq!(st.wifi_status, ServiceStatus::Error);
}

#[test]
fn wifi_link_events_set_status() {
    let mut s = AppState::new();
    assert!(apply_link_event(&mut s, LinkEvent::Started));
    assert_eq!(s.wifi_status, ServiceStatus::Connecting);
    assert!(!apply_link_event(&mut s, LinkEvent::LinkUp));
    assert!(apply_link_event(&mut s, LinkEvent::ConfigUp));
    assert_eq!(s.wifi_status, ServiceStatus::Connected);
    assert!(apply_link_event(&mut s, LinkEvent::LinkDown));
    assert_eq!(s.wifi_status, ServiceStatus::Error);
}
