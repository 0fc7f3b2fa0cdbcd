use gramslator::app_state::{
    read_state, update_deepgram_status, update_transcript, update_translate_status,
    update_translation, update_wifi_status, AppState, ServiceStatus,
};

#[test]
fn read_before_any_write_is_empty_and_idle() {
    let snap = read_state(&None);
    assert_eq!(snap.transcript, "");
    assert_eq!(snap.translation, "");
    assert_eq!(snap.wifi_status, ServiceStatus::Idle);
    assert_eq!(snap.deepgram_status, ServiceStatus::Idle);
    assert_eq!(snap.translate_status, ServiceStatus::Idle);
}

#[test]
fn new_state_is_empty_and_idle() {
    let s = AppState::new();
    assert_eq!(s.transcript, "");
    assert_eq!(s.translation, "");
    assert_eq!(s.wifi_status, ServiceStatus::Idle);
    assert_eq!(s.deepgram_status, ServiceStatus::Idle);
    assert_eq!(s.translate_status, ServiceStatus::Idle);
}

#[test]
fn transcript_update_reports_change_once() {
    let mut s = AppState::new();
    assert!(update_transcript(&mut s, "hello"));
    assert!(!update_transcript(&mut s, "hello"));
    assert!(update_transcript(&mut s, "hello world"));
    assert_eq!(s.transcript, "hello world");
    assert_eq!(s.translation, "");
}

#[test]
fn translation_update_reports_change_once() {
    let mut s = AppState::new();
    assert!(update_translation(&mut s, "hola"));
    assert!(!update_translation(&mut s, "hola"));
    assert_eq!(s.translation, "hola");
    assert_eq!(s.transcript, "");
}

#[test]
fn empty_text_update_is_no_change_on_fresh_state() {
    let mut s = AppState::new();
    assert!(!update_transcript(&mut s, ""));
    assert!(!update_translation(&mut s, ""));
}

#[test]
fn status_updates_report_changes() {
    let mut s = AppState::new();
    assert!(!update_wifi_status(&mut s, ServiceStatus::Idle));
    assert!(update_wifi_status(&mut s, ServiceStatus::Connecting));
    assert!(!update_wifi_status(&mut s, ServiceStatus::Connecting));
    assert!(update_deepgram_status(&mut s, ServiceStatus::Connected));
    assert!(!update_deepgram_status(&mut s, ServiceStatus::Connected));
    assert!(update_translate_status(&mut s, ServiceStatus::Error));
    assert!(!update_translate_status(&mut s, ServiceStatus::Error));
    assert_eq!(s.wifi_status, ServiceStatus::Connecting);
    assert_eq!(s.deepgram_status, ServiceStatus::Connected);
    assert_eq!(s.translate_status, ServiceStatus::Error);
}

#[test]
fn read_shows_what_was_written() {
    let mut s = AppState::new();
    update_transcript(&mut s, "good morning");
    update_translation(&mut s, "buenos días");
    update_wifi_status(&mut s, ServiceStatus::Connected);
    let state = Some(s);
    let snap = read_state(&state);
    assert_eq!(snap.transcript, "good morning");
    assert_eq!(snap.translation, "buenos días");
    assert_eq!(snap.wifi_status, ServiceStatus::Connected);
    assert_eq!(snap.deepgram_status, ServiceStatus::Idle);
    assert_eq!(snap.translate_status, ServiceStatus::Idle);
}
