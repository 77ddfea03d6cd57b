use wifui::config::{CONNECTION_REFRESH_BURST, DISCONNECT_REFRESH_BURST};
use wifui::error::{wlan_reason_to_string, WifiError};
use wifui::events::{connection_event_for, AcmNotification, ConnectionEvent};
use wifui::state::{ConnectionState, ConnectionTracker, RefreshSchedule};

fn connecting(ssid: &str, now_ms: u64) -> ConnectionTracker {
    let mut t = ConnectionTracker::new();
    t.begin_attempt(String::from(ssid), now_ms);
    t
}

#[test]
fn begin_attempt_records_target_and_pending_slot() {
    let t = connecting("Home", 1000);
    match &t.state {
        ConnectionState::Connecting { target, started_at } => {
            assert_eq!(target, "Home");
            assert_eq!(*started_at, 1000);
        },
        ConnectionState::Idle => panic!("attempt expected"),
    }
    assert!(t.has_pending_result);
    assert!(t.last_error.is_none());
}

#[test]
fn timeout_yields_idle_with_timed_out_error_and_no_pending_slot() {
    let mut t = connecting("Home", 1000);
    t.on_tick(1000 + 60_000, None);
    assert!(matches!(t.state, ConnectionState::Connecting { .. }));
    t.on_tick(1000 + 60_001, None);
    assert!(matches!(t.state, ConnectionState::Idle));
    assert!(!t.has_pending_result);
    assert_eq!(
        t.last_error.as_deref(),
        Some("Connection timed out (No response from OS)")
    );
}

#[test]
fn requery_seeing_the_target_ends_the_attempt_quietly() {
    let mut t = connecting("Home", 0);
    let seen = String::from("Home");
    t.on_tick(5_000, Some(&seen));
    assert!(matches!(t.state, ConnectionState::Idle));
    assert!(t.last_error.is_none());
}

#[test]
fn requery_seeing_another_network_changes_nothing() {
    let mut t = connecting("Home", 0);
    let seen = String::from("Neighbor");
    t.on_tick(5_000, Some(&seen));
    assert!(matches!(t.state, ConnectionState::Connecting { .. }));
}

#[test]
fn matching_failure_surfaces_exact_reason_and_schedules_forget() {
    let mut t = connecting("Home", 0);
    let event = connection_event_for(
        AcmNotification::ConnectionAttemptFail,
        String::from("Home"),
        0x00050004,
    )
    .expect("event expected");
    let (forget, burst) = t.on_event(&event);
    assert!(matches!(t.state, ConnectionState::Idle));
    assert_eq!(t.last_error.as_deref(), Some("Incorrect Password"));
    assert_eq!(forget.as_deref(), Some("Home"));
    assert!(burst.is_none());
}

#[test]
fn failure_for_another_network_is_ignored() {
    let mut t = connecting("Home", 0);
    let event = connection_event_for(
        AcmNotification::ConnectionAttemptFail,
        String::from("Neighbor"),
        0x00050004,
    )
    .expect("event expected");
    let (forget, _) = t.on_event(&event);
    assert!(matches!(t.state, ConnectionState::Connecting { .. }));
    assert!(t.last_error.is_none());
    assert!(forget.is_none());
}

#[test]
fn matching_completion_is_the_fast_path() {
    let mut t = connecting("Home", 0);
    let event = connection_event_for(
        AcmNotification::ConnectionComplete,
        String::from("Home"),
        0,
    )
    .expect("event expected");
    let (forget, burst) = t.on_event(&event);
    assert!(matches!(t.state, ConnectionState::Idle));
    assert!(t.last_error.is_none());
    assert!(forget.is_none());
    assert_eq!(burst, Some(DISCONNECT_REFRESH_BURST));
}

#[test]
fn disconnection_only_asks_for_a_refresh_burst() {
    let mut t = ConnectionTracker::new();
    let event = ConnectionEvent::Disconnected(String::from("Home"));
    let (forget, burst) = t.on_event(&event);
    assert!(forget.is_none());
    assert_eq!(burst, Some(DISCONNECT_REFRESH_BURST));
}

#[test]
fn other_notifications_produce_no_event() {
    assert!(connection_event_for(AcmNotification::Other, String::from("Home"), 0).is_none());
}

#[test]
fn failure_event_carries_the_decoded_reason() {
    let event = connection_event_for(
        AcmNotification::ConnectionAttemptFail,
        String::from("Home"),
        999999,
    )
    .expect("event expected");
    match event {
        ConnectionEvent::Failed { reason_code, reason_str, .. } => {
            assert_eq!(reason_code, 999999);
            assert_eq!(reason_str, wlan_reason_to_string(999999));
        },
        _ => panic!("failure expected"),
    }
}

#[test]
fn command_error_ends_the_attempt_at_once() {
    let mut t = connecting("Home", 0);
    let burst = t.on_command_result(Err(WifiError::ProfileAddFailed { code: 87, reason: 1 }));
    assert!(matches!(t.state, ConnectionState::Idle));
    assert!(!t.has_pending_result);
    assert_eq!(
        t.last_error.as_deref(),
        Some("Failed to connect: Failed to add profile (code: 87, reason: 1)")
    );
    assert!(burst.is_none());
}

#[test]
fn command_success_keeps_waiting_with_a_burst() {
    let mut t = connecting("Home", 0);
    let burst = t.on_command_result(Ok(()));
    assert!(matches!(t.state, ConnectionState::Connecting { .. }));
    assert!(!t.has_pending_result);
    assert_eq!(burst, Some(CONNECTION_REFRESH_BURST));
}

#[test]
fn abort_clears_the_attempt_and_the_pending_slot() {
    let mut t = connecting("Home", 0);
    t.abort();
    assert!(matches!(t.state, ConnectionState::Idle));
    assert!(!t.has_pending_result);
}

#[test]
fn clear_error_wipes_only_the_error() {
    let mut t = connecting("Home", 0);
    t.on_tick(100_000, None);
    assert!(t.last_error.is_some());
    t.clear_error();
    assert!(t.last_error.is_none());
}

fn schedule() -> RefreshSchedule {
    RefreshSchedule {
        last_refresh_ms: 0,
        last_interaction_ms: 0,
        last_manual_refresh_ms: 0,
        burst: 0,
    }
}

#[test]
fn refresh_intervals_by_mode() {
    let mut s = schedule();
    assert_eq!(s.interval_ms(false), 10_000);
    assert_eq!(s.interval_ms(true), 15_000);
    s.start_burst(5);
    assert_eq!(s.interval_ms(false), 1_000);
    assert_eq!(s.interval_ms(true), 1_000);
}

#[test]
fn refresh_due_respects_interval_cooldown_and_popups() {
    let s = schedule();
    assert!(s.due(10_000, false, false, false));
    assert!(!s.due(9_999, false, false, false));
    assert!(!s.due(10_000, false, true, false));
    assert!(!s.due(10_000, false, false, true));
    assert!(!s.due(14_999, true, false, false));
    assert!(s.due(15_000, true, false, false));
}

#[test]
fn refresh_waits_for_typing_to_cool_down() {
    let mut s = schedule();
    s.note_interaction(9_800);
    assert!(!s.due(10_000, false, false, false));
    assert!(s.due(10_800, false, false, false));
}

#[test]
fn burst_decays_one_tick_per_fire() {
    let mut s = schedule();
    s.start_burst(2);
    s.fire(1_000);
    assert_eq!(s.burst, 1);
    assert_eq!(s.last_refresh_ms, 1_000);
    s.fire(2_000);
    assert_eq!(s.burst, 0);
    s.fire(12_000);
    assert_eq!(s.burst, 0);
}

#[test]
fn manual_refresh_is_debounced() {
    let mut s = schedule();
    assert!(s.try_manual_refresh(600));
    assert!(!s.try_manual_refresh(900));
    assert!(s.try_manual_refresh(1_100));
}
