use std::time::Duration;
use zeromq::clock::{current_time_ms, whole_ms};
use zeromq::heartbeat::{
    heartbeat_step, heartbeat_step_at, ActivityTracker, HeartbeatAction, HeartbeatConfig,
    HeartbeatEvent, HeartbeatHandle, CHECK_INTERVAL_MS,
};

fn config(ping_ms: u64, timeout_ms: u64, max: u32) -> HeartbeatConfig {
    HeartbeatConfig {
        ping_interval: Duration::from_millis(ping_ms),
        timeout: Duration::from_millis(timeout_ms),
        ttl: Some(7),
        max_unanswered_pings: max,
    }
}

#[test]
fn test_peer_timeout_ms_from_received_ping() {
    let mut tracker = ActivityTracker::new(HeartbeatConfig::default());

    // Initially no peer timeout
    assert_eq!(tracker.active_timeout(), HeartbeatConfig::default().timeout);

    // After receiving PING with TTL=100 (10 seconds)
    tracker.received_ping(Some(100));
    assert_eq!(tracker.active_timeout(), Duration::from_secs(10));

    // Receiving TTL=0 doesn't change peer timeout
    tracker.received_ping(Some(0));
    assert_eq!(tracker.active_timeout(), Duration::from_secs(10));

    // When peer_timeout > config.timeout, active_timeout returns config.timeout
    // TTL=10000 → 1000 seconds (much larger than config.timeout)
    tracker.received_ping(Some(10000));
    assert_eq!(tracker.active_timeout(), HeartbeatConfig::default().timeout);
}

#[test]
fn test_activity_tracker_creation() {
    let tracker = ActivityTracker::new(HeartbeatConfig::default());
    assert!(!tracker.is_dead());
    // Just created, ping interval not reached yet
    assert!(!tracker.should_send_ping());
}

#[test]
fn default_config_values() {
    let c = HeartbeatConfig::default();
    assert_eq!(c.ping_interval, Duration::from_secs(15));
    assert_eq!(c.timeout, Duration::from_secs(60));
    assert_eq!(c.ttl, Some(600));
    assert_eq!(c.max_unanswered_pings, 3);
    assert_eq!(c.send_ping_timeout(), Duration::from_secs(15));
}

#[test]
fn clock_reads_milliseconds() {
    assert_eq!(whole_ms(Ok(Duration::from_micros(1_234_567))), 1234);
    assert_eq!(whole_ms(Ok(Duration::from_secs(u64::MAX))), u64::MAX - 999);
    let before_epoch = std::time::UNIX_EPOCH
        .duration_since(std::time::UNIX_EPOCH + Duration::from_secs(1));
    assert_eq!(whole_ms(before_epoch), 0);
    let now = current_time_ms();
    let truth = std::time::SystemTime::now()
        .duration_since(std::time::UNIX_EPOCH)
        .unwrap()
        .as_millis() as u64;
    assert!(now <= truth && truth - now < 10_000);
}

#[test]
fn death_comes_after_the_timeout() {
    let t = ActivityTracker::new_at(config(100, 1000, 3), 5000);
    assert!(!t.is_dead_at(5000));
    assert!(!t.is_dead_at(6000));
    assert!(t.is_dead_at(6001));
    // A clock that ran backwards shows no silence.
    assert!(!t.is_dead_at(0));
}

#[test]
fn dead_until_active_again() {
    let mut t = ActivityTracker::new_at(config(100, 1000, 3), 0);
    assert!(t.is_dead_at(2000));
    assert!(t.is_dead_at(3000));
    t.record_activity_at(3000);
    assert!(!t.is_dead_at(3000));
    assert!(!t.is_dead_at(4000));
    assert!(t.is_dead_at(4001));
}

#[test]
fn ttl_counts_in_tenths_of_seconds() {
    let mut t = ActivityTracker::new_at(config(100, 1000, 3), 0);
    t.received_ping_at(Some(5), 10);
    assert_eq!(t.active_timeout(), Duration::from_millis(500));
    assert!(!t.is_dead_at(510));
    assert!(t.is_dead_at(511));
    t.received_ping_at(None, 600);
    assert_eq!(t.active_timeout(), Duration::from_millis(500));
    // As long as the configured timeout: no change either way.
    t.received_ping_at(Some(10), 600);
    assert_eq!(t.active_timeout(), Duration::from_millis(1000));
}

#[test]
fn time_left_shrinks_to_nothing() {
    let t = ActivityTracker::new_at(config(100, 1000, 3), 0);
    assert_eq!(t.time_until_timeout_at(0), Some(Duration::from_millis(1000)));
    assert_eq!(t.time_until_timeout_at(300), Some(Duration::from_millis(700)));
    assert_eq!(t.time_until_timeout_at(1000), Some(Duration::ZERO));
    assert_eq!(t.time_until_timeout_at(1001), None);
    assert!(ActivityTracker::new(HeartbeatConfig::default()).time_until_timeout().is_some());
}

#[test]
fn pings_wait_for_silence_and_for_each_other() {
    let mut t = ActivityTracker::new_at(config(100, 1000, 3), 1000);
    assert!(!t.should_send_ping_at(1099));
    assert!(t.should_send_ping_at(1100));
    t.sent_ping_at(1100);
    assert_eq!(t.unanswered_ping_count(), 1);
    assert!(!t.should_send_ping_at(1199));
    assert!(t.should_send_ping_at(1200));
    t.record_activity_at(1150);
    assert!(!t.should_send_ping_at(1249));
    assert!(t.should_send_ping_at(1250));
}

#[test]
fn unanswered_pings_are_limited() {
    let mut t = ActivityTracker::new_at(config(100, 100_000, 2), 0);
    t.sent_ping_at(100);
    t.sent_ping_at(200);
    assert_eq!(t.unanswered_ping_count(), 2);
    assert!(!t.should_send_ping_at(10_000));
    t.received_pong_at(10_000);
    assert_eq!(t.unanswered_ping_count(), 1);
    assert!(!t.should_send_ping_at(10_099));
    assert!(t.should_send_ping_at(10_100));
    t.received_pong_at(10_100);
    t.received_pong_at(10_200);
    assert_eq!(t.unanswered_ping_count(), 0);
}

#[test]
fn too_many_unanswered_pings_are_death() {
    let mut t = ActivityTracker::new_at(config(100, 100_000, 2), 0);
    t.sent_ping_at(100);
    t.sent_ping_at(200);
    assert!(!t.is_dead_at(200));
    assert!(t.time_until_timeout_at(200).is_some());
    t.sent_ping_at(300);
    assert_eq!(t.unanswered_ping_count(), 3);
    assert!(t.is_dead_at(300));
    assert_eq!(t.time_until_timeout_at(300), None);
    t.record_activity_at(300);
    assert!(t.is_dead_at(300));
    t.received_pong_at(300);
    assert!(!t.is_dead_at(300));
}

#[test]
fn clock_versions_keep_count() {
    let mut t = ActivityTracker::new(HeartbeatConfig::default());
    t.sent_ping();
    assert_eq!(t.unanswered_ping_count(), 1);
    t.received_pong();
    assert_eq!(t.unanswered_ping_count(), 0);
    t.record_activity();
    assert!(!t.is_dead());
    assert!(matches!(
        heartbeat_step(HeartbeatEvent::CheckDue, &mut t),
        HeartbeatAction::Wait { .. }
    ));
}

#[test]
fn heartbeat_task_pings_and_waits() {
    let mut t = ActivityTracker::new_at(config(100, 1000, 3), 0);
    match heartbeat_step_at(HeartbeatEvent::CheckDue, &mut t, 50, 50) {
        HeartbeatAction::Wait { interval } => {
            assert_eq!(interval, Duration::from_millis(CHECK_INTERVAL_MS));
            assert_eq!(interval, Duration::from_millis(500));
        }
        other => panic!("{:?}", other),
    }
    match heartbeat_step_at(HeartbeatEvent::CheckDue, &mut t, 99, 100) {
        HeartbeatAction::SendPing { timeout, ttl } => {
            assert_eq!(timeout, Duration::from_millis(100));
            assert_eq!(ttl, Some(7));
        }
        other => panic!("{:?}", other),
    }
    assert_eq!(t.unanswered_ping_count(), 0);
    assert!(matches!(
        heartbeat_step_at(HeartbeatEvent::PingFinished { sent: true }, &mut t, 110, 110),
        HeartbeatAction::Wait { .. }
    ));
    assert_eq!(t.unanswered_ping_count(), 1);
}

#[test]
fn heartbeat_task_reports_and_stops() {
    let mut t = ActivityTracker::new_at(config(100, 1000, 3), 0);
    assert!(matches!(
        heartbeat_step_at(HeartbeatEvent::CheckDue, &mut t, 1001, 1001),
        HeartbeatAction::ReportTimeout
    ));
    assert!(matches!(
        heartbeat_step_at(HeartbeatEvent::TimeoutHandled { stop: true }, &mut t, 1002, 1002),
        HeartbeatAction::Stop
    ));
    assert!(matches!(
        heartbeat_step_at(HeartbeatEvent::TimeoutHandled { stop: false }, &mut t, 1002, 1002),
        HeartbeatAction::SendPing { .. }
    ));
    assert!(matches!(
        heartbeat_step_at(HeartbeatEvent::PingFinished { sent: false }, &mut t, 1003, 1003),
        HeartbeatAction::ReportFailure
    ));
    assert_eq!(t.unanswered_ping_count(), 0);
    assert!(matches!(
        heartbeat_step_at(HeartbeatEvent::FailureHandled { stop: true }, &mut t, 1004, 1004),
        HeartbeatAction::Stop
    ));
    assert!(matches!(
        heartbeat_step_at(HeartbeatEvent::FailureHandled { stop: false }, &mut t, 1004, 1004),
        HeartbeatAction::Wait { .. }
    ));
    assert!(matches!(
        heartbeat_step_at(HeartbeatEvent::Shutdown, &mut t, 1005, 1005),
        HeartbeatAction::Stop
    ));
}

#[test]
fn handle_names_its_task() {
    assert_eq!(HeartbeatHandle { task: 9 }.shutdown(), 9);
}
