use hopes::audit::{AuditLog, MAX_ENTRIES};
use hopes::config::{Config, SyncConfig};
use hopes::event::EventHandler;

#[test]
fn audit_log_keeps_newest_first_and_caps() {
    let mut log = AuditLog::new();
    assert_eq!(log.len(), 0);
    log.push("first".to_string());
    log.push("second".to_string());
    let recent: Vec<&str> = log.recent(10).into_iter().map(|e| e.message.as_str()).collect();
    assert_eq!(recent, vec!["second", "first"]);
    for i in 0..60 {
        log.push(format!("event {i}"));
    }
    assert_eq!(log.len(), MAX_ENTRIES);
    let recent: Vec<&str> = log.recent(2).into_iter().map(|e| e.message.as_str()).collect();
    assert_eq!(recent, vec!["event 59", "event 58"]);
    let oldest = log.recent(100);
    assert_eq!(oldest.len(), MAX_ENTRIES);
    assert_eq!(oldest[MAX_ENTRIES - 1].message, "event 10");
}

#[test]
fn audit_timestamps_are_recent() {
    let mut log = AuditLog::default();
    log.push("x".to_string());
    let e = log.recent(1)[0];
    assert!(e.timestamp.secs > 1_600_000_000);
    assert!(e.timestamp.nanos < 1_000_000_000);
}

#[test]
fn default_sync_settings() {
    let c = SyncConfig::default();
    assert!(c.enabled);
    assert_eq!(c.debounce_seconds, 5);
    assert_eq!(c.data_dir, None);
    assert_eq!(c.remote, "origin");
    assert_eq!(c.branch, "main");
    assert!(c.pull_on_startup);
    assert_eq!(Config::default().sync.remote, "origin");
}

#[test]
fn event_handler_keeps_tick_rate() {
    assert_eq!(EventHandler::new(60).tick_rate_ms(), 60);
}
