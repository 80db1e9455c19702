use chrono::Local;
use fs_watch_rs::clock::Timestamp;
use fs_watch_rs::event::{EventFilter, EventKind, WatchEvent};

fn local_now() -> Timestamp {
    let t = Local::now();
    Timestamp { secs: t.timestamp(), nanos: t.timestamp_subsec_nanos() }
}

#[test]
fn test_event_filter_extensions() {
    let filter = EventFilter::new(vec!["rs".to_string(), "toml".to_string()], None).unwrap();

    let mut event = WatchEvent {
        kind: EventKind::Created,
        path: "src/main.rs".to_string(),
        timestamp: local_now(),
    };

    assert!(filter.matches(&event), "Rust files should match");

    event.path = "Cargo.toml".to_string();
    assert!(filter.matches(&event), "TOML files should match");

    event.path = "README.md".to_string();
    assert!(!filter.matches(&event), "Markdown files should NOT match");
}

#[test]
fn test_event_filter_pattern() {
    let filter = EventFilter::new(vec![], Some("*.log")).unwrap();

    let mut event = WatchEvent {
        kind: EventKind::Modified,
        path: "/var/log/system.log".to_string(),
        timestamp: local_now(),
    };

    assert!(filter.matches(&event), "Log files should match pattern");

    event.path = "system.txt".to_string();
    assert!(
        !filter.matches(&event),
        "Txt files should NOT match pattern"
    );
}

#[test]
fn test_event_filter_combined() {
    let filter = EventFilter::new(vec!["rs".to_string()], Some("test_*")).unwrap();

    let mut event = WatchEvent {
        kind: EventKind::Created,
        path: "test_app.rs".to_string(),
        timestamp: local_now(),
    };
    assert!(
        filter.matches(&event),
        "Should match both extension and pattern"
    );

    event.path = "app.rs".to_string();
    assert!(!filter.matches(&event), "Should NOT match pattern");

    event.path = "test_app.txt".to_string();
    assert!(!filter.matches(&event), "Should NOT match extension");
}
