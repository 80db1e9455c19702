use chrono::TimeZone;
use chrono::DateTime;
use fs_watch_rs::paths::same_path;
use fs_watch_rs::clock::{timestamp_from_reading, Timestamp};
use fs_watch_rs::errors::AppError;
use fs_watch_rs::event::{classify_kind, EventFilter, EventKind, RawEvent, RawKind, WatchEvent};
use fs_watch_rs::reporter::console::{color_of, ConsoleLine, ConsoleReporter, LabelColor};
use fs_watch_rs::reporter::file::file_log_line;
use fs_watch_rs::reporter::format_log_line;
use fs_watch_rs::reporter::webhook::{webhook_payload, webhook_payload_at, webhook_timeout_secs};
use fs_watch_rs::watcher::{watch_mode, Debouncer, WatchMode, WatcherAction, WatcherInput};

const T0: Timestamp = Timestamp { secs: 1_700_000_000, nanos: 0 };

fn ev(kind: EventKind, path: &str) -> WatchEvent {
    WatchEvent { kind, path: path.to_string(), timestamp: T0 }
}

#[test]
fn raw_kinds_map_to_event_kinds() {
    assert_eq!(classify_kind(RawKind::Create), Some(EventKind::Created));
    assert_eq!(classify_kind(RawKind::ModifyName), Some(EventKind::Renamed));
    assert_eq!(classify_kind(RawKind::Modify), Some(EventKind::Modified));
    assert_eq!(classify_kind(RawKind::Remove), Some(EventKind::Deleted));
    assert_eq!(classify_kind(RawKind::Access), None);
    assert_eq!(classify_kind(RawKind::Any), None);
    assert_eq!(classify_kind(RawKind::Other), None);
}

#[test]
fn one_event_per_path_with_one_time() {
    let raw = RawEvent { kind: RawKind::Create, paths: vec!["a.rs".to_string(), "b.rs".to_string()] };
    let events = WatchEvent::from_notify_event(raw).unwrap();
    assert_eq!(events.len(), 2);
    assert_eq!(events[0].path, "a.rs");
    assert_eq!(events[1].path, "b.rs");
    assert!(events.iter().all(|e| e.kind == EventKind::Created));
    assert_eq!(events[0].timestamp, events[1].timestamp);
    let raw = RawEvent { kind: RawKind::Access, paths: vec!["a.rs".to_string()] };
    assert!(WatchEvent::from_notify_event(raw).unwrap().is_empty());
    let at = WatchEvent::from_raw_at(RawEvent { kind: RawKind::Remove, paths: vec!["x".to_string()] }, T0);
    assert_eq!(at.len(), 1);
    assert_eq!(at[0].kind, EventKind::Deleted);
    assert_eq!(at[0].timestamp, T0);
}

#[test]
fn bad_pattern_is_a_config_error() {
    match EventFilter::new(vec![], Some("***")) {
        Err(AppError::ConfigError(m)) => {
            assert!(m.starts_with("Неверный glob-паттерн: Pattern syntax error near position"), "{}", m)
        }
        other => panic!("unexpected {:?}", other),
    }
    assert!(EventFilter::new(vec![], Some("**/*.log")).is_ok());
}

#[test]
fn extension_dots_and_empty_filter() {
    let dotted = EventFilter::new(vec![".rs".to_string()], None).unwrap();
    let plain = EventFilter::new(vec!["rs".to_string()], None).unwrap();
    let any = EventFilter::new(vec![], None).unwrap();
    for p in ["x.rs", "x.toml", "noext", ".rs", "d/x.rs/"] {
        let e = ev(EventKind::Modified, p);
        assert_eq!(dotted.matches(&e), plain.matches(&e), "{}", p);
        assert!(any.matches(&e));
    }
    let empty_ext = EventFilter::new(vec!["".to_string()], None).unwrap();
    assert!(empty_ext.matches(&ev(EventKind::Created, "noext")));
    assert!(!empty_ext.matches(&ev(EventKind::Created, "x.rs")));
    let copy = plain.clone();
    assert!(copy.matches(&ev(EventKind::Created, "y.rs")));
}

#[test]
fn pattern_applies_to_file_name_only() {
    let f = EventFilter::new(vec![], Some("sys*")).unwrap();
    assert!(f.matches(&ev(EventKind::Created, "/var/log/system.log")));
    assert!(!f.matches(&ev(EventKind::Created, "/sys/log/app.log")));
    assert!(!f.matches(&ev(EventKind::Created, "/")));
}

#[test]
fn latest_event_per_path_wins() {
    let mut d = Debouncer::new();
    assert!(d.is_idle());
    d.record(ev(EventKind::Created, "a"));
    d.record(ev(EventKind::Created, "b"));
    d.record(ev(EventKind::Modified, "a"));
    let out = d.drain();
    assert_eq!(out.len(), 2);
    assert_eq!(out[0].path, "a");
    assert_eq!(out[0].kind, EventKind::Modified);
    assert_eq!(out[1].path, "b");
    assert!(d.is_idle());
}

#[test]
fn step_holds_filtered_events_until_a_pause() {
    let filter = EventFilter::new(vec!["rs".to_string()], None).unwrap();
    let mut d = Debouncer::new();
    let raw = RawEvent {
        kind: RawKind::Modify,
        paths: vec!["a.rs".to_string(), "b.txt".to_string(), "a.rs".to_string()],
    };
    assert!(matches!(d.step(&filter, WatcherInput::Notify(raw)), WatcherAction::Wait));
    let raw = RawEvent { kind: RawKind::Access, paths: vec!["c.rs".to_string()] };
    assert!(matches!(d.step(&filter, WatcherInput::Notify(raw)), WatcherAction::Wait));
    match d.step(&filter, WatcherInput::NotifyFailed("boom".to_string())) {
        WatcherAction::LogError(m) => assert_eq!(m, "boom"),
        other => panic!("unexpected {:?}", other),
    }
    match d.step(&filter, WatcherInput::Timeout) {
        WatcherAction::Report(v) => {
            assert_eq!(v.len(), 1);
            assert_eq!(v[0].path, "a.rs");
            assert_eq!(v[0].kind, EventKind::Modified);
        }
        other => panic!("unexpected {:?}", other),
    }
    assert!(matches!(d.step(&filter, WatcherInput::Timeout), WatcherAction::Wait));
    assert!(matches!(d.step(&filter, WatcherInput::Disconnected), WatcherAction::Stop));
}

#[test]
fn watch_mode_follows_flag() {
    assert_eq!(watch_mode(true), WatchMode::Recursive);
    assert_eq!(watch_mode(false), WatchMode::NonRecursive);
}

#[test]
fn log_line_layout() {
    assert_eq!(
        format_log_line("2024-01-02 03:04:05", EventKind::Created, "src/main.rs"),
        "[2024-01-02 03:04:05] ✚ CREATED   src/main.rs"
    );
    assert_eq!(format_log_line("t", EventKind::Modified, "p"), "[t] ✎ MODIFIED  p");
    assert_eq!(format_log_line("t", EventKind::Deleted, "p"), "[t] ✖ DELETED   p");
    assert_eq!(format_log_line("t", EventKind::Renamed, "p"), "[t] ⇄ RENAMED   p");
    assert_eq!(
        format_log_line("t", EventKind::Renamed, "p"),
        format!("[{}] {} {:<9} {}", "t", "⇄", "RENAMED", "p")
    );
}

#[test]
fn file_line_has_time_and_newline() {
    let line = file_log_line(&ev(EventKind::Deleted, "/tmp/x"));
    assert!(line.starts_with('['));
    assert!(line.ends_with("] ✖ DELETED   /tmp/x\n"));
    assert_eq!(line.find(']'), Some(20), "{}", line);
}

#[test]
fn console_line_plain_or_styled() {
    let e = ev(EventKind::Created, "f.rs");
    match ConsoleReporter::new(true).render_at(&e, "T") {
        ConsoleLine::Plain(l) => assert_eq!(l, "[T] ✚ CREATED   f.rs"),
        other => panic!("unexpected {:?}", other),
    }
    match ConsoleReporter::new(false).render_at(&e, "T") {
        ConsoleLine::Styled { time, icon, label, color, path } => {
            assert_eq!((time.as_str(), icon.as_str(), label.as_str(), path.as_str()), ("T", "✚", "CREATED  ", "f.rs"));
            assert_eq!(format!("[{}] {} {} {}", time, icon, label, path), "[T] ✚ CREATED   f.rs");
            assert_eq!(color, LabelColor::Green);
        }
        other => panic!("unexpected {:?}", other),
    }
    assert!(matches!(ConsoleReporter::new(false).render(&e), ConsoleLine::Styled { .. }));
    assert_eq!(color_of(EventKind::Deleted), LabelColor::Red);
    assert_eq!(color_of(EventKind::Modified), LabelColor::Yellow);
    assert_eq!(color_of(EventKind::Renamed), LabelColor::Blue);
}

#[test]
fn webhook_payload_fields() {
    let e = ev(EventKind::Renamed, "dir/archive.tar.gz");
    let p = webhook_payload_at(&e, "T".to_string());
    assert_eq!((p.event.as_str(), p.path.as_str(), p.timestamp.as_str(), p.extension.as_str()), ("Renamed", "dir/archive.tar.gz", "T", "gz"));
    let p = webhook_payload(&ev(EventKind::Created, "README"));
    assert_eq!(p.event, "Created");
    assert_eq!(p.extension, "");
    assert!(p.timestamp.starts_with("2023-11-1"), "{}", p.timestamp);
    assert_eq!(webhook_timeout_secs(None), 5);
    assert_eq!(webhook_timeout_secs(Some(30)), 30);
}

#[test]
fn webhook_time_carries_fraction_and_offset() {
    let at = |nanos: u32| {
        let e = WatchEvent {
            kind: EventKind::Created,
            path: "f".to_string(),
            timestamp: Timestamp { secs: 1_700_000_000, nanos },
        };
        webhook_payload(&e).timestamp
    };
    let whole = at(0);
    assert_eq!(whole.len(), 25, "{}", whole);
    assert_eq!(&whole[10..11], "T");
    let milli = at(123_000_000);
    assert_eq!(&milli[19..23], ".123", "{}", milli);
    assert_eq!(milli.len(), 29);
    let micro = at(4_000);
    assert_eq!(&micro[19..26], ".000004", "{}", micro);
    let nano = at(1);
    assert_eq!(&nano[19..29], ".000000001", "{}", nano);
    let offset = &nano[29..];
    assert!(offset.starts_with('+') || offset.starts_with('-'), "{}", nano);
    assert_eq!(&offset[3..4], ":");
}

#[test]
fn log_time_has_date_and_clock_layout() {
    let line = file_log_line(&ev(EventKind::Created, "p"));
    let time = &line[1..20];
    let b = time.as_bytes();
    assert_eq!((b[4], b[7], b[10], b[13], b[16]), (b'-', b'-', b' ', b':', b':'), "{}", time);
    assert!(time.starts_with("2023-11-1"), "{}", time);
}

#[test]
fn chrono_range_matches_the_stated_bounds() {
    assert!(DateTime::from_timestamp(-8_334_601_228_800, 0).is_some());
    assert!(DateTime::from_timestamp(-8_334_601_228_801, 999_999_999).is_none());
    assert!(DateTime::from_timestamp(8_210_266_876_799, 999_999_999).is_some());
    assert!(DateTime::from_timestamp(8_210_266_876_800, 0).is_none());
    assert!(DateTime::from_timestamp(59, 1_999_999_999).is_some());
    assert!(DateTime::from_timestamp(-1, 1_500_000_000).is_some());
    assert!(DateTime::from_timestamp(58, 1_000_000_000).is_none());
    assert!(DateTime::from_timestamp(59, 2_000_000_000).is_none());
}

#[test]
fn same_file_under_different_spellings_is_debounced_once() {
    let mut d = Debouncer::new();
    d.record(ev(EventKind::Created, "/tmp/a/b"));
    d.record(ev(EventKind::Modified, "/tmp//a/./b/"));
    d.record(ev(EventKind::Created, "tmp/a/b"));
    let out = d.drain();
    assert_eq!(out.len(), 2);
    assert_eq!(out[0].path, "/tmp//a/./b/");
    assert_eq!(out[0].kind, EventKind::Modified);
    assert_eq!(out[1].path, "tmp/a/b");
}

#[test]
fn same_path_compares_components() {
    let cases = [
        ("a/b", "a//b"), ("a/b", "a/b/"), ("a/b", "a/./b"), ("./a", "a"), (".", ""), ("/a", "a"),
        ("/", "//"), ("a/..", "a"), ("./a", "././a"), (".a", "a"), ("a/.", "a"), ("", ""),
    ];
    for (x, y) in cases {
        let expected = std::path::Path::new(x) == std::path::Path::new(y);
        assert_eq!(same_path(x, y), expected, "{:?} vs {:?}", x, y);
    }
}

#[test]
fn times_are_the_event_instant_in_the_local_zone() {
    let secs = 1_700_000_000;
    let e = WatchEvent {
        kind: EventKind::Created,
        path: "f".to_string(),
        timestamp: Timestamp { secs, nanos: 250_000_000 },
    };
    let stamp = webhook_payload(&e).timestamp;
    let parsed = DateTime::parse_from_rfc3339(&stamp).unwrap();
    assert_eq!(parsed.timestamp(), secs);
    assert_eq!(parsed.timestamp_subsec_nanos(), 250_000_000);
    let expected = chrono::Local.timestamp_opt(secs, 0).unwrap().format("%Y-%m-%d %H:%M:%S").to_string();
    let line = file_log_line(&e);
    assert_eq!(&line[1..20], expected);
    match ConsoleReporter::new(true).render(&e) {
        ConsoleLine::Plain(l) => assert_eq!(&l[1..20], expected),
        other => panic!("unexpected {:?}", other),
    }
}

#[test]
fn leap_seconds_and_five_digit_years_in_time_texts() {
    let leap = WatchEvent {
        kind: EventKind::Created,
        path: "f".to_string(),
        timestamp: Timestamp { secs: 1_700_000_039, nanos: 1_500_000_000 },
    };
    let line = file_log_line(&leap);
    assert_eq!(&line[18..20], "60", "{}", line);
    let stamp = webhook_payload(&leap).timestamp;
    assert_eq!(&stamp[17..23], "60.500", "{}", stamp);
    let far = WatchEvent {
        kind: EventKind::Created,
        path: "f".to_string(),
        timestamp: Timestamp { secs: 253_402_300_800 + 5 * 86_400, nanos: 0 },
    };
    assert!(webhook_payload(&far).timestamp.starts_with("+10000-01-0"));
    assert!(file_log_line(&far).starts_with("[+10000-01-0"));
}

#[test]
fn clock_readings_become_instants_or_a_failure() {
    assert_eq!(timestamp_from_reading(Some((10, 5))), Some(Timestamp { secs: 10, nanos: 5 }));
    assert_eq!(timestamp_from_reading(Some((8_210_266_876_799, 0))).map(|t| t.secs), Some(8_210_266_876_799));
    assert_eq!(timestamp_from_reading(Some((8_210_266_876_800, 0))), None);
    assert_eq!(timestamp_from_reading(None), None);
    let raw = || RawEvent { kind: RawKind::Remove, paths: vec!["x".to_string()] };
    let v = WatchEvent::from_reading(raw(), Some((42, 7))).unwrap();
    assert_eq!(v.len(), 1);
    assert_eq!(v[0].timestamp, Timestamp { secs: 42, nanos: 7 });
    match WatchEvent::from_reading(raw(), None) {
        Err(AppError::Io(m)) => assert_eq!(m, "Не удалось прочитать системное время"),
        other => panic!("unexpected {:?}", other),
    }
    let ignored = RawEvent { kind: RawKind::Access, paths: vec!["x".to_string()] };
    assert!(WatchEvent::from_reading(ignored, None).unwrap().is_empty());
}
