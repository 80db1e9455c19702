use fs_watch_rs::cli::Cli;
use fs_watch_rs::config::{AppSettings, FileConfig, OutputConfig, WebhookConfig};
use fs_watch_rs::setup::{config_to_load, plan_reporters};

fn bare_cli() -> Cli {
    Cli {
        path: None,
        recursive: false,
        filter: None,
        pattern: None,
        output: None,
        config: None,
        webhook: None,
        debounce: None,
        no_color: false,
    }
}

fn full_file() -> FileConfig {
    FileConfig {
        watch_path: Some("/srv".to_string()),
        recursive: Some(true),
        debounce_ms: Some(500),
        filters: Some(vec!["log".to_string()]),
        pattern: Some("*.log".to_string()),
        output: Some(OutputConfig { file: "events.log".to_string() }),
        webhook: Some(WebhookConfig { url: "http://hook".to_string(), timeout_sec: Some(9) }),
    }
}

#[test]
fn defaults_apply_without_any_source() {
    let s = AppSettings::merge(bare_cli(), None);
    assert_eq!(s.watch_path, ".");
    assert!(!s.recursive);
    assert!(s.filters.is_empty());
    assert_eq!(s.pattern, None);
    assert_eq!(s.output_file, None);
    assert_eq!(s.webhook_url, None);
    assert_eq!(s.webhook_timeout_sec, None);
    assert_eq!(s.debounce_ms, 200);
    assert!(!s.no_color);
}

#[test]
fn file_fills_what_command_line_leaves_open() {
    let s = AppSettings::merge(bare_cli(), Some(full_file()));
    assert_eq!(s.watch_path, "/srv");
    assert!(s.recursive);
    assert_eq!(s.filters, vec!["log"]);
    assert_eq!(s.pattern.as_deref(), Some("*.log"));
    assert_eq!(s.output_file.as_deref(), Some("events.log"));
    assert_eq!(s.webhook_url.as_deref(), Some("http://hook"));
    assert_eq!(s.webhook_timeout_sec, Some(9));
    assert_eq!(s.debounce_ms, 500);
}

#[test]
fn command_line_wins_over_file() {
    let cli = Cli {
        path: Some("/home".to_string()),
        recursive: false,
        filter: Some(" .rs, toml ,".to_string()),
        pattern: Some("test_*".to_string()),
        output: Some("out.log".to_string()),
        config: None,
        webhook: Some("http://cli".to_string()),
        debounce: Some(50),
        no_color: true,
    };
    let s = AppSettings::merge(cli, Some(full_file()));
    assert_eq!(s.watch_path, "/home");
    assert!(s.recursive, "recursion from the file stays on");
    assert_eq!(s.filters, vec![".rs", "toml"]);
    assert_eq!(s.pattern.as_deref(), Some("test_*"));
    assert_eq!(s.output_file.as_deref(), Some("out.log"));
    assert_eq!(s.webhook_url.as_deref(), Some("http://cli"));
    assert_eq!(s.webhook_timeout_sec, Some(9));
    assert_eq!(s.debounce_ms, 50);
    assert!(s.no_color);
}

#[test]
fn default_file_config_is_empty() {
    let c = FileConfig::default();
    assert!(c.watch_path.is_none() && c.recursive.is_none() && c.debounce_ms.is_none());
    assert!(c.filters.is_none() && c.pattern.is_none() && c.output.is_none() && c.webhook.is_none());
}

#[test]
fn config_file_choice() {
    assert_eq!(config_to_load(Some("my.toml".to_string()), true).as_deref(), Some("my.toml"));
    assert_eq!(config_to_load(None, true).as_deref(), Some("config.toml"));
    assert_eq!(config_to_load(None, false), None);
}

#[test]
fn reporters_follow_settings() {
    let s = AppSettings::merge(bare_cli(), Some(full_file()));
    let plan = plan_reporters(&s);
    assert!(!plan.no_color);
    assert_eq!(plan.log_file.as_deref(), Some("events.log"));
    let hook = plan.webhook.unwrap();
    assert_eq!(hook.url, "http://hook");
    assert_eq!(hook.timeout_sec, Some(9));
    let plan = plan_reporters(&AppSettings::merge(bare_cli(), None));
    assert!(plan.log_file.is_none() && plan.webhook.is_none());
}
