use activity_tracker::config::{Config, Sync};

fn config() -> Config {
    Config {
        db_path: "tracker.db".to_string(),
        log_level: "warn".to_string(),
        sync: Sync { enabled: false, url: String::new(), access_token: String::new() },
    }
}

#[test]
fn the_environment_sets_the_log_level() {
    assert_eq!(config().effective_log_level(Some("debug".to_string())), "debug");
    assert_eq!(config().effective_log_level(Some(String::new())), "");
}

#[test]
fn the_configured_log_level_stands_in() {
    assert_eq!(config().effective_log_level(None), "warn");
}
