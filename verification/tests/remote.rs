use cc_sessions::remote::{
    get_remote_cache_dir, is_stale, parse_last_sync, remote_projects_dir, should_sync, ssh_target,
    sync_source, RemoteConfig, Settings,
};

#[test]
fn ssh_target_with_user() {
    let remote = RemoteConfig {
        host: "192.168.1.100".to_string(),
        user: Some("ec2-user".to_string()),
        projects_dir: None,
    };
    assert_eq!(ssh_target(&remote), "ec2-user@192.168.1.100");
}

#[test]
fn ssh_target_without_user() {
    let remote = RemoteConfig {
        host: "devbox".to_string(),
        user: None,
        projects_dir: None,
    };
    assert_eq!(ssh_target(&remote), "devbox");
}

#[test]
fn remote_projects_dir_default() {
    let remote = RemoteConfig {
        host: "test".to_string(),
        user: None,
        projects_dir: None,
    };
    assert_eq!(remote_projects_dir(&remote), "~/.cc/projects");
}

#[test]
fn remote_projects_dir_custom() {
    let remote = RemoteConfig {
        host: "test".to_string(),
        user: None,
        projects_dir: Some("/home/custom/.cc/projects".to_string()),
    };
    assert_eq!(remote_projects_dir(&remote), "/home/custom/.cc/projects");
}

#[test]
fn sync_source_combines_target_and_dir() {
    let remote = RemoteConfig {
        host: "devbox".to_string(),
        user: Some("me".to_string()),
        projects_dir: Some("/srv/projects".to_string()),
    };
    assert_eq!(sync_source(&remote), "me@devbox:/srv/projects/");
}

#[test]
fn cache_dir_appends_remote_name() {
    let settings = Settings {
        cache_dir: "/var/cache/sessions".to_string(),
        stale_threshold: 3600,
    };
    assert_eq!(
        get_remote_cache_dir(&settings, "devbox"),
        "/var/cache/sessions/devbox"
    );
}

#[test]
fn settings_default_values() {
    let settings = Settings::default();
    assert_eq!(settings.cache_dir, "~/.cache/cc-sessions/remotes");
    assert_eq!(settings.stale_threshold, 3600);
}

#[test]
fn staleness_policy() {
    // never synced: stale
    assert!(is_stale(None, 10_000, 3600));
    // synced recently: fresh
    assert!(!is_stale(Some(9_000), 10_000, 3600));
    // synced exactly at the threshold boundary: still fresh
    assert!(!is_stale(Some(6_400), 10_000, 3600));
    // synced long ago: stale
    assert!(is_stale(Some(1_000), 10_000, 3600));
    // marker in the future: stale
    assert!(is_stale(Some(20_000), 10_000, 3600));
}

#[test]
fn parse_last_sync_reads_decimal_marker() {
    assert_eq!(parse_last_sync("1700000000\n"), Some(1_700_000_000));
    assert_eq!(parse_last_sync("  42  "), Some(42));
    assert_eq!(parse_last_sync(""), None);
    assert_eq!(parse_last_sync("not-a-number"), None);
    assert_eq!(parse_last_sync("12a"), None);
    assert_eq!(parse_last_sync("18446744073709551615"), Some(u64::MAX));
    assert_eq!(parse_last_sync("18446744073709551616"), None);
}

#[test]
fn should_sync_policy() {
    assert!(should_sync(false, false));
    assert!(should_sync(false, true));
    assert!(!should_sync(true, false));
    assert!(should_sync(true, true));
}
