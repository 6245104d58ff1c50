use netdash_desktop::{loaded_or_default, normalize_settings, with_target_url, Settings};

fn strings(items: &[&str]) -> Vec<String> {
    items.iter().map(|s| s.to_string()).collect()
}

fn sorted_defaults() -> Vec<String> {
    strings(&[
        "api.netransit.net",
        "avatar.netransit.net",
        "avatars.netransit.net",
        "cdn.netransit.net",
        "dash-staging.netransit.net",
        "dash.netransit.net",
    ])
}

fn settings(target: &str, startup: bool, hosts: &[&str]) -> Settings {
    Settings {
        target_url: target.to_string(),
        launch_at_startup: startup,
        allowed_hosts: strings(hosts),
    }
}

#[test]
fn default_settings() {
    let s = Settings::default();
    assert_eq!(s.target_url, "https://dash.netransit.net");
    assert!(!s.launch_at_startup);
    assert_eq!(s.allowed_hosts.len(), 6);
    assert_eq!(s.allowed_hosts[0], "dash.netransit.net");
}

#[test]
fn normalize_keeps_allowed_target() {
    let s = normalize_settings(settings("https://api.netransit.net/x", true, &["netransit.net", ""]));
    assert_eq!(s.target_url, "https://api.netransit.net/x");
    assert!(s.launch_at_startup);
    assert_eq!(s.allowed_hosts, strings(&["netransit.net"]));
}

#[test]
fn normalize_replaces_target_off_list() {
    let s = normalize_settings(settings("https://example.com", false, &["netransit.net"]));
    assert_eq!(s.target_url, "https://dash.netransit.net");
}

#[test]
fn normalize_replaces_unparsable_target() {
    let s = normalize_settings(settings("not a url", false, &["netransit.net"]));
    assert_eq!(s.target_url, "https://dash.netransit.net");
}

#[test]
fn normalize_checks_target_against_raw_list() {
    let s = normalize_settings(settings("https://cdn.netransit.net", false, &[]));
    assert_eq!(s.target_url, "https://dash.netransit.net");
    assert_eq!(s.allowed_hosts[0], "dash.netransit.net");
}

#[test]
fn normalize_settings_twice_is_once() {
    let once = normalize_settings(settings("https://b.example/", true, &["b.example", "a.example", "a.example"]));
    let twice = normalize_settings(once.clone());
    assert_eq!(once.target_url, twice.target_url);
    assert_eq!(once.launch_at_startup, twice.launch_at_startup);
    assert_eq!(once.allowed_hosts, twice.allowed_hosts);
}

#[test]
fn loaded_settings_are_kept_as_read() {
    let s = loaded_or_default(Some(settings("https://example.com", true, &["b", "a"])));
    assert_eq!(s.target_url, "https://example.com");
    assert!(s.launch_at_startup);
    assert_eq!(s.allowed_hosts, strings(&["b", "a"]));
}

#[test]
fn nothing_loaded_gives_clean_defaults() {
    let s = loaded_or_default(None);
    assert_eq!(s.target_url, "https://dash.netransit.net");
    assert!(!s.launch_at_startup);
    assert_eq!(s.allowed_hosts, sorted_defaults());
}

#[test]
fn new_target_on_list_is_taken() {
    let s = with_target_url(settings("https://dash.netransit.net", true, &["netransit.net"]), "https://api.netransit.net/v2".to_string());
    let s = s.ok().unwrap();
    assert_eq!(s.target_url, "https://api.netransit.net/v2");
    assert!(s.launch_at_startup);
    assert_eq!(s.allowed_hosts, strings(&["netransit.net"]));
}

#[test]
fn new_target_off_list_is_refused() {
    let r = with_target_url(settings("https://dash.netransit.net", false, &["netransit.net"]), "https://evil.com".to_string());
    assert_eq!(r.err().unwrap(), "Target URL is not in NET Control Center allow-list");
}

#[test]
fn new_target_over_http_is_refused() {
    let r = with_target_url(settings("https://dash.netransit.net", false, &["netransit.net"]), "http://dash.netransit.net".to_string());
    assert!(r.is_err());
}

#[test]
fn normalize_settings_twice_differs_on_all_blank_list() {
    let once = normalize_settings(settings("https://dash.netransit.net", false, &[" "]));
    let twice = normalize_settings(once.clone());
    assert_ne!(once.allowed_hosts, twice.allowed_hosts);
}

#[test]
fn normalize_settings_twice_differs_when_only_a_blank_entry_accepts_the_target() {
    let once = normalize_settings(settings("https://a./", false, &["", "x.net"]));
    assert_eq!(once.target_url, "https://a./");
    let twice = normalize_settings(once.clone());
    assert_eq!(twice.target_url, "https://dash.netransit.net");
}

#[test]
fn accepted_target_survives_cleanup() {
    let s = with_target_url(settings("https://dash.netransit.net", false, &["netransit.net", "netransit.net"]), "https://cdn.netransit.net/x".to_string()).ok().unwrap();
    let cleaned = normalize_settings(s);
    assert_eq!(cleaned.target_url, "https://cdn.netransit.net/x");
}
