use netdash_desktop::{is_allowed_navigation, is_allowed_navigation_url, NavigationUrl};

fn defaults() -> Vec<String> {
    [
        "dash.netransit.net",
        "dash-staging.netransit.net",
        "api.netransit.net",
        "avatar.netransit.net",
        "avatars.netransit.net",
        "cdn.netransit.net",
    ]
    .iter()
    .map(|s| s.to_string())
    .collect()
}

#[test]
fn https_url_on_list_is_allowed() {
    assert!(is_allowed_navigation_url("https://dash.netransit.net", &defaults()));
    assert!(is_allowed_navigation_url("https://dash.netransit.net/fleet?x=1#top", &defaults()));
}

#[test]
fn port_and_user_info_do_not_change_the_host() {
    assert!(is_allowed_navigation_url("https://dash.netransit.net:8443/x", &defaults()));
    assert!(is_allowed_navigation_url("https://user:pw@api.netransit.net/", &defaults()));
}

#[test]
fn scheme_and_host_case_are_lowered_by_the_parser() {
    assert!(is_allowed_navigation_url("HTTPS://DASH.NETRANSIT.NET/", &defaults()));
}

#[test]
fn http_url_is_refused() {
    assert!(!is_allowed_navigation_url("http://dash.netransit.net", &defaults()));
}

#[test]
fn host_off_list_is_refused() {
    assert!(!is_allowed_navigation_url("https://example.com", &defaults()));
    assert!(!is_allowed_navigation_url("https://dash.netransit.net.example.com", &defaults()));
}

#[test]
fn text_that_is_not_a_url_is_refused() {
    assert!(!is_allowed_navigation_url("dash.netransit.net", &defaults()));
    assert!(!is_allowed_navigation_url("", &defaults()));
    assert!(!is_allowed_navigation_url("https://", &defaults()));
}

#[test]
fn navigation_needs_https_and_a_host() {
    let ok = NavigationUrl {
        scheme: "https".to_string(),
        host: Some("cdn.netransit.net".to_string()),
    };
    assert!(is_allowed_navigation(&ok, &defaults()));
    let plain = NavigationUrl {
        scheme: "http".to_string(),
        host: Some("cdn.netransit.net".to_string()),
    };
    assert!(!is_allowed_navigation(&plain, &defaults()));
    let hostless = NavigationUrl { scheme: "https".to_string(), host: None };
    assert!(!is_allowed_navigation(&hostless, &defaults()));
}
