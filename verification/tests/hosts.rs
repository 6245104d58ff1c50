use netdash_desktop::hosts::{default_allowed_host_list, has_dot_suffix};
use netdash_desktop::{is_allowed_host, normalize_allowed_hosts};

fn strings(items: &[&str]) -> Vec<String> {
    items.iter().map(|s| s.to_string()).collect()
}

fn defaults() -> Vec<String> {
    strings(&[
        "dash.netransit.net",
        "dash-staging.netransit.net",
        "api.netransit.net",
        "avatar.netransit.net",
        "avatars.netransit.net",
        "cdn.netransit.net",
    ])
}

#[test]
fn default_list_is_the_shipped_one() {
    assert_eq!(default_allowed_host_list(), defaults());
}

#[test]
fn normalize_empty_list_gives_defaults() {
    assert_eq!(normalize_allowed_hosts(Vec::new()), defaults());
}

#[test]
fn normalize_all_blank_gives_defaults() {
    let hosts = strings(&["", "   ", "\t\n", "\u{3000}\u{a0}"]);
    assert_eq!(normalize_allowed_hosts(hosts), defaults());
}

#[test]
fn normalize_drops_blank_sorts_and_dedups() {
    let hosts = strings(&["b.example", " ", "a.example", "b.example", "", "A.example", "a.example"]);
    assert_eq!(
        normalize_allowed_hosts(hosts),
        strings(&["A.example", "a.example", "b.example"])
    );
}

#[test]
fn normalize_keeps_entries_with_surrounding_spaces() {
    let hosts = strings(&[" x.net ", "x.net"]);
    assert_eq!(normalize_allowed_hosts(hosts), strings(&[" x.net ", "x.net"]));
}

#[test]
fn normalize_orders_like_std_sort() {
    let inputs = vec![
        strings(&["zeta", "alpha", "Ærø.dk", "ärger.de", "b", "ab", "a", "é.fr", "e.fr", "a"]),
        strings(&["dash.netransit.net", "dash-staging.netransit.net", "dash"]),
        strings(&["日本.jp", "中国.cn", "x", "\u{10348}.org", "\u{ffff}.org"]),
    ];
    for hosts in inputs {
        let mut expected: Vec<String> =
            hosts.iter().filter(|h| !h.trim().is_empty()).cloned().collect();
        expected.sort_unstable();
        expected.dedup();
        assert_eq!(normalize_allowed_hosts(hosts), expected);
    }
}

#[test]
fn normalize_hosts_twice_is_once() {
    let hosts = strings(&["c.net", "a.net", "", "b.net", "a.net"]);
    let once = normalize_allowed_hosts(hosts);
    let twice = normalize_allowed_hosts(once.clone());
    assert_eq!(once, twice);
}

#[test]
fn normalize_hosts_twice_differs_on_all_blank_list() {
    let once = normalize_allowed_hosts(strings(&[" "]));
    let twice = normalize_allowed_hosts(once.clone());
    assert_ne!(once, twice);
}

#[test]
fn allowed_host_exact_match() {
    assert!(is_allowed_host("dash.netransit.net", &defaults()));
}

#[test]
fn allowed_host_subdomain() {
    assert!(is_allowed_host("eu.cdn.netransit.net", &defaults()));
}

#[test]
fn subdomain_of_allowed_host_is_allowed() {
    let list = strings(&["example.org"]);
    assert!(is_allowed_host("a.example.org", &list));
    assert!(is_allowed_host("b.a.example.org", &list));
}

#[test]
fn allowed_host_rejects_plain_suffix() {
    assert!(!is_allowed_host("evildash.netransit.net", &defaults()));
    assert!(!is_allowed_host("netransit.net", &defaults()));
    assert!(!is_allowed_host("dash.netransit.net.evil.com", &defaults()));
}

#[test]
fn allowed_host_empty_list() {
    assert!(!is_allowed_host("dash.netransit.net", &[]));
}

#[test]
fn dot_suffix_cases() {
    assert!(has_dot_suffix("a.b", "b"));
    assert!(!has_dot_suffix("ab", "b"));
    assert!(!has_dot_suffix("b", "b"));
    assert!(has_dot_suffix(".b", "b"));
    assert!(has_dot_suffix("x.", ""));
}
