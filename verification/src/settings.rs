//! The settings the shell keeps between runs, and how they are cleaned up and changed.
use vstd::prelude::*;
use crate::hosts::{
    all_blank, default_allowed_host_list, default_allowed_hosts,
    lemma_host_allowed_by_entries, lemma_normalize_hosts_idempotent, normalize_allowed_hosts,
    normalized_hosts_of,
};
use crate::navigation::{is_allowed_navigation_url, parsed_url, url_text_allowed};
use crate::text::is_blank_text;

verus! {

/// The dashboard the app opens when no other target is configured.
pub open spec fn default_target_url() -> Seq<char> {
    "https://dash.netransit.net"@
}

/// The answer given when a new target URL is not on the allow-list.
pub open spec fn target_refused_message() -> Seq<char> {
    "Target URL is not in NET Control Center allow-list"@
}

/// Stored settings: the dashboard URL, whether the app starts with the
/// system, and the hosts it may show. (The window geometry, which is held
/// in floating point, is kept beside these by the application.)
#[derive(Clone, Debug)]
pub struct Settings {
    pub target_url: String,
    pub launch_at_startup: bool,
    pub allowed_hosts: Vec<String>,
}

/// Settings as plain values.
pub struct SettingsView {
    pub target_url: Seq<char>,
    pub launch_at_startup: bool,
    pub allowed_hosts: Seq<Seq<char>>,
}

impl View for Settings {
    type V = SettingsView;

    open spec fn view(&self) -> SettingsView {
        SettingsView {
            target_url: self.target_url@,
            launch_at_startup: self.launch_at_startup,
            allowed_hosts: self.allowed_hosts.deep_view(),
        }
    }
}

/// The settings of a first run.
pub open spec fn default_settings() -> SettingsView {
    SettingsView {
        target_url: default_target_url(),
        launch_at_startup: false,
        allowed_hosts: default_allowed_hosts(),
    }
}

/// `r` is `s` cleaned up: the target is kept where the (raw) allow-list accepts it and
/// replaced by the default dashboard otherwise, and the allow-list is normalized.
pub open spec fn normalized_settings_of(r: SettingsView, s: SettingsView) -> bool {
    &&& r.target_url == (if url_text_allowed(s.target_url, s.allowed_hosts) {
        s.target_url
    } else {
        default_target_url()
    })
    &&& r.launch_at_startup == s.launch_at_startup
    &&& normalized_hosts_of(r.allowed_hosts, s.allowed_hosts)
}

impl Default for Settings {
    fn default() -> (s: Self)
        ensures
            s@ == default_settings(),
    {
        Settings {
            target_url: String::from_str("https://dash.netransit.net"),
            launch_at_startup: false,
            allowed_hosts: default_allowed_host_list(),
        }
    }
}

/// Cleans up loaded settings: a target URL that the stored allow-list does not
/// accept falls back to the default dashboard, and the allow-list is normalized.
pub fn normalize_settings(settings: Settings) -> (r: Settings)
    ensures
        normalized_settings_of(r@, settings@),
{
    let Settings { target_url, launch_at_startup, allowed_hosts } = settings;
    let target_url = if is_allowed_navigation_url(target_url.as_str(), allowed_hosts.as_slice()) {
        target_url
    } else {
        String::from_str("https://dash.netransit.net")
    };
    Settings { target_url, launch_at_startup, allowed_hosts: normalize_allowed_hosts(allowed_hosts) }
}

/// The settings to use after a load: those that were read, or, where nothing
/// could be read, the cleaned-up defaults.
pub fn loaded_or_default(loaded: Option<Settings>) -> (r: Settings)
    ensures
        match loaded {
            Some(s) => r@ == s@,
            None => normalized_settings_of(r@, default_settings()),
        },
{
    match loaded {
        Some(s) => s,
        None => normalize_settings(Settings::default()),
    }
}

/// Points the app at a new dashboard URL. The URL must be on the current
/// allow-list; otherwise the settings are left alone and an error is returned.
pub fn with_target_url(settings: Settings, target_url: String) -> (r: Result<Settings, String>)
    ensures
        match r {
            Ok(s) => {
                &&& url_text_allowed(target_url@, settings@.allowed_hosts)
                &&& s@ == SettingsView { target_url: target_url@, ..settings@ }
            },
            Err(e) => {
                &&& !url_text_allowed(target_url@, settings@.allowed_hosts)
                &&& e@ == target_refused_message()
            },
        },
{
    if !is_allowed_navigation_url(target_url.as_str(), settings.allowed_hosts.as_slice()) {
        return Err(String::from_str("Target URL is not in NET Control Center allow-list"));
    }
    Ok(Settings { target_url, ..settings })
}

/// The allow-list without its blank entries.
pub open spec fn without_blank(hosts: Seq<Seq<char>>) -> Seq<Seq<char>> {
    hosts.filter(|h: Seq<char>| !is_blank_text(h))
}

/// Cleaning up settings twice gives what cleaning them up once gave. It holds
/// unless the allow-list is all blank (the default list then comes back unsorted
/// and is sorted by the second pass), or the target is not the default
/// dashboard and the allow-list accepts it only through blank entries (the
/// second pass, which sees no blank entry, then drops it).
pub proof fn lemma_normalize_settings_idempotent(
    s: SettingsView,
    once: SettingsView,
    twice: SettingsView,
)
    requires
        !all_blank(s.allowed_hosts),
        s.target_url == default_target_url() || (url_text_allowed(s.target_url, s.allowed_hosts)
            ==> url_text_allowed(s.target_url, without_blank(s.allowed_hosts))),
        normalized_settings_of(once, s),
        normalized_settings_of(twice, once),
    ensures
        twice == once,
{
    let hosts = s.allowed_hosts;
    lemma_normalize_hosts_idempotent(hosts, once.allowed_hosts, twice.allowed_hosts);
    let kept = without_blank(hosts);
    hosts.filter_lemma(|h: Seq<char>| !is_blank_text(h));
    assert forall|h: Seq<char>| kept.contains(h) <==> once.allowed_hosts.contains(h) by {
        if kept.contains(h) {
            hosts.lemma_filter_contains_rev(|h: Seq<char>| !is_blank_text(h), h);
            let i = choose|i: int| 0 <= i < kept.len() && kept[i] == h;
            assert(!is_blank_text(kept[i]));
        }
        if once.allowed_hosts.contains(h) {
            let i = choose|i: int| 0 <= i < hosts.len() && hosts[i] == h;
            assert(kept.contains(hosts[i]));
        }
    }
    if url_text_allowed(s.target_url, hosts) && s.target_url != default_target_url() {
        let parts = parsed_url(s.target_url).unwrap();
        let host = parts.1.unwrap();
        lemma_host_allowed_by_entries(host, kept, once.allowed_hosts);
    }
    assert(twice =~= once);
}


/// A target URL that `with_target_url` accepted is kept when the settings are
/// cleaned up (as they are before being written).
pub proof fn lemma_accepted_target_survives_cleanup(
    s: SettingsView,
    target_url: Seq<char>,
    cleaned: SettingsView,
)
    requires
        url_text_allowed(target_url, s.allowed_hosts),
        normalized_settings_of(cleaned, SettingsView { target_url, ..s }),
    ensures
        cleaned.target_url == target_url,
{
}

} // verus!
