//! Deciding whether the dashboard window may navigate to a URL.
use vstd::prelude::*;
use crate::hosts::{host_allowed, is_allowed_host};
use crate::text::same_text;

verus! {

/// The parts of a parsed URL that a navigation decision reads: its scheme
/// (lower case, without the `:`) and its host, where it has one.
#[derive(Clone, Debug)]
pub struct NavigationUrl {
    pub scheme: String,
    pub host: Option<String>,
}

impl NavigationUrl {
    /// The URL's parts as plain texts.
    pub open spec fn parts(&self) -> (Seq<char>, Option<Seq<char>>) {
        (
            self.scheme@,
            match self.host {
                Some(h) => Some(h@),
                None => None,
            },
        )
    }
}

/// A URL with these parts may be opened inside the app: it uses `https` and its
/// host is on the allow-list.
pub open spec fn navigation_allowed(
    parts: (Seq<char>, Option<Seq<char>>),
    allowed_hosts: Seq<Seq<char>>,
) -> bool {
    &&& parts.0 == "https"@
    &&& parts.1 matches Some(host) && host_allowed(host, allowed_hosts)
}

/// A lower-case ASCII letter.
pub open spec fn is_lower_letter(c: char) -> bool {
    'a' as int <= c as int <= 'z' as int
}

/// A character that may stand in a plain DNS host name.
pub open spec fn is_host_name_char(c: char) -> bool {
    ||| is_lower_letter(c)
    ||| '0' as int <= c as int <= '9' as int
    ||| c == '-'
    ||| c == '.'
}

/// Position `i` of `h` starts a label.
pub open spec fn starts_label(h: Seq<char>, i: int) -> bool {
    i == 0 || h[i - 1] == '.'
}

/// A plain lower-case DNS host name: dot-separated labels of letters, digits and
/// hyphens, each starting with a letter and not ending with a hyphen, with no
/// hyphen in both its third and fourth place (so no `xn--` label), and no final dot.
/// `url::Url::parse` keeps such a host as it is: IDNA passes it through and, as its
/// last label starts with a letter, it is not read as an IPv4 address.
pub open spec fn is_plain_dns_host(h: Seq<char>) -> bool {
    &&& h.len() > 0
    &&& forall|i: int| 0 <= i < h.len() ==> is_host_name_char(#[trigger] h[i])
    &&& forall|i: int| 0 <= i < h.len() && starts_label(h, i) ==> is_lower_letter(#[trigger] h[i])
    &&& h.last() != '.'
    &&& h.last() != '-'
    &&& forall|i: int| 0 < i < h.len() && #[trigger] h[i] == '.' ==> h[i - 1] != '-'
    &&& forall|i: int|
        0 <= i && i + 3 < h.len() && #[trigger] starts_label(h, i) ==> !(h[i + 2] == '-' && h[i
            + 3] == '-')
}

/// What may follow the host in a URL with no port: nothing, or a path (which may
/// carry a query and a fragment) starting with `/`.
pub open spec fn is_path_part(p: Seq<char>) -> bool {
    p.len() == 0 || p[0] == '/'
}

/// `raw` is `https://`, then the plain DNS host name `hp.0`, then `hp.1`, which is
/// nothing or a path.
pub open spec fn is_plain_https_url(raw: Seq<char>, hp: (Seq<char>, Seq<char>)) -> bool {
    &&& raw == "https://"@ + hp.0 + hp.1
    &&& is_plain_dns_host(hp.0)
    &&& is_path_part(hp.1)
}

/// The host of `raw` where `raw` is `https://`, a plain DNS host name, and then
/// nothing or a path; `None` for other texts.
pub open spec fn plain_https_host(raw: Seq<char>) -> Option<Seq<char>> {
    if exists|hp: (Seq<char>, Seq<char>)| is_plain_https_url(raw, hp) {
        Some((choose|hp: (Seq<char>, Seq<char>)| is_plain_https_url(raw, hp)).0)
    } else {
        None
    }
}

/// The host of such a text is determined by the text: it runs from the `//` to the
/// first `/` or the end.
pub proof fn lemma_plain_https_host(raw: Seq<char>, h: Seq<char>, p: Seq<char>)
    requires
        is_plain_https_url(raw, (h, p)),
    ensures
        plain_https_host(raw) == Some(h),
{
    let hp = choose|hp: (Seq<char>, Seq<char>)| is_plain_https_url(raw, hp);
    let (h2, p2) = hp;
    let pre = "https://"@;
    assert(raw == pre + h2 + p2);
    assert forall|k: int| 0 <= k < h.len() implies raw[pre.len() + k] == h[k] by {
        assert((pre + h + p)[pre.len() + k] == h[k]);
    }
    assert forall|k: int| 0 <= k < h2.len() implies raw[pre.len() + k] == h2[k] by {
        assert((pre + h2 + p2)[pre.len() + k] == h2[k]);
    }
    if h.len() < h2.len() {
        assert(p.len() > 0);
        assert(raw[(pre.len() + h.len()) as int] == (pre + h + p)[(pre.len() + h.len()) as int]);
        assert(is_host_name_char(h2[h.len() as int]));
    } else if h2.len() < h.len() {
        assert(p2.len() > 0);
        assert(raw[(pre.len() + h2.len()) as int] == (pre + h2 + p2)[(pre.len() + h2.len()) as int]);
        assert(is_host_name_char(h[h2.len() as int]));
    }
    assert(h =~= h2);
}

/// What `url::Url::parse` makes of a text, read through `Url::scheme` and
/// `Url::host_str`; `None` where it refuses the text.
pub uninterp spec fn parsed_url(raw: Seq<char>) -> Option<(Seq<char>, Option<Seq<char>>)>;

/// A text is a URL that may be opened inside the app.
pub open spec fn url_text_allowed(raw: Seq<char>, allowed_hosts: Seq<Seq<char>>) -> bool {
    match parsed_url(raw) {
        Some(parts) => navigation_allowed(parts, allowed_hosts),
        None => false,
    }
}

/// Parses `raw` with `url::Url::parse` and keeps its scheme (`Url::scheme`) and
/// host (`Url::host_str`). Trusted: the result is `parsed_url` of the text, that is,
/// it depends on the text alone; and for `https://` followed by a plain DNS host
/// name and nothing or a path, the URL parses with scheme `https` and that host
/// (the WHATWG host parser ends the host at the first `/`, IDNA passes such a name
/// through unchanged, and it is no IPv4 number). Nothing more is stated of the URL
/// grammar.
#[verifier::external_body]
fn parse_navigation_url(raw: &str) -> (r: Option<NavigationUrl>)
    ensures
        match r {
            Some(u) => parsed_url(raw@) == Some(u.parts()),
            None => parsed_url(raw@) is None,
        },
        r is Some || plain_https_host(raw@) is None,
        r is None || plain_https_host(raw@) is None || r->0.parts() == ("https"@, plain_https_host(raw@)),
{
    match url::Url::parse(raw) {
        Ok(url) => Some(
            NavigationUrl {
                scheme: url.scheme().to_string(),
                host: url.host_str().map(str::to_string),
            },
        ),
        Err(_) => None,
    }
}

/// Whether the app may show `url` itself: only `https` URLs whose host is on the allow-list.
pub fn is_allowed_navigation(url: &NavigationUrl, allowed_hosts: &[String]) -> (r: bool)
    ensures
        r == navigation_allowed(url.parts(), allowed_hosts.deep_view()),
{
    proof {
        reveal_strlit("https");
    }
    if !same_text(url.scheme.as_str(), "https") {
        return false;
    }
    match &url.host {
        Some(host) => is_allowed_host(host.as_str(), allowed_hosts),
        None => false,
    }
}

/// Whether the text `raw_url` is a URL that the app may show; text that does not
/// parse as a URL is refused.
pub fn is_allowed_navigation_url(raw_url: &str, allowed_hosts: &[String]) -> (r: bool)
    ensures
        r == url_text_allowed(raw_url@, allowed_hosts.deep_view()),
        plain_https_host(raw_url@) matches Some(h) ==> r == host_allowed(h, allowed_hosts.deep_view()),
{
    match parse_navigation_url(raw_url) {
        Some(url) => is_allowed_navigation(&url, allowed_hosts),
        None => false,
    }
}

} // verus!
