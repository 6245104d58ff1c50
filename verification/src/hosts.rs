//! The host allow-list: matching a host against it, and cleaning it up.
use vstd::prelude::*;
use crate::text::{
    TextOrder, compare_text, is_blank, is_blank_text, lemma_text_before_irreflexive,
    lemma_text_before_total, lemma_text_before_transitive, same_text, text_before,
};

verus! {

/// The hosts that the dashboard may reach when no list is configured.
pub open spec fn default_allowed_hosts() -> Seq<Seq<char>> {
    seq![
        "dash.netransit.net"@,
        "dash-staging.netransit.net"@,
        "api.netransit.net"@,
        "avatar.netransit.net"@,
        "avatars.netransit.net"@,
        "cdn.netransit.net"@,
    ]
}

/// `host` ends with a dot followed by `allowed` (it is a subdomain of `allowed`).
pub open spec fn dot_suffix_of(host: Seq<char>, allowed: Seq<char>) -> bool {
    let suffix = seq!['.'] + allowed;
    host.len() >= suffix.len() && host.skip(host.len() - suffix.len()) == suffix
}

/// `host` is `allowed` itself or one of its subdomains.
pub open spec fn host_matches(host: Seq<char>, allowed: Seq<char>) -> bool {
    host == allowed || dot_suffix_of(host, allowed)
}

/// Some entry of `allowed_hosts` lets `host` through.
pub open spec fn host_allowed(host: Seq<char>, allowed_hosts: Seq<Seq<char>>) -> bool {
    exists|i: int| 0 <= i < allowed_hosts.len() && host_matches(host, #[trigger] allowed_hosts[i])
}

/// Every entry of `hosts` is blank.
pub open spec fn all_blank(hosts: Seq<Seq<char>>) -> bool {
    forall|i: int| 0 <= i < hosts.len() ==> is_blank_text(#[trigger] hosts[i])
}

/// Each entry comes strictly before the next in code-point order
/// (so the list is sorted and holds no entry twice).
pub open spec fn strictly_ascending(s: Seq<Seq<char>>) -> bool {
    forall|i: int, j: int| 0 <= i < j < s.len() ==> text_before(#[trigger] s[i], #[trigger] s[j])
}

/// `r` holds exactly the non-blank entries of `hosts`, each once, in ascending order.
pub open spec fn sorted_nonblank_of(r: Seq<Seq<char>>, hosts: Seq<Seq<char>>) -> bool {
    &&& strictly_ascending(r)
    &&& forall|h: Seq<char>| #[trigger] r.contains(h) <==> (hosts.contains(h) && !is_blank_text(h))
}

/// What cleaning up an allow-list gives: the default list when every entry is blank,
/// else the non-blank entries sorted with duplicates removed.
pub open spec fn normalized_hosts_of(r: Seq<Seq<char>>, hosts: Seq<Seq<char>>) -> bool {
    if all_blank(hosts) {
        r == default_allowed_hosts()
    } else {
        sorted_nonblank_of(r, hosts)
    }
}

/// The default allow-list.
pub fn default_allowed_host_list() -> (r: Vec<String>)
    ensures
        r.deep_view() == default_allowed_hosts(),
{
    let mut v: Vec<String> = Vec::new();
    v.push(String::from_str("dash.netransit.net"));
    v.push(String::from_str("dash-staging.netransit.net"));
    v.push(String::from_str("api.netransit.net"));
    v.push(String::from_str("avatar.netransit.net"));
    v.push(String::from_str("avatars.netransit.net"));
    v.push(String::from_str("cdn.netransit.net"));
    assert(v.deep_view() =~= default_allowed_hosts());
    v
}

/// Whether `host` ends with `.` followed by `allowed`.
pub fn has_dot_suffix(host: &str, allowed: &str) -> (r: bool)
    ensures
        r == dot_suffix_of(host@, allowed@),
{
    let nh = host.unicode_len();
    let na = allowed.unicode_len();
    let ghost suffix = seq!['.'] + allowed@;
    if nh <= na {
        return false;
    }
    let start = nh - na;
    let ghost tail = host@.skip(start - 1);
    let dot = host.get_char(start - 1);
    if dot != '.' {
        assert(tail[0] != suffix[0]);
        return false;
    }
    let mut j: usize = 0;
    while j < na
        invariant
            nh == host@.len(),
            na == allowed@.len(),
            start == nh - na,
            0 < start,
            j <= na,
            tail == host@.skip(start - 1),
            suffix == seq!['.'] + allowed@,
            forall|k: int| 0 <= k < j ==> host@[start + k] == allowed@[k],
        decreases na - j,
    {
        if host.get_char(start + j) != allowed.get_char(j) {
            assert(tail[j + 1] != suffix[j + 1]);
            return false;
        }
        j = j + 1;
    }
    assert(tail =~= suffix);
    true
}

/// Whether `host` is one of `allowed_hosts` or a subdomain of one of them.
pub fn is_allowed_host(host: &str, allowed_hosts: &[String]) -> (r: bool)
    ensures
        r == host_allowed(host@, allowed_hosts.deep_view()),
{
    let ghost list = allowed_hosts.deep_view();
    let mut i: usize = 0;
    while i < allowed_hosts.len()
        invariant
            list == allowed_hosts.deep_view(),
            i <= allowed_hosts@.len(),
            forall|j: int| 0 <= j < i ==> !host_matches(host@, #[trigger] list[j]),
        decreases allowed_hosts@.len() - i,
    {
        let allowed = allowed_hosts[i].as_str();
        if same_text(host, allowed) || has_dot_suffix(host, allowed) {
            assert(host_matches(host@, list[i as int]));
            return true;
        }
        i = i + 1;
    }
    false
}


/// Adds `host` to an ascending list unless it is already there, keeping the list ascending.
fn insert_ascending(list: &mut Vec<String>, host: &String)
    requires
        strictly_ascending(old(list).deep_view()),
    ensures
        strictly_ascending(final(list).deep_view()),
        forall|h: Seq<char>|
            #[trigger] final(list).deep_view().contains(h) <==> (old(list).deep_view().contains(h)
                || h == host@),
{
    let ghost before = list.deep_view();
    let mut k: usize = 0;
    while k < list.len() && compare_text(list[k].as_str(), host.as_str()) == TextOrder::Before
        invariant
            before == list.deep_view(),
            k <= list@.len(),
            forall|m: int| 0 <= m < k ==> text_before(#[trigger] before[m], host@),
        decreases list@.len() - k,
    {
        k = k + 1;
    }
    if k < list.len() && same_text(list[k].as_str(), host.as_str()) {
        assert(before[k as int] == host@);
        return;
    }
    proof {
        if k < before.len() {
            lemma_text_before_total(before[k as int], host@);
        }
    }
    list.insert(k, host.clone());
    let ghost after = list.deep_view();
    assert(after =~= before.insert(k as int, host@));
    assert forall|i: int, j: int| 0 <= i < j < after.len() implies text_before(
        #[trigger] after[i],
        #[trigger] after[j],
    ) by {
        if j < k {
        } else if j == k {
        } else if i < k {
            assert(after[j] == before[j - 1]);
            if j - 1 > k {
                assert(text_before(before[k as int], before[j - 1]));
                lemma_text_before_transitive(host@, before[k as int], before[j - 1]);
            }
            assert(after[i] == before[i]);
            lemma_text_before_transitive(after[i], host@, after[j]);
        } else if i == k {
            assert(after[j] == before[j - 1]);
            if j - 1 > k {
                assert(text_before(before[k as int], before[j - 1]));
                lemma_text_before_transitive(host@, before[k as int], before[j - 1]);
            }
        } else {
            assert(after[i] == before[i - 1]);
            assert(after[j] == before[j - 1]);
        }
    }
    assert forall|h: Seq<char>| #[trigger] after.contains(h) <==> (before.contains(h) || h == host@) by {
        if after.contains(h) {
            let i = choose|i: int| 0 <= i < after.len() && after[i] == h;
            if i < k {
                assert(before[i] == h);
            } else if i > k {
                assert(before[i - 1] == h);
            }
        }
        if before.contains(h) {
            let i = choose|i: int| 0 <= i < before.len() && before[i] == h;
            if i < k {
                assert(after[i] == h);
            } else {
                assert(after[i + 1] == h);
            }
        }
        if h == host@ {
            assert(after[k as int] == h);
        }
    }
}

/// Cleans up an allow-list: drops blank entries, sorts the rest in code-point
/// order and removes duplicates; an all-blank (or empty) list becomes the default list.
pub fn normalize_allowed_hosts(hosts: Vec<String>) -> (r: Vec<String>)
    ensures
        normalized_hosts_of(r.deep_view(), hosts.deep_view()),
{
    let ghost input = hosts.deep_view();
    let mut out: Vec<String> = Vec::new();
    let mut i: usize = 0;
    while i < hosts.len()
        invariant
            input == hosts.deep_view(),
            i <= hosts@.len(),
            strictly_ascending(out.deep_view()),
            forall|h: Seq<char>|
                #[trigger] out.deep_view().contains(h) <==> (input.take(i as int).contains(h)
                    && !is_blank_text(h)),
        decreases hosts@.len() - i,
    {
        let ghost prev = out.deep_view();
        let host = &hosts[i];
        if !is_blank(host.as_str()) {
            insert_ascending(&mut out, host);
        }
        proof {
            let now = out.deep_view();
            let t0 = input.take(i as int);
            let t1 = input.take(i + 1);
            assert(t1 =~= t0.push(input[i as int]));
            assert forall|h: Seq<char>| #[trigger] now.contains(h) <==> (t1.contains(h)
                && !is_blank_text(h)) by {
                if t0.contains(h) {
                    let j = choose|j: int| 0 <= j < t0.len() && t0[j] == h;
                    assert(t1[j] == h);
                }
                if t1.contains(h) {
                    let j = choose|j: int| 0 <= j < t1.len() && t1[j] == h;
                    if j < t0.len() {
                        assert(t0[j] == h);
                    }
                }
                if h == input[i as int] {
                    assert(t1[t0.len() as int] == h);
                }
                assert(prev.contains(h) ==> now.contains(h));
            }
        }
        i = i + 1;
    }
    proof {
        assert(input.take(i as int) =~= input);
    }
    if out.len() == 0 {
        proof {
            assert forall|j: int| 0 <= j < input.len() implies is_blank_text(#[trigger] input[j]) by {
                assert(input.contains(input[j]));
                if !is_blank_text(input[j]) {
                    assert(out.deep_view().contains(input[j]));
                }
            }
        }
        return default_allowed_host_list();
    }
    proof {
        let now = out.deep_view();
        assert(now.contains(now[0]));
        let h = now[0];
        let j = choose|j: int| 0 <= j < input.len() && input[j] == h;
        assert(!is_blank_text(input[j]));
    }
    out
}


/// Two strictly ascending lists with the same entries are the same list.
pub proof fn lemma_ascending_unique(a: Seq<Seq<char>>, b: Seq<Seq<char>>)
    requires
        strictly_ascending(a),
        strictly_ascending(b),
        forall|h: Seq<char>| a.contains(h) <==> b.contains(h),
    ensures
        a == b,
    decreases a.len(),
{
    if a.len() == 0 {
        if b.len() > 0 {
            assert(b.contains(b[0]));
        }
        assert(a =~= b);
    } else {
        assert(a.contains(a[0]));
        let m = choose|m: int| 0 <= m < b.len() && b[m] == a[0];
        assert(b.contains(b[0]));
        let n = choose|n: int| 0 <= n < a.len() && a[n] == b[0];
        if m != 0 && n != 0 {
            assert(text_before(b[0], b[m]));
            assert(text_before(a[0], a[n]));
            lemma_text_before_total(a[0], b[0]);
        } else if m != 0 {
            assert(text_before(b[0], b[m]));
            lemma_text_before_irreflexive(a[0]);
        } else if n != 0 {
            assert(text_before(a[0], a[n]));
            lemma_text_before_irreflexive(b[0]);
        }
        assert(a[0] == b[0]);
        let ra = a.drop_first();
        let rb = b.drop_first();
        assert forall|h: Seq<char>| ra.contains(h) <==> rb.contains(h) by {
            if ra.contains(h) {
                let i = choose|i: int| 0 <= i < ra.len() && ra[i] == h;
                assert(text_before(a[0], a[i + 1]));
                lemma_text_before_total(a[0], h);
                assert(a.contains(h));
                let j = choose|j: int| 0 <= j < b.len() && b[j] == h;
                assert(j != 0);
                assert(rb[j - 1] == h);
            }
            if rb.contains(h) {
                let i = choose|i: int| 0 <= i < rb.len() && rb[i] == h;
                assert(text_before(b[0], b[i + 1]));
                lemma_text_before_total(b[0], h);
                assert(b.contains(h));
                let j = choose|j: int| 0 <= j < a.len() && a[j] == h;
                assert(j != 0);
                assert(ra[j - 1] == h);
            }
        }
        assert(strictly_ascending(ra));
        assert(strictly_ascending(rb));
        lemma_ascending_unique(ra, rb);
        assert(a =~= seq![a[0]] + ra);
        assert(b =~= seq![b[0]] + rb);
    }
}

/// Cleaning up an allow-list twice gives what cleaning it up once gave, for
/// every list that has a non-blank entry.
pub proof fn lemma_normalize_hosts_idempotent(
    hosts: Seq<Seq<char>>,
    once: Seq<Seq<char>>,
    twice: Seq<Seq<char>>,
)
    requires
        !all_blank(hosts),
        normalized_hosts_of(once, hosts),
        normalized_hosts_of(twice, once),
    ensures
        twice == once,
{
    let j = choose|j: int| 0 <= j < hosts.len() && !is_blank_text(hosts[j]);
    assert(hosts.contains(hosts[j]));
    assert(once.contains(hosts[j]));
    let k = choose|k: int| 0 <= k < once.len() && once[k] == hosts[j];
    assert(!is_blank_text(once[k]));
    assert(!all_blank(once));
    assert forall|h: Seq<char>| twice.contains(h) <==> once.contains(h) by {
        if once.contains(h) {
            assert(!is_blank_text(h));
        }
    }
    lemma_ascending_unique(twice, once);
}

/// Whether a host is allowed depends only on which entries the list holds,
/// not on their order or repetition.
pub proof fn lemma_host_allowed_by_entries(
    host: Seq<char>,
    a: Seq<Seq<char>>,
    b: Seq<Seq<char>>,
)
    requires
        forall|h: Seq<char>| a.contains(h) <==> b.contains(h),
    ensures
        host_allowed(host, a) == host_allowed(host, b),
{
    if host_allowed(host, a) {
        let i = choose|i: int| 0 <= i < a.len() && host_matches(host, #[trigger] a[i]);
        assert(a.contains(a[i]));
        let j = choose|j: int| 0 <= j < b.len() && b[j] == a[i];
        assert(host_matches(host, b[j]));
    }
    if host_allowed(host, b) {
        let i = choose|i: int| 0 <= i < b.len() && host_matches(host, #[trigger] b[i]);
        assert(b.contains(b[i]));
        let j = choose|j: int| 0 <= j < a.len() && a[j] == b[i];
        assert(host_matches(host, a[j]));
    }
}

/// Every subdomain of an allowed host is allowed too.
pub proof fn lemma_subdomain_allowed(label: Seq<char>, host: Seq<char>, hosts: Seq<Seq<char>>)
    requires
        host_allowed(host, hosts),
    ensures
        host_allowed(label + seq!['.'] + host, hosts),
{
    let i = choose|i: int| 0 <= i < hosts.len() && host_matches(host, #[trigger] hosts[i]);
    let allowed = hosts[i];
    let sub = label + seq!['.'] + host;
    let suffix = seq!['.'] + allowed;
    if host == allowed {
        assert(sub.skip(sub.len() - suffix.len()) =~= suffix);
    } else {
        assert(sub.skip(sub.len() - suffix.len()) =~= host.skip(host.len() - suffix.len()));
    }
    assert(host_matches(sub, hosts[i]));
}


/// Every entry of an allow-list lets a host equal to it through, whatever its shape.
pub proof fn lemma_entry_allowed(hosts: Seq<Seq<char>>, i: int)
    requires
        0 <= i < hosts.len(),
    ensures
        host_allowed(hosts[i], hosts),
{
    assert(host_matches(hosts[i], hosts[i]));
}

/// Every entry of an allow-list lets its subdomains through.
pub proof fn lemma_entry_subdomain_allowed(label: Seq<char>, hosts: Seq<Seq<char>>, i: int)
    requires
        0 <= i < hosts.len(),
    ensures
        host_allowed(label + seq!['.'] + hosts[i], hosts),
{
    let sub = label + seq!['.'] + hosts[i];
    let suffix = seq!['.'] + hosts[i];
    assert(sub.skip(sub.len() - suffix.len()) =~= suffix);
    assert(host_matches(sub, hosts[i]));
}

/// A host is allowed exactly when it is some entry preceded by nothing or by a
/// text that ends with a dot.
pub proof fn lemma_host_allowed_iff_dotted_prefix(host: Seq<char>, hosts: Seq<Seq<char>>)
    ensures
        host_allowed(host, hosts) <==> exists|i: int, p: Seq<char>|
            #![trigger p + hosts[i]]
            0 <= i < hosts.len() && host == p + hosts[i] && (p.len() == 0 || p.last()
                == '.'),
{
    if host_allowed(host, hosts) {
        let i = choose|i: int| 0 <= i < hosts.len() && host_matches(host, #[trigger] hosts[i]);
        let a = hosts[i];
        if host == a {
            assert(host =~= Seq::<char>::empty() + a);
        } else {
            let p = host.take(host.len() - a.len());
            let suffix = seq!['.'] + a;
            assert(host.skip(host.len() - suffix.len())[0] == '.');
            assert(p.last() == host[host.len() - a.len() - 1]);
            assert forall|k: int| 0 <= k < a.len() implies host[host.len() - a.len() + k] == a[k] by {
                assert(host.skip(host.len() - suffix.len())[k + 1] == suffix[k + 1]);
            }
            assert(host =~= p + a);
        }
    }
    if exists|i: int, p: Seq<char>|
        #![trigger p + hosts[i]]
        0 <= i < hosts.len() && host == p + hosts[i] && (p.len() == 0 || p.last() == '.') {
        let (i, p) = choose|i: int, p: Seq<char>|
            #![trigger p + hosts[i]]
            0 <= i < hosts.len() && host == p + hosts[i] && (p.len() == 0 || p.last()
                == '.');
        let a = hosts[i];
        if p.len() == 0 {
            assert(host =~= a);
        } else {
            let suffix = seq!['.'] + a;
            assert(host.skip(host.len() - suffix.len()) =~= suffix);
        }
        assert(host_matches(host, hosts[i]));
    }
}

} // verus!
