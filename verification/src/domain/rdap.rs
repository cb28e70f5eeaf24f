//! Decisions of the RDAP lookup: which server answers for a TLD, which URL
//! to query and what the reply's status means.

use vstd::prelude::*;
use vstd::string::StringExecFns;
use super::{Availability, AvailabilityView};
use super::dns::{dns_availability, dns_status};
use crate::http::{is_success, status_display, status_text};
use crate::strmap::StringMap;
use crate::text::{chars_of, lowercase, rfind, rfind_char, substring, to_lowercase};

verus! {

/// The RDAP servers used when the IANA bootstrap file cannot be fetched.
pub open spec fn fallback_servers() -> Map<Seq<char>, Seq<char>> {
    Map::empty().insert("com"@, "https://rdap.verisign.com/com/v1"@).insert(
        "net"@,
        "https://rdap.verisign.com/net/v1"@,
    ).insert("org"@, "https://rdap.org/org"@).insert("io"@, "https://rdap.nic.io"@).insert(
        "dev"@,
        "https://rdap.nic.google"@,
    ).insert("app"@, "https://rdap.nic.google"@).insert("ai"@, "https://rdap.nic.ai"@).insert(
        "co"@,
        "https://rdap.nic.co"@,
    ).insert("xyz"@, "https://rdap.nic.xyz"@).insert("tech"@, "https://rdap.nic.tech"@)
}

/// Hardcoded fallbacks for common TLDs.
pub fn hardcoded_bootstrap() -> (m: StringMap)
    ensures
        m@ == fallback_servers(),
{
    let mut m = StringMap::new();
    m.insert(String::from_str("com"), String::from_str("https://rdap.verisign.com/com/v1"));
    m.insert(String::from_str("net"), String::from_str("https://rdap.verisign.com/net/v1"));
    m.insert(String::from_str("org"), String::from_str("https://rdap.org/org"));
    m.insert(String::from_str("io"), String::from_str("https://rdap.nic.io"));
    m.insert(String::from_str("dev"), String::from_str("https://rdap.nic.google"));
    m.insert(String::from_str("app"), String::from_str("https://rdap.nic.google"));
    m.insert(String::from_str("ai"), String::from_str("https://rdap.nic.ai"));
    m.insert(String::from_str("co"), String::from_str("https://rdap.nic.co"));
    m.insert(String::from_str("xyz"), String::from_str("https://rdap.nic.xyz"));
    m.insert(String::from_str("tech"), String::from_str("https://rdap.nic.tech"));
    m
}

/// The part of a domain after its last '.', or the whole domain when it
/// has none.
pub open spec fn last_label(d: Seq<char>) -> Seq<char> {
    match rfind_char(d, '.') {
        Some(i) => d.subrange(i + 1, d.len() as int),
        None => d,
    }
}

/// Extract the TLD from a domain name: its last label, lowercased.
pub fn extract_tld(domain: &str) -> (r: Option<String>)
    ensures
        r matches Some(t) && t@ == lowercase(last_label(domain@)),
{
    let v = chars_of(domain);
    let label = match rfind(&v, '.') {
        Some(i) => {
            proof {
                crate::text::lemma_rfind_char_bounds(v@, '.');
            }
            substring(&v, i + 1, v.len())
        },
        None => String::from_str(domain),
    };
    Some(to_lowercase(label.as_str()))
}

/// `s` without its trailing '/' characters.
pub open spec fn without_trailing_slashes(s: Seq<char>) -> Seq<char>
    decreases s.len(),
{
    if s.len() > 0 && s.last() == '/' {
        without_trailing_slashes(s.drop_last())
    } else {
        s
    }
}

/// `m` with every TLD of `tlds`, lowercased, mapped to `base`, in order.
pub open spec fn insert_tlds(
    m: Map<Seq<char>, Seq<char>>,
    tlds: Seq<Seq<char>>,
    base: Seq<char>,
) -> Map<Seq<char>, Seq<char>>
    decreases tlds.len(),
{
    if tlds.len() == 0 {
        m
    } else {
        insert_tlds(m, tlds.drop_last(), base).insert(lowercase(tlds.last()), base)
    }
}

/// The servers that the IANA bootstrap services list: each service maps its
/// TLDs to its first URL without trailing '/'; services without URLs are
/// skipped and later services override earlier ones.
pub open spec fn servers_of(services: Seq<(Seq<Seq<char>>, Seq<Seq<char>>)>) -> Map<
    Seq<char>,
    Seq<char>,
>
    decreases services.len(),
{
    if services.len() == 0 {
        Map::empty()
    } else {
        let m = servers_of(services.drop_last());
        let s = services.last();
        if s.1.len() == 0 {
            m
        } else {
            insert_tlds(m, s.0, without_trailing_slashes(s.1[0]))
        }
    }
}

/// `insert_tlds` maps every listed TLD, lowercased, to the base, and leaves
/// every other key as it was.
proof fn lemma_insert_tlds(m: Map<Seq<char>, Seq<char>>, tlds: Seq<Seq<char>>, base: Seq<char>, key: Seq<char>)
    ensures
        (exists|k: int| 0 <= k < tlds.len() && lowercase(#[trigger] tlds[k]) == key) ==> insert_tlds(m, tlds, base).contains_key(key)
            && insert_tlds(m, tlds, base)[key] == base,
        !(exists|k: int| 0 <= k < tlds.len() && lowercase(#[trigger] tlds[k]) == key) ==> (insert_tlds(m, tlds, base).contains_key(key)
            == m.contains_key(key) && (m.contains_key(key) ==> insert_tlds(m, tlds, base)[key] == m[key])),
    decreases tlds.len(),
{
    if tlds.len() > 0 {
        let init = tlds.drop_last();
        lemma_insert_tlds(m, init, base, key);
        if exists|k: int| 0 <= k < init.len() && lowercase(#[trigger] init[k]) == key {
            let k = choose|k: int| 0 <= k < init.len() && lowercase(#[trigger] init[k]) == key;
            assert(tlds[k] == init[k]);
        }
        if exists|k: int| 0 <= k < tlds.len() && lowercase(#[trigger] tlds[k]) == key {
            let k = choose|k: int| 0 <= k < tlds.len() && lowercase(#[trigger] tlds[k]) == key;
            if k < init.len() {
                assert(init[k] == tlds[k]);
            }
        }
    }
}

/// Every TLD that a bootstrap service with a URL lists is served: the map
/// holds it, lowercased, and, unless a later service with a URL lists it
/// too, maps it to that service's first URL without trailing '/'.
pub proof fn law_every_listed_tld_served(services: Seq<(Seq<Seq<char>>, Seq<Seq<char>>)>, i: int, k: int)
    requires
        0 <= i < services.len(),
        services[i].1.len() > 0,
        0 <= k < services[i].0.len(),
    ensures
        servers_of(services).contains_key(lowercase(services[i].0[k])),
        (forall|j: int, l: int| i < j < services.len() && services[j].1.len() > 0 && 0 <= l < services[j].0.len()
            ==> lowercase(#[trigger] services[j].0[l]) != lowercase(services[i].0[k]))
            ==> servers_of(services)[lowercase(services[i].0[k])] == without_trailing_slashes(services[i].1[0]),
    decreases services.len(),
{
    let key = lowercase(services[i].0[k]);
    let init = services.drop_last();
    let last = services.last();
    let m = servers_of(init);
    if i == services.len() - 1 {
        lemma_insert_tlds(m, last.0, without_trailing_slashes(last.1[0]), key);
        assert(lowercase(last.0[k]) == key);
    } else {
        assert(init[i] == services[i]);
        law_every_listed_tld_served(init, i, k);
        if last.1.len() > 0 {
            lemma_insert_tlds(m, last.0, without_trailing_slashes(last.1[0]), key);
            if forall|j: int, l: int| i < j < services.len() && services[j].1.len() > 0 && 0 <= l < services[j].0.len()
                ==> lowercase(#[trigger] services[j].0[l]) != key {
                assert forall|j: int, l: int| i < j < init.len() && init[j].1.len() > 0 && 0 <= l < init[j].0.len()
                    implies lowercase(#[trigger] init[j].0[l]) != key by {
                    assert(init[j] == services[j]);
                }
                assert forall|l: int| 0 <= l < last.0.len() implies lowercase(#[trigger] last.0[l]) != key by {
                    assert(services[services.len() - 1] == last);
                    assert(lowercase(services[services.len() - 1].0[l]) != key);
                }
            }
        } else {
            if forall|j: int, l: int| i < j < services.len() && services[j].1.len() > 0 && 0 <= l < services[j].0.len()
                ==> lowercase(#[trigger] services[j].0[l]) != key {
                assert forall|j: int, l: int| i < j < init.len() && init[j].1.len() > 0 && 0 <= l < init[j].0.len()
                    implies lowercase(#[trigger] init[j].0[l]) != key by {
                    assert(init[j] == services[j]);
                }
            }
        }
    }
}

/// `n` slash characters.
pub open spec fn slashes(n: nat) -> Seq<char> {
    Seq::new(n, |_i: int| '/')
}

/// Removing trailing slashes removes exactly the '/' characters at the end:
/// the result does not end in '/', and the text is the result followed by
/// some number of '/'.
pub proof fn law_trailing_slashes_removed(s: Seq<char>)
    ensures
        without_trailing_slashes(s).len() == 0 || without_trailing_slashes(s).last() != '/',
        exists|n: nat| s == without_trailing_slashes(s) + #[trigger] slashes(n),
    decreases s.len(),
{
    if s.len() > 0 && s.last() == '/' {
        law_trailing_slashes_removed(s.drop_last());
        let w = without_trailing_slashes(s.drop_last());
        let n = choose|n: nat| s.drop_last() == w + #[trigger] slashes(n);
        assert(slashes(n + 1) =~= slashes(n).push('/'));
        assert(s =~= s.drop_last().push('/'));
        assert(w + slashes(n + 1) =~= (w + slashes(n)).push('/'));
    } else {
        assert(s =~= s + slashes(0));
    }
}

fn trim_trailing_slashes(s: &str) -> (r: String)
    ensures
        r@ == without_trailing_slashes(s@),
{
    let v = chars_of(s);
    let mut n = v.len();
    assert(v@.take(n as int) =~= v@);
    while n > 0 && v[n - 1] == '/'
        invariant
            n <= v@.len(),
            v@ == s@,
            without_trailing_slashes(s@) == without_trailing_slashes(v@.take(n as int)),
        decreases n,
    {
        assert(v@.take(n as int).drop_last() =~= v@.take(n - 1));
        n = n - 1;
    }
    assert(v@.subrange(0, n as int) =~= v@.take(n as int));
    substring(&v, 0, n)
}

/// The TLD → server map that the IANA bootstrap services describe. Each
/// service is its list of TLDs and its list of server URLs.
pub fn bootstrap_from_services(services: &Vec<(Vec<String>, Vec<String>)>) -> (m: StringMap)
    ensures
        m@ == servers_of(services.deep_view()),
{
    let mut m = StringMap::new();
    for i in 0..services.len()
        invariant
            m@ == servers_of(services.deep_view().take(i as int)),
    {
        assert(services.deep_view().take(i + 1).drop_last() =~= services.deep_view().take(
            i as int,
        ));
        assert(services.deep_view().take(i + 1).last() == services@[i as int].deep_view());
        let tlds = &services[i].0;
        let urls = &services[i].1;
        if urls.len() > 0 {
            let base = trim_trailing_slashes(urls[0].as_str());
            let ghost start = m@;
            for j in 0..tlds.len()
                invariant
                    m@ == insert_tlds(start, tlds.deep_view().take(j as int), base@),
            {
                assert(tlds.deep_view().take(j + 1).drop_last() =~= tlds.deep_view().take(
                    j as int,
                ));
                m.insert(to_lowercase(tlds[j].as_str()), base.clone());
            }
            assert(tlds.deep_view().take(tlds.len() as int) =~= tlds.deep_view());
        }
    }
    assert(services.deep_view().take(services.len() as int) =~= services.deep_view());
    m
}

/// The URL that answers for `domain`: its TLD's server, "/domain/" and the
/// domain; `None` when no server is known for the TLD.
pub open spec fn query_url(servers: Map<Seq<char>, Seq<char>>, domain: Seq<char>) -> Option<
    Seq<char>,
> {
    let tld = lowercase(last_label(domain));
    if servers.contains_key(tld) {
        Some(servers[tld] + "/domain/"@ + domain)
    } else {
        None
    }
}

/// The URL to query for `domain`, or `None` when its TLD has no known
/// server (`rdap_route` then sends the domain to a DNS lookup).
pub fn rdap_query_url(servers: &StringMap, domain: &str) -> (r: Option<String>)
    ensures
        r matches Some(u) ==> query_url(servers@, domain@) == Some(u@),
        r is None ==> query_url(servers@, domain@) is None,
{
    let tld = match extract_tld(domain) {
        Some(t) => t,
        None => String::new(),
    };
    match servers.get(tld.as_str()) {
        Some(base) => {
            let mut url = base.clone();
            url.append("/domain/");
            url.append(domain);
            Some(url)
        },
        None => None,
    }
}

/// What an RDAP reply means: 404 means the domain is not registered, 429
/// that the server limits the rate, any other success that the domain is
/// registered, and any other status is reported as an error. `Err` holds
/// the message of a request that failed.
pub open spec fn rdap_status(reply: Result<u16, Seq<char>>) -> AvailabilityView {
    match reply {
        Ok(code) => if code == 404 {
            AvailabilityView::Available
        } else if code == 429 {
            AvailabilityView::Error("Rate limited by RDAP server. Try again later."@)
        } else if 200 <= code < 300 {
            AvailabilityView::Taken
        } else {
            AvailabilityView::Error("RDAP returned HTTP "@ + status_display(code))
        },
        Err(e) => AvailabilityView::Error("RDAP request failed: "@ + e),
    }
}

/// The availability that an RDAP reply (its status code) or a failed
/// request (its message) gives.
pub fn rdap_availability(reply: &Result<u16, String>) -> (r: Availability)
    requires
        *reply matches Ok(code) ==> 100 <= code <= 999,
    ensures
        r@ == rdap_status(
            match reply {
                Ok(c) => Ok(*c),
                Err(e) => Err(e@),
            },
        ),
{
    match reply {
        Ok(code) => {
            let code = *code;
            if code == 404 {
                Availability::Available
            } else if code == 429 {
                Availability::Error(String::from_str("Rate limited by RDAP server. Try again later."))
            } else if is_success(code) {
                Availability::Taken
            } else {
                let mut m = String::from_str("RDAP returned HTTP ");
                m.append(status_text(code).as_str());
                Availability::Error(m)
            }
        },
        Err(e) => {
            let mut m = String::from_str("RDAP request failed: ");
            m.append(e.as_str());
            Availability::Error(m)
        },
    }
}

/// How a domain is looked up: at its TLD's RDAP server, or, for a TLD
/// without a known server, through DNS.
pub enum RdapRoute {
    /// Query this RDAP URL.
    Query(String),
    /// No RDAP server is known for the TLD: decide from a DNS lookup.
    Dns,
}

/// The route for `domain`: its RDAP query URL where its TLD has a server,
/// else DNS.
pub fn rdap_route(servers: &StringMap, domain: &str) -> (r: RdapRoute)
    ensures
        r matches RdapRoute::Query(u) ==> query_url(servers@, domain@) == Some(u@),
        r is Dns <==> query_url(servers@, domain@) is None,
{
    match rdap_query_url(servers, domain) {
        Some(u) => RdapRoute::Query(u),
        None => RdapRoute::Dns,
    }
}

/// What a lookup on either route gave: the RDAP reply (its status code, or
/// the message of a failed request), or the DNS answer code (`None` when
/// the DNS lookup gave no readable answer).
pub enum LookupReply {
    Rdap(Result<u16, String>),
    Dns(Option<u16>),
}

/// The availability a lookup reply gives: an RDAP reply is read by
/// `rdap_status`, a DNS answer by `dns_status`.
pub open spec fn lookup_status(reply: LookupReply) -> AvailabilityView {
    match reply {
        LookupReply::Rdap(Ok(code)) => rdap_status(Ok(code)),
        LookupReply::Rdap(Err(e)) => rdap_status(Err(e@)),
        LookupReply::Dns(answer) => dns_status(answer),
    }
}

/// The availability of a domain from the reply on its route.
pub fn lookup_availability(reply: &LookupReply) -> (r: Availability)
    requires
        *reply matches LookupReply::Rdap(Ok(code)) ==> 100 <= code <= 999,
    ensures
        r@ == lookup_status(*reply),
{
    match reply {
        LookupReply::Rdap(r) => rdap_availability(r),
        LookupReply::Dns(answer) => dns_availability(*answer),
    }
}

} // verus!
