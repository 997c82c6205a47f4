//! Letting a handler reach the internet, which is the capability most worth
//! being careful about.
//!
//! This host sits inside somebody's private network. Anything that will fetch
//! a URL on request is a way to read whatever else lives in there — a
//! metadata endpoint holding cloud credentials, a database admin page, a
//! neighbour service that trusts its network. So outbound is off unless an
//! app names the hosts it needs, and every address is checked before a
//! connection is made.
use crate::text::{
    ends_with, lower, lowered, pairs, same, strip_prefix, texts, trim, trimmed,
};
use url::{Host, Url};
use vstd::prelude::*;

verus! {

/// A response big enough for an API, small enough not to be a way to fill
/// memory.
pub const MAX_RESPONSE_BYTES: usize = 8_388_608;

/// How long a request may take, in milliseconds.
pub const TIMEOUT: u64 = 10_000;

/// How this server introduces itself where a handler does not.
pub const USER_AGENT: &'static str = "toolsite/0.1.0";

/// Why a request is not made.
#[derive(Debug, PartialEq)]
pub enum Refusal {
    /// The app never asked for this host.
    NotAllowed(String),
    /// The URL is not something we will fetch at all.
    BadUrl(String),
    /// It resolves somewhere inside the network this server is on.
    Internal(String),
}

/// Why a request is not made, over texts.
pub enum Why {
    NotAllowed(Seq<char>),
    BadUrl(Seq<char>),
    Internal(Seq<char>),
}

impl View for Refusal {
    type V = Why;

    open spec fn view(&self) -> Why {
        match self {
            Refusal::NotAllowed(host) => Why::NotAllowed(host@),
            Refusal::BadUrl(why) => Why::BadUrl(why@),
            Refusal::Internal(host) => Why::Internal(host@),
        }
    }
}

impl Why {
    /// What a handler is told.
    pub open spec fn says(self) -> Seq<char> {
        match self {
            Why::NotAllowed(host) => host
                + " is not in this app's allow_http list; add it to toolsite.toml"@,
            Why::BadUrl(why) => why,
            Why::Internal(host) => host + " resolves inside this server's own network"@,
        }
    }
}

impl Refusal {
    /// What a handler is told.
    pub fn message(&self) -> (r: String)
        ensures
            r@ == self@.says(),
    {
        match self {
            Refusal::NotAllowed(host) => host.clone().concat(
                " is not in this app's allow_http list; add it to toolsite.toml",
            ),
            Refusal::BadUrl(why) => why.clone(),
            Refusal::Internal(host) => host.clone().concat(
                " resolves inside this server's own network",
            ),
        }
    }
}

/// An address: the four bytes of one of version 4, or the eight groups of one
/// of version 6.
#[derive(Clone, Copy, Debug, PartialEq, Eq, Structural)]
pub enum Ip {
    V4(u8, u8, u8, u8),
    V6(u16, u16, u16, u16, u16, u16, u16, u16),
}

/// Whether an address of version 4 is one no app may reach.
pub open spec fn internal_v4(a: int, b: int, c: int, d: int) -> bool {
    // Loopback and private networks.
    ||| a == 127
    ||| a == 10
    ||| a == 172 && 16 <= b < 32
    ||| a == 192 && b == 168
    // Link local, where cloud metadata is served.
    ||| a == 169 && b == 254
    // Broadcast and unspecified.
    ||| a == 255 && b == 255 && c == 255 && d == 255
    ||| a == 0 && b == 0 && c == 0 && d == 0
    // Documentation.
    ||| a == 192 && b == 0 && c == 2
    ||| a == 198 && b == 51 && c == 100
    ||| a == 203 && b == 0 && c == 113
    // 100.64.0.0/10, which is where a lot of platform networking lives.
    ||| a == 100 && 64 <= b < 128
    // 192.0.0.0/24 and 198.18.0.0/15, reserved and benchmarking.
    ||| a == 192 && b == 0 && c == 0
    ||| a == 198 && 18 <= b < 20
}

/// Whether an address is one no app may reach.
pub open spec fn internal(ip: Ip) -> bool {
    match ip {
        Ip::V4(a, b, c, d) => internal_v4(a as int, b as int, c as int, d as int),
        Ip::V6(s0, s1, s2, s3, s4, s5, s6, s7) => {
            let empty = s0 == 0 && s1 == 0 && s2 == 0 && s3 == 0 && s4 == 0;
            // Unspecified and loopback.
            ||| empty && s5 == 0 && s6 == 0 && s7 <= 1
            // Unique local, fc00::/7.
            ||| 0xfc00 <= s0 <= 0xfdff
            // Link local, fe80::/10.
            ||| 0xfe80 <= s0 <= 0xfebf
            // An IPv4 address wearing a hat still goes where it goes.
            ||| empty && s5 == 0xffff && internal_v4(
                s6 as int / 256,
                s6 as int % 256,
                s7 as int / 256,
                s7 as int % 256,
            )
        },
    }
}

/// Whether an address of version 4 is one no app may reach.
fn is_internal_v4(a: u16, b: u16, c: u16, d: u16) -> (r: bool)
    ensures
        r == internal_v4(a as int, b as int, c as int, d as int),
{
    a == 127 || a == 10 || (a == 172 && 16 <= b && b < 32) || (a == 192 && b == 168) || (a == 169
        && b == 254) || (a == 255 && b == 255 && c == 255 && d == 255) || (a == 0 && b == 0 && c
        == 0 && d == 0) || (a == 192 && b == 0 && c == 2) || (a == 198 && b == 51 && c == 100) || (a
        == 203 && b == 0 && c == 113) || (a == 100 && 64 <= b && b < 128) || (a == 192 && b == 0
        && c == 0) || (a == 198 && 18 <= b && b < 20)
}

/// Addresses no app may reach, whatever its allowlist says.
///
/// The allowlist is about intent; this is about reachability. A host an app
/// legitimately named can still resolve somewhere it must not go — by
/// mistake, or because someone pointed a name at 169.254.169.254 on purpose.
pub fn is_internal(ip: &Ip) -> (r: bool)
    ensures
        r == internal(*ip),
{
    match *ip {
        Ip::V4(a, b, c, d) => is_internal_v4(a as u16, b as u16, c as u16, d as u16),
        Ip::V6(s0, s1, s2, s3, s4, s5, s6, s7) => {
            let empty = s0 == 0 && s1 == 0 && s2 == 0 && s3 == 0 && s4 == 0;
            (empty && s5 == 0 && s6 == 0 && s7 <= 1) || (0xfc00 <= s0 && s0 <= 0xfdff) || (0xfe80
                <= s0 && s0 <= 0xfebf) || (empty && s5 == 0xffff && is_internal_v4(
                s6 / 256,
                s6 % 256,
                s7 / 256,
                s7 % 256,
            ))
        },
    }
}

/// Whether an entry of an allowlist covers a host.
pub open spec fn covers(entry: Seq<char>, host: Seq<char>) -> bool {
    let entry = lowered(trimmed(entry));
    let host = lowered(host);
    if "*."@.is_prefix_of(entry) {
        ("."@ + entry.skip("*."@.len() as int)).is_suffix_of(host)
    } else {
        host == entry
    }
}

/// Whether an allowlist covers a host.
pub open spec fn covered(host: Seq<char>, allow: Seq<Seq<char>>) -> bool {
    exists|i: int| 0 <= i < allow.len() && covers(#[trigger] allow[i], host)
}

/// Case-insensitive host match, with `*.example.com` covering subdomains but
/// not the bare name — an allowlist should say what it means.
pub fn allowed(host: &str, allow: &Vec<String>) -> (r: bool)
    ensures
        r == covered(host@, texts(allow@)),
{
    let low = lower(host);
    let ghost all = texts(allow@);
    let mut i: usize = 0;
    while i < allow.len()
        invariant
            i <= allow.len(),
            all == texts(allow@),
            low@ == lowered(host@),
            forall|j: int| 0 <= j < i ==> !covers(#[trigger] all[j], host@),
        decreases allow.len() - i,
    {
        let entry = lower(trim(allow[i].as_str()).as_str());
        assert(entry@ == lowered(trimmed(all[i as int])));
        let hit = match strip_prefix(entry.as_str(), "*.") {
            Some(suffix) => ends_with(
                low.as_str(),
                ".".to_owned().concat(suffix.as_str()).as_str(),
            ),
            None => same(low.as_str(), entry.as_str()),
        };
        assert(hit == covers(all[i as int], host@));
        if hit {
            return true;
        }
        i += 1;
    }
    false
}

/// What a URL holds: its scheme, its host as it is written, that host's address
/// where it is one, and its port or the one its scheme is known for.
pub struct UrlParts {
    pub scheme: String,
    pub host: Option<String>,
    pub literal: Option<Ip>,
    pub port: Option<u16>,
}

/// What a URL holds, over texts.
pub struct Parsed {
    pub scheme: Seq<char>,
    pub host: Option<Seq<char>>,
    pub literal: Option<Ip>,
    pub port: Option<u16>,
}

impl View for UrlParts {
    type V = Parsed;

    open spec fn view(&self) -> Parsed {
        Parsed {
            scheme: self.scheme@,
            host: match self.host {
                Some(host) => Some(host@),
                None => None,
            },
            literal: self.literal,
            port: self.port,
        }
    }
}

/// What a text holds as a URL, over texts.
pub open spec fn parts_view(parts: Option<UrlParts>) -> Option<Parsed> {
    match parts {
        Some(p) => Some(p@),
        None => None,
    }
}

/// What a text holds as a URL, if it is one.
pub uninterp spec fn parsed_url(url: Seq<char>) -> Option<Parsed>;

/// `url::Url::parse`, with `scheme`, `host_str`, `host` and
/// `port_or_known_default` of the URL it gives: a function of the text.
#[verifier::external_body]
pub(crate) fn parse_url(url: &str) -> (r: Option<UrlParts>)
    ensures
        parts_view(r) == parsed_url(url@),
{
    let parsed = Url::parse(url).ok()?;
    let literal = match parsed.host() {
        Some(Host::Ipv4(ip)) => Some(ip.octets()).map(|[a, b, c, d]| Ip::V4(a, b, c, d)),
        Some(Host::Ipv6(ip)) => {
            Some(ip.segments()).map(|[a, b, c, d, e, f, g, h]| Ip::V6(a, b, c, d, e, f, g, h))
        }
        Some(Host::Domain(_)) => None,
        None => None,
    };
    let scheme = parsed.scheme().to_string();
    let host = parsed.host_str().map(String::from);
    Some(UrlParts { scheme, host, literal, port: parsed.port_or_known_default() })
}

/// A name to look up before a request is made to it.
#[derive(Debug, PartialEq)]
pub struct Lookup {
    pub host: String,
    pub port: u16,
}

/// What is decided of a URL before any name is looked up: a refusal, a name to
/// look up, or that it may be fetched.
pub open spec fn judged(url: Seq<char>, parsed: Option<Parsed>, allow: Seq<Seq<char>>) -> Result<
    Option<(Seq<char>, u16)>,
    Why,
> {
    match parsed {
        None => Err(Why::BadUrl(url + " is not a URL"@)),
        Some(p) => if p.scheme != "http"@ && p.scheme != "https"@ {
            Err(Why::BadUrl(p.scheme + " is not a scheme this fetches"@))
        } else {
            match p.host {
                None => Err(Why::BadUrl(url + " has no host"@)),
                Some(host) => if !covered(host, allow) {
                    Err(Why::NotAllowed(host))
                } else {
                    match p.literal {
                        Some(ip) => if internal(ip) {
                            Err(Why::Internal(host))
                        } else {
                            Ok(None)
                        },
                        None => Ok(
                            Some(
                                (
                                    host,
                                    match p.port {
                                        Some(port) => port,
                                        None => 443,
                                    },
                                ),
                            ),
                        ),
                    }
                },
            }
        },
    }
}

/// A decision over texts.
pub open spec fn decision(r: Result<Option<Lookup>, Refusal>) -> Result<
    Option<(Seq<char>, u16)>,
    Why,
> {
    match r {
        Ok(Some(l)) => Ok(Some((l.host@, l.port))),
        Ok(None) => Ok(None),
        Err(e) => Err(e@),
    }
}

/// Decides on what a URL was found to hold.
pub fn check_parsed(url: &str, parsed: Option<UrlParts>, allow: &Vec<String>) -> (r: Result<
    Option<Lookup>,
    Refusal,
>)
    ensures
        decision(r) == judged(url@, parts_view(parsed), texts(allow@)),
{
    let parts = match parsed {
        Some(parts) => parts,
        None => {
            return Err(Refusal::BadUrl(url.to_owned().concat(" is not a URL")));
        },
    };
    if !same(parts.scheme.as_str(), "http") && !same(parts.scheme.as_str(), "https") {
        return Err(Refusal::BadUrl(parts.scheme.concat(" is not a scheme this fetches")));
    }
    let host = match parts.host {
        Some(host) => host,
        None => {
            return Err(Refusal::BadUrl(url.to_owned().concat(" has no host")));
        },
    };
    if !allowed(host.as_str(), allow) {
        return Err(Refusal::NotAllowed(host));
    }
    // A literal address skips the lookup but not the check.

    match parts.literal {
        Some(ip) => if is_internal(&ip) {
            Err(Refusal::Internal(host))
        } else {
            Ok(None)
        },
        None => {
            let port: u16 = match parts.port {
                Some(port) => port,
                None => 443,
            };
            Ok(Some(Lookup { host, port }))
        },
    }
}

/// Decides whether one URL may be fetched: at once, after a lookup whose
/// addresses pass `check_addresses`, or not at all. A host nobody allowed is
/// refused without a lookup, so a handler cannot use this to ask questions of a
/// resolver.
pub fn check(url: &str, allow: &Vec<String>) -> (r: Result<Option<Lookup>, Refusal>)
    ensures
        decision(r) == judged(url@, parsed_url(url@), texts(allow@)),
{
    check_parsed(url, parse_url(url), allow)
}

/// What is decided of a name by the addresses it resolved to, where it did.
pub open spec fn resolved(host: Seq<char>, addresses: Option<Seq<Ip>>) -> Option<Why> {
    match addresses {
        None => Some(Why::BadUrl(host + " does not resolve"@)),
        Some(all) => if exists|i: int| 0 <= i < all.len() && internal(#[trigger] all[i]) {
            Some(Why::Internal(host))
        } else if all.len() == 0 {
            Some(Why::BadUrl(host + " does not resolve"@))
        } else {
            None
        },
    }
}

/// Decides on a name by every address it resolved to: one that must not be
/// reached is enough to refuse it.
pub fn check_addresses(host: &str, addresses: Option<&Vec<Ip>>) -> (r: Result<(), Refusal>)
    ensures
        match (
            r,
            resolved(
                host@,
                match addresses {
                    Some(all) => Some(all@),
                    None => None,
                },
            ),
        ) {
            (Ok(_), None) => true,
            (Err(e), Some(why)) => e@ == why,
            _ => false,
        },
{
    let all = match addresses {
        Some(all) => all,
        None => {
            return Err(Refusal::BadUrl(host.to_owned().concat(" does not resolve")));
        },
    };
    let mut i: usize = 0;
    while i < all.len()
        invariant
            i <= all.len(),
            addresses == Some(all),
            forall|j: int| 0 <= j < i ==> !internal(#[trigger] all@[j]),
        decreases all.len() - i,
    {
        if is_internal(&all[i]) {
            assert(internal(all@[i as int]));
            return Err(Refusal::Internal(host.to_owned()));
        }
        i += 1;
    }
    if all.len() == 0 {
        return Err(Refusal::BadUrl(host.to_owned().concat(" does not resolve")));
    }
    Ok(())
}

/// Whether a header is the host's to set: hop-by-hop and identity headers are.
pub open spec fn hosts_own(name: Seq<char>) -> bool {
    let name = lowered(name);
    name == "host"@ || name == "content-length"@ || name == "connection"@ || name
        == "transfer-encoding"@
}

/// The headers a handler gave that are sent, in order.
pub open spec fn passed_on(headers: Seq<(Seq<char>, Seq<char>)>) -> Seq<(Seq<char>, Seq<char>)>
    decreases headers.len(),
{
    if headers.len() == 0 {
        Seq::empty()
    } else if hosts_own(headers.last().0) {
        passed_on(headers.drop_last())
    } else {
        passed_on(headers.drop_last()).push(headers.last())
    }
}

/// Whether a handler introduces itself.
pub open spec fn introduces(headers: Seq<(Seq<char>, Seq<char>)>) -> bool {
    exists|i: int| 0 <= i < headers.len() && lowered(#[trigger] headers[i].0) == "user-agent"@
}

/// The headers of a request that a handler asked for: this server's own
/// introduction where the handler gives none, then what the handler gave.
pub open spec fn sent_headers(headers: Seq<(Seq<char>, Seq<char>)>) -> Seq<(Seq<char>, Seq<char>)> {
    if introduces(headers) {
        passed_on(headers)
    } else {
        seq![("user-agent"@, USER_AGENT@)] + passed_on(headers)
    }
}

/// The headers of a request that a handler asked for.
///
/// Plenty of APIs refuse a request without an introduction — GitHub answers 403
/// — and an app should not have to learn that the hard way. A guest that sets
/// its own still wins.
pub fn outgoing(headers: &Vec<(String, String)>) -> (r: Vec<(String, String)>)
    ensures
        pairs(r@) == sent_headers(pairs(headers@)),
{
    let ghost hs = pairs(headers@);
    let mut named = false;
    let mut i: usize = 0;
    while i < headers.len()
        invariant
            i <= headers.len(),
            hs == pairs(headers@),
            named == exists|j: int| 0 <= j < i && lowered(#[trigger] hs[j].0) == "user-agent"@,
        decreases headers.len() - i,
    {
        assert(hs[i as int].0 == headers@[i as int].0@);
        let low = lower(headers[i].0.as_str());
        if same(low.as_str(), "user-agent") {
            named = true;
        }
        i += 1;
    }
    let mut r: Vec<(String, String)> = Vec::new();
    if !named {
        r.push(("user-agent".to_owned(), USER_AGENT.to_owned()));
    }
    let ghost head = pairs(r@);
    proof {
        assert(head =~= if introduces(hs) {
            Seq::empty()
        } else {
            seq![("user-agent"@, USER_AGENT@)]
        });
        assert(head + passed_on(hs.take(0)) =~= head);
    }
    i = 0;
    while i < headers.len()
        invariant
            i <= headers.len(),
            hs == pairs(headers@),
            pairs(r@) == head + passed_on(hs.take(i as int)),
        decreases headers.len() - i,
    {
        proof {
            assert(hs.take(i + 1).drop_last() =~= hs.take(i as int));
            assert(hs.take(i + 1).last() == (headers@[i as int].0@, headers@[i as int].1@));
        }
        let low = lower(headers[i].0.as_str());
        let own = same(low.as_str(), "host") || same(low.as_str(), "content-length") || same(
            low.as_str(),
            "connection",
        ) || same(low.as_str(), "transfer-encoding");
        if !own {
            let ghost before = r@;
            r.push((headers[i].0.clone(), headers[i].1.clone()));
            assert(pairs(r@) =~= pairs(before).push(hs[i as int]));
            assert(pairs(r@) =~= head + passed_on(hs.take(i + 1)));
        }
        i += 1;
    }
    proof {
        assert(hs.take(hs.len() as int) =~= hs);
        assert(head + passed_on(hs) =~= sent_headers(hs));
    }
    r
}

/// What a handler is told of a method that is none.
pub fn bad_method(method: &str) -> (r: String)
    ensures
        r@ == method@ + " is not an HTTP method"@,
{
    method.to_owned().concat(" is not an HTTP method")
}

/// What came back from a request.
pub struct Fetched {
    pub status: u16,
    pub headers: Vec<(String, String)>,
    pub body: Vec<u8>,
}

/// What is handed to the handler of what came back: all of it, unless the body
/// is too large.
pub fn fetched(status: u16, headers: Vec<(String, String)>, body: Vec<u8>) -> (r: Result<
    Fetched,
    String,
>)
    ensures
        match r {
            Ok(f) => body.len() <= MAX_RESPONSE_BYTES && f == (Fetched { status, headers, body }),
            Err(m) => body.len() > MAX_RESPONSE_BYTES && m@ == "response is larger than 8 MB"@,
        },
{
    if body.len() > MAX_RESPONSE_BYTES {
        return Err("response is larger than 8 MB".to_owned());
    }
    Ok(Fetched { status, headers, body })
}

/// Without an allowlist nothing is reachable: no URL is fetched, and no name is
/// even looked up.
pub proof fn nothing_without_an_allowlist(url: Seq<char>, parsed: Option<Parsed>)
    ensures
        judged(url, parsed, Seq::empty()) is Err,
{
}

/// Naming an address does not make it acceptable: whatever the allowlist says,
/// an internal address is never fetched, nor is a name that resolves to one.
pub proof fn naming_does_not_make_reachable(
    url: Seq<char>,
    parsed: Parsed,
    allow: Seq<Seq<char>>,
    host: Seq<char>,
    addresses: Seq<Ip>,
    i: int,
)
    requires
        0 <= i < addresses.len(),
        internal(addresses[i]),
    ensures
        parsed.literal == Some(addresses[i]) ==> judged(url, Some(parsed), allow) is Err,
        resolved(host, Some(addresses)) == Some(Why::Internal(host)),
{
}

/// An address of version 4 is as internal as the same address written in
/// version 6.
pub proof fn a_hat_changes_nothing(a: u8, b: u8, c: u8, d: u8)
    ensures
        internal(
            Ip::V6(0, 0, 0, 0, 0, 0xffff, (a * 256 + b) as u16, (c * 256 + d) as u16),
        ) == internal(Ip::V4(a, b, c, d)),
{
    assert((a * 256 + b) / 256 == a && (a * 256 + b) % 256 == b);
    assert((c * 256 + d) / 256 == c && (c * 256 + d) % 256 == d);
}

/// A wildcard covers subdomains and not the bare name.
pub proof fn wildcard_is_not_the_bare_name(name: Seq<char>, label: Seq<char>)
    requires
        trimmed("*."@ + name) == "*."@ + name,
    ensures
        !covers("*."@ + name, name),
        covers("*."@ + name, label + "."@ + name),
{
    reveal_strlit("*.");
    reveal_strlit(".");
    let entry = lowered("*."@ + name);
    assert(entry =~= "*."@ + lowered(name));
    assert(entry.skip(2) =~= lowered(name));
    assert(lowered(label + "."@ + name) =~= lowered(label) + ("."@ + lowered(name)));
    assert("*."@.is_prefix_of(entry));
}

} // verus!
