use vstd::prelude::*;

use crate::deps::{match_regex, parse_url, regex_match, url_parts};
use crate::error::{framed, text, FlameError};
use crate::fmt::{append_decimal, decimal_chars};

verus! {

/// Where an object cache listens.
pub struct CacheEndpoint {
    pub scheme: String,
    pub host: String,
    pub port: u16,
}

/// An object cache address that may name one object.
pub struct ObjectEndpoint {
    pub scheme: String,
    pub host: String,
    pub port: u16,
    pub uuid: Option<String>,
}

/// The port a cache endpoint takes when its URL names none.
pub const DEFAULT_CACHE_PORT: u16 = 9090;

/// The port the HTTP object cache takes when its URL names none.
pub const DEFAULT_HTTP_CACHE_PORT: u16 = 8080;

pub open spec fn port_or(p: Option<u16>, d: u16) -> u16 {
    match p {
        Some(p) => p,
        None => d,
    }
}

/// `scheme://host:port`.
pub open spec fn spec_uri(scheme: Seq<char>, host: Seq<char>, port: u16) -> Seq<char> {
    scheme + "://"@ + host + ":"@ + decimal_chars(port as nat)
}

/// The first non-empty path segment.
pub open spec fn first_nonempty(segs: Seq<Seq<char>>) -> Option<Seq<char>>
    decreases segs.len(),
{
    if segs.len() == 0 {
        None
    } else if segs[0].len() > 0 {
        Some(segs[0])
    } else {
        first_nonempty(segs.drop_first())
    }
}

/// The message for a text that is no URL.
pub open spec fn invalid_endpoint_message(e: Seq<char>) -> Seq<char> {
    "invalid endpoint <"@ + e + ">"@
}

/// The message for a URL without host.
pub open spec fn no_host_message(e: Seq<char>) -> Seq<char> {
    "no host in endpoint <"@ + e + ">"@
}

fn invalid_endpoint(e: &str) -> (r: FlameError)
    ensures
        r matches FlameError::InvalidConfig(m) && m@ == invalid_endpoint_message(e@),
{
    proof {
        reveal_strlit("invalid endpoint <");
        reveal_strlit(">");
    }
    FlameError::InvalidConfig(framed("invalid endpoint <", e, ">"))
}

fn no_host(e: &str) -> (r: FlameError)
    ensures
        r matches FlameError::InvalidConfig(m) && m@ == no_host_message(e@),
{
    proof {
        reveal_strlit("no host in endpoint <");
        reveal_strlit(">");
    }
    FlameError::InvalidConfig(framed("no host in endpoint <", e, ">"))
}

impl CacheEndpoint {
    /// `scheme://host:port`.
    pub fn to_uri(&self) -> (r: String)
        ensures
            r@ == spec_uri(self.scheme@, self.host@, self.port),
    {
        let mut s = self.scheme.clone();
        s.append("://");
        s.append(self.host.as_str());
        s.append(":");
        append_decimal(&mut s, self.port as u64);
        s
    }

    /// `scheme://host:port/objects`, where objects are put.
    pub fn objects(&self) -> (r: String)
        ensures
            r@ == spec_uri(self.scheme@, self.host@, self.port) + "/objects"@,
    {
        let mut s = self.to_uri();
        s.append("/objects");
        s
    }

    /// `scheme://host:port/objects/<session>/<id>`, where one object is found.
    pub fn object_endpoint(&self, session: &str, id: &str) -> (r: String)
        ensures
            r@ == spec_uri(self.scheme@, self.host@, self.port) + "/objects/"@ + session@ + "/"@
                + id@,
    {
        let mut s = self.to_uri();
        s.append("/objects/");
        s.append(session);
        s.append("/");
        s.append(id);
        s
    }

    /// The endpoint of a cache URL: its scheme, its host, which it must have,
    /// and its port or 9090.
    pub fn from_endpoint(endpoint: &str) -> (r: Result<CacheEndpoint, FlameError>)
        ensures
            match url_parts(endpoint@) {
                Ok((scheme, Some(host), port, _)) => r matches Ok(e) && e.scheme@ == scheme
                    && e.host@ == host && e.port == port_or(port, DEFAULT_CACHE_PORT),
                Ok((_, None, _, _)) => r matches Err(FlameError::InvalidConfig(m)) && m@
                    == no_host_message(endpoint@),
                Err(_) => r matches Err(FlameError::InvalidConfig(m)) && m@
                    == invalid_endpoint_message(endpoint@),
            },
    {
        match parse_url(endpoint) {
            Err(_) => Err(invalid_endpoint(endpoint)),
            Ok(parts) => match parts.host {
                None => Err(no_host(endpoint)),
                Some(host) => Ok(
                    CacheEndpoint {
                        scheme: parts.scheme,
                        host,
                        port: match parts.port {
                            Some(p) => p,
                            None => DEFAULT_CACHE_PORT,
                        },
                    },
                ),
            },
        }
    }

    /// The endpoint of an HTTP cache URL: its scheme, its host or `0.0.0.0`, and
    /// its port or 8080.
    pub fn from_http_endpoint(endpoint: &str) -> (r: Result<CacheEndpoint, FlameError>)
        ensures
            match url_parts(endpoint@) {
                Ok((scheme, host, port, _)) => r matches Ok(e) && e.scheme@ == scheme
                    && e.host@ == (match host {
                    Some(h) => h,
                    None => "0.0.0.0"@,
                }) && e.port == port_or(port, DEFAULT_HTTP_CACHE_PORT),
                Err(_) => r matches Err(FlameError::InvalidConfig(m)) && m@
                    == invalid_endpoint_message(endpoint@),
            },
    {
        match parse_url(endpoint) {
            Err(_) => Err(invalid_endpoint(endpoint)),
            Ok(parts) => Ok(
                CacheEndpoint {
                    scheme: parts.scheme,
                    host: match parts.host {
                        Some(h) => h,
                        None => text("0.0.0.0"),
                    },
                    port: match parts.port {
                        Some(p) => p,
                        None => DEFAULT_HTTP_CACHE_PORT,
                    },
                },
            ),
        }
    }
}

impl ObjectEndpoint {
    /// The endpoint of an object URL: scheme, host (required), port or 9090, and
    /// the first non-empty path segment as the object's id.
    pub fn from_endpoint(endpoint: &str) -> (r: Result<ObjectEndpoint, FlameError>)
        ensures
            match url_parts(endpoint@) {
                Ok((scheme, Some(host), port, segs)) => r matches Ok(e) && e.scheme@ == scheme
                    && e.host@ == host && e.port == port_or(port, DEFAULT_CACHE_PORT) && (match e.uuid {
                    Some(u) => Some(u@),
                    None => None,
                }) == (match segs {
                    Some(ss) => first_nonempty(ss),
                    None => None,
                }),
                Ok((_, None, _, _)) => r matches Err(FlameError::InvalidConfig(m)) && m@
                    == no_host_message(endpoint@),
                Err(_) => r matches Err(FlameError::InvalidConfig(m)) && m@
                    == invalid_endpoint_message(endpoint@),
            },
    {
        match parse_url(endpoint) {
            Err(_) => Err(invalid_endpoint(endpoint)),
            Ok(parts) => {
                let uuid = match parts.path_segments {
                    Some(segs) => first_nonempty_segment(segs),
                    None => None,
                };
                match parts.host {
                    None => Err(no_host(endpoint)),
                    Some(host) => Ok(
                        ObjectEndpoint {
                            scheme: parts.scheme,
                            host,
                            port: match parts.port {
                                Some(p) => p,
                                None => DEFAULT_CACHE_PORT,
                            },
                            uuid,
                        },
                    ),
                }
            },
        }
    }
}

fn first_nonempty_segment(segs: Vec<String>) -> (r: Option<String>)
    ensures
        (match r {
            Some(s) => Some(s@),
            None => None,
        }) == first_nonempty(segs@.map_values(|s: String| s@)),
{
    let ghost all = segs@.map_values(|s: String| s@);
    let mut i: usize = 0;
    assert(all.subrange(0, all.len() as int) =~= all);
    while i < segs.len()
        invariant
            i <= segs.len(),
            all == segs@.map_values(|s: String| s@),
            first_nonempty(all) == first_nonempty(all.subrange(i as int, all.len() as int)),
        decreases segs.len() - i,
    {
        let ghost rest = all.subrange(i as int, all.len() as int);
        assert(rest[0] == segs@[i as int]@);
        if segs[i].unicode_len() > 0 {
            return Some(segs[i].clone());
        }
        assert(rest.drop_first() =~= all.subrange(i + 1, all.len() as int));
        i = i + 1;
    }
    assert(all.subrange(i as int, all.len() as int) =~= Seq::<Seq<char>>::empty());
    None
}

/// A network interface: its name and its IPv4 addresses, in order.
pub struct InterfaceAddrs {
    pub name: String,
    pub ipv4: Vec<String>,
}

/// Index of the first interface that satisfies `m` on its name, or the count.
pub open spec fn first_match(names: Seq<Seq<char>>, m: spec_fn(Seq<char>) -> bool) -> nat
    decreases names.len(),
{
    if names.len() == 0 {
        0
    } else if m(names[0]) {
        0
    } else {
        1 + first_match(names.drop_first(), m)
    }
}

pub open spec fn iface_names(ifaces: Seq<InterfaceAddrs>) -> Seq<Seq<char>> {
    ifaces.map_values(|i: InterfaceAddrs| i.name@)
}

/// The message for no interface picked by `name`.
pub open spec fn iface_not_found_message(name: Seq<char>) -> Seq<char> {
    "network interface <"@ + name + "> not found"@
}

/// The message for a picked interface without IPv4 address.
pub open spec fn no_ipv4_message(name: Seq<char>) -> Seq<char> {
    "network interface <"@ + name + "> has no IPv4 addresses"@
}

/// The error when `m` picks no usable interface: none at all, or one
/// without IPv4 address.
pub open spec fn pick_error(
    names: Seq<Seq<char>>,
    ifaces: Seq<InterfaceAddrs>,
    m: spec_fn(Seq<char>) -> bool,
    name: Seq<char>,
) -> Seq<char> {
    if first_match(names, m) < ifaces.len() {
        no_ipv4_message(name)
    } else {
        iface_not_found_message(name)
    }
}

/// The host of the first interface whose name `pattern` matches: its first
/// IPv4 address.
pub open spec fn spec_host_by_pattern(pattern: Seq<char>, ifaces: Seq<InterfaceAddrs>) -> Option<
    Seq<char>,
> {
    let i = first_match(iface_names(ifaces), |n: Seq<char>| regex_match(pattern, n) == Some(true));
    if i < ifaces.len() && ifaces[i as int].ipv4@.len() > 0 {
        Some(ifaces[i as int].ipv4@[0]@)
    } else {
        None
    }
}

/// The host of the first interface named exactly `name`: its first IPv4 address.
pub open spec fn spec_host_by_name(name: Seq<char>, ifaces: Seq<InterfaceAddrs>) -> Option<
    Seq<char>,
> {
    let i = first_match(iface_names(ifaces), |n: Seq<char>| n == name);
    if i < ifaces.len() && ifaces[i as int].ipv4@.len() > 0 {
        Some(ifaces[i as int].ipv4@[0]@)
    } else {
        None
    }
}

proof fn lemma_first_match_bound(names: Seq<Seq<char>>, m: spec_fn(Seq<char>) -> bool)
    ensures
        0 <= first_match(names, m) <= names.len(),
        first_match(names, m) < names.len() ==> m(names[first_match(names, m) as int]),
    decreases names.len(),
{
    if names.len() > 0 && !m(names[0]) {
        lemma_first_match_bound(names.drop_first(), m);
    }
}

/// Finds the interface index that `m` picks by scanning, given that `step`
/// answers `m` for each name.
proof fn lemma_first_match_step(names: Seq<Seq<char>>, m: spec_fn(Seq<char>) -> bool, i: int)
    requires
        0 <= i < names.len(),
        !m(names[i]),
        first_match(names, m) >= i,
    ensures
        first_match(names, m) >= i + 1,
    decreases i,
{
    if i > 0 {
        assert(!m(names[0])) by {
            if m(names[0]) {
                assert(first_match(names, m) == 0);
            }
        }
        lemma_first_match_step(names.drop_first(), m, i - 1);
    } else {
        assert(first_match(names, m) != 0);
    }
}

/// Picks the host address of the first interface whose name `pattern` matches,
/// as the cache does when it starts. A pattern that does not compile, no
/// matching interface, or one without IPv4 address is an invalid configuration.
pub fn host_by_pattern(pattern: &str, ifaces: &Vec<InterfaceAddrs>) -> (r: Result<
    String,
    FlameError,
>)
    ensures
        regex_match(pattern@, ""@) is None ==> (r matches Err(e) && e is InvalidConfig),
        regex_match(pattern@, ""@) is Some ==> match spec_host_by_pattern(pattern@, ifaces@) {
            Some(h) => r matches Ok(s) && s@ == h,
            None => r matches Err(FlameError::InvalidConfig(m)) && m@ == pick_error(
                iface_names(ifaces@),
                ifaces@,
                |n: Seq<char>| regex_match(pattern@, n) == Some(true),
                pattern@,
            ),
        },
{
    if match_regex(pattern, "").is_none() {
        return Err(FlameError::InvalidConfig(text("invalid network interface pattern")));
    }
    let ghost m = |n: Seq<char>| regex_match(pattern@, n) == Some(true);
    let ghost names = iface_names(ifaces@);
    let mut i: usize = 0;
    while i < ifaces.len()
        invariant
            i <= ifaces.len(),
            names == iface_names(ifaces@),
            m == (|n: Seq<char>| regex_match(pattern@, n) == Some(true)),
            regex_match(pattern@, ""@) is Some,
            first_match(names, m) >= i,
        decreases ifaces.len() - i,
    {
        let hit = match_regex(pattern, ifaces[i].name.as_str());
        assert(names[i as int] == ifaces@[i as int].name@);
        if hit == Some(true) {
            proof {
                lemma_first_match_bound(names, m);
                if first_match(names, m) > i {
                    lemma_first_match_prefix(names, m, i as int);
                }
            }
            return first_ipv4(&ifaces[i], pattern);
        }
        proof {
            lemma_first_match_step(names, m, i as int);
        }
        i = i + 1;
    }
    proof {
        lemma_first_match_bound(names, m);
    }
    Err(iface_not_found(pattern))
}

fn iface_not_found(name: &str) -> (r: FlameError)
    ensures
        r matches FlameError::InvalidConfig(m) && m@ == iface_not_found_message(name@),
{
    proof {
        reveal_strlit("network interface <");
        reveal_strlit("> not found");
    }
    FlameError::InvalidConfig(framed("network interface <", name, "> not found"))
}

/// Picks the host address of the first interface named `name`.
pub fn host_by_name(name: &str, ifaces: &Vec<InterfaceAddrs>) -> (r: Result<String, FlameError>)
    ensures
        match spec_host_by_name(name@, ifaces@) {
            Some(h) => r matches Ok(s) && s@ == h,
            None => r matches Err(FlameError::InvalidConfig(m)) && m@ == pick_error(
                iface_names(ifaces@),
                ifaces@,
                |n: Seq<char>| n == name@,
                name@,
            ),
        },
{
    let ghost m = |n: Seq<char>| n == name@;
    let ghost names = iface_names(ifaces@);
    let mut i: usize = 0;
    while i < ifaces.len()
        invariant
            i <= ifaces.len(),
            names == iface_names(ifaces@),
            m == (|n: Seq<char>| n == name@),
            first_match(names, m) >= i,
        decreases ifaces.len() - i,
    {
        assert(names[i as int] == ifaces@[i as int].name@);
        if crate::strs::str_eq(ifaces[i].name.as_str(), name) {
            proof {
                lemma_first_match_bound(names, m);
                if first_match(names, m) > i {
                    lemma_first_match_prefix(names, m, i as int);
                }
            }
            return first_ipv4(&ifaces[i], name);
        }
        proof {
            lemma_first_match_step(names, m, i as int);
        }
        i = i + 1;
    }
    proof {
        lemma_first_match_bound(names, m);
    }
    Err(iface_not_found(name))
}

/// When `m` holds at `i`, the first match is at most `i`.
proof fn lemma_first_match_prefix(names: Seq<Seq<char>>, m: spec_fn(Seq<char>) -> bool, i: int)
    requires
        0 <= i < names.len(),
        m(names[i]),
    ensures
        first_match(names, m) <= i,
    decreases i,
{
    if i > 0 && !m(names[0]) {
        lemma_first_match_prefix(names.drop_first(), m, i - 1);
    }
}

fn first_ipv4(iface: &InterfaceAddrs, name: &str) -> (r: Result<String, FlameError>)
    ensures
        iface.ipv4@.len() > 0 ==> (r matches Ok(s) && s@ == iface.ipv4@[0]@),
        iface.ipv4@.len() == 0 ==> (r matches Err(FlameError::InvalidConfig(m)) && m@
            == no_ipv4_message(name@)),
{
    if iface.ipv4.len() > 0 {
        Ok(iface.ipv4[0].clone())
    } else {
        proof {
            reveal_strlit("network interface <");
            reveal_strlit("> has no IPv4 addresses");
        }
        Err(FlameError::InvalidConfig(framed("network interface <", name, "> has no IPv4 addresses")))
    }
}

} // verus!
