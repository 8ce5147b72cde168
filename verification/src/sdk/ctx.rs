use vstd::prelude::*;

use crate::deps::{parse_url, url_parts};
use crate::error::{text, FlameError};
use crate::strs::{spec_starts_with, starts_with, str_eq};

verus! {

/// TLS settings of a client: the CA certificate to trust, and whether to
/// skip verifying the server.
pub struct FlameClientTls {
    pub ca_file: Option<String>,
    pub insecure_skip_verify: bool,
}

impl Default for FlameClientTls {
    fn default() -> (r: Self)
        ensures
            r.ca_file is None,
            !r.insecure_skip_verify,
    {
        FlameClientTls { ca_file: None, insecure_skip_verify: false }
    }
}

/// Where the cluster is served, and how to reach it over TLS.
pub struct FlameClusterConfig {
    pub endpoint: String,
    pub tls: Option<FlameClientTls>,
}

/// The scheme that marks an endpoint as served over TLS.
pub open spec fn tls_scheme() -> Seq<char> {
    "https://"@
}

impl FlameClusterConfig {
    /// Whether the endpoint is served over TLS: it starts with `https://`.
    pub fn requires_tls(&self) -> (r: bool)
        ensures
            r == spec_starts_with(self.endpoint@, tls_scheme()),
    {
        let p = "https://";
        proof {
            reveal_strlit("https://");
        }
        starts_with(self.endpoint.as_str(), p)
    }
}

/// The object cache a client uses.
pub struct FlameClientCache {
    pub endpoint: Option<String>,
    pub tls: Option<FlameClientTls>,
    pub storage: Option<String>,
}

/// Where application packages are stored, and what they leave out.
pub struct FlamePackage {
    pub storage: Option<String>,
    pub excludes: Vec<String>,
}

/// The runner template of an application.
pub struct FlameRunner {
    pub template: Option<String>,
}

/// A named set of cluster, cache, package and runner settings.
pub struct FlameContextEntry {
    pub name: String,
    pub cluster: FlameClusterConfig,
    pub cache: Option<FlameClientCache>,
    pub package: Option<FlamePackage>,
    pub runner: Option<FlameRunner>,
}

/// The client configuration: the contexts, and the name of the one in use.
pub struct FlameContext {
    pub current_context: String,
    pub contexts: Vec<FlameContextEntry>,
}

/// The names of the contexts, in order.
pub open spec fn context_names(cs: Seq<FlameContextEntry>) -> Seq<Seq<char>> {
    cs.map_values(|c: FlameContextEntry| c.name@)
}

/// The first position whose name is `name`, if any.
pub open spec fn first_named(names: Seq<Seq<char>>, name: Seq<char>) -> Option<int> {
    if exists|i: int| 0 <= i < names.len() && names[i] == name {
        Some(
            choose|i: int|
                0 <= i < names.len() && names[i] == name && forall|j: int|
                    0 <= j < i ==> names[j] != name,
        )
    } else {
        None
    }
}

/// The message for a context that is not there.
pub open spec fn missing_context_message(name: Seq<char>) -> Seq<char> {
    "Context <"@ + name + "> not found"@
}

impl FlameContext {
    /// The entry named by `current_context`, the first such when several are;
    /// `InvalidConfig` when none is.
    pub fn get_current_context(&self) -> (r: Result<&FlameContextEntry, FlameError>)
        ensures
            match first_named(context_names(self.contexts@), self.current_context@) {
                Some(i) => r matches Ok(e) && *e == self.contexts@[i],
                None => r matches Err(FlameError::InvalidConfig(m)) && m@
                    == missing_context_message(self.current_context@),
            },
    {
        let ghost names = context_names(self.contexts@);
        let mut i: usize = 0;
        while i < self.contexts.len()
            invariant
                i <= self.contexts@.len(),
                names == context_names(self.contexts@),
                forall|j: int| 0 <= j < i ==> names[j] != self.current_context@,
            decreases self.contexts.len() - i,
        {
            if str_eq(self.contexts[i].name.as_str(), self.current_context.as_str()) {
                proof {
                    let w = i as int;
                    assert(names[w] == self.current_context@);
                    let c = choose|k: int|
                        0 <= k < names.len() && names[k] == self.current_context@ && forall|j: int|
                            0 <= j < k ==> names[j] != self.current_context@;
                    assert(c == w) by {
                        if c < w {
                            assert(names[c] != self.current_context@);
                        }
                        if w < c {
                            assert(names[w] != self.current_context@);
                        }
                    }
                }
                return Ok(&self.contexts[i]);
            }
            i = i + 1;
        }
        let mut m = text("Context <");
        m.append(self.current_context.as_str());
        m.append("> not found");
        proof {
            reveal_strlit("Context <");
            reveal_strlit("> not found");
        }
        Err(FlameError::InvalidConfig(m))
    }
}

/// How a connection is made: in plain text, or over TLS with the server name
/// to verify and the CA file to trust (`None`: the system's).
pub enum TlsPlan {
    Plain,
    Tls { domain: String, ca_file: Option<String> },
}

/// The message for an address that is no URL, with the parser's reason, or
/// that has no host.
pub open spec fn bad_address_message(addr: Seq<char>, reason: Seq<char>) -> Seq<char> {
    "invalid URL <"@ + addr + ">: "@ + reason
}

pub open spec fn no_host_message(addr: Seq<char>) -> Seq<char> {
    "no host in URL <"@ + addr + ">"@
}

/// The CA file a TLS setting names, unless it skips verification.
pub open spec fn trusted_ca(tls: Option<&FlameClientTls>) -> Option<Seq<char>> {
    match tls {
        Some(t) => if t.insecure_skip_verify {
            None
        } else {
            match t.ca_file {
                Some(f) => Some(f@),
                None => None,
            }
        },
        None => None,
    }
}

/// How to connect to `addr`: plain text unless it starts with `https://`;
/// over TLS the host of the URL is the name to verify, and the CA file is the
/// one `tls` names, none when it skips verification or is absent.
pub fn tls_plan(addr: &str, tls: Option<&FlameClientTls>) -> (r: Result<TlsPlan, FlameError>)
    ensures
        !spec_starts_with(addr@, tls_scheme()) ==> r matches Ok(TlsPlan::Plain),
        spec_starts_with(addr@, tls_scheme()) ==> match url_parts(addr@) {
            Err(reason) => r matches Err(FlameError::InvalidConfig(m)) && m@
                == bad_address_message(addr@, reason),
            Ok(p) => match p.1 {
                None => r matches Err(FlameError::InvalidConfig(m)) && m@ == no_host_message(
                    addr@,
                ),
                Some(h) => r matches Ok(TlsPlan::Tls { domain, ca_file }) && domain@ == h
                    && match ca_file {
                    Some(f) => trusted_ca(tls) == Some(f@),
                    None => trusted_ca(tls) is None,
                },
            },
        },
{
    let p = "https://";
    proof {
        reveal_strlit("https://");
    }
    if !starts_with(addr, p) {
        return Ok(TlsPlan::Plain);
    }
    let parts = match parse_url(addr) {
        Ok(parts) => parts,
        Err(reason) => {
            let mut m = text("invalid URL <");
            m.append(addr);
            m.append(">: ");
            m.append(reason.as_str());
            proof {
                reveal_strlit("invalid URL <");
                reveal_strlit(">: ");
            }
            return Err(FlameError::InvalidConfig(m));
        },
    };
    let domain = match parts.host {
        Some(h) => h,
        None => {
            let mut m = text("no host in URL <");
            m.append(addr);
            m.append(">");
            proof {
                reveal_strlit("no host in URL <");
                reveal_strlit(">");
            }
            return Err(FlameError::InvalidConfig(m));
        },
    };
    let ca_file = match tls {
        Some(t) => if t.insecure_skip_verify {
            None
        } else {
            match &t.ca_file {
                Some(f) => Some(f.clone()),
                None => None,
            }
        },
        None => None,
    };
    Ok(TlsPlan::Tls { domain, ca_file })
}

} // verus!
