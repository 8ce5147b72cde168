use vstd::prelude::*;

use crate::error::{text, FlameError};
use crate::strs::str_eq;

verus! {

/// How an executor runs application instances.
#[derive(Debug, Clone, Copy, PartialEq, Eq, Structural)]
pub enum Shim {
    Host,
    Wasm,
}

impl Default for Shim {
    fn default() -> (r: Self)
        ensures
            r == Shim::Host,
    {
        Shim::Host
    }
}

/// The shim a configuration names: `host` or `wasm`.
pub open spec fn spec_shim_named(s: Seq<char>) -> Option<Shim> {
    if s == "host"@ {
        Some(Shim::Host)
    } else if s == "wasm"@ {
        Some(Shim::Wasm)
    } else {
        None
    }
}

impl Shim {
    /// The shim named `s`; any other name is an invalid configuration.
    pub fn from_name(s: &str) -> (r: Result<Shim, FlameError>)
        ensures
            match spec_shim_named(s@) {
                Some(sh) => r == Ok::<Shim, FlameError>(sh),
                None => r matches Err(e) && e is InvalidConfig,
            },
    {
        if str_eq(s, "host") {
            Ok(Shim::Host)
        } else if str_eq(s, "wasm") {
            Ok(Shim::Wasm)
        } else {
            Err(FlameError::InvalidConfig(text("unsupported shim")))
        }
    }
}

/// The cluster section of a configuration file, as written.
pub struct FlameClusterYaml {
    pub name: String,
    pub endpoint: String,
    pub slot: Option<String>,
    pub policy: Option<String>,
    pub storage: Option<String>,
}

/// The executors section of a configuration file, as written.
pub struct FlameExecutorsYaml {
    pub shim: Option<String>,
    pub limits: Option<FlameExecutorLimitsYaml>,
}

/// The cache section of a configuration file, as written.
pub struct FlameCacheYaml {
    pub endpoint: String,
}

/// The executor limits of a configuration file, as written.
pub struct FlameExecutorLimitsYaml {
    pub max_executors: Option<u32>,
}

/// A configuration file, as written.
pub struct FlameContextYaml {
    pub cluster: FlameClusterYaml,
    pub executors: FlameExecutorsYaml,
    pub cache: Option<FlameCacheYaml>,
}

pub struct FlameCluster {
    pub name: String,
    pub endpoint: String,
    /// The slot resources, such as `cpu=1,mem=2g`.
    pub slot: String,
    pub policy: String,
    pub storage: String,
}

pub struct FlameExecutors {
    pub shim: Shim,
    pub limits: FlameExecutorLimits,
}

pub struct FlameCache {
    pub endpoint: String,
}

pub struct FlameExecutorLimits {
    pub max_executors: u32,
}

/// The settings of a Flame cluster: defaults filled in where the file is silent.
pub struct FlameContext {
    pub cluster: FlameCluster,
    pub executors: FlameExecutors,
    pub cache: Option<FlameCache>,
}

pub open spec fn default_context_name() -> Seq<char> {
    "flame"@
}

pub open spec fn default_endpoint() -> Seq<char> {
    "http://127.0.0.1:8080"@
}

pub open spec fn default_slot() -> Seq<char> {
    "cpu=1,mem=2g"@
}

pub open spec fn default_policy() -> Seq<char> {
    "proportion"@
}

pub open spec fn default_storage() -> Seq<char> {
    "sqlite://flame.db"@
}

pub open spec fn default_shim_name() -> Seq<char> {
    "host"@
}

pub const DEFAULT_MAX_EXECUTORS_PER_NODE: u32 = 128;

pub open spec fn or_default(v: Option<String>, d: Seq<char>) -> Seq<char> {
    match v {
        Some(s) => s@,
        None => d,
    }
}

fn string_or(v: Option<String>, d: &str) -> (r: String)
    ensures
        r@ == or_default(v, d@),
{
    match v {
        Some(s) => s,
        None => text(d),
    }
}

impl Default for FlameExecutorLimits {
    fn default() -> (r: Self)
        ensures
            r.max_executors == DEFAULT_MAX_EXECUTORS_PER_NODE,
    {
        FlameExecutorLimits { max_executors: DEFAULT_MAX_EXECUTORS_PER_NODE }
    }
}

impl Default for FlameCluster {
    fn default() -> (r: Self)
        ensures
            r.name@ == default_context_name(),
            r.endpoint@ == default_endpoint(),
            r.slot@ == default_slot(),
            r.policy@ == default_policy(),
            r.storage@ == default_storage(),
    {
        FlameCluster {
            name: text("flame"),
            endpoint: text("http://127.0.0.1:8080"),
            slot: text("cpu=1,mem=2g"),
            policy: text("proportion"),
            storage: text("sqlite://flame.db"),
        }
    }
}

impl Default for FlameExecutors {
    fn default() -> (r: Self)
        ensures
            r.shim == Shim::Host,
            r.limits.max_executors == DEFAULT_MAX_EXECUTORS_PER_NODE,
    {
        FlameExecutors { shim: Shim::Host, limits: FlameExecutorLimits::default() }
    }
}

impl Default for FlameContext {
    fn default() -> (r: Self)
        ensures
            r.cluster.name@ == default_context_name(),
            r.cluster.endpoint@ == default_endpoint(),
            r.cluster.slot@ == default_slot(),
            r.cluster.policy@ == default_policy(),
            r.cluster.storage@ == default_storage(),
            r.executors.shim == Shim::Host,
            r.executors.limits.max_executors == DEFAULT_MAX_EXECUTORS_PER_NODE,
            r.cache is None,
    {
        FlameContext {
            cluster: FlameCluster::default(),
            executors: FlameExecutors::default(),
            cache: None,
        }
    }
}

impl FlameCluster {
    /// The cluster settings of a file section: slot, policy and storage take
    /// their defaults when the file leaves them out.
    pub fn from_yaml(cluster: FlameClusterYaml) -> (r: FlameCluster)
        ensures
            r.name@ == cluster.name@,
            r.endpoint@ == cluster.endpoint@,
            r.slot@ == or_default(cluster.slot, default_slot()),
            r.policy@ == or_default(cluster.policy, default_policy()),
            r.storage@ == or_default(cluster.storage, default_storage()),
    {
        FlameCluster {
            name: cluster.name,
            endpoint: cluster.endpoint,
            slot: string_or(cluster.slot, "cpu=1,mem=2g"),
            policy: string_or(cluster.policy, "proportion"),
            storage: string_or(cluster.storage, "sqlite://flame.db"),
        }
    }
}

impl FlameExecutorLimits {
    pub fn from_yaml(limits: FlameExecutorLimitsYaml) -> (r: FlameExecutorLimits)
        ensures
            r.max_executors == match limits.max_executors {
                Some(m) => m,
                None => DEFAULT_MAX_EXECUTORS_PER_NODE,
            },
    {
        FlameExecutorLimits {
            max_executors: match limits.max_executors {
                Some(m) => m,
                None => DEFAULT_MAX_EXECUTORS_PER_NODE,
            },
        }
    }
}

impl FlameExecutors {
    /// The executor settings of a file section; the shim defaults to `host` and
    /// must name a known shim.
    pub fn from_yaml(executors: FlameExecutorsYaml) -> (r: Result<FlameExecutors, FlameError>)
        ensures
            r is Ok <==> spec_shim_named(or_default(executors.shim, default_shim_name())) is Some,
            r matches Ok(e) ==> Some(e.shim) == spec_shim_named(
                or_default(executors.shim, default_shim_name()),
            ) && e.limits.max_executors == match executors.limits {
                Some(l) => match l.max_executors {
                    Some(m) => m,
                    None => DEFAULT_MAX_EXECUTORS_PER_NODE,
                },
                None => DEFAULT_MAX_EXECUTORS_PER_NODE,
            },
            r matches Err(e) ==> e is InvalidConfig,
    {
        let name = string_or(executors.shim, "host");
        let shim = Shim::from_name(name.as_str())?;
        let limits = match executors.limits {
            Some(l) => FlameExecutorLimits::from_yaml(l),
            None => FlameExecutorLimits::default(),
        };
        Ok(FlameExecutors { shim, limits })
    }
}

impl FlameContext {
    /// The settings of a configuration file, with defaults filled in.
    pub fn from_yaml(ctx: FlameContextYaml) -> (r: Result<FlameContext, FlameError>)
        ensures
            r is Ok <==> spec_shim_named(or_default(ctx.executors.shim, default_shim_name())) is Some,
            r matches Ok(c) ==> {
                &&& c.cluster.name@ == ctx.cluster.name@
                &&& c.cluster.endpoint@ == ctx.cluster.endpoint@
                &&& c.cluster.slot@ == or_default(ctx.cluster.slot, default_slot())
                &&& c.cluster.policy@ == or_default(ctx.cluster.policy, default_policy())
                &&& c.cluster.storage@ == or_default(ctx.cluster.storage, default_storage())
                &&& Some(c.executors.shim) == spec_shim_named(
                    or_default(ctx.executors.shim, default_shim_name()),
                )
                &&& c.executors.limits.max_executors == match ctx.executors.limits {
                    Some(l) => match l.max_executors {
                        Some(m) => m,
                        None => DEFAULT_MAX_EXECUTORS_PER_NODE,
                    },
                    None => DEFAULT_MAX_EXECUTORS_PER_NODE,
                }
                &&& c.cache is Some <==> ctx.cache is Some
                &&& ctx.cache matches Some(y) ==> c.cache->0.endpoint@ == y.endpoint@
            },
            r matches Err(e) ==> e is InvalidConfig,
    {
        let ghost cache_in = ctx.cache;
        let cluster = FlameCluster::from_yaml(ctx.cluster);
        let executors = FlameExecutors::from_yaml(ctx.executors)?;
        let cache = match ctx.cache {
            Some(c) => Some(FlameCache { endpoint: c.endpoint }),
            None => None,
        };
        Ok(FlameContext { cluster, executors, cache })
    }

    /// `name: <cluster name>, endpoint: <cluster endpoint>`.
    pub fn describe(&self) -> (r: String)
        ensures
            r@ == "name: "@ + self.cluster.name@ + ", endpoint: "@ + self.cluster.endpoint@,
    {
        let mut s = text("name: ");
        s.append(self.cluster.name.as_str());
        s.append(", endpoint: ");
        s.append(self.cluster.endpoint.as_str());
        s
    }
}

} // verus!
