//! What a relay and its workers are configured with, and what every relay can do.

use vstd::prelude::*;

verus! {

/// Nanoseconds in a second.
pub const NANOS_PER_SEC: u128 = 1_000_000_000;

/// The settings of a relay. A setting of zero stands for the default.
#[derive(Debug, Clone, Copy, PartialEq, Eq, Structural)]
pub struct RelayConfig {
    /// How many topics the relay remembers the targets of.
    pub cache_max_cap: u64,
    /// For how long after its last use a topic is remembered, in nanoseconds.
    pub cache_ttl_nanos: u128,
}

/// The settings of a Cloudflare worker.
#[derive(Debug)]
pub struct CloudflareConfig {
    /// The token that requests to the worker carry.
    pub api_token: String,
    /// The identifier of this machine on the bus.
    pub machine_id: String,
    /// How long a request may take, in milliseconds.
    pub request_timeout_ms: u64,
    /// How often the worker is asked for messages, in milliseconds.
    pub pull_interval_ms: u64,
    /// The path that binds this machine to the worker.
    pub bind_path: String,
    /// The path that unbinds this machine.
    pub unbind_path: String,
    /// The path that takes messages.
    pub push_path: String,
    /// The path that hands out messages.
    pub pull_path: String,
    /// The path of the web socket; empty where there is none.
    pub ws_path: String,
    /// The address on which the worker's messages are awaited.
    pub local_address: String,
    /// The address that the worker is told to call; where it is empty, the local
    /// address is given.
    pub ingress_url: String,
}

impl Clone for CloudflareConfig {
    fn clone(&self) -> (r: Self)
        ensures
            r == *self,
    {
        CloudflareConfig {
            api_token: self.api_token.clone(),
            machine_id: self.machine_id.clone(),
            request_timeout_ms: self.request_timeout_ms,
            pull_interval_ms: self.pull_interval_ms,
            bind_path: self.bind_path.clone(),
            unbind_path: self.unbind_path.clone(),
            push_path: self.push_path.clone(),
            pull_path: self.pull_path.clone(),
            ws_path: self.ws_path.clone(),
            local_address: self.local_address.clone(),
            ingress_url: self.ingress_url.clone(),
        }
    }
}

impl Default for CloudflareConfig {
    fn default() -> (r: Self)
        ensures
            r.api_token@ == ""@,
            r.machine_id@ == ""@,
            r.request_timeout_ms == 5_000,
            r.pull_interval_ms == 300,
            r.bind_path@ == "/bind"@,
            r.unbind_path@ == "/unbind"@,
            r.push_path@ == "/push"@,
            r.pull_path@ == "/pull"@,
            r.ws_path@ == ""@,
            r.local_address@ == "0.0.0.0:8787"@,
            r.ingress_url@ == ""@,
    {
        CloudflareConfig {
            api_token: "".to_string(),
            machine_id: "".to_string(),
            request_timeout_ms: 5_000,
            pull_interval_ms: 300,
            bind_path: "/bind".to_string(),
            unbind_path: "/unbind".to_string(),
            push_path: "/push".to_string(),
            pull_path: "/pull".to_string(),
            ws_path: "".to_string(),
            local_address: "0.0.0.0:8787".to_string(),
            ingress_url: "".to_string(),
        }
    }
}

/// The settings of an AWS worker.
#[derive(Debug, Clone, Copy, PartialEq, Eq, Structural)]
pub struct AWSConfig {}

/// The settings of a Vercel worker.
#[derive(Debug, Clone, Copy, PartialEq, Eq, Structural)]
pub struct VercelConfig {}

/// The settings of a worker.
#[derive(Debug)]
pub enum WorkerConfig {
    Cloudflare(CloudflareConfig),
    AWS(AWSConfig),
    Vercel(VercelConfig),
}

impl Clone for WorkerConfig {
    fn clone(&self) -> (r: Self)
        ensures
            r == *self,
    {
        match self {
            WorkerConfig::Cloudflare(c) => WorkerConfig::Cloudflare(c.clone()),
            WorkerConfig::AWS(c) => WorkerConfig::AWS(*c),
            WorkerConfig::Vercel(c) => WorkerConfig::Vercel(*c),
        }
    }
}

/// Why a relay refuses.
#[derive(Debug)]
pub enum RelayError {
    /// No proxy is registered for the topic pattern.
    UnknownProxy(String),
    /// No worker is bound to the base address.
    UnknownWorker(String),
    /// The worker is not a Cloudflare worker.
    NotCloudflare,
    /// The worker's token is empty.
    EmptyToken,
    /// The machine identifier is empty.
    EmptyMachineId,
    /// No worker is bound at all.
    NoWorkers,
    /// The worker could not be reached.
    Unreachable,
    /// The worker turned the request down.
    Rejected,
}

/// What came of a request to a worker.
#[derive(Debug, Clone, Copy, PartialEq, Eq, Structural)]
pub enum Reply {
    /// The worker answered with a status of success.
    Accepted,
    /// No answer came.
    Unreachable,
    /// The worker answered with a status of failure.
    Rejected,
}

/// Whether a worker can be bound: a Cloudflare worker with a token and a machine
/// identifier.
pub open spec fn bindable(config: WorkerConfig) -> bool {
    config matches WorkerConfig::Cloudflare(c) && c.api_token@.len() > 0 && c.machine_id@.len() > 0
}

/// Why a worker cannot be bound; the kind is looked at first, then the token,
/// then the machine identifier.
pub open spec fn bind_refusal(config: WorkerConfig) -> Option<RelayError> {
    match config {
        WorkerConfig::Cloudflare(c) => if c.api_token@.len() == 0 {
            Some(RelayError::EmptyToken)
        } else if c.machine_id@.len() == 0 {
            Some(RelayError::EmptyMachineId)
        } else {
            None
        },
        _ => Some(RelayError::NotCloudflare),
    }
}

/// Whether a worker can be bound, or why not.
pub fn check_bindable(config: &WorkerConfig) -> (r: Result<&CloudflareConfig, RelayError>)
    ensures
        match r {
            Ok(c) => bind_refusal(*config) is None && *config == WorkerConfig::Cloudflare(*c),
            Err(e) => bind_refusal(*config) == Some(e),
        },
        r is Ok <==> bindable(*config),
{
    match config {
        WorkerConfig::Cloudflare(c) => {
            if c.api_token.as_str().is_empty() {
                Err(RelayError::EmptyToken)
            } else if c.machine_id.as_str().is_empty() {
                Err(RelayError::EmptyMachineId)
            } else {
                Ok(c)
            }
        },
        _ => Err(RelayError::NotCloudflare),
    }
}

/// The error of a reply, if it is one.
pub open spec fn reply_error(reply: Reply) -> Option<RelayError> {
    match reply {
        Reply::Accepted => None,
        Reply::Unreachable => Some(RelayError::Unreachable),
        Reply::Rejected => Some(RelayError::Rejected),
    }
}

/// Whether a reply is one of success.
pub fn check_reply(reply: Reply) -> (r: Result<(), RelayError>)
    ensures
        match r {
            Ok(_) => reply_error(reply) is None,
            Err(e) => reply_error(reply) == Some(e),
        },
{
    match reply {
        Reply::Accepted => Ok(()),
        Reply::Unreachable => Err(RelayError::Unreachable),
        Reply::Rejected => Err(RelayError::Rejected),
    }
}

/// The registered addresses after one more was registered.
pub open spec fn with_proxy(
    proxies: Map<Seq<char>, Seq<Seq<char>>>,
    topic: Seq<char>,
    url: Seq<char>,
) -> Map<Seq<char>, Seq<Seq<char>>> {
    if proxies.contains_key(topic) {
        proxies.insert(topic, proxies[topic].push(url))
    } else {
        proxies.insert(topic, seq![url])
    }
}

/// The registered addresses after a pattern was unregistered.
pub open spec fn without_proxy(
    proxies: Map<Seq<char>, Seq<Seq<char>>>,
    topic: Seq<char>,
) -> Map<Seq<char>, Seq<Seq<char>>> {
    proxies.remove(topic)
}

/// The bound workers after a worker replied to the request that binds it.
pub open spec fn workers_after_bind(
    workers: Map<Seq<char>, WorkerConfig>,
    base_url: Seq<char>,
    config: WorkerConfig,
    reply: Reply,
) -> Map<Seq<char>, WorkerConfig> {
    match reply {
        Reply::Accepted => workers.insert(base_url, config),
        _ => workers,
    }
}

/// The bound workers after a worker was let go.
pub open spec fn workers_without(
    workers: Map<Seq<char>, WorkerConfig>,
    base_url: Seq<char>,
) -> Map<Seq<char>, WorkerConfig> {
    workers.remove(base_url)
}

/// Whether `entries` lists a map: each key once, with its value.
pub open spec fn lists<V>(entries: Seq<(Seq<char>, V)>, map: Map<Seq<char>, V>) -> bool {
    &&& forall|i: int, j: int|
        0 <= i < j < entries.len() ==> #[trigger] entries[i].0 != #[trigger] entries[j].0
    &&& forall|i: int|
        0 <= i < entries.len() ==> map.contains_pair(#[trigger] entries[i].0, entries[i].1)
    &&& forall|key: Seq<char>| #[trigger]
        map.contains_key(key) ==> exists|i: int| 0 <= i < entries.len() && entries[i].0 == key
}

/// The texts of a list of strings.
pub open spec fn texts(strings: Seq<String>) -> Seq<Seq<char>> {
    strings.map_values(|s: String| s@)
}

/// The texts of a list of proxies.
pub open spec fn proxy_texts(entries: Seq<(String, Vec<String>)>) -> Seq<
    (Seq<char>, Seq<Seq<char>>),
> {
    entries.map_values(|e: (String, Vec<String>)| (e.0@, texts(e.1@)))
}

/// The texts of a list of workers.
pub open spec fn worker_texts(entries: Seq<(String, WorkerConfig)>) -> Seq<
    (Seq<char>, WorkerConfig),
> {
    entries.map_values(|e: (String, WorkerConfig)| (e.0@, e.1))
}

/// What every relay can do: it keeps the addresses that topics are forwarded to,
/// and the workers that are bound.
pub trait Relay: Sized {
    /// The registered addresses of each topic pattern, in the order of their
    /// registration.
    spec fn proxies(&self) -> Map<Seq<char>, Seq<Seq<char>>>;

    /// The bound worker of each base address.
    spec fn workers(&self) -> Map<Seq<char>, WorkerConfig>;

    /// What holds of the relay between calls.
    spec fn wf(&self) -> bool;

    /// The settings of a relay that is given none.
    fn get_default_config() -> (r: RelayConfig)
        ensures
            r.cache_max_cap == 10_000,
            r.cache_ttl_nanos == 5 * 60 * NANOS_PER_SEC,
    {
        RelayConfig { cache_max_cap: 10_000, cache_ttl_nanos: 5 * 60 * NANOS_PER_SEC }
    }

    /// Example: register_proxy("robot/camera/**", "https://aa.your-cloudflare-worker.com/robotica/camera/**")
    fn register_proxy(&mut self, topic_pattern: &str, url_pattern: &str) -> (r: Result<
        (),
        RelayError,
    >)
        requires
            old(self).wf(),
        ensures
            final(self).wf(),
            r is Ok,
            final(self).proxies() == with_proxy(old(self).proxies(), topic_pattern@, url_pattern@),
            final(self).workers() == old(self).workers(),
    ;

    /// Example: unregister_proxy("robot/camera/**")
    fn unregister_proxy(&mut self, topic_pattern: &str) -> (r: Result<(), RelayError>)
        requires
            old(self).wf(),
        ensures
            final(self).wf(),
            r is Ok <==> old(self).proxies().contains_key(topic_pattern@),
            r matches Err(e) ==> (e matches RelayError::UnknownProxy(p) && p@ == topic_pattern@),
            final(self).proxies() == old(self).proxies().remove(topic_pattern@),
            final(self).proxies() == without_proxy(old(self).proxies(), topic_pattern@),
            final(self).workers() == old(self).workers(),
    ;

    /// The registered addresses, in no particular order of the patterns.
    fn get_proxy_registry(&self) -> (r: Vec<(String, Vec<String>)>)
        ensures
            lists(proxy_texts(r@), self.proxies()),
    ;

    /// The base addresses of the bound workers, in no particular order.
    fn get_worker_list(&self) -> (r: Vec<String>)
        ensures
            texts(r@).no_duplicates(),
            forall|key: Seq<char>| #[trigger]
                texts(r@).contains(key) <==> self.workers().contains_key(key),
    ;
}

} // verus!
