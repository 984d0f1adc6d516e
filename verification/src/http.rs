//! The relay that workers call back: messages for the bus arrive at a local
//! server, and samples of the bus are pushed to the workers.

use dashmap::DashMap;
use moka::sync::Cache;
use vstd::prelude::*;

use crate::config::{
    bindable, bind_refusal, check_bindable, check_reply, lists, proxy_texts, reply_error, texts,
    worker_texts, workers_after_bind, workers_without, CloudflareConfig, Relay,
    RelayConfig, RelayError, Reply, WorkerConfig, NANOS_PER_SEC,
};
use crate::egress::{all_targets, egress_targets};
use crate::registry::{
    cache_contents, cache_limits, cache_targets, cached_targets, drop_cached, get_proxy,
    insert_proxy, insert_worker, list_proxies, list_workers, new_cache, new_proxies, new_workers,
    proxy_contents, remove_proxy, remove_worker, target_texts, worker_contents,
};
use crate::resolver::{groups_take_part, try_resolve_zenoh_url};
use crate::ingress::{
    cloudflare_configs, group_by_address, group_view, grouped, no_group_without_settings,
    settings_of_the_first,
};
use crate::requests::{
    asks_to_bind, asks_to_unbind, at_least_500, bind_request, patient, tells_worker, BindRequest,
};
use crate::wildcard::bare_pattern;

verus! {

/// The longest time for which a topic can be remembered, in nanoseconds.
pub const MAX_TTL_NANOS: u128 = 31_536_000_000_000_000_000;

/// The settings that a relay works with: the default in place of zero.
pub open spec fn effective(cfg: RelayConfig) -> RelayConfig {
    RelayConfig {
        cache_max_cap: if cfg.cache_max_cap == 0 {
            10_000
        } else {
            cfg.cache_max_cap
        },
        cache_ttl_nanos: if cfg.cache_ttl_nanos == 0 {
            300_000_000_000
        } else {
            cfg.cache_ttl_nanos
        },
    }
}

/// Whether these are the targets of a topic, in some order of the proxies and of
/// the workers.
pub open spec fn resolved_targets(
    topic: Seq<char>,
    proxies: Map<Seq<char>, Seq<Seq<char>>>,
    workers: Map<Seq<char>, WorkerConfig>,
    targets: Seq<(Seq<char>, CloudflareConfig)>,
) -> bool {
    exists|ps: Seq<(Seq<char>, Seq<Seq<char>>)>, ws: Seq<(Seq<char>, WorkerConfig)>|
        {
            &&& lists(ps, proxies)
            &&& lists(ws, workers)
            &&& targets == #[trigger] all_targets(ps, topic, ws)
        }
}

/// Whether no registered pattern leaves out a group when the topic matches it.
pub open spec fn all_take_part(
    proxies: Map<Seq<char>, Seq<Seq<char>>>,
    topic: Seq<char>,
) -> bool {
    forall|local: Seq<char>| #[trigger]
        proxies.contains_key(local) ==> groups_take_part(local, topic)
}

/// The relay's state: the registered proxies, the bound workers and the targets
/// that were resolved for recent topics.
///
/// The targets are remembered for as long as proxies and workers stay as they
/// are. Every entry carries the generation in which it was made, and a change
/// begins a new generation.
pub struct WorkerRelay {
    proxy_registry: DashMap<String, Vec<String>>,
    workers: DashMap<String, WorkerConfig>,
    topic_cache: Cache<String, (u64, Vec<(String, CloudflareConfig)>)>,
    generation: u64,
    settings: RelayConfig,
}

/// An empty cache with the given settings.
fn build_cache(settings: RelayConfig) -> (cache: Cache<
    String,
    (u64, Vec<(String, CloudflareConfig)>),
>)
    requires
        settings.cache_ttl_nanos <= MAX_TTL_NANOS,
    ensures
        cache_contents(cache).is_empty(),
        cache_limits(cache) == (settings.cache_max_cap, settings.cache_ttl_nanos as nat),
{
    let ttl: u128 = settings.cache_ttl_nanos;
    let secs: u128 = ttl / NANOS_PER_SEC;
    let nanos: u128 = ttl % NANOS_PER_SEC;
    new_cache(settings.cache_max_cap, secs as u64, nanos as u32)
}

/// A copy of a list of targets.
fn copy_targets(targets: &Vec<(String, CloudflareConfig)>) -> (r: Vec<(String, CloudflareConfig)>)
    ensures
        r@ == targets@,
{
    let mut r: Vec<(String, CloudflareConfig)> = Vec::new();
    let mut i: usize = 0;
    while i < targets.len()
        invariant
            i <= targets.len(),
            r@ == targets@.take(i as int),
        decreases targets.len() - i,
    {
        r.push((targets[i].0.clone(), targets[i].1.clone()));
        i += 1;
        assert(targets@.take(i as int) == targets@.take(i - 1).push(targets@[i - 1]));
    }
    r
}

impl WorkerRelay {
    /// The limits of the memory for topics.
    pub closed spec fn limits(&self) -> RelayConfig {
        self.settings
    }

    /// How many topics the memory holds at most, and for how many nanoseconds.
    pub closed spec fn memory_limits(&self) -> (u64, nat) {
        cache_limits(self.topic_cache)
    }

    /// Whether these targets were put into the memory as the answer for a topic,
    /// and no proxy or worker has changed since. The memory can drop an answer at
    /// any time, for want of room or of use.
    pub closed spec fn remembers(
        &self,
        topic: Seq<char>,
        targets: Seq<(Seq<char>, CloudflareConfig)>,
    ) -> bool {
        cache_contents(self.topic_cache).contains((topic, self.generation, targets))
    }

    /// Whether no answer is remembered.
    pub open spec fn remembers_nothing(&self) -> bool {
        forall|topic: Seq<char>, targets: Seq<(Seq<char>, CloudflareConfig)>|
            !#[trigger] self.remembers(topic, targets)
    }

    /// Whether the answers that another relay remembers are remembered.
    pub open spec fn remembers_all_of(&self, other: WorkerRelay) -> bool {
        forall|topic: Seq<char>, targets: Seq<(Seq<char>, CloudflareConfig)>| #[trigger]
            other.remembers(topic, targets) ==> self.remembers(topic, targets)
    }

    /// Whether nothing is remembered in the present generation.
    spec fn forgetful(&self) -> bool {
        forall|topic: Seq<char>, tag: u64, targets: Seq<(Seq<char>, CloudflareConfig)>| #[trigger]
            cache_contents(self.topic_cache).contains((topic, tag, targets)) ==> tag
                < self.generation
    }

    /// Whether what is remembered in the present generation is what the proxies
    /// and workers say.
    spec fn remembers_rightly(&self) -> bool {
        forall|topic: Seq<char>, tag: u64, targets: Seq<(Seq<char>, CloudflareConfig)>| #[trigger]
            cache_contents(self.topic_cache).contains((topic, tag, targets)) ==> {
                &&& tag <= self.generation
                &&& tag == self.generation ==> resolved_targets(
                    topic,
                    proxy_contents(self.proxy_registry),
                    worker_contents(self.workers),
                    targets,
                )
                &&& tag == self.generation ==> all_take_part(
                    proxy_contents(self.proxy_registry),
                    topic,
                )
            }
    }

    /// Whether every registered pattern has an address.
    spec fn addressed(&self) -> bool {
        forall|key: Seq<char>| #[trigger]
            proxy_contents(self.proxy_registry).contains_key(key) ==> proxy_contents(
                self.proxy_registry,
            )[key].len() > 0
    }

    /// Whether the memory has the limits of the settings.
    spec fn limited(&self) -> bool {
        &&& self.settings.cache_ttl_nanos <= MAX_TTL_NANOS
        &&& cache_limits(self.topic_cache) == (
            self.settings.cache_max_cap,
            self.settings.cache_ttl_nanos as nat,
        )
    }

    /// Whether every bound worker can be bound.
    spec fn sound_workers(&self) -> bool {
        forall|key: Seq<char>| #[trigger]
            worker_contents(self.workers).contains_key(key) ==> bindable(
                worker_contents(self.workers)[key],
            )
    }

    /// A relay without proxies and workers.
    pub fn new(cfg: RelayConfig) -> (r: WorkerRelay)
        requires
            cfg.cache_ttl_nanos <= MAX_TTL_NANOS,
        ensures
            r.wf(),
            r.limits() == effective(cfg),
            r.proxies().dom() == Set::<Seq<char>>::empty(),
            r.workers().dom() == Set::<Seq<char>>::empty(),
            r.remembers_nothing(),
    {
        let default = Self::get_default_config();
        let settings = RelayConfig {
            cache_max_cap: if cfg.cache_max_cap == 0 {
                default.cache_max_cap
            } else {
                cfg.cache_max_cap
            },
            cache_ttl_nanos: if cfg.cache_ttl_nanos == 0 {
                default.cache_ttl_nanos
            } else {
                cfg.cache_ttl_nanos
            },
        };
        WorkerRelay {
            proxy_registry: new_proxies(),
            workers: new_workers(),
            topic_cache: build_cache(settings),
            generation: 0,
            settings,
        }
    }

    /// Forgets the targets of all topics.
    fn forget(&mut self)
        requires
            old(self).limited(),
            forall|topic: Seq<char>, tag: u64, targets: Seq<(Seq<char>, CloudflareConfig)>| #[trigger]
                cache_contents(old(self).topic_cache).contains((topic, tag, targets)) ==> tag <= old(
                    self,
                ).generation,
        ensures
            final(self).forgetful(),
            final(self).limited(),
            final(self).settings == old(self).settings,
            final(self).proxy_registry == old(self).proxy_registry,
            final(self).workers == old(self).workers,
    {
        if self.generation == u64::MAX {
            self.topic_cache = build_cache(self.settings);
            self.generation = 0;
        } else {
            drop_cached(&mut self.topic_cache);
            self.generation += 1;
        }
    }

    /// The request that binds this machine to a worker, or why it cannot be bound.
    pub fn bind_worker(&self, base_url: &str, config: &WorkerConfig) -> (r: Result<
        BindRequest,
        RelayError,
    >)
        ensures
            r is Ok <==> bindable(*config),
            match r {
                Ok(request) => *config matches WorkerConfig::Cloudflare(c) && tells_worker(
                    request,
                    base_url@,
                    c,
                    c.bind_path@,
                    c.request_timeout_ms as int,
                ),
                Err(e) => bind_refusal(*config) == Some(e),
            },
            r matches Ok(request) ==> (*config matches WorkerConfig::Cloudflare(c) && asks_to_bind(
                request,
                base_url@,
                c,
            )),
    {
        match check_bindable(config) {
            Ok(c) => Ok(bind_request(base_url, c, &c.bind_path, c.request_timeout_ms)),
            Err(e) => Err(e),
        }
    }

    /// Takes the worker's reply to the request of [`WorkerRelay::bind_worker`]: the
    /// worker is bound if it accepted, and nothing changes if it did not.
    pub fn worker_replied(&mut self, base_url: &str, config: WorkerConfig, reply: Reply) -> (r:
        Result<(), RelayError>)
        requires
            old(self).wf(),
            bindable(config),
        ensures
            final(self).wf(),
            final(self).limits() == old(self).limits(),
            final(self).proxies() == old(self).proxies(),
            match r {
                Ok(_) => {
                    &&& reply == Reply::Accepted
                    &&& final(self).workers() == old(self).workers().insert(base_url@, config)
                    &&& final(self).remembers_nothing()
                },
                Err(e) => {
                    &&& reply_error(reply) == Some(e)
                    &&& *final(self) == *old(self)
                },
            },
            final(self).workers() == workers_after_bind(
                old(self).workers(),
                base_url@,
                config,
                reply,
            ),
    {
        match check_reply(reply) {
            Ok(_) => {
                insert_worker(&mut self.workers, base_url.to_string(), config);
                self.forget();
                Ok(())
            },
            Err(e) => Err(e),
        }
    }

    /// Unbinds a worker, and gives the request that tells it so. The worker is
    /// gone at once, whatever it replies.
    pub fn unbind_worker(&mut self, base_url: &str) -> (r: Result<BindRequest, RelayError>)
        requires
            old(self).wf(),
        ensures
            final(self).wf(),
            final(self).limits() == old(self).limits(),
            final(self).proxies() == old(self).proxies(),
            final(self).workers() == old(self).workers().remove(base_url@),
            final(self).workers() == workers_without(old(self).workers(), base_url@),
            r matches Ok(request) ==> (
            old(self).workers()[base_url@] matches WorkerConfig::Cloudflare(c) && asks_to_unbind(
                request,
                base_url@,
                c,
            )),
            r is Ok <==> old(self).workers().contains_key(base_url@),
            match r {
                Ok(request) => old(self).workers()[base_url@] matches WorkerConfig::Cloudflare(c)
                    && tells_worker(
                    request,
                    base_url@,
                    c,
                    c.unbind_path@,
                    at_least_500(c.request_timeout_ms),
                ),
                Err(e) => e matches RelayError::UnknownWorker(u) && u@ == base_url@,
            },
            r is Ok ==> final(self).remembers_nothing(),
            r is Err ==> final(self).remembers_all_of(*old(self)),
    {
        match remove_worker(&mut self.workers, base_url) {
            Some(config) => {
                self.forget();
                match config {
                    WorkerConfig::Cloudflare(c) => {
                        Ok(bind_request(base_url, &c, &c.unbind_path, patient(c.request_timeout_ms)))
                    },
                    _ => {
                        assert(bindable(config));
                        Err(RelayError::NotCloudflare)
                    },
                }
            },
            None => {
                assert(worker_contents(self.workers) =~= worker_contents(old(self).workers));
                Err(RelayError::UnknownWorker(base_url.to_string()))
            },
        }
    }

    /// The addresses to listen on, each with the settings of the workers that call
    /// there; an error where no worker is bound.
    pub fn ingress_groups(&self) -> (r: Result<Vec<(String, Vec<CloudflareConfig>)>, RelayError>)
        requires
            self.wf(),
        ensures
            match r {
                Ok(groups) => {
                    &&& groups@.len() > 0
                    &&& exists|ws: Seq<(Seq<char>, WorkerConfig)>|
                        lists(ws, self.workers()) && grouped(
                            #[trigger] cloudflare_configs(ws),
                            group_view(groups@),
                        )
                },
                Err(e) => e == RelayError::NoWorkers,
            },
            r is Ok <==> !self.workers().dom().is_empty(),
    {
        let workers = list_workers(&self.workers);
        let ghost ws = worker_texts(workers@);
        let groups = group_by_address(&workers);
        proof {
            settings_of_the_first(ws);
            no_group_without_settings(cloudflare_configs(ws), group_view(groups@));
            if ws.len() > 0 {
                assert(self.workers().contains_key(ws[0].0));
                assert(bindable(ws[0].1));
            } else {
                assert forall|key: Seq<char>| !self.workers().dom().contains(key) by {
                    if self.workers().contains_key(key) {
                        let i = choose|i: int| 0 <= i < ws.len() && ws[i].0 == key;
                    }
                }
                assert(self.workers().dom().is_empty());
            }
        }
        if groups.is_empty() {
            Err(RelayError::NoWorkers)
        } else {
            Ok(groups)
        }
    }

    /// The targets of a topic: for each registered pattern, for each of its
    /// addresses that the topic has, for each bound worker that serves the
    /// address, the worker's push address and settings.
    ///
    /// Targets are remembered, and forgotten when a proxy or a worker changes: the
    /// answer is always that of the present proxies and workers.
    pub fn resolve_egress_targets(&mut self, topic: &str) -> (r: Vec<(String, CloudflareConfig)>)
        requires
            old(self).wf(),
            forall|local: Seq<char>| #[trigger]
                old(self).proxies().contains_key(local) ==> bare_pattern(local)
                    || groups_take_part(local, topic@),
        ensures
            final(self).wf(),
            final(self).limits() == old(self).limits(),
            final(self).proxies() == old(self).proxies(),
            final(self).workers() == old(self).workers(),
            resolved_targets(
                topic@,
                old(self).proxies(),
                old(self).workers(),
                target_texts(r@),
            ),
            final(self).remembers(topic@, target_texts(r@)),
            final(self).remembers_all_of(*old(self)),
    {
        if let Some(targets) = self.recall(topic) {
            return targets;
        }
        let proxies = list_proxies(&self.proxy_registry);
        let workers = list_workers(&self.workers);
        let ghost ps = proxy_texts(proxies@);
        assert forall|i: int| 0 <= i < proxies@.len() implies bare_pattern(
            #[trigger] proxies@[i].0@,
        ) || groups_take_part(proxies@[i].0@, topic@) by {
            assert(ps[i].0 == proxies@[i].0@);
            assert(self.proxies().contains_key(ps[i].0));
        }
        let targets = egress_targets(&proxies, &workers, topic);
        assert(all_take_part(self.proxies(), topic@)) by {
            assert forall|local: Seq<char>| #[trigger]
                self.proxies().contains_key(local) implies groups_take_part(local, topic@) by {
                let k = choose|k: int| 0 <= k < ps.len() && ps[k].0 == local;
                assert(ps[k] == (proxies@[k].0@, texts(proxies@[k].1@)));
                assert(self.proxies().contains_pair(ps[k].0, ps[k].1));
                assert(groups_take_part(proxies@[k].0@, topic@));
            }
        }
        let copy = copy_targets(&targets);
        cache_targets(&mut self.topic_cache, topic.to_string(), (self.generation, copy));
        targets
    }

    /// The remembered targets of a topic, if the memory still has them.
    fn recall(&self, topic: &str) -> (r: Option<Vec<(String, CloudflareConfig)>>)
        ensures
            r matches Some(targets) ==> self.remembers(topic@, target_texts(targets@)),
    {
        match cached_targets(&self.topic_cache, topic) {
            Some((tag, targets)) => if tag == self.generation {
                Some(targets)
            } else {
                None
            },
            None => None,
        }
    }

    /// The targets of a topic, or `None` where a group of some registered pattern
    /// is left out of a match. The patterns are tested only where the targets are
    /// not remembered.
    pub fn try_resolve_egress_targets(&mut self, topic: &str) -> (r: Option<
        Vec<(String, CloudflareConfig)>,
    >)
        requires
            old(self).wf(),
        ensures
            final(self).wf(),
            final(self).limits() == old(self).limits(),
            final(self).proxies() == old(self).proxies(),
            final(self).workers() == old(self).workers(),
            r is Some <==> all_take_part(old(self).proxies(), topic@),
            r matches Some(targets) ==> {
                &&& resolved_targets(
                    topic@,
                    old(self).proxies(),
                    old(self).workers(),
                    target_texts(targets@),
                )
                &&& final(self).remembers(topic@, target_texts(targets@))
            },
            final(self).remembers_all_of(*old(self)),
    {
        if let Some(targets) = self.recall(topic) {
            return Some(targets);
        }
        let proxies = list_proxies(&self.proxy_registry);
        let ghost ps = proxy_texts(proxies@);
        let mut i: usize = 0;
        while i < proxies.len()
            invariant
                i <= proxies.len(),
                *self == *old(self),
                self.wf(),
                ps == proxy_texts(proxies@),
                lists(ps, self.proxies()),
                forall|k: int| 0 <= k < i ==> groups_take_part(#[trigger] ps[k].0, topic@),
            decreases proxies.len() - i,
        {
            let local = &proxies[i].0;
            assert(ps[i as int].0 == local@);
            if try_resolve_zenoh_url(local, "", topic).is_none() {
                assert(self.proxies().contains_key(ps[i as int].0));
                return None;
            }
            i += 1;
        }
        assert forall|local: Seq<char>| #[trigger]
            self.proxies().contains_key(local) implies groups_take_part(local, topic@) by {
            let k = choose|k: int| 0 <= k < ps.len() && ps[k].0 == local;
            assert(groups_take_part(ps[k].0, topic@));
        }
        Some(self.resolve_egress_targets(topic))
    }
}

impl Relay for WorkerRelay {
    closed spec fn proxies(&self) -> Map<Seq<char>, Seq<Seq<char>>> {
        proxy_contents(self.proxy_registry)
    }

    closed spec fn workers(&self) -> Map<Seq<char>, WorkerConfig> {
        worker_contents(self.workers)
    }

    closed spec fn wf(&self) -> bool {
        &&& self.limited()
        &&& self.sound_workers()
        &&& self.addressed()
        &&& self.remembers_rightly()
    }

    fn register_proxy(&mut self, topic_pattern: &str, url_pattern: &str) -> (r: Result<
        (),
        RelayError,
    >)
        ensures
            final(self).limits() == old(self).limits(),
            final(self).remembers_nothing(),
    {
        let mut urls = match get_proxy(&self.proxy_registry, topic_pattern) {
            Some(urls) => urls,
            None => Vec::new(),
        };
        let ghost before = texts(urls@);
        urls.push(url_pattern.to_string());
        assert(texts(urls@) =~= before.push(url_pattern@));
        insert_proxy(&mut self.proxy_registry, topic_pattern.to_string(), urls);
        // New proxy mapping may affect remembered resolutions
        self.forget();
        proof {
            if !old(self).proxies().contains_key(topic_pattern@) {
                assert(before.push(url_pattern@) =~= seq![url_pattern@]);
            }
        }
        Ok(())
    }

    fn unregister_proxy(&mut self, topic_pattern: &str) -> (r: Result<(), RelayError>)
        ensures
            final(self).limits() == old(self).limits(),
            r is Ok ==> final(self).remembers_nothing(),
            r is Err ==> final(self).remembers_all_of(*old(self)),
    {
        if remove_proxy(&mut self.proxy_registry, topic_pattern).is_none() {
            assert(proxy_contents(self.proxy_registry) =~= proxy_contents(
                old(self).proxy_registry,
            ));
            return Err(RelayError::UnknownProxy(topic_pattern.to_string()));
        }
        self.forget();
        Ok(())
    }

    fn get_proxy_registry(&self) -> (r: Vec<(String, Vec<String>)>) {
        list_proxies(&self.proxy_registry)
    }

    fn get_worker_list(&self) -> (r: Vec<String>) {
        let workers = list_workers(&self.workers);
        worker_names(&workers)
    }
}

/// The names of listed workers.
pub fn worker_names(workers: &Vec<(String, WorkerConfig)>) -> (r: Vec<String>)
    ensures
        texts(r@) == workers@.map_values(|w: (String, WorkerConfig)| w.0@),
        forall|map: Map<Seq<char>, WorkerConfig>| #[trigger]
            lists(worker_texts(workers@), map) ==> {
                &&& texts(r@).no_duplicates()
                &&& forall|key: Seq<char>| #[trigger]
                    texts(r@).contains(key) <==> map.contains_key(key)
            },
{
    let mut r: Vec<String> = Vec::new();
    let mut i: usize = 0;
    while i < workers.len()
        invariant
            i <= workers.len(),
            r.len() == i,
            forall|k: int| 0 <= k < i ==> (#[trigger] r@[k])@ == workers@[k].0@,
        decreases workers.len() - i,
    {
        r.push(workers[i].0.clone());
        i += 1;
    }
    proof {
        let ws = worker_texts(workers@);
        let names = texts(r@);
        assert(names =~= workers@.map_values(|w: (String, WorkerConfig)| w.0@));
        assert forall|map: Map<Seq<char>, WorkerConfig>| #[trigger]
            lists(ws, map) implies names.no_duplicates() && forall|key: Seq<char>| #[trigger]
            names.contains(key) <==> map.contains_key(key) by {
            assert forall|k: int| 0 <= k < names.len() implies names[k] == ws[k].0 by {}
            assert forall|a: int, b: int|
                0 <= a < names.len() && 0 <= b < names.len() && a != b implies names[a]
                != names[b] by {
                if a < b {
                    assert(ws[a].0 != ws[b].0);
                } else {
                    assert(ws[b].0 != ws[a].0);
                }
            }
            assert forall|key: Seq<char>| #[trigger]
                names.contains(key) <==> map.contains_key(key) by {
                if map.contains_key(key) {
                    let k = choose|k: int| 0 <= k < ws.len() && ws[k].0 == key;
                    assert(names[k] == key);
                }
                if names.contains(key) {
                    let k = choose|k: int| 0 <= k < names.len() && names[k] == key;
                    assert(map.contains_pair(ws[k].0, ws[k].1));
                }
            }
        }
    }
    r
}

/// Every bound worker is a Cloudflare worker with a token and a machine identifier.
pub proof fn bound_workers_hold_credentials(relay: WorkerRelay, base_url: Seq<char>)
    requires
        relay.wf(),
        relay.workers().contains_key(base_url),
    ensures
        bindable(relay.workers()[base_url]),
{
}

/// A remembered answer is that of the present proxies and workers.
pub proof fn remembered_answers_are_right(
    relay: WorkerRelay,
    topic: Seq<char>,
    targets: Seq<(Seq<char>, CloudflareConfig)>,
)
    requires
        relay.wf(),
        relay.remembers(topic, targets),
    ensures
        resolved_targets(topic, relay.proxies(), relay.workers(), targets),
{
}

/// The memory holds as many topics as the settings say, and for as long; the time is
/// never longer than the longest.
pub proof fn memory_keeps_to_the_settings(relay: WorkerRelay)
    requires
        relay.wf(),
    ensures
        relay.memory_limits() == (
            relay.limits().cache_max_cap,
            relay.limits().cache_ttl_nanos as nat,
        ),
        relay.limits().cache_ttl_nanos <= MAX_TTL_NANOS,
{
}

/// Every registered pattern has an address.
pub proof fn registered_patterns_have_addresses(relay: WorkerRelay, pattern: Seq<char>)
    requires
        relay.wf(),
        relay.proxies().contains_key(pattern),
    ensures
        relay.proxies()[pattern].len() > 0,
{
}

/// A topic for which an answer is remembered has no group left out under any
/// registered pattern.
pub proof fn remembered_topics_leave_nothing_out(
    relay: WorkerRelay,
    topic: Seq<char>,
    targets: Seq<(Seq<char>, CloudflareConfig)>,
)
    requires
        relay.wf(),
        relay.remembers(topic, targets),
    ensures
        all_take_part(relay.proxies(), topic),
{
}

/// A relay that remembers nothing holds no answer for any topic; one that remembers
/// all that another does holds each of its answers.
pub proof fn what_is_remembered(
    relay: WorkerRelay,
    other: WorkerRelay,
    topic: Seq<char>,
    targets: Seq<(Seq<char>, CloudflareConfig)>,
)
    ensures
        relay.remembers_nothing() ==> !relay.remembers(topic, targets),
        relay.remembers_all_of(other) && other.remembers(topic, targets) ==> relay.remembers(
            topic,
            targets,
        ),
{
}

} // verus!
