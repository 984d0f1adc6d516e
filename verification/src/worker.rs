//! The relay that asks its workers for messages, again and again.

use dashmap::DashMap;
use vstd::prelude::*;

use crate::config::{
    bind_refusal, bindable, check_bindable, check_reply, lists, proxy_texts, reply_error, texts,
    worker_texts, workers_after_bind, workers_without, CloudflareConfig, Relay, RelayError, Reply,
    WorkerConfig,
};
use crate::egress::{all_targets, proxies_take_part, try_egress_targets};
use crate::http::worker_names;
use crate::registry::{
    get_proxy, get_worker, insert_proxy, insert_worker, list_proxies, list_workers, new_proxies,
    new_workers, proxy_contents, remove_proxy, remove_worker, target_texts, worker_contents,
};
use crate::requests::{at_least_500, copy_bytes, patient, PushPayload, Step};
use crate::text::joined;

verus! {

/// The time between two rounds of asking, in milliseconds.
pub const PULL_PAUSE_MS: u64 = 300;

/// A request that binds this machine to a worker, or unbinds it; its body holds
/// the machine identifier.
#[derive(Debug)]
pub struct PollBindRequest {
    pub url: String,
    pub api_token: String,
    pub timeout_ms: u64,
    pub machine_id: String,
}

/// A request for messages.
#[derive(Debug)]
pub struct PollRequest {
    pub url: String,
    pub api_token: String,
    pub timeout_ms: u64,
}

/// A request that hands a sample to a worker.
#[derive(Debug)]
pub struct PollPush {
    pub url: String,
    pub api_token: String,
    pub content_type: &'static str,
    pub payload: PushPayload,
}

/// Whether a request names this machine at the given path and within the given
/// time.
pub open spec fn names_machine(
    request: PollBindRequest,
    base_url: Seq<char>,
    config: CloudflareConfig,
    path: Seq<char>,
    timeout_ms: int,
) -> bool {
    &&& request.url@ == base_url + path
    &&& request.api_token@ == config.api_token@
    &&& request.timeout_ms == timeout_ms
    &&& request.machine_id@ == config.machine_id@
}

/// Whether a request asks a worker to bind this machine.
pub open spec fn asks_to_bind(
    request: PollBindRequest,
    base_url: Seq<char>,
    config: CloudflareConfig,
) -> bool {
    names_machine(request, base_url, config, config.bind_path@, config.request_timeout_ms as int)
}

/// Whether a request asks a worker to let this machine go.
pub open spec fn asks_to_unbind(
    request: PollBindRequest,
    base_url: Seq<char>,
    config: CloudflareConfig,
) -> bool {
    names_machine(
        request,
        base_url,
        config,
        config.unbind_path@,
        at_least_500(config.request_timeout_ms),
    )
}

/// Whether a request asks a Cloudflare worker for messages.
pub open spec fn asks(request: PollRequest, base_url: Seq<char>, config: CloudflareConfig) -> bool {
    &&& request.url@ == base_url + config.pull_path@
    &&& request.api_token@ == config.api_token@
    &&& request.timeout_ms == at_least_500(config.request_timeout_ms)
}

/// Whether a request hands a sample to a target.
pub open spec fn hands_over(
    request: PollPush,
    target: (Seq<char>, CloudflareConfig),
    topic: Seq<char>,
    data: Seq<u8>,
) -> bool {
    &&& request.url@ == target.0
    &&& request.api_token@ == target.1.api_token@
    &&& request.content_type@ == "application/cbor"@
    &&& request.payload.machine_id@ == target.1.machine_id@
    &&& request.payload.topic@ == topic
    &&& request.payload.data@ == data
}

/// Whether there is one request for each target, in their order.
pub open spec fn hand_over_all(
    requests: Seq<PollPush>,
    targets: Seq<(Seq<char>, CloudflareConfig)>,
    topic: Seq<char>,
    data: Seq<u8>,
) -> bool {
    &&& requests.len() == targets.len()
    &&& forall|i: int|
        0 <= i < requests.len() ==> hands_over(#[trigger] requests[i], targets[i], topic, data)
}

/// The Cloudflare workers among the workers, in their order.
pub open spec fn cloudflare_workers(workers: Seq<(Seq<char>, WorkerConfig)>) -> Seq<
    (Seq<char>, CloudflareConfig),
> {
    workers.map_values(
        |w: (Seq<char>, WorkerConfig)|
            match w.1 {
                WorkerConfig::Cloudflare(c) => seq![(w.0, c)],
                _ => Seq::empty(),
            },
    ).flatten()
}

/// Whether there is one request for each Cloudflare worker, in their order.
pub open spec fn ask_all(requests: Seq<PollRequest>, workers: Seq<(Seq<char>, WorkerConfig)>) -> bool {
    &&& requests.len() == cloudflare_workers(workers).len()
    &&& forall|i: int|
        0 <= i < requests.len() ==> asks(
            #[trigger] requests[i],
            cloudflare_workers(workers)[i].0,
            cloudflare_workers(workers)[i].1,
        )
}

/// How an error reads.
pub open spec fn error_text(error: RelayError, step: Step) -> Seq<char> {
    match error {
        RelayError::UnknownProxy(_) => "no proxy found for the provided topic pattern"@,
        RelayError::UnknownWorker(_) => "no active worker found for the provided base url"@,
        RelayError::NotCloudflare => "invalid config for cloudflare"@,
        _ => crate::requests::error_text(error, step),
    }
}

/// How an error reads.
pub fn error_message(error: &RelayError, step: Step) -> (r: String)
    ensures
        r@ == error_text(*error, step),
{
    match error {
        RelayError::UnknownProxy(_) => "no proxy found for the provided topic pattern".to_string(),
        RelayError::UnknownWorker(_) => {
            "no active worker found for the provided base url".to_string()
        },
        RelayError::NotCloudflare => "invalid config for cloudflare".to_string(),
        _ => crate::requests::error_message(error, step),
    }
}

/// The relay's state: the registered proxies and the bound workers.
pub struct WorkerRelay {
    proxy_registry: DashMap<String, Vec<String>>,
    workers: DashMap<String, WorkerConfig>,
}

/// The request that names this machine to a worker.
fn machine_request(base_url: &str, config: &CloudflareConfig, path: &str, timeout_ms: u64) -> (r:
    PollBindRequest)
    ensures
        names_machine(r, base_url@, *config, path@, timeout_ms as int),
{
    PollBindRequest {
        url: joined(base_url, path),
        api_token: config.api_token.clone(),
        timeout_ms,
        machine_id: config.machine_id.clone(),
    }
}

impl WorkerRelay {
    /// A relay without proxies and workers.
    pub fn new() -> (r: WorkerRelay)
        ensures
            r.wf(),
            r.proxies().dom() == Set::<Seq<char>>::empty(),
            r.workers().dom() == Set::<Seq<char>>::empty(),
    {
        WorkerRelay { proxy_registry: new_proxies(), workers: new_workers() }
    }

    /// The request that binds this machine to a worker, or why it cannot be bound.
    pub fn bind_worker(&self, base_url: &str, config: &WorkerConfig) -> (r: Result<
        PollBindRequest,
        RelayError,
    >)
        ensures
            r is Ok <==> bindable(*config),
            match r {
                Ok(request) => *config matches WorkerConfig::Cloudflare(c) && names_machine(
                    request,
                    base_url@,
                    c,
                    c.bind_path@,
                    c.request_timeout_ms as int,
                ),
                Err(e) => bind_refusal(*config) == Some(e),
            },
            r matches Ok(request) ==> (*config matches WorkerConfig::Cloudflare(c) && asks_to_bind(
                request,
                base_url@,
                c,
            )),
    {
        match check_bindable(config) {
            Ok(c) => Ok(machine_request(base_url, c, &c.bind_path, c.request_timeout_ms)),
            Err(e) => Err(e),
        }
    }

    /// Takes the worker's reply to the request of [`WorkerRelay::bind_worker`]: the
    /// worker is bound if it accepted, and nothing changes if it did not.
    pub fn worker_replied(&mut self, base_url: &str, config: WorkerConfig, reply: Reply) -> (r:
        Result<(), RelayError>)
        requires
            old(self).wf(),
            bindable(config),
        ensures
            final(self).wf(),
            final(self).proxies() == old(self).proxies(),
            match r {
                Ok(_) => {
                    &&& reply == Reply::Accepted
                    &&& final(self).workers() == old(self).workers().insert(base_url@, config)
                },
                Err(e) => {
                    &&& reply_error(reply) == Some(e)
                    &&& final(self).workers() == old(self).workers()
                },
            },
            final(self).workers() == workers_after_bind(
                old(self).workers(),
                base_url@,
                config,
                reply,
            ),
    {
        match check_reply(reply) {
            Ok(_) => {
                insert_worker(&mut self.workers, base_url.to_string(), config);
                Ok(())
            },
            Err(e) => Err(e),
        }
    }

    /// The request that tells a worker that it is unbound; the worker stays until
    /// it has accepted.
    pub fn unbind_worker(&self, base_url: &str) -> (r: Result<PollBindRequest, RelayError>)
        requires
            self.wf(),
        ensures
            r is Ok <==> self.workers().contains_key(base_url@),
            match r {
                Ok(request) => self.workers()[base_url@] matches WorkerConfig::Cloudflare(c)
                    && names_machine(
                    request,
                    base_url@,
                    c,
                    c.unbind_path@,
                    at_least_500(c.request_timeout_ms),
                ),
                Err(e) => e matches RelayError::UnknownWorker(u) && u@ == base_url@,
            },
            r matches Ok(request) ==> (
            self.workers()[base_url@] matches WorkerConfig::Cloudflare(c) && asks_to_unbind(
                request,
                base_url@,
                c,
            )),
    {
        match get_worker(&self.workers, base_url) {
            Some(config) => match config {
                WorkerConfig::Cloudflare(c) => Ok(
                    machine_request(base_url, &c, &c.unbind_path, patient(c.request_timeout_ms)),
                ),
                _ => {
                    assert(bindable(config));
                    Err(RelayError::NotCloudflare)
                },
            },
            None => Err(RelayError::UnknownWorker(base_url.to_string())),
        }
    }

    /// Takes the worker's reply to the request of [`WorkerRelay::unbind_worker`]:
    /// the worker is gone if it accepted, and nothing changes if it did not.
    pub fn worker_let_go(&mut self, base_url: &str, reply: Reply) -> (r: Result<(), RelayError>)
        requires
            old(self).wf(),
        ensures
            final(self).wf(),
            final(self).proxies() == old(self).proxies(),
            match r {
                Ok(_) => {
                    &&& reply == Reply::Accepted
                    &&& final(self).workers() == old(self).workers().remove(base_url@)
                },
                Err(e) => {
                    &&& reply_error(reply) == Some(e)
                    &&& final(self).workers() == old(self).workers()
                },
            },
            reply == Reply::Accepted ==> final(self).workers() == workers_without(
                old(self).workers(),
                base_url@,
            ),
    {
        match check_reply(reply) {
            Ok(_) => {
                let _ = remove_worker(&mut self.workers, base_url);
                Ok(())
            },
            Err(e) => Err(e),
        }
    }

    /// The workers that a run of the relay serves: those bound when it starts.
    pub fn worker_snapshot(&self) -> (r: Vec<(String, WorkerConfig)>)
        ensures
            lists(worker_texts(r@), self.workers()),
    {
        list_workers(&self.workers)
    }
}

impl Relay for WorkerRelay {
    closed spec fn proxies(&self) -> Map<Seq<char>, Seq<Seq<char>>> {
        proxy_contents(self.proxy_registry)
    }

    closed spec fn workers(&self) -> Map<Seq<char>, WorkerConfig> {
        worker_contents(self.workers)
    }

    closed spec fn wf(&self) -> bool {
        forall|key: Seq<char>| #[trigger]
            worker_contents(self.workers).contains_key(key) ==> bindable(
                worker_contents(self.workers)[key],
            )
    }

    fn register_proxy(&mut self, topic_pattern: &str, url_pattern: &str) -> (r: Result<
        (),
        RelayError,
    >) {
        let mut urls = match get_proxy(&self.proxy_registry, topic_pattern) {
            Some(urls) => urls,
            None => Vec::new(),
        };
        let ghost before = texts(urls@);
        urls.push(url_pattern.to_string());
        assert(texts(urls@) =~= before.push(url_pattern@));
        insert_proxy(&mut self.proxy_registry, topic_pattern.to_string(), urls);
        proof {
            if !old(self).proxies().contains_key(topic_pattern@) {
                assert(before.push(url_pattern@) =~= seq![url_pattern@]);
            }
        }
        Ok(())
    }

    fn unregister_proxy(&mut self, topic_pattern: &str) -> (r: Result<(), RelayError>) {
        if remove_proxy(&mut self.proxy_registry, topic_pattern).is_none() {
            return Err(RelayError::UnknownProxy(topic_pattern.to_string()));
        }
        Ok(())
    }

    fn get_proxy_registry(&self) -> (r: Vec<(String, Vec<String>)>) {
        list_proxies(&self.proxy_registry)
    }

    fn get_worker_list(&self) -> (r: Vec<String>) {
        let workers = list_workers(&self.workers);
        worker_names(&workers)
    }
}

/// The requests of one round of asking: one for each Cloudflare worker.
pub fn pull_requests(workers: &Vec<(String, WorkerConfig)>) -> (r: Vec<PollRequest>)
    ensures
        ask_all(r@, worker_texts(workers@)),
{
    let mut r: Vec<PollRequest> = Vec::new();
    let ghost ws = worker_texts(workers@);
    let ghost f = |w: (Seq<char>, WorkerConfig)|
        match w.1 {
            WorkerConfig::Cloudflare(c) => seq![(w.0, c)],
            _ => Seq::empty(),
        };
    let mut i: usize = 0;
    assert(cloudflare_workers(ws.take(0)) =~= Seq::empty());
    while i < workers.len()
        invariant
            i <= workers.len(),
            ws == worker_texts(workers@),
            f == (|w: (Seq<char>, WorkerConfig)|
                match w.1 {
                    WorkerConfig::Cloudflare(c) => seq![(w.0, c)],
                    _ => Seq::empty(),
                }),
            ask_all(r@, ws.take(i as int)),
        decreases workers.len() - i,
    {
        let ghost before = cloudflare_workers(ws.take(i as int));
        proof {
            ws.lemma_flat_map_take_append(f, i as int);
            assert(cloudflare_workers(ws.take(i + 1)) == ws.take(i + 1).flat_map(f));
            assert(before == ws.take(i as int).flat_map(f));
        }
        if let WorkerConfig::Cloudflare(c) = &workers[i].1 {
            let request = PollRequest {
                url: joined(&workers[i].0, &c.pull_path),
                api_token: c.api_token.clone(),
                timeout_ms: patient(c.request_timeout_ms),
            };
            r.push(request);
            assert(f(ws[i as int]) =~= seq![(workers@[i as int].0@, *c)]);
        } else {
            assert(f(ws[i as int]) =~= Seq::empty());
            assert(before + f(ws[i as int]) =~= before);
        }
        i += 1;
    }
    assert(ws.take(i as int) =~= ws);
    r
}

/// The request that hands a sample to each of its targets, in their order.
pub fn hand_over(targets: &Vec<(String, CloudflareConfig)>, topic: &str, data: &Vec<u8>) -> (r: Vec<
    PollPush,
>)
    ensures
        hand_over_all(r@, target_texts(targets@), topic@, data@),
{
    let mut r: Vec<PollPush> = Vec::new();
    let mut i: usize = 0;
    while i < targets.len()
        invariant
            i <= targets.len(),
            r.len() == i,
            forall|k: int|
                0 <= k < r.len() ==> hands_over(
                    #[trigger] r@[k],
                    target_texts(targets@)[k],
                    topic@,
                    data@,
                ),
        decreases targets.len() - i,
    {
        let cfg = &targets[i].1;
        let request = PollPush {
            url: targets[i].0.clone(),
            api_token: cfg.api_token.clone(),
            content_type: "application/cbor",
            payload: PushPayload {
                machine_id: cfg.machine_id.clone(),
                topic: topic.to_string(),
                data: copy_bytes(data),
            },
        };
        r.push(request);
        i += 1;
    }
    r
}

/// The requests that hand a sample of the bus to the workers: for each pattern,
/// for each of its addresses that the topic has, for each worker that serves the
/// address. `None` where a group of some pattern is left out of a match.
pub fn push_requests(
    proxies: &Vec<(String, Vec<String>)>,
    workers: &Vec<(String, WorkerConfig)>,
    topic: &str,
    data: &Vec<u8>,
) -> (r: Option<Vec<PollPush>>)
    ensures
        r is Some <==> proxies_take_part(proxy_texts(proxies@), topic@),
        r matches Some(requests) ==> hand_over_all(
            requests@,
            all_targets(proxy_texts(proxies@), topic@, worker_texts(workers@)),
            topic@,
            data@,
        ),
{
    match try_egress_targets(proxies, workers, topic) {
        Some(targets) => Some(hand_over(&targets, topic, data)),
        None => None,
    }
}

/// Every bound worker is a Cloudflare worker with a token and a machine identifier.
pub proof fn bound_workers_hold_credentials(relay: WorkerRelay, base_url: Seq<char>)
    requires
        relay.wf(),
        relay.workers().contains_key(base_url),
    ensures
        bindable(relay.workers()[base_url]),
{
}

} // verus!
