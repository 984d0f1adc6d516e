//! What holds of every request to a worker, and of every refusal.

use vstd::prelude::*;

use crate::config::{
    bind_refusal, bindable, proxy_texts, reply_error, texts, without_proxy, worker_texts,
    workers_after_bind, workers_without, CloudflareConfig, RelayConfig, RelayError, Reply, WorkerConfig,
};
use crate::http::effective;
use crate::registry::target_texts;
use crate::requests::{
    asks_to_bind, asks_to_unbind, at_least_500, callback_url, error_text, push_failure_text, pushes, tells_worker, BindRequest,
    PushRequest, Step,
};
use crate::worker::{
    ask_all, cloudflare_workers, hand_over_all, names_machine, PollBindRequest, PollPush,
    PollRequest,
};

verus! {

/// Whether the numbers rise.
pub open spec fn rising(ks: Seq<int>) -> bool {
    forall|i: int, j: int| 0 <= i < j < ks.len() ==> #[trigger] ks[i] < #[trigger] ks[j]
}

/// The Cloudflare workers of a list, by their indices.
proof fn lemma_cloudflare_workers(workers: Seq<(Seq<char>, WorkerConfig)>) -> (ks: Seq<int>)
    ensures
        ks.len() == cloudflare_workers(workers).len(),
        rising(ks),
        forall|i: int|
            0 <= i < ks.len() ==> 0 <= #[trigger] ks[i] < workers.len() && workers[ks[i]].0
                == cloudflare_workers(workers)[i].0 && workers[ks[i]].1 == WorkerConfig::Cloudflare(
                cloudflare_workers(workers)[i].1,
            ),
        forall|w: int|
            0 <= w < workers.len() && (#[trigger] workers[w]).1 is Cloudflare ==> ks.contains(w),
        ks.len() == workers.filter(|w: (Seq<char>, WorkerConfig)| w.1 is Cloudflare).len(),
    decreases workers.len(),
{
    let keep = |w: (Seq<char>, WorkerConfig)| w.1 is Cloudflare;
    if workers.len() == 0 {
        assert(cloudflare_workers(workers) =~= Seq::empty());
        workers.lemma_filter_len(keep);
        Seq::empty()
    } else {
        let n = workers.len() - 1;
        let rest = workers.drop_last();
        let last = workers[n];
        let ks = lemma_cloudflare_workers(rest);
        let one: Seq<(Seq<char>, CloudflareConfig)> = match last.1 {
            WorkerConfig::Cloudflare(c) => seq![(last.0, c)],
            _ => Seq::empty(),
        };
        let f = |w: (Seq<char>, WorkerConfig)|
            match w.1 {
                WorkerConfig::Cloudflare(c) => seq![(w.0, c)],
                _ => Seq::empty(),
            };
        assert(workers.map_values(f) =~= rest.map_values(f).push(one));
        rest.map_values(f).lemma_flatten_push(one);
        assert(cloudflare_workers(workers) =~= cloudflare_workers(rest) + one);
        rest.lemma_filter_push(last, keep);
        assert(workers =~= rest.push(last));
        let all = if one.len() == 0 {
            ks
        } else {
            ks.push(n)
        };
        assert forall|i: int| 0 <= i < all.len() implies 0 <= #[trigger] all[i] < workers.len()
            && workers[all[i]].0 == cloudflare_workers(workers)[i].0 && workers[all[i]].1
            == WorkerConfig::Cloudflare(cloudflare_workers(workers)[i].1) by {
            if i < ks.len() {
                assert(all[i] == ks[i]);
                assert(rest[ks[i]] == workers[ks[i]]);
            }
        }
        assert forall|w: int|
            0 <= w < workers.len() && (
            #[trigger] workers[w]).1 is Cloudflare implies all.contains(w) by {
            if w < n {
                assert(rest[w] == workers[w]);
                assert(ks.contains(w));
                let k = choose|k: int| 0 <= k < ks.len() && ks[k] == w;
                assert(all[k] == w);
            } else {
                assert(all[ks.len() as int] == w);
            }
        }
        all
    }
}

/// In one round every listed Cloudflare worker is asked exactly once, whatever its
/// settings hold, and no other worker is: at its base address with the pull path,
/// with its token, and with its timeout but at least half a second.
pub proof fn every_cloudflare_worker_is_asked_once(
    requests: Seq<PollRequest>,
    workers: Seq<(Seq<char>, WorkerConfig)>,
) -> (ks: Seq<int>)
    requires
        ask_all(requests, workers),
    ensures
        ks.len() == requests.len(),
        rising(ks),
        forall|i: int|
            0 <= i < ks.len() ==> 0 <= #[trigger] ks[i] < workers.len() && (
            workers[ks[i]].1 matches WorkerConfig::Cloudflare(c) && requests[i].url@
                == workers[ks[i]].0 + c.pull_path@ && requests[i].api_token@ == c.api_token@
                && requests[i].timeout_ms == if c.request_timeout_ms < 500 {
                500
            } else {
                c.request_timeout_ms
            }),
        forall|w: int|
            0 <= w < workers.len() && (#[trigger] workers[w]).1 is Cloudflare ==> ks.contains(w),
        requests.len() == workers.filter(|w: (Seq<char>, WorkerConfig)| w.1 is Cloudflare).len(),
{
    let ks = lemma_cloudflare_workers(workers);
    assert forall|i: int| 0 <= i < ks.len() implies 0 <= #[trigger] ks[i] < workers.len() && (
    workers[ks[i]].1 matches WorkerConfig::Cloudflare(c) && requests[i].url@ == workers[ks[i]].0
        + c.pull_path@ && requests[i].api_token@ == c.api_token@ && requests[i].timeout_ms
        == if c.request_timeout_ms < 500 {
        500
    } else {
        c.request_timeout_ms
    }) by {
        assert(requests[i] == requests[i]);
    }
    ks
}

/// A sample is handed over once for each target, in their order: at the target's
/// address, with its token, as CBOR, with its machine identifier, the topic and the
/// bytes as they are.
pub proof fn samples_are_handed_over_once(
    requests: Seq<PollPush>,
    targets: Seq<(Seq<char>, CloudflareConfig)>,
    topic: Seq<char>,
    data: Seq<u8>,
    i: int,
)
    requires
        hand_over_all(requests, targets, topic, data),
        0 <= i < targets.len(),
    ensures
        requests.len() == targets.len(),
        requests[i].url@ == targets[i].0,
        requests[i].api_token@ == targets[i].1.api_token@,
        requests[i].content_type@ == "application/cbor"@,
        requests[i].payload.machine_id@ == targets[i].1.machine_id@,
        requests[i].payload.topic@ == topic,
        requests[i].payload.data@ == data,
{
    assert(requests[i] == requests[i]);
}

/// A pushed sample goes to the target's address with its token, timeout and machine
/// identifier, and holds the topic and the bytes as they are.
pub proof fn pushed_samples_are_whole(
    request: PushRequest,
    target: (Seq<char>, CloudflareConfig),
    topic: Seq<char>,
    data: Seq<u8>,
)
    requires
        pushes(request, target, topic, data),
    ensures
        request.url@ == target.0,
        request.api_token@ == target.1.api_token@,
        request.timeout_ms == target.1.request_timeout_ms,
        request.machine_id@ == target.1.machine_id@,
        request.file_name@ == "cbor_payload"@,
        request.mime@ == "application/cbor"@,
        request.payload.machine_id@ == target.1.machine_id@,
        request.payload.topic@ == topic,
        request.payload.data@ == data,
{
}

/// A worker is told this machine's identifier and where to call: the configured
/// address, or the local one where none is configured. Nothing else of the settings
/// matters but the token.
pub proof fn workers_are_told_where_to_call(
    request: BindRequest,
    base_url: Seq<char>,
    config: CloudflareConfig,
    path: Seq<char>,
    timeout_ms: int,
)
    requires
        tells_worker(request, base_url, config, path, timeout_ms),
    ensures
        request.url@ == base_url + path,
        request.api_token@ == config.api_token@,
        request.timeout_ms == timeout_ms,
        request.payload.machine_id@ == config.machine_id@,
        config.ingress_url@.len() > 0 ==> request.payload.ingress_url@ == config.ingress_url@,
        config.ingress_url@.len() == 0 ==> request.payload.ingress_url@ == "http://"@
            + config.local_address@,
{
}

/// The polling relay tells a worker this machine's identifier.
pub proof fn workers_are_told_the_machine(
    request: PollBindRequest,
    base_url: Seq<char>,
    config: CloudflareConfig,
    path: Seq<char>,
    timeout_ms: int,
)
    requires
        names_machine(request, base_url, config, path, timeout_ms),
    ensures
        request.url@ == base_url + path,
        request.api_token@ == config.api_token@,
        request.timeout_ms == timeout_ms,
        request.machine_id@ == config.machine_id@,
{
}

/// The address that a worker is told depends on the configured and the local
/// address alone.
pub proof fn callback_depends_on_addresses_alone(a: CloudflareConfig, b: CloudflareConfig)
    requires
        a.ingress_url@ == b.ingress_url@,
        a.local_address@ == b.local_address@,
    ensures
        callback_url(a) == callback_url(b),
{
}

/// A timeout is kept, but never falls below half a second.
pub proof fn timeouts_reach_half_a_second(timeout_ms: u64)
    ensures
        at_least_500(timeout_ms) >= 500,
        at_least_500(timeout_ms) >= timeout_ms,
        at_least_500(timeout_ms) == 500 || at_least_500(timeout_ms) == timeout_ms,
{
}

/// A worker can be bound exactly where nothing speaks against it: it is of the
/// Cloudflare kind, and neither its token nor its machine identifier is empty. The
/// kind is named first, then the token, then the identifier; no other setting
/// matters.
pub proof fn what_speaks_against_a_worker(config: WorkerConfig)
    ensures
        bind_refusal(config) is None <==> bindable(config),
        !(config is Cloudflare) ==> bind_refusal(config) == Some(RelayError::NotCloudflare),
        config matches WorkerConfig::Cloudflare(c) ==> {
            &&& c.api_token@.len() == 0 ==> bind_refusal(config) == Some(RelayError::EmptyToken)
            &&& c.api_token@.len() > 0 && c.machine_id@.len() == 0 ==> bind_refusal(config)
                == Some(RelayError::EmptyMachineId)
            &&& c.api_token@.len() > 0 && c.machine_id@.len() > 0 ==> bindable(config)
        },
{
}

/// A reply is an error exactly where the worker did not accept, and the two ways of
/// failing are told apart.
pub proof fn only_accepted_replies_are_no_error(reply: Reply)
    ensures
        reply_error(reply) is None <==> reply == Reply::Accepted,
        reply == Reply::Unreachable ==> reply_error(reply) == Some(RelayError::Unreachable),
        reply == Reply::Rejected ==> reply_error(reply) == Some(RelayError::Rejected),
{
}

/// A push fails exactly where the worker did not accept it, and the report names
/// the address.
pub proof fn failed_pushes_name_the_address(push_url: Seq<char>, reply: Reply)
    ensures
        push_failure_text(push_url, reply) is None <==> reply == Reply::Accepted,
        reply == Reply::Unreachable ==> push_failure_text(push_url, reply) == Some(
            "failed to reach worker at "@ + push_url,
        ),
        reply == Reply::Rejected ==> push_failure_text(push_url, reply) == Some(
            "worker at "@ + push_url + " rejected push"@,
        ),
{
}

/// The relay that is called back names the pattern or the base address that it does
/// not know, and what it was doing when a worker failed it.
pub proof fn errors_name_their_cause(name: String, step: Step)
    ensures
        error_text(RelayError::UnknownProxy(name), step) == "no proxy found for topic pattern: "@
            + name@,
        error_text(RelayError::UnknownWorker(name), step) == "no active worker for: "@ + name@,
        error_text(RelayError::NotCloudflare, step)
            == "bind_worker only supports Cloudflare configs"@,
        error_text(RelayError::EmptyToken, step) == "Cloudflare api_token cannot be empty"@,
        error_text(RelayError::EmptyMachineId, step) == "Cloudflare machine_id cannot be empty"@,
        error_text(RelayError::NoWorkers, step)
            == "listen() called with no Cloudflare workers bound"@,
        error_text(RelayError::Unreachable, Step::Bind)
            == "failed to reach Cloudflare worker during bind"@,
        error_text(RelayError::Unreachable, Step::Unbind)
            == "failed to reach Cloudflare worker during unbind"@,
        error_text(RelayError::Rejected, Step::Bind) == "Cloudflare worker rejected bind request"@,
        error_text(RelayError::Rejected, Step::Unbind)
            == "Cloudflare worker rejected unbind request"@,
{
}

/// The polling relay words three errors in its own way, and all others as the relay
/// that is called back does.
pub proof fn polling_errors(error: RelayError, step: Step)
    ensures
        error is UnknownProxy ==> crate::worker::error_text(error, step)
            == "no proxy found for the provided topic pattern"@,
        error is UnknownWorker ==> crate::worker::error_text(error, step)
            == "no active worker found for the provided base url"@,
        error is NotCloudflare ==> crate::worker::error_text(error, step)
            == "invalid config for cloudflare"@,
        !(error is UnknownProxy) && !(error is UnknownWorker) && !(error is NotCloudflare)
            ==> crate::worker::error_text(error, step) == error_text(error, step),
{
}

/// A setting of a relay is kept unless it is zero, which stands for the default:
/// ten thousand topics, and five minutes. Nothing changes the second time.
pub proof fn settings_are_kept_unless_zero(cfg: RelayConfig)
    ensures
        cfg.cache_max_cap != 0 ==> effective(cfg).cache_max_cap == cfg.cache_max_cap,
        cfg.cache_max_cap == 0 ==> effective(cfg).cache_max_cap == 10_000,
        cfg.cache_ttl_nanos != 0 ==> effective(cfg).cache_ttl_nanos == cfg.cache_ttl_nanos,
        cfg.cache_ttl_nanos == 0 ==> effective(cfg).cache_ttl_nanos == 5 * 60 * 1_000_000_000,
        effective(effective(cfg)) == effective(cfg),
{
}

/// The text of a list is the list of the texts: nothing is left out, added or
/// changed.
pub proof fn lists_are_read_whole(
    names: Seq<String>,
    proxies: Seq<(String, Vec<String>)>,
    workers: Seq<(String, WorkerConfig)>,
    targets: Seq<(String, CloudflareConfig)>,
)
    ensures
        texts(names).len() == names.len(),
        forall|i: int| 0 <= i < names.len() ==> #[trigger] texts(names)[i] == names[i]@,
        proxy_texts(proxies).len() == proxies.len(),
        forall|i: int|
            0 <= i < proxies.len() ==> (#[trigger] proxy_texts(proxies)[i]).0 == proxies[i].0@
                && proxy_texts(proxies)[i].1.len() == proxies[i].1@.len(),
        forall|i: int, u: int|
            0 <= i < proxies.len() && 0 <= u < proxies[i].1@.len()
                ==> #[trigger] proxy_texts(proxies)[i].1[u] == proxies[i].1@[u]@,
        worker_texts(workers).len() == workers.len(),
        forall|i: int|
            0 <= i < workers.len() ==> #[trigger] worker_texts(workers)[i] == (
                workers[i].0@,
                workers[i].1,
            ),
        target_texts(targets).len() == targets.len(),
        forall|i: int|
            0 <= i < targets.len() ==> #[trigger] target_texts(targets)[i] == (
                targets[i].0@,
                targets[i].1,
            ),
{
}

/// A worker is bound at its bind path, within its own time, and let go at its unbind
/// path, within its own time but at least half a second; with its token, and under the
/// machine identifier of its settings.
pub proof fn workers_are_bound_and_let_go_at_their_paths(
    request: BindRequest,
    base_url: Seq<char>,
    c: CloudflareConfig,
)
    ensures
        asks_to_bind(request, base_url, c) ==> request.url@ == base_url + c.bind_path@
            && request.timeout_ms == c.request_timeout_ms,
        asks_to_unbind(request, base_url, c) ==> request.url@ == base_url + c.unbind_path@
            && request.timeout_ms >= 500 && request.timeout_ms >= c.request_timeout_ms && (
        request.timeout_ms == 500 || request.timeout_ms == c.request_timeout_ms),
        asks_to_bind(request, base_url, c) || asks_to_unbind(request, base_url, c) ==> {
            &&& request.api_token@ == c.api_token@
            &&& request.payload.machine_id@ == c.machine_id@
            &&& c.ingress_url@.len() > 0 ==> request.payload.ingress_url@ == c.ingress_url@
            &&& c.ingress_url@.len() == 0 ==> request.payload.ingress_url@ == "http://"@
                + c.local_address@
        },
{
}

/// The polling relay binds a worker and lets it go at the same paths and within the
/// same times.
pub proof fn polled_workers_are_bound_and_let_go_at_their_paths(
    request: PollBindRequest,
    base_url: Seq<char>,
    c: CloudflareConfig,
)
    ensures
        crate::worker::asks_to_bind(request, base_url, c) ==> request.url@ == base_url
            + c.bind_path@ && request.timeout_ms == c.request_timeout_ms,
        crate::worker::asks_to_unbind(request, base_url, c) ==> request.url@ == base_url
            + c.unbind_path@ && request.timeout_ms >= 500 && request.timeout_ms
            >= c.request_timeout_ms && (request.timeout_ms == 500 || request.timeout_ms
            == c.request_timeout_ms),
        crate::worker::asks_to_bind(request, base_url, c) || crate::worker::asks_to_unbind(
            request,
            base_url,
            c,
        ) ==> request.api_token@ == c.api_token@ && request.machine_id@ == c.machine_id@,
{
}

/// A worker is bound with its settings exactly where it accepted, and replaces one
/// that was bound at the same address; every other worker stays as it is. Letting it
/// go again leaves the others.
pub proof fn workers_come_and_go(
    workers: Map<Seq<char>, WorkerConfig>,
    base_url: Seq<char>,
    config: WorkerConfig,
    reply: Reply,
    other: Seq<char>,
)
    ensures
        ({
            let after = workers_after_bind(workers, base_url, config, reply);
            &&& reply == Reply::Accepted ==> after.contains_key(base_url) && after[base_url]
                == config
            &&& reply != Reply::Accepted ==> after == workers
            &&& other != base_url ==> (after.contains_key(other) <==> workers.contains_key(other))
            &&& other != base_url && workers.contains_key(other) ==> after[other] == workers[other]
            &&& !workers.contains_key(base_url) ==> workers_without(after, base_url) == workers
        }),
        !workers_without(workers, base_url).contains_key(base_url),
        other != base_url ==> (workers_without(workers, base_url).contains_key(other)
            <==> workers.contains_key(other)),
        other != base_url && workers.contains_key(other) ==> workers_without(
            workers,
            base_url,
        )[other] == workers[other],
{
    let after = workers_after_bind(workers, base_url, config, reply);
    if !workers.contains_key(base_url) {
        assert(workers_without(after, base_url) =~= workers);
    }
}

/// Unregistering takes a pattern away with all its addresses, and leaves every other.
pub proof fn patterns_are_unregistered_alone(
    proxies: Map<Seq<char>, Seq<Seq<char>>>,
    topic: Seq<char>,
    other: Seq<char>,
)
    ensures
        !without_proxy(proxies, topic).contains_key(topic),
        other != topic ==> (without_proxy(proxies, topic).contains_key(other)
            <==> proxies.contains_key(other)),
        other != topic && proxies.contains_key(other) ==> without_proxy(proxies, topic)[other]
            == proxies[other],
{
}

} // verus!
