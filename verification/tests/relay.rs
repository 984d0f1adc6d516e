use std::collections::BTreeMap;

use sebeke::config::{
    check_bindable, check_reply, AWSConfig, CloudflareConfig, Relay, RelayConfig, RelayError,
    Reply, VercelConfig, WorkerConfig,
};
use sebeke::egress::{egress_targets, try_egress_targets};
use sebeke::http;
use sebeke::ingress::{
    field_kind, group_by_address, ingress_routes, payload_accepted, pull_status, FieldKind,
    FieldOutcome, PayloadOutcome,
};
use sebeke::requests::{self, push_failure, push_request, push_requests, Step};
use sebeke::worker;

fn settings(token: &str, machine: &str) -> CloudflareConfig {
    CloudflareConfig {
        api_token: token.to_string(),
        machine_id: machine.to_string(),
        ..CloudflareConfig::default()
    }
}

fn cloudflare(token: &str, machine: &str) -> WorkerConfig {
    WorkerConfig::Cloudflare(settings(token, machine))
}

fn defaults() -> RelayConfig {
    <http::WorkerRelay as Relay>::get_default_config()
}

fn bound(relay: &mut http::WorkerRelay, base: &str, config: WorkerConfig) {
    relay.bind_worker(base, &config).unwrap();
    relay.worker_replied(base, config, Reply::Accepted).unwrap();
}

fn urls(targets: &Vec<(String, CloudflareConfig)>) -> Vec<String> {
    let mut all: Vec<String> = targets.iter().map(|t| t.0.clone()).collect();
    all.sort();
    all
}

#[test]
fn default_settings() {
    let config = defaults();
    assert_eq!(config.cache_max_cap, 10_000);
    assert_eq!(config.cache_ttl_nanos, 300_000_000_000);
    let worker = CloudflareConfig::default();
    assert_eq!(worker.api_token, "");
    assert_eq!(worker.machine_id, "");
    assert_eq!(worker.request_timeout_ms, 5_000);
    assert_eq!(worker.pull_interval_ms, 300);
    assert_eq!(worker.bind_path, "/bind");
    assert_eq!(worker.unbind_path, "/unbind");
    assert_eq!(worker.push_path, "/push");
    assert_eq!(worker.pull_path, "/pull");
    assert_eq!(worker.local_address, "0.0.0.0:8787");
}

#[test]
fn proxies_are_registered_in_order() {
    let mut relay = http::WorkerRelay::new(defaults());
    assert!(relay.get_proxy_registry().is_empty());
    relay.register_proxy("a/**", "https://one/**").unwrap();
    relay.register_proxy("a/**", "https://two/**").unwrap();
    relay.register_proxy("b", "https://three").unwrap();
    let all: BTreeMap<String, Vec<String>> = relay.get_proxy_registry().into_iter().collect();
    assert_eq!(all.len(), 2);
    assert_eq!(all["a/**"], vec!["https://one/**", "https://two/**"]);
    assert_eq!(all["b"], vec!["https://three"]);
}

#[test]
fn unregistering_undoes_registering() {
    let mut relay = http::WorkerRelay::new(defaults());
    relay.register_proxy("a", "x").unwrap();
    relay.register_proxy("b", "y").unwrap();
    relay.unregister_proxy("a").unwrap();
    let left = relay.get_proxy_registry();
    assert_eq!(left, vec![("b".to_string(), vec!["y".to_string()])]);
    let error = relay.unregister_proxy("a").unwrap_err();
    assert_eq!(
        requests::error_message(&error, Step::Bind),
        "no proxy found for topic pattern: a"
    );
}

#[test]
fn workers_that_cannot_be_bound() {
    let relay = http::WorkerRelay::new(defaults());
    let refused = |config: &WorkerConfig| {
        requests::error_message(&relay.bind_worker("https://w", config).unwrap_err(), Step::Bind)
    };
    assert_eq!(
        refused(&WorkerConfig::AWS(AWSConfig {})),
        "bind_worker only supports Cloudflare configs"
    );
    assert_eq!(
        refused(&WorkerConfig::Vercel(VercelConfig {})),
        "bind_worker only supports Cloudflare configs"
    );
    assert_eq!(refused(&cloudflare("", "")), "Cloudflare api_token cannot be empty");
    assert_eq!(refused(&cloudflare("t", "")), "Cloudflare machine_id cannot be empty");
    assert!(check_bindable(&cloudflare("t", "m")).is_ok());
}

#[test]
fn binding_asks_the_worker() {
    let relay = http::WorkerRelay::new(defaults());
    let request = relay.bind_worker("https://w", &cloudflare("t", "m")).unwrap();
    assert_eq!(request.url, "https://w/bind");
    assert_eq!(request.api_token, "t");
    assert_eq!(request.timeout_ms, 5_000);
    assert_eq!(request.payload.machine_id, "m");
    assert_eq!(request.payload.ingress_url, "http://0.0.0.0:8787");
    let mut config = settings("t", "m");
    config.ingress_url = "https://me".to_string();
    let request = relay.bind_worker("https://w", &WorkerConfig::Cloudflare(config)).unwrap();
    assert_eq!(request.payload.ingress_url, "https://me");
}

#[test]
fn only_accepted_workers_are_bound() {
    let mut relay = http::WorkerRelay::new(defaults());
    let error = relay
        .worker_replied("https://w", cloudflare("t", "m"), Reply::Unreachable)
        .unwrap_err();
    assert_eq!(
        requests::error_message(&error, Step::Bind),
        "failed to reach Cloudflare worker during bind"
    );
    let error = relay
        .worker_replied("https://w", cloudflare("t", "m"), Reply::Rejected)
        .unwrap_err();
    assert_eq!(
        requests::error_message(&error, Step::Bind),
        "Cloudflare worker rejected bind request"
    );
    assert!(relay.get_worker_list().is_empty());
    bound(&mut relay, "https://w", cloudflare("t", "m"));
    assert_eq!(relay.get_worker_list(), vec!["https://w"]);
}

#[test]
fn unbinding_removes_at_once() {
    let mut relay = http::WorkerRelay::new(defaults());
    let mut config = settings("t", "m");
    config.request_timeout_ms = 100;
    bound(&mut relay, "https://w", WorkerConfig::Cloudflare(config));
    let request = relay.unbind_worker("https://w").unwrap();
    assert_eq!(request.url, "https://w/unbind");
    assert_eq!(request.timeout_ms, 500);
    assert!(relay.get_worker_list().is_empty());
    let error = relay.unbind_worker("https://w").unwrap_err();
    assert_eq!(
        requests::error_message(&error, Step::Unbind),
        "no active worker for: https://w"
    );
    assert_eq!(
        requests::error_message(&check_reply(Reply::Unreachable).unwrap_err(), Step::Unbind),
        "failed to reach Cloudflare worker during unbind"
    );
    assert_eq!(
        requests::error_message(&check_reply(Reply::Rejected).unwrap_err(), Step::Unbind),
        "Cloudflare worker rejected unbind request"
    );
}

#[test]
fn targets_are_the_workers_that_serve_the_address() {
    let mut relay = http::WorkerRelay::new(defaults());
    bound(&mut relay, "https://w", cloudflare("t", "m"));
    bound(&mut relay, "https://w/deep", cloudflare("t2", "m"));
    bound(&mut relay, "https://other", cloudflare("t3", "m"));
    relay.register_proxy("cam/**", "https://w/deep/**").unwrap();
    relay.register_proxy("lamp", "https://other/").unwrap();
    let targets = relay.resolve_egress_targets("cam/1");
    assert_eq!(urls(&targets), vec!["https://w/deep/push", "https://w/push"]);
    assert_eq!(urls(&relay.resolve_egress_targets("lamp")), vec!["https://other/push"]);
    assert!(relay.resolve_egress_targets("fan").is_empty());
}

#[test]
fn remembered_targets_follow_every_change() {
    let mut relay = http::WorkerRelay::new(defaults());
    relay.register_proxy("a", "https://w/x").unwrap();
    assert!(relay.resolve_egress_targets("a").is_empty());
    bound(&mut relay, "https://w", cloudflare("t", "m"));
    assert_eq!(urls(&relay.resolve_egress_targets("a")), vec!["https://w/push"]);
    assert_eq!(urls(&relay.resolve_egress_targets("a")), vec!["https://w/push"]);
    relay.register_proxy("*", "https://w/y").unwrap();
    assert_eq!(
        urls(&relay.resolve_egress_targets("a")),
        vec!["https://w/push", "https://w/push"]
    );
    relay.unregister_proxy("a").unwrap();
    assert_eq!(urls(&relay.resolve_egress_targets("a")), vec!["https://w/push"]);
    relay.unbind_worker("https://w").unwrap();
    assert!(relay.resolve_egress_targets("a").is_empty());
}

#[test]
fn settings_of_zero_stand_for_the_default() {
    let mut relay = http::WorkerRelay::new(RelayConfig { cache_max_cap: 0, cache_ttl_nanos: 0 });
    relay.register_proxy("a", "https://w/x").unwrap();
    bound(&mut relay, "https://w", cloudflare("t", "m"));
    assert_eq!(relay.resolve_egress_targets("a").len(), 1);
    assert_eq!(relay.resolve_egress_targets("a").len(), 1);
    let mut small = http::WorkerRelay::new(RelayConfig { cache_max_cap: 1, cache_ttl_nanos: 1 });
    small.register_proxy("*", "https://w/x").unwrap();
    bound(&mut small, "https://w", cloudflare("t", "m"));
    for topic in ["a", "b", "c", "a"] {
        assert_eq!(small.resolve_egress_targets(topic).len(), 1);
    }
}

#[test]
fn groups_that_take_no_part_are_reported() {
    let mut relay = http::WorkerRelay::new(defaults());
    relay.register_proxy("(a)?b", "https://w/x").unwrap();
    bound(&mut relay, "https://w", cloudflare("t", "m"));
    assert!(relay.try_resolve_egress_targets("b").is_none());
    assert_eq!(relay.try_resolve_egress_targets("ab").unwrap().len(), 1);
    let proxies = relay.get_proxy_registry();
    let workers = vec![("https://w".to_string(), cloudflare("t", "m"))];
    assert!(try_egress_targets(&proxies, &workers, "b").is_none());
    assert!(worker::push_requests(&proxies, &workers, "b", &vec![]).is_none());
}

#[test]
fn targets_by_pattern_address_and_worker() {
    let proxies = vec![
        ("a/*".to_string(), vec!["w1/*".to_string(), "w2/*".to_string()]),
        ("**".to_string(), vec!["w1/all".to_string()]),
    ];
    let workers = vec![
        ("w1".to_string(), cloudflare("t1", "m")),
        ("w2".to_string(), cloudflare("t2", "m")),
        ("w".to_string(), WorkerConfig::AWS(AWSConfig {})),
    ];
    let targets = egress_targets(&proxies, &workers, "a/b");
    let found: Vec<&str> = targets.iter().map(|t| t.0.as_str()).collect();
    assert_eq!(found, vec!["w1/push", "w2/push", "w1/push"]);
    assert_eq!(targets[1].1.api_token, "t2");
}

#[test]
fn samples_are_pushed_as_forms() {
    let config = settings("t", "m");
    let request = push_request("https://w/push", &config, "a/b", vec![1, 2]);
    assert_eq!(request.url, "https://w/push");
    assert_eq!(request.api_token, "t");
    assert_eq!(request.timeout_ms, 5_000);
    assert_eq!(request.machine_id, "m");
    assert_eq!(request.file_name, "cbor_payload");
    assert_eq!(request.mime, "application/cbor");
    assert_eq!(request.payload.machine_id, "m");
    assert_eq!(request.payload.topic, "a/b");
    assert_eq!(request.payload.data, vec![1, 2]);
    let all = push_requests(
        &vec![("u1".to_string(), settings("a", "m")), ("u2".to_string(), settings("b", "m"))],
        "t",
        &vec![9],
    );
    assert_eq!(all.len(), 2);
    assert_eq!(all[0].url, "u1");
    assert_eq!(all[1].api_token, "b");
    assert_eq!(all[1].payload.data, vec![9]);
    assert_eq!(push_failure("u", Reply::Accepted), None);
    assert_eq!(
        push_failure("u", Reply::Unreachable).unwrap(),
        "failed to reach worker at u"
    );
    assert_eq!(push_failure("u", Reply::Rejected).unwrap(), "worker at u rejected push");
}

#[test]
fn workers_are_grouped_by_address() {
    let at = |address: &str, path: &str| {
        let mut config = settings("t", "m");
        config.local_address = address.to_string();
        config.bind_path = path.to_string();
        WorkerConfig::Cloudflare(config)
    };
    let workers = vec![
        ("1".to_string(), at("x", "/1")),
        ("2".to_string(), WorkerConfig::Vercel(VercelConfig {})),
        ("3".to_string(), at("y", "/3")),
        ("4".to_string(), at("x", "/4")),
    ];
    let groups = group_by_address(&workers);
    assert_eq!(groups.len(), 2);
    assert_eq!(groups[0].0, "x");
    assert_eq!(ingress_routes(&groups[0].1), vec!["/1", "/4"]);
    assert_eq!(groups[1].0, "y");
    assert_eq!(ingress_routes(&groups[1].1), vec!["/3"]);
}

#[test]
fn listening_needs_a_worker() {
    let mut relay = http::WorkerRelay::new(defaults());
    let error = relay.ingress_groups().unwrap_err();
    assert_eq!(
        requests::error_message(&error, Step::Bind),
        "listen() called with no Cloudflare workers bound"
    );
    bound(&mut relay, "https://w", cloudflare("t", "m"));
    let groups = relay.ingress_groups().unwrap();
    assert_eq!(groups.len(), 1);
    assert_eq!(groups[0].0, "0.0.0.0:8787");
    assert_eq!(groups[0].1.len(), 1);
}

#[test]
fn fields_by_name() {
    assert_eq!(field_kind(Some("payload")), FieldKind::Payload);
    assert_eq!(field_kind(Some("media")), FieldKind::Media);
    assert_eq!(field_kind(Some("other")), FieldKind::Unknown);
    assert_eq!(field_kind(None), FieldKind::Unknown);
}

#[test]
fn one_published_message_is_enough() {
    assert!(payload_accepted(&PayloadOutcome::Published(vec![true, false])));
    assert!(payload_accepted(&PayloadOutcome::Published(vec![false, true])));
    assert!(!payload_accepted(&PayloadOutcome::Published(vec![false])));
    assert!(!payload_accepted(&PayloadOutcome::Published(vec![])));
    assert!(!payload_accepted(&PayloadOutcome::Unreadable));
    assert!(!payload_accepted(&PayloadOutcome::Malformed));
}

#[test]
fn one_accepted_payload_is_enough() {
    let good = || FieldOutcome::Payload(PayloadOutcome::Published(vec![true]));
    let bad = || FieldOutcome::Payload(PayloadOutcome::Malformed);
    assert_eq!(pull_status(&vec![]), 400);
    assert_eq!(pull_status(&vec![FieldOutcome::Media, FieldOutcome::Unknown]), 400);
    assert_eq!(pull_status(&vec![good(), FieldOutcome::Media]), 200);
    assert_eq!(pull_status(&vec![bad(), good()]), 200);
    assert_eq!(pull_status(&vec![good(), bad(), FieldOutcome::Unknown]), 200);
    assert_eq!(pull_status(&vec![bad(), FieldOutcome::Media, bad()]), 400);
}

#[test]
fn polling_relay_binds_and_lets_go() {
    let mut relay = worker::WorkerRelay::new();
    let config = cloudflare("t", "m");
    let request = relay.bind_worker("https://w", &config).unwrap();
    assert_eq!(request.url, "https://w/bind");
    assert_eq!(request.machine_id, "m");
    assert_eq!(request.api_token, "t");
    assert_eq!(request.timeout_ms, 5_000);
    assert!(relay.worker_replied("https://w", config.clone(), Reply::Rejected).is_err());
    assert!(relay.get_worker_list().is_empty());
    relay.worker_replied("https://w", config, Reply::Accepted).unwrap();
    assert_eq!(relay.get_worker_list(), vec!["https://w"]);
    let request = relay.unbind_worker("https://w").unwrap();
    assert_eq!(request.url, "https://w/unbind");
    assert_eq!(relay.get_worker_list(), vec!["https://w"]);
    assert!(relay.worker_let_go("https://w", Reply::Unreachable).is_err());
    assert_eq!(relay.get_worker_list(), vec!["https://w"]);
    relay.worker_let_go("https://w", Reply::Accepted).unwrap();
    assert!(relay.get_worker_list().is_empty());
    assert!(matches!(
        relay.unbind_worker("https://w"),
        Err(RelayError::UnknownWorker(_))
    ));
}

#[test]
fn polling_relay_keeps_proxies() {
    let mut relay = worker::WorkerRelay::new();
    relay.register_proxy("a", "x").unwrap();
    relay.register_proxy("a", "y").unwrap();
    assert_eq!(
        relay.get_proxy_registry(),
        vec![("a".to_string(), vec!["x".to_string(), "y".to_string()])]
    );
    relay.unregister_proxy("a").unwrap();
    assert!(relay.get_proxy_registry().is_empty());
    let error = relay.unregister_proxy("a").unwrap_err();
    assert_eq!(
        worker::error_message(&error, Step::Bind),
        "no proxy found for the provided topic pattern"
    );
}

#[test]
fn polling_relay_errors() {
    let relay = worker::WorkerRelay::new();
    let error = relay.bind_worker("w", &WorkerConfig::AWS(AWSConfig {})).unwrap_err();
    assert_eq!(worker::error_message(&error, Step::Bind), "invalid config for cloudflare");
    let error = relay.bind_worker("w", &cloudflare("", "m")).unwrap_err();
    assert_eq!(
        worker::error_message(&error, Step::Bind),
        "Cloudflare api_token cannot be empty"
    );
    let error = relay.unbind_worker("w").unwrap_err();
    assert_eq!(
        worker::error_message(&error, Step::Unbind),
        "no active worker found for the provided base url"
    );
    assert_eq!(
        worker::error_message(&RelayError::Rejected, Step::Unbind),
        "Cloudflare worker rejected unbind request"
    );
}

#[test]
fn polling_relay_asks_every_worker() {
    let mut slow = settings("t2", "m");
    slow.request_timeout_ms = 1;
    let workers = vec![
        ("https://a".to_string(), cloudflare("t", "m")),
        ("https://x".to_string(), WorkerConfig::AWS(AWSConfig {})),
        ("https://b".to_string(), WorkerConfig::Cloudflare(slow)),
    ];
    let requests = worker::pull_requests(&workers);
    assert_eq!(requests.len(), 2);
    assert_eq!(requests[0].url, "https://a/pull");
    assert_eq!(requests[0].timeout_ms, 5_000);
    assert_eq!(requests[1].url, "https://b/pull");
    assert_eq!(requests[1].api_token, "t2");
    assert_eq!(requests[1].timeout_ms, 500);
}

#[test]
fn polling_relay_hands_samples_over() {
    let mut relay = worker::WorkerRelay::new();
    relay.register_proxy("a/**", "https://w/**").unwrap();
    relay.worker_replied("https://w", cloudflare("t", "m"), Reply::Accepted).unwrap();
    let workers = relay.worker_snapshot();
    let requests =
        worker::push_requests(&relay.get_proxy_registry(), &workers, "a/b", &vec![7]).unwrap();
    assert_eq!(requests.len(), 1);
    assert_eq!(requests[0].url, "https://w/push");
    assert_eq!(requests[0].api_token, "t");
    assert_eq!(requests[0].content_type, "application/cbor");
    assert_eq!(requests[0].payload.topic, "a/b");
    assert_eq!(requests[0].payload.machine_id, "m");
    assert_eq!(requests[0].payload.data, vec![7]);
}

#[test]
fn answers_do_not_depend_on_the_order() {
    let bases = ["https://w", "https://w/a", "https://w/a/b"];
    let mut forward = http::WorkerRelay::new(defaults());
    let mut backward = http::WorkerRelay::new(defaults());
    for base in bases {
        bound(&mut forward, base, cloudflare("t", "m"));
    }
    for base in bases.iter().rev() {
        bound(&mut backward, base, cloudflare("t", "m"));
    }
    forward.register_proxy("x/**", "https://w/a/**").unwrap();
    forward.register_proxy("x/*", "https://w/a/b/*").unwrap();
    backward.register_proxy("x/*", "https://w/a/b/*").unwrap();
    backward.register_proxy("x/**", "https://w/a/**").unwrap();
    let one = urls(&forward.resolve_egress_targets("x/1"));
    assert_eq!(one.len(), 5);
    assert_eq!(one, urls(&forward.resolve_egress_targets("x/1")));
    assert_eq!(one, urls(&backward.resolve_egress_targets("x/1")));
}

#[test]
fn nothing_to_forward() {
    let mut relay = http::WorkerRelay::new(defaults());
    bound(&mut relay, "https://w", cloudflare("t", "m"));
    assert!(relay.resolve_egress_targets("a").is_empty());
    let mut relay = http::WorkerRelay::new(defaults());
    relay.register_proxy("**", "https://w").unwrap();
    assert!(relay.resolve_egress_targets("a").is_empty());
}

#[test]
fn rebinding_replaces_the_settings() {
    let mut relay = http::WorkerRelay::new(defaults());
    relay.register_proxy("a", "https://w/").unwrap();
    bound(&mut relay, "https://w", cloudflare("old", "m"));
    assert_eq!(relay.resolve_egress_targets("a")[0].1.api_token, "old");
    bound(&mut relay, "https://w", cloudflare("new", "m"));
    let targets = relay.resolve_egress_targets("a");
    assert_eq!(targets.len(), 1);
    assert_eq!(targets[0].1.api_token, "new");
}

#[test]
fn the_address_of_a_camera() {
    let mut relay = http::WorkerRelay::new(defaults());
    let base = "https://aa.your-cloudflare-worker.com/robotica";
    bound(&mut relay, base, cloudflare("t", "m"));
    relay
        .register_proxy(
            "robot/camera/**",
            "https://aa.your-cloudflare-worker.com/robotica/camera/**",
        )
        .unwrap();
    for _ in 0..2 {
        let targets = relay.try_resolve_egress_targets("robot/camera/front").unwrap();
        assert_eq!(
            urls(&targets),
            vec!["https://aa.your-cloudflare-worker.com/robotica/push"]
        );
    }
}
