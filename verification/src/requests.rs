//! The requests to workers, and how their failures read.

use vstd::prelude::*;

use crate::config::{CloudflareConfig, RelayError, Reply};
use crate::text::joined;

verus! {

/// What a worker is told when this machine is bound to it or unbound.
#[derive(Debug)]
pub struct BindPayload {
    pub machine_id: String,
    pub ingress_url: String,
}

/// A request that binds this machine to a worker, or unbinds it.
#[derive(Debug)]
pub struct BindRequest {
    pub url: String,
    pub api_token: String,
    pub timeout_ms: u64,
    pub payload: BindPayload,
}

/// A sample of the bus as a worker receives it.
#[derive(Debug)]
pub struct PushPayload {
    pub machine_id: String,
    pub topic: String,
    pub data: Vec<u8>,
}

/// A request that pushes a sample to a worker: a form with the machine identifier
/// and a file that holds the encoded payload.
#[derive(Debug)]
pub struct PushRequest {
    pub url: String,
    pub api_token: String,
    pub timeout_ms: u64,
    pub machine_id: String,
    pub file_name: &'static str,
    pub mime: &'static str,
    pub payload: PushPayload,
}

/// A message for the bus as a worker sends it.
#[derive(Debug)]
pub struct PullPayload {
    pub topic: String,
    pub data: Vec<u8>,
}

/// What a relay was doing when it failed.
#[derive(Debug, Clone, Copy, PartialEq, Eq, Structural)]
pub enum Step {
    Bind,
    Unbind,
}

/// The address that a worker is told to call.
pub open spec fn callback_url(config: CloudflareConfig) -> Seq<char> {
    if config.ingress_url@.len() == 0 {
        "http://"@ + config.local_address@
    } else {
        config.ingress_url@
    }
}

/// Whether a request tells a worker about this machine at the given path and
/// within the given time.
pub open spec fn tells_worker(
    request: BindRequest,
    base_url: Seq<char>,
    config: CloudflareConfig,
    path: Seq<char>,
    timeout_ms: int,
) -> bool {
    &&& request.url@ == base_url + path
    &&& request.api_token@ == config.api_token@
    &&& request.timeout_ms == timeout_ms
    &&& request.payload.machine_id@ == config.machine_id@
    &&& request.payload.ingress_url@ == callback_url(config)
}

/// Whether a request asks a worker to bind this machine.
pub open spec fn asks_to_bind(
    request: BindRequest,
    base_url: Seq<char>,
    config: CloudflareConfig,
) -> bool {
    tells_worker(request, base_url, config, config.bind_path@, config.request_timeout_ms as int)
}

/// Whether a request asks a worker to let this machine go.
pub open spec fn asks_to_unbind(
    request: BindRequest,
    base_url: Seq<char>,
    config: CloudflareConfig,
) -> bool {
    tells_worker(
        request,
        base_url,
        config,
        config.unbind_path@,
        at_least_500(config.request_timeout_ms),
    )
}

/// The larger of a time and half a second, in milliseconds.
pub open spec fn at_least_500(timeout_ms: u64) -> int {
    if timeout_ms < 500 {
        500
    } else {
        timeout_ms as int
    }
}

/// The request that tells a worker about this machine.
pub fn bind_request(base_url: &str, config: &CloudflareConfig, path: &str, timeout_ms: u64) -> (r:
    BindRequest)
    ensures
        tells_worker(r, base_url@, *config, path@, timeout_ms as int),
{
    let ingress_url = if config.ingress_url.as_str().is_empty() {
        joined("http://", &config.local_address)
    } else {
        config.ingress_url.clone()
    };
    BindRequest {
        url: joined(base_url, path),
        api_token: config.api_token.clone(),
        timeout_ms,
        payload: BindPayload { machine_id: config.machine_id.clone(), ingress_url },
    }
}

/// The larger of a time and half a second, in milliseconds.
pub fn patient(timeout_ms: u64) -> (r: u64)
    ensures
        r == at_least_500(timeout_ms),
{
    if timeout_ms < 500 {
        500
    } else {
        timeout_ms
    }
}

/// Whether a request pushes a sample to a target.
pub open spec fn pushes(
    request: PushRequest,
    target: (Seq<char>, CloudflareConfig),
    topic: Seq<char>,
    data: Seq<u8>,
) -> bool {
    &&& request.url@ == target.0
    &&& request.api_token@ == target.1.api_token@
    &&& request.timeout_ms == target.1.request_timeout_ms
    &&& request.machine_id@ == target.1.machine_id@
    &&& request.file_name@ == "cbor_payload"@
    &&& request.mime@ == "application/cbor"@
    &&& request.payload.machine_id@ == target.1.machine_id@
    &&& request.payload.topic@ == topic
    &&& request.payload.data@ == data
}

/// The request that pushes a sample to a worker.
pub fn push_request(push_url: &str, cfg: &CloudflareConfig, topic: &str, data: Vec<u8>) -> (r:
    PushRequest)
    ensures
        pushes(r, (push_url@, *cfg), topic@, data@),
{
    PushRequest {
        url: push_url.to_string(),
        api_token: cfg.api_token.clone(),
        timeout_ms: cfg.request_timeout_ms,
        machine_id: cfg.machine_id.clone(),
        file_name: "cbor_payload",
        mime: "application/cbor",
        payload: PushPayload {
            machine_id: cfg.machine_id.clone(),
            topic: topic.to_string(),
            data,
        },
    }
}

/// A copy of some bytes.
pub fn copy_bytes(bytes: &Vec<u8>) -> (r: Vec<u8>)
    ensures
        r@ == bytes@,
{
    let r = bytes.clone();
    assert(r@ =~= bytes@);
    r
}

/// The requests that push a sample to its targets, one for each, in their order.
pub fn push_requests(
    targets: &Vec<(String, CloudflareConfig)>,
    topic: &str,
    data: &Vec<u8>,
) -> (r: Vec<PushRequest>)
    ensures
        r.len() == targets.len(),
        forall|i: int|
            0 <= i < r.len() ==> pushes(
                #[trigger] r@[i],
                (targets@[i].0@, targets@[i].1),
                topic@,
                data@,
            ),
{
    let mut r: Vec<PushRequest> = Vec::new();
    let mut i: usize = 0;
    while i < targets.len()
        invariant
            i <= targets.len(),
            r.len() == i,
            forall|k: int|
                0 <= k < r.len() ==> pushes(
                    #[trigger] r@[k],
                    (targets@[k].0@, targets@[k].1),
                    topic@,
                    data@,
                ),
        decreases targets.len() - i,
    {
        r.push(push_request(&targets[i].0, &targets[i].1, topic, copy_bytes(data)));
        i += 1;
    }
    r
}

/// How the failure of a push reads, if it failed.
pub open spec fn push_failure_text(push_url: Seq<char>, reply: Reply) -> Option<Seq<char>> {
    match reply {
        Reply::Accepted => None,
        Reply::Unreachable => Some("failed to reach worker at "@ + push_url),
        Reply::Rejected => Some("worker at "@ + push_url + " rejected push"@),
    }
}

/// How the failure of a push reads, if it failed.
pub fn push_failure(push_url: &str, reply: Reply) -> (r: Option<String>)
    ensures
        match r {
            Some(text) => push_failure_text(push_url@, reply) == Some(text@),
            None => push_failure_text(push_url@, reply) is None,
        },
{
    match reply {
        Reply::Accepted => None,
        Reply::Unreachable => Some(joined("failed to reach worker at ", push_url)),
        Reply::Rejected => Some(joined(&joined("worker at ", push_url), " rejected push")),
    }
}

/// How an error reads.
pub open spec fn error_text(error: RelayError, step: Step) -> Seq<char> {
    match error {
        RelayError::UnknownProxy(p) => "no proxy found for topic pattern: "@ + p@,
        RelayError::UnknownWorker(u) => "no active worker for: "@ + u@,
        RelayError::NotCloudflare => "bind_worker only supports Cloudflare configs"@,
        RelayError::EmptyToken => "Cloudflare api_token cannot be empty"@,
        RelayError::EmptyMachineId => "Cloudflare machine_id cannot be empty"@,
        RelayError::NoWorkers => "listen() called with no Cloudflare workers bound"@,
        RelayError::Unreachable => match step {
            Step::Bind => "failed to reach Cloudflare worker during bind"@,
            Step::Unbind => "failed to reach Cloudflare worker during unbind"@,
        },
        RelayError::Rejected => match step {
            Step::Bind => "Cloudflare worker rejected bind request"@,
            Step::Unbind => "Cloudflare worker rejected unbind request"@,
        },
    }
}

/// How an error reads.
pub fn error_message(error: &RelayError, step: Step) -> (r: String)
    ensures
        r@ == error_text(*error, step),
{
    match error {
        RelayError::UnknownProxy(p) => joined("no proxy found for topic pattern: ", p),
        RelayError::UnknownWorker(u) => joined("no active worker for: ", u),
        RelayError::NotCloudflare => "bind_worker only supports Cloudflare configs".to_string(),
        RelayError::EmptyToken => "Cloudflare api_token cannot be empty".to_string(),
        RelayError::EmptyMachineId => "Cloudflare machine_id cannot be empty".to_string(),
        RelayError::NoWorkers => "listen() called with no Cloudflare workers bound".to_string(),
        RelayError::Unreachable => match step {
            Step::Bind => "failed to reach Cloudflare worker during bind".to_string(),
            Step::Unbind => "failed to reach Cloudflare worker during unbind".to_string(),
        },
        RelayError::Rejected => match step {
            Step::Bind => "Cloudflare worker rejected bind request".to_string(),
            Step::Unbind => "Cloudflare worker rejected unbind request".to_string(),
        },
    }
}

} // verus!
