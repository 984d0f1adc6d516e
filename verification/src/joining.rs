//! How a node joins the relay.

use vstd::prelude::*;

use crate::config::CloudflareConfig;
use crate::text::{decimal, decimal_string, joined, starts_with};

verus! {

/// The base address of the worker.
pub const WORKER_URL: &'static str = "https://cloudflare.abdelmanan-abdelrahman03.workers.dev";

/// The token that requests to the worker carry.
pub const API_TOKEN: &'static str = "local-dev-token";

/// Whether samples on a topic are pushed, and not sent over a web socket.
pub open spec fn telemetry(topic: Seq<char>) -> bool {
    "telemetry"@.is_prefix_of(topic)
}

/// Whether samples on a topic are pushed, and not sent over a web socket.
pub fn is_telemetry(topic: &str) -> (r: bool)
    ensures
        r == telemetry(topic@),
{
    starts_with(topic, "telemetry")
}

/// How a node joins the relay.
#[derive(Debug)]
pub struct RelayPlan {
    /// Whether the worker is bound, and not only attached.
    pub bind: bool,
    /// The settings of the worker.
    pub config: CloudflareConfig,
    /// The address that the topic is forwarded to.
    pub proxy_url: String,
}

/// What is reported of a relay that binds its worker.
pub open spec fn telemetry_notices(topic: Seq<char>, port: u16) -> (Seq<char>, Seq<char>) {
    (
        "Starting relay and binding worker on port "@ + decimal(port as nat) + " using "@
            + WORKER_URL@,
        "Warning: topic '"@ + topic
            + "' is classified as telemetry and will use HTTP push, not Durable Object websocket."@,
    )
}

/// What is reported of a relay that uses the web socket only.
pub open spec fn websocket_notices(topic: Seq<char>) -> (Seq<char>, Seq<char>) {
    (
        "Starting relay in websocket-only mode using "@ + WORKER_URL@ + " (skipping bind/tunnel)"@,
        "Topic '"@ + topic
            + "' is multimedia; relay will use Durable Object websocket path '/ws'."@,
    )
}

/// Whether these are the settings of the worker for this machine: the default but
/// for the token, the machine identifier, the path of the web socket and the
/// local address.
pub open spec fn settings_for(
    config: CloudflareConfig,
    machine_id: Seq<char>,
    local_address: Seq<char>,
) -> bool {
    &&& config.api_token@ == API_TOKEN@
    &&& config.machine_id@ == machine_id
    &&& config.request_timeout_ms == 5_000
    &&& config.pull_interval_ms == 300
    &&& config.bind_path@ == "/bind"@
    &&& config.unbind_path@ == "/unbind"@
    &&& config.push_path@ == "/push"@
    &&& config.pull_path@ == "/pull"@
    &&& config.ws_path@ == "/ws"@
    &&& config.local_address@ == local_address
    &&& config.ingress_url@ == ""@
}

/// The settings of the worker for this machine.
pub fn worker_settings(machine_id: &str, local_address: String) -> (r: CloudflareConfig)
    ensures
        settings_for(r, machine_id@, local_address@),
{
    let mut config = CloudflareConfig::default();
    config.api_token = API_TOKEN.to_string();
    config.machine_id = machine_id.to_string();
    config.push_path = "/push".to_string();
    config.ws_path = "/ws".to_string();
    config.pull_path = "/pull".to_string();
    config.local_address = local_address;
    config
}

/// What is reported before a node joins the relay.
pub fn relay_notices(topic: &str, port: u16) -> (r: (String, String))
    ensures
        (r.0@, r.1@) == if telemetry(topic@) {
            telemetry_notices(topic@, port)
        } else {
            websocket_notices(topic@)
        },
{
    if is_telemetry(topic) {
        let mut first = "Starting relay and binding worker on port ".to_string();
        first.append(&decimal_string(port as u128));
        first.append(" using ");
        first.append(WORKER_URL);
        let mut second = "Warning: topic '".to_string();
        second.append(topic);
        second.append(
            "' is classified as telemetry and will use HTTP push, not Durable Object websocket.",
        );
        (first, second)
    } else {
        let mut first = "Starting relay in websocket-only mode using ".to_string();
        first.append(WORKER_URL);
        first.append(" (skipping bind/tunnel)");
        let mut second = "Topic '".to_string();
        second.append(topic);
        second.append("' is multimedia; relay will use Durable Object websocket path '/ws'.");
        (first, second)
    }
}

/// How a node joins the relay, for a topic, a port written as text and a machine.
pub fn relay_plan(topic: &str, port: &str, machine_id: &str) -> (r: RelayPlan)
    ensures
        r.bind == telemetry(topic@),
        settings_for(r.config, machine_id@, "0.0.0.0:"@ + port@),
        r.proxy_url@ == WORKER_URL@ + "/"@,
{
    RelayPlan {
        bind: is_telemetry(topic),
        config: worker_settings(machine_id, joined("0.0.0.0:", port)),
        proxy_url: joined(WORKER_URL, "/"),
    }
}

} // verus!
