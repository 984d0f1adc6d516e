//! The messages that workers send: where they are awaited, and what becomes of
//! a request.

use vstd::prelude::*;

use crate::config::{texts, worker_texts, CloudflareConfig, WorkerConfig};
use crate::text::same_text;

verus! {

/// The field of a request that carries messages for the bus.
pub const PAYLOAD_FIELD: &'static str = "payload";

/// The field of a request that carries media.
pub const MEDIA_FIELD: &'static str = "media";

/// The field of a request that carries the machine identifier.
pub const MACHINE_FIELD: &'static str = "machine_id";

/// The topic that media are published on.
pub const MEDIA_TOPIC: &'static str = "media/incoming";

/// The settings of the Cloudflare workers among the workers, in their order.
pub open spec fn cloudflare_configs(workers: Seq<(Seq<char>, WorkerConfig)>) -> Seq<
    CloudflareConfig,
> {
    workers.map_values(
        |w: (Seq<char>, WorkerConfig)|
            match w.1 {
                WorkerConfig::Cloudflare(c) => seq![c],
                _ => Seq::empty(),
            },
    ).flatten()
}

/// Whether some group has the address.
pub open spec fn has_group(
    groups: Seq<(Seq<char>, Seq<CloudflareConfig>)>,
    address: Seq<char>,
) -> bool {
    exists|i: int| 0 <= i < groups.len() && (#[trigger] groups[i]).0 == address
}

/// Whether `groups` sorts the settings by local address: each address once, with
/// all settings that name it, in their order.
pub open spec fn grouped(
    configs: Seq<CloudflareConfig>,
    groups: Seq<(Seq<char>, Seq<CloudflareConfig>)>,
) -> bool {
    &&& forall|i: int, j: int|
        0 <= i < j < groups.len() ==> #[trigger] groups[i].0 != #[trigger] groups[j].0
    &&& forall|i: int|
        0 <= i < groups.len() ==> (#[trigger] groups[i]).1.len() > 0 && groups[i].1
            == configs.filter(|c: CloudflareConfig| c.local_address@ == groups[i].0)
    &&& forall|k: int|
        0 <= k < configs.len() ==> has_group(groups, (#[trigger] configs[k]).local_address@)
}

/// The groups, their addresses as texts.
pub open spec fn group_view(groups: Seq<(String, Vec<CloudflareConfig>)>) -> Seq<
    (Seq<char>, Seq<CloudflareConfig>),
> {
    groups.map_values(|g: (String, Vec<CloudflareConfig>)| (g.0@, g.1@))
}

/// The settings of one more worker.
proof fn lemma_configs_step(ws: Seq<(Seq<char>, WorkerConfig)>, i: int)
    requires
        0 <= i < ws.len(),
    ensures
        cloudflare_configs(ws.take(i + 1)) == match ws[i].1 {
            WorkerConfig::Cloudflare(c) => cloudflare_configs(ws.take(i)).push(c),
            _ => cloudflare_configs(ws.take(i)),
        },
{
    let f = |w: (Seq<char>, WorkerConfig)|
        match w.1 {
            WorkerConfig::Cloudflare(c) => seq![c],
            _ => Seq::empty(),
        };
    ws.lemma_flat_map_take_append(f, i);
    assert(cloudflare_configs(ws.take(i + 1)) == ws.take(i + 1).flat_map(f));
    assert(cloudflare_configs(ws.take(i)) == ws.take(i).flat_map(f));
    match ws[i].1 {
        WorkerConfig::Cloudflare(c) => {
            assert(cloudflare_configs(ws.take(i)) + seq![c] =~= cloudflare_configs(
                ws.take(i),
            ).push(c));
        },
        _ => {
            assert(cloudflare_configs(ws.take(i)) + Seq::empty() =~= cloudflare_configs(
                ws.take(i),
            ));
        },
    }
}

/// No listed worker means no settings, and a first worker of Cloudflare means
/// some.
pub proof fn settings_of_the_first(ws: Seq<(Seq<char>, WorkerConfig)>)
    ensures
        ws.len() == 0 ==> cloudflare_configs(ws).len() == 0,
        ws.len() > 0 && ws[0].1 is Cloudflare ==> cloudflare_configs(ws).len() > 0,
{
    let f = |w: (Seq<char>, WorkerConfig)|
        match w.1 {
            WorkerConfig::Cloudflare(c) => seq![c],
            _ => Seq::empty(),
        };
    if ws.len() > 0 {
        assert(ws.map_values(f)[0] == f(ws[0]));
    }
}

/// There are groups exactly where there are settings.
pub proof fn no_group_without_settings(
    configs: Seq<CloudflareConfig>,
    groups: Seq<(Seq<char>, Seq<CloudflareConfig>)>,
)
    requires
        grouped(configs, groups),
    ensures
        groups.len() == 0 <==> configs.len() == 0,
{
    if configs.len() > 0 {
        assert(has_group(groups, configs[0].local_address@));
    }
    if groups.len() > 0 {
        let keep = |c: CloudflareConfig| c.local_address@ == groups[0].0;
        assert(groups[0].1 == configs.filter(keep));
        configs.lemma_filter_len(keep);
    }
}

/// The Cloudflare workers by local address.
pub fn group_by_address(workers: &Vec<(String, WorkerConfig)>) -> (r: Vec<
    (String, Vec<CloudflareConfig>),
>)
    ensures
        grouped(cloudflare_configs(worker_texts(workers@)), group_view(r@)),
{
    let mut groups: Vec<(String, Vec<CloudflareConfig>)> = Vec::new();
    let ghost ws = worker_texts(workers@);
    let mut i: usize = 0;
    assert(cloudflare_configs(ws.take(0)) =~= Seq::empty());
    while i < workers.len()
        invariant
            i <= workers.len(),
            ws == worker_texts(workers@),
            grouped(cloudflare_configs(ws.take(i as int)), group_view(groups@)),
        decreases workers.len() - i,
    {
        proof {
            lemma_configs_step(ws, i as int);
        }
        if let WorkerConfig::Cloudflare(config) = &workers[i].1 {
            add_to_group(
                &mut groups,
                config,
                Ghost(cloudflare_configs(ws.take(i as int))),
            );
        }
        i += 1;
    }
    assert(ws.take(i as int) =~= ws);
    groups
}

/// Puts settings into the group of their address.
fn add_to_group(
    groups: &mut Vec<(String, Vec<CloudflareConfig>)>,
    config: &CloudflareConfig,
    Ghost(configs): Ghost<Seq<CloudflareConfig>>,
)
    requires
        grouped(configs, group_view(old(groups)@)),
    ensures
        grouped(configs.push(*config), group_view(final(groups)@)),
{
    let ghost before = group_view(groups@);
    let ghost after = configs.push(*config);
    let mut k: usize = 0;
    while k < groups.len()
        invariant
            k <= groups.len(),
            *groups == *old(groups),
            before == group_view(groups@),
            after == configs.push(*config),
            grouped(configs, before),
            forall|j: int| 0 <= j < k ==> (#[trigger] before[j]).0 != config.local_address@,
        decreases groups.len() - k,
    {
        assert(before[k as int].0 == groups@[k as int].0@);
        if same_text(&groups[k].0, &config.local_address) {
            let (address, mut members) = groups.remove(k);
            members.push(config.clone());
            groups.insert(k, (address, members));
            proof {
                let now = group_view(groups@);
                assert(now =~= before.update(
                    k as int,
                    (before[k as int].0, before[k as int].1.push(*config)),
                ));
                assert forall|i: int| 0 <= i < now.len() implies (#[trigger] now[i]).1.len() > 0
                    && now[i].1 == after.filter(
                    |c: CloudflareConfig| c.local_address@ == now[i].0,
                ) by {
                    let keep = |c: CloudflareConfig| c.local_address@ == before[i].0;
                    assert(before[i].1 == configs.filter(keep));
                    configs.lemma_filter_push(*config, keep);
                    assert(after.filter(keep) == now[i].1);
                    assert(now[i].0 == before[i].0);
                }
                assert forall|i: int| 0 <= i < after.len() implies has_group(
                    now,
                    (#[trigger] after[i]).local_address@,
                ) by {
                    if i < configs.len() {
                        assert(has_group(before, configs[i].local_address@));
                        let j = choose|j: int|
                            0 <= j < before.len() && before[j].0 == configs[i].local_address@;
                        assert(now[j].0 == before[j].0);
                    } else {
                        assert(now[k as int].0 == config.local_address@);
                    }
                }
                assert forall|a: int, b: int| 0 <= a < b < now.len() implies #[trigger] now[a].0
                    != #[trigger] now[b].0 by {
                    assert(before[a].0 != before[b].0);
                }
            }
            return;
        }
        k += 1;
    }
    let mut members: Vec<CloudflareConfig> = Vec::new();
    members.push(config.clone());
    groups.push((config.local_address.clone(), members));
    proof {
        let now = group_view(groups@);
        assert(now =~= before.push((config.local_address@, seq![*config])));
        assert forall|i: int| 0 <= i < now.len() implies (#[trigger] now[i]).1.len() > 0 && now[i].1
            == after.filter(|c: CloudflareConfig| c.local_address@ == now[i].0) by {
            let keep = |c: CloudflareConfig| c.local_address@ == now[i].0;
            configs.lemma_filter_push(*config, keep);
            if i < before.len() {
                assert(before[i].1 == configs.filter(keep));
            } else {
                assert forall|x: int| 0 <= x < configs.len() implies !keep(configs[x]) by {
                    if keep(configs[x]) {
                        let j = choose|j: int|
                            0 <= j < before.len() && before[j].0 == configs[x].local_address@;
                        assert(before[j].0 != config.local_address@);
                    }
                }
                configs.lemma_all_neg_filter_empty(keep);
                assert(configs.filter(keep) =~= Seq::empty());
                assert(now[i].1 =~= after.filter(keep));
            }
        }
        assert forall|i: int| 0 <= i < after.len() implies has_group(
            now,
            (#[trigger] after[i]).local_address@,
        ) by {
            if i < configs.len() {
                assert(has_group(before, configs[i].local_address@));
                let j = choose|j: int|
                    0 <= j < before.len() && before[j].0 == configs[i].local_address@;
                assert(now[j].0 == before[j].0);
            } else {
                assert(now[before.len() as int].0 == config.local_address@);
            }
        }
    }
}

/// The paths on which the messages of some workers are awaited.
pub fn ingress_routes(cfgs: &Vec<CloudflareConfig>) -> (r: Vec<String>)
    ensures
        texts(r@) == cfgs@.map_values(|c: CloudflareConfig| c.bind_path@),
{
    let mut r: Vec<String> = Vec::new();
    let mut i: usize = 0;
    while i < cfgs.len()
        invariant
            i <= cfgs.len(),
            r.len() == i,
            forall|k: int| 0 <= k < i ==> (#[trigger] r@[k])@ == cfgs@[k].bind_path@,
        decreases cfgs.len() - i,
    {
        r.push(cfgs[i].bind_path.clone());
        i += 1;
    }
    assert(texts(r@) =~= cfgs@.map_values(|c: CloudflareConfig| c.bind_path@));
    r
}

/// What a field of a request holds.
#[derive(Debug, Clone, Copy, PartialEq, Eq, Structural)]
pub enum FieldKind {
    /// Messages for the bus.
    Payload,
    /// Media for the bus.
    Media,
    /// Nothing that the relay knows.
    Unknown,
}

/// What a field of the given name holds; a field can be without a name.
pub open spec fn kind_of(name: Option<Seq<char>>) -> FieldKind {
    if name == Some(PAYLOAD_FIELD@) {
        FieldKind::Payload
    } else if name == Some(MEDIA_FIELD@) {
        FieldKind::Media
    } else {
        FieldKind::Unknown
    }
}

/// What a field of the given name holds.
pub fn field_kind(name: Option<&str>) -> (r: FieldKind)
    ensures
        r == kind_of(
            match name {
                Some(n) => Some(n@),
                None => None,
            },
        ),
{
    match name {
        Some(n) => if same_text(n, PAYLOAD_FIELD) {
            FieldKind::Payload
        } else if same_text(n, MEDIA_FIELD) {
            FieldKind::Media
        } else {
            FieldKind::Unknown
        },
        None => FieldKind::Unknown,
    }
}

/// What became of a payload field.
#[derive(Debug)]
pub enum PayloadOutcome {
    /// Its bytes could not be read.
    Unreadable,
    /// Its bytes are no messages.
    Malformed,
    /// Its messages went to the bus; each was published or not.
    Published(Vec<bool>),
}

/// Whether at least one message of a payload field was published.
pub open spec fn some_published(outcome: PayloadOutcome) -> bool {
    outcome matches PayloadOutcome::Published(puts) && puts@.contains(true)
}

/// Whether at least one message of a payload field was published.
pub fn payload_accepted(outcome: &PayloadOutcome) -> (r: bool)
    ensures
        r == some_published(*outcome),
{
    match outcome {
        PayloadOutcome::Published(puts) => {
            let mut i: usize = 0;
            while i < puts.len()
                invariant
                    i <= puts.len(),
                    *outcome == PayloadOutcome::Published(*puts),
                    forall|k: int| 0 <= k < i ==> !(#[trigger] puts@[k]),
                decreases puts.len() - i,
            {
                if puts[i] {
                    assert(puts@.contains(puts@[i as int]));
                    return true;
                }
                i += 1;
            }
            false
        },
        _ => false,
    }
}

/// What became of a field.
#[derive(Debug)]
pub enum FieldOutcome {
    Payload(PayloadOutcome),
    Media,
    Unknown,
}

/// Whether a request is answered with success: at least one of its payload fields
/// was accepted.
pub open spec fn succeeds(outcomes: Seq<FieldOutcome>) -> bool {
    exists|i: int|
        0 <= i < outcomes.len() && (#[trigger] outcomes[i] matches FieldOutcome::Payload(p)
            && some_published(p))
}

/// The status for a request that succeeds or fails.
pub open spec fn status_of(success: bool) -> u16 {
    if success {
        200
    } else {
        400
    }
}

/// The status that a request is answered with, given what became of its fields.
pub fn pull_status(outcomes: &Vec<FieldOutcome>) -> (r: u16)
    ensures
        r == if succeeds(outcomes@) {
            200u16
        } else {
            400
        },
        r == status_of(succeeds(outcomes@)),
{
    let mut i: usize = 0;
    while i < outcomes.len()
        invariant
            i <= outcomes.len(),
            forall|k: int|
                0 <= k < i ==> !(#[trigger] outcomes@[k] matches FieldOutcome::Payload(p)
                    && some_published(p)),
        decreases outcomes.len() - i,
    {
        if let FieldOutcome::Payload(p) = &outcomes[i] {
            if payload_accepted(p) {
                assert(outcomes@[i as int] == FieldOutcome::Payload(*p));
                return 200;
            }
        }
        i += 1;
    }
    400
}

} // verus!
