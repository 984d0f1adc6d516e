//! What holds of every worker that calls, and of every request that it sends.

use vstd::prelude::*;

use crate::config::{CloudflareConfig, WorkerConfig};
use crate::ingress::{
    cloudflare_configs, group_view, grouped, has_group, kind_of, some_published, status_of,
    succeeds, FieldKind, FieldOutcome, PayloadOutcome,
};
use crate::request_laws::rising;

verus! {

/// The settings that calls are awaited for are those of every listed Cloudflare
/// worker, whatever they hold, each once and in the order of the list.
pub proof fn every_cloudflare_worker_is_awaited_once(
    workers: Seq<(Seq<char>, WorkerConfig)>,
) -> (ks: Seq<int>)
    ensures
        ks.len() == cloudflare_configs(workers).len(),
        rising(ks),
        forall|i: int|
            0 <= i < ks.len() ==> 0 <= #[trigger] ks[i] < workers.len() && workers[ks[i]].1
                == WorkerConfig::Cloudflare(cloudflare_configs(workers)[i]),
        forall|w: int|
            0 <= w < workers.len() && (#[trigger] workers[w]).1 is Cloudflare ==> ks.contains(w),
        cloudflare_configs(workers).len() == workers.filter(
            |w: (Seq<char>, WorkerConfig)| w.1 is Cloudflare,
        ).len(),
    decreases workers.len(),
{
    let keep = |w: (Seq<char>, WorkerConfig)| w.1 is Cloudflare;
    if workers.len() == 0 {
        assert(cloudflare_configs(workers) =~= Seq::empty());
        workers.lemma_filter_len(keep);
        Seq::empty()
    } else {
        let n = workers.len() - 1;
        let rest = workers.drop_last();
        let last = workers[n];
        let ks = every_cloudflare_worker_is_awaited_once(rest);
        let one: Seq<CloudflareConfig> = match last.1 {
            WorkerConfig::Cloudflare(c) => seq![c],
            _ => Seq::empty(),
        };
        let f = |w: (Seq<char>, WorkerConfig)|
            match w.1 {
                WorkerConfig::Cloudflare(c) => seq![c],
                _ => Seq::empty(),
            };
        assert(workers.map_values(f) =~= rest.map_values(f).push(one));
        rest.map_values(f).lemma_flatten_push(one);
        assert(cloudflare_configs(workers) =~= cloudflare_configs(rest) + one);
        rest.lemma_filter_push(last, keep);
        assert(workers =~= rest.push(last));
        let all = if one.len() == 0 {
            ks
        } else {
            ks.push(n)
        };
        assert forall|i: int| 0 <= i < all.len() implies 0 <= #[trigger] all[i] < workers.len()
            && workers[all[i]].1 == WorkerConfig::Cloudflare(cloudflare_configs(workers)[i]) by {
            if i < ks.len() {
                assert(all[i] == ks[i]);
                assert(rest[ks[i]] == workers[ks[i]]);
            }
        }
        assert forall|w: int|
            0 <= w < workers.len() && (
            #[trigger] workers[w]).1 is Cloudflare implies all.contains(w) by {
            if w < n {
                assert(rest[w] == workers[w]);
                assert(ks.contains(w));
                let k = choose|k: int| 0 <= k < ks.len() && ks[k] == w;
                assert(all[k] == w);
            } else {
                assert(all[ks.len() as int] == w);
            }
        }
        all
    }
}

/// Every Cloudflare worker is served at its local address, whatever else its settings
/// hold: exactly one group has that address, and the settings are in it. A group
/// holds the settings that name its address, all of them in their order, and is
/// never empty.
pub proof fn every_worker_is_served_at_its_address(
    workers: Seq<(Seq<char>, WorkerConfig)>,
    groups: Seq<(Seq<char>, Seq<CloudflareConfig>)>,
    w: int,
    config: CloudflareConfig,
) -> (g: int)
    requires
        grouped(cloudflare_configs(workers), groups),
        0 <= w < workers.len(),
        workers[w].1 == WorkerConfig::Cloudflare(config),
    ensures
        0 <= g < groups.len(),
        groups[g].0 == config.local_address@,
        groups[g].1.contains(config),
        forall|other: int|
            0 <= other < groups.len() && (#[trigger] groups[other]).0 == config.local_address@
                ==> other == g,
{
    let configs = cloudflare_configs(workers);
    let ks = every_cloudflare_worker_is_awaited_once(workers);
    let k = choose|k: int| 0 <= k < ks.len() && ks[k] == w;
    assert(configs[k] == config);
    assert(has_group(groups, configs[k].local_address@));
    let g = choose|g: int| 0 <= g < groups.len() && (#[trigger] groups[g]).0
        == config.local_address@;
    let keep = |c: CloudflareConfig| c.local_address@ == groups[g].0;
    assert(groups[g].1 == configs.filter(keep));
    configs.lemma_filter_contains(keep, k);
    assert forall|other: int|
        0 <= other < groups.len() && (#[trigger] groups[other]).0
            == config.local_address@ implies other == g by {
        if other < g {
            assert(groups[other].0 != groups[g].0);
        } else if g < other {
            assert(groups[g].0 != groups[other].0);
        }
    }
    g
}

/// A group holds all settings that name its address, in their order, and no others;
/// there is at least one, and no other group has the address.
pub proof fn groups_hold_their_own(
    configs: Seq<CloudflareConfig>,
    groups: Seq<(Seq<char>, Seq<CloudflareConfig>)>,
    g: int,
)
    requires
        grouped(configs, groups),
        0 <= g < groups.len(),
    ensures
        groups[g].1 == configs.filter(|c: CloudflareConfig| c.local_address@ == groups[g].0),
        groups[g].1.len() > 0,
        forall|m: int|
            0 <= m < groups[g].1.len() ==> (#[trigger] groups[g].1[m]).local_address@ == groups[g].0
                && configs.contains(groups[g].1[m]),
        forall|other: int| 0 <= other < groups.len() && other != g ==> (#[trigger] groups[other]).0
            != groups[g].0,
{
    let keep = |c: CloudflareConfig| c.local_address@ == groups[g].0;
    assert(groups[g].1 == configs.filter(keep));
    assert forall|m: int| 0 <= m < groups[g].1.len() implies (
    #[trigger] groups[g].1[m]).local_address@ == groups[g].0 && configs.contains(
        groups[g].1[m],
    ) by {
        configs.lemma_filter_pred(keep, m);
        configs.lemma_filter_contains_rev(keep, groups[g].1[m]);
    }
    assert forall|other: int| 0 <= other < groups.len() && other != g implies (
    #[trigger] groups[other]).0 != groups[g].0 by {
        if other < g {
            assert(groups[other].0 != groups[g].0);
        } else {
            assert(groups[g].0 != groups[other].0);
        }
    }
}

/// The groups are read whole: each with its address and all its settings.
pub proof fn groups_are_read_whole(groups: Seq<(String, Vec<CloudflareConfig>)>)
    ensures
        group_view(groups).len() == groups.len(),
        forall|i: int|
            0 <= i < groups.len() ==> #[trigger] group_view(groups)[i] == (
                groups[i].0@,
                groups[i].1@,
            ),
{
}

/// A field holds messages exactly where it is named `payload`, and media exactly
/// where it is named `media`; a field with any other name, or with none, is unknown.
pub proof fn fields_are_known_by_name(name: Seq<char>)
    ensures
        kind_of(None) == FieldKind::Unknown,
        kind_of(Some(name)) == FieldKind::Payload <==> name == "payload"@,
        kind_of(Some(name)) == FieldKind::Media <==> name == "media"@,
        kind_of(Some(name)) == FieldKind::Unknown <==> name != "payload"@ && name != "media"@,
{
    reveal_strlit("payload");
    reveal_strlit("media");
    assert("payload"@.len() == 7 && "media"@.len() == 5);
    assert(kind_of(Some("media"@)) == FieldKind::Media);
}

/// A payload is accepted exactly where at least one of its messages was published:
/// one that was not published does no harm, wherever it stands.
pub proof fn one_published_message_is_enough(puts: Vec<bool>, i: int)
    ensures
        0 <= i < puts@.len() && puts@[i] ==> some_published(PayloadOutcome::Published(puts)),
        some_published(PayloadOutcome::Published(puts)) ==> exists|k: int|
            0 <= k < puts@.len() && #[trigger] puts@[k],
        !some_published(PayloadOutcome::Unreadable),
        !some_published(PayloadOutcome::Malformed),
{
    if some_published(PayloadOutcome::Published(puts)) {
        let k = choose|k: int| 0 <= k < puts@.len() && puts@[k] == true;
        assert(puts@[k]);
    }
}

/// A request that succeeds is answered with 200, and one that fails with 400.
pub proof fn requests_are_answered(success: bool)
    ensures
        status_of(success) == 200 <==> success,
        status_of(success) == 400 <==> !success,
{
}

/// A request without fields fails. A request of one field succeeds exactly where it
/// is a payload of which something was published. Fields do not get in each other's
/// way: a request succeeds exactly where its first fields or its last fields would
/// make it succeed.
pub proof fn fields_succeed_on_their_own(
    first: Seq<FieldOutcome>,
    last: Seq<FieldOutcome>,
    payload: PayloadOutcome,
)
    ensures
        !succeeds(Seq::empty()),
        !succeeds(seq![FieldOutcome::Media]),
        !succeeds(seq![FieldOutcome::Unknown]),
        succeeds(seq![FieldOutcome::Payload(payload)]) <==> (
        payload matches PayloadOutcome::Published(puts) && exists|k: int|
            0 <= k < puts@.len() && #[trigger] puts@[k]),
        succeeds(first + last) <==> succeeds(first) || succeeds(last),
{
    if let PayloadOutcome::Published(puts) = payload {
        one_published_message_is_enough(puts, 0);
        if exists|k: int| 0 <= k < puts@.len() && #[trigger] puts@[k] {
            let k = choose|k: int| 0 <= k < puts@.len() && #[trigger] puts@[k];
            one_published_message_is_enough(puts, k);
        }
    }
    let one = seq![FieldOutcome::Payload(payload)];
    if some_published(payload) {
        assert(one[0] matches FieldOutcome::Payload(p) && some_published(p));
    }
    if succeeds(first) {
        let i = choose|i: int|
            0 <= i < first.len() && (#[trigger] first[i] matches FieldOutcome::Payload(p)
                && some_published(p));
        assert((first + last)[i] == first[i]);
    }
    if succeeds(last) {
        let i = choose|i: int|
            0 <= i < last.len() && (#[trigger] last[i] matches FieldOutcome::Payload(p)
                && some_published(p));
        assert((first + last)[first.len() + i] == last[i]);
    }
    if succeeds(first + last) {
        let i = choose|i: int|
            0 <= i < (first + last).len() && (
            #[trigger] (first + last)[i] matches FieldOutcome::Payload(p) && some_published(p));
        if i < first.len() {
            assert(first[i] == (first + last)[i]);
        } else {
            assert(last[i - first.len()] == (first + last)[i]);
        }
    }
}

} // verus!
