//! Where a sample of the bus is forwarded to.

use vstd::prelude::*;

use crate::config::{proxy_texts, texts, worker_texts, CloudflareConfig, WorkerConfig};
use crate::registry::target_texts;
use crate::resolver::{
    groups_take_part, resolution, resolve_zenoh_url, try_resolve_zenoh_url,
};
use crate::text::{joined, starts_with};
use crate::wildcard::bare_pattern;

verus! {

/// The target that a worker is for an address, if it is one: a Cloudflare worker
/// whose base address the address starts with.
pub open spec fn worker_target(url: Seq<char>, worker: (Seq<char>, WorkerConfig)) -> Seq<
    (Seq<char>, CloudflareConfig),
> {
    match worker.1 {
        WorkerConfig::Cloudflare(c) => if worker.0.is_prefix_of(url) {
            seq![(worker.0 + c.push_path@, c)]
        } else {
            Seq::empty()
        },
        _ => Seq::empty(),
    }
}

/// The targets among the workers for an address.
pub open spec fn url_targets(url: Seq<char>, workers: Seq<(Seq<char>, WorkerConfig)>) -> Seq<
    (Seq<char>, CloudflareConfig),
> {
    workers.map_values(|w: (Seq<char>, WorkerConfig)| worker_target(url, w)).flatten()
}

/// The targets of a topic under one pattern and one of its addresses; none where
/// the topic has no address there.
pub open spec fn pattern_targets(
    local: Seq<char>,
    remote: Seq<char>,
    topic: Seq<char>,
    workers: Seq<(Seq<char>, WorkerConfig)>,
) -> Seq<(Seq<char>, CloudflareConfig)> {
    match resolution(local, remote, topic) {
        Ok(url) => url_targets(url, workers),
        Err(_) => Seq::empty(),
    }
}

/// The targets of a topic under one pattern.
pub open spec fn proxy_targets(
    proxy: (Seq<char>, Seq<Seq<char>>),
    topic: Seq<char>,
    workers: Seq<(Seq<char>, WorkerConfig)>,
) -> Seq<(Seq<char>, CloudflareConfig)> {
    proxy.1.map_values(
        |remote: Seq<char>| pattern_targets(proxy.0, remote, topic, workers),
    ).flatten()
}

/// The targets of a topic, by pattern, address and worker, in the order in which
/// these are listed.
pub open spec fn all_targets(
    proxies: Seq<(Seq<char>, Seq<Seq<char>>)>,
    topic: Seq<char>,
    workers: Seq<(Seq<char>, WorkerConfig)>,
) -> Seq<(Seq<char>, CloudflareConfig)> {
    proxies.map_values(
        |proxy: (Seq<char>, Seq<Seq<char>>)| proxy_targets(proxy, topic, workers),
    ).flatten()
}

/// Flattening one more element.
proof fn lemma_flatten_step<A, B>(items: Seq<A>, f: spec_fn(A) -> Seq<B>, i: int)
    requires
        0 <= i < items.len(),
    ensures
        items.take(i + 1).map_values(f).flatten() == items.take(i).map_values(f).flatten() + f(
            items[i],
        ),
{
    items.lemma_flat_map_take_append(f, i);
    assert(items.take(i + 1).map_values(f).flatten() == items.take(i + 1).flat_map(f));
    assert(items.take(i).map_values(f).flatten() == items.take(i).flat_map(f));
}

/// Adds the targets among the workers for an address.
fn add_url_targets(
    url: &str,
    workers: &Vec<(String, WorkerConfig)>,
    targets: &mut Vec<(String, CloudflareConfig)>,
)
    ensures
        target_texts(final(targets)@) == target_texts(old(targets)@) + url_targets(
            url@,
            worker_texts(workers@),
        ),
{
    let ghost ws = worker_texts(workers@);
    let ghost f = |w: (Seq<char>, WorkerConfig)| worker_target(url@, w);
    let ghost before = target_texts(targets@);
    let mut i: usize = 0;
    assert(ws.take(0).map_values(f).flatten() =~= Seq::empty());
    assert(before + Seq::empty() =~= before);
    while i < workers.len()
        invariant
            i <= workers.len(),
            ws == worker_texts(workers@),
            f == (|w: (Seq<char>, WorkerConfig)| worker_target(url@, w)),
            target_texts(targets@) == before + ws.take(i as int).map_values(f).flatten(),
        decreases workers.len() - i,
    {
        let ghost held = target_texts(targets@);
        let (base_url, config) = &workers[i];
        assert(ws[i as int] == (base_url@, *config));
        if starts_with(url, base_url) {
            if let WorkerConfig::Cloudflare(cfg) = config {
                let push_url = joined(base_url, &cfg.push_path);
                targets.push((push_url, cfg.clone()));
                assert(target_texts(targets@) =~= held + worker_target(url@, ws[i as int]));
            }
        }
        proof {
            assert(target_texts(targets@) =~= held + worker_target(url@, ws[i as int]));
            lemma_flatten_step(ws, f, i as int);
            assert(f(ws[i as int]) == worker_target(url@, ws[i as int]));
            assert(held + f(ws[i as int]) =~= before + (ws.take(i as int).map_values(f).flatten()
                + f(ws[i as int])));
        }
        i += 1;
    }
    assert(ws.take(i as int) =~= ws);
}

/// Adds the targets of a topic under one pattern.
fn add_proxy_targets(
    local: &str,
    remotes: &Vec<String>,
    topic: &str,
    workers: &Vec<(String, WorkerConfig)>,
    targets: &mut Vec<(String, CloudflareConfig)>,
)
    requires
        bare_pattern(local@) || groups_take_part(local@, topic@),
    ensures
        target_texts(final(targets)@) == target_texts(old(targets)@) + proxy_targets(
            (local@, texts(remotes@)),
            topic@,
            worker_texts(workers@),
        ),
        remotes.len() > 0 ==> groups_take_part(local@, topic@),
{
    let ghost ws = worker_texts(workers@);
    let ghost rs = texts(remotes@);
    let ghost f = |remote: Seq<char>| pattern_targets(local@, remote, topic@, ws);
    let ghost before = target_texts(targets@);
    let mut i: usize = 0;
    assert(rs.take(0).map_values(f).flatten() =~= Seq::empty());
    assert(before + Seq::empty() =~= before);
    while i < remotes.len()
        invariant
            i <= remotes.len(),
            bare_pattern(local@) || groups_take_part(local@, topic@),
            i > 0 ==> groups_take_part(local@, topic@),
            ws == worker_texts(workers@),
            rs == texts(remotes@),
            f == (|remote: Seq<char>| pattern_targets(local@, remote, topic@, ws)),
            target_texts(targets@) == before + rs.take(i as int).map_values(f).flatten(),
        decreases remotes.len() - i,
    {
        let ghost held = target_texts(targets@);
        assert(rs[i as int] == remotes@[i as int]@);
        if let Ok(url) = resolve_zenoh_url(local, &remotes[i], topic) {
            add_url_targets(&url, workers, targets);
        } else {
            assert(held + Seq::empty() =~= held);
        }
        proof {
            lemma_flatten_step(rs, f, i as int);
            assert(target_texts(targets@) == held + f(rs[i as int]));
            assert(held + f(rs[i as int]) =~= before + (rs.take(i as int).map_values(f).flatten()
                + f(rs[i as int])));
        }
        i += 1;
    }
    assert(rs.take(i as int) =~= rs);
    assert(rs.map_values(f) =~= rs.map_values(
        |remote: Seq<char>| pattern_targets(local@, remote, topic@, ws),
    ));
}

/// Whether no pattern leaves out a group when the topic matches it.
pub open spec fn proxies_take_part(
    proxies: Seq<(Seq<char>, Seq<Seq<char>>)>,
    topic: Seq<char>,
) -> bool {
    forall|i: int| 0 <= i < proxies.len() ==> groups_take_part(#[trigger] proxies[i].0, topic)
}

/// The targets of a topic: for each pattern, for each of its addresses that the
/// topic has, for each worker that serves the address, the worker's push address
/// and settings.
///
/// A pattern with groups of its own can leave one of them out of a match; the
/// precondition refuses this, and [`try_egress_targets`] tests it.
pub fn egress_targets(
    proxies: &Vec<(String, Vec<String>)>,
    workers: &Vec<(String, WorkerConfig)>,
    topic: &str,
) -> (r: Vec<(String, CloudflareConfig)>)
    requires
        forall|i: int|
            0 <= i < proxies.len() ==> bare_pattern(#[trigger] proxies@[i].0@) || groups_take_part(
                proxies@[i].0@,
                topic@,
            ),
    ensures
        target_texts(r@) == all_targets(proxy_texts(proxies@), topic@, worker_texts(workers@)),
        forall|i: int|
            0 <= i < proxies.len() && proxies@[i].1.len() > 0 ==> groups_take_part(
                #[trigger] proxies@[i].0@,
                topic@,
            ),
{
    let mut targets: Vec<(String, CloudflareConfig)> = Vec::new();
    let ghost ws = worker_texts(workers@);
    let ghost ps = proxy_texts(proxies@);
    let ghost f = |proxy: (Seq<char>, Seq<Seq<char>>)| proxy_targets(proxy, topic@, ws);
    let mut i: usize = 0;
    assert(ps.take(0).map_values(f).flatten() =~= Seq::empty());
    assert(target_texts(targets@) =~= Seq::empty());
    while i < proxies.len()
        invariant
            i <= proxies.len(),
            forall|k: int|
                0 <= k < proxies.len() ==> bare_pattern(#[trigger] proxies@[k].0@)
                    || groups_take_part(proxies@[k].0@, topic@),
            forall|k: int|
                0 <= k < i && proxies@[k].1.len() > 0 ==> groups_take_part(
                    #[trigger] proxies@[k].0@,
                    topic@,
                ),
            ws == worker_texts(workers@),
            ps == proxy_texts(proxies@),
            f == (|proxy: (Seq<char>, Seq<Seq<char>>)| proxy_targets(proxy, topic@, ws)),
            target_texts(targets@) == ps.take(i as int).map_values(f).flatten(),
        decreases proxies.len() - i,
    {
        let (local, remotes) = &proxies[i];
        assert(ps[i as int] == (local@, texts(remotes@)));
        assert(proxies@[i as int].0@ == local@);
        add_proxy_targets(local, remotes, topic, workers, &mut targets);
        proof {
            lemma_flatten_step(ps, f, i as int);
        }
        i += 1;
    }
    assert(ps.take(i as int) =~= ps);
    targets
}

/// The targets of a topic, or `None` where a group of some pattern is left out of
/// a match.
pub fn try_egress_targets(
    proxies: &Vec<(String, Vec<String>)>,
    workers: &Vec<(String, WorkerConfig)>,
    topic: &str,
) -> (r: Option<Vec<(String, CloudflareConfig)>>)
    ensures
        r is Some <==> proxies_take_part(proxy_texts(proxies@), topic@),
        r matches Some(targets) ==> target_texts(targets@) == all_targets(
            proxy_texts(proxies@),
            topic@,
            worker_texts(workers@),
        ),
{
    let ghost ps = proxy_texts(proxies@);
    let mut i: usize = 0;
    while i < proxies.len()
        invariant
            i <= proxies.len(),
            ps == proxy_texts(proxies@),
            forall|k: int| 0 <= k < i ==> groups_take_part(#[trigger] ps[k].0, topic@),
        decreases proxies.len() - i,
    {
        let local = &proxies[i].0;
        assert(ps[i as int].0 == local@);
        if try_resolve_zenoh_url(local, "", topic).is_none() {
            return None;
        }
        i += 1;
    }
    assert forall|k: int| 0 <= k < proxies.len() implies groups_take_part(
        #[trigger] proxies@[k].0@,
        topic@,
    ) by {
        assert(ps[k].0 == proxies@[k].0@);
    }
    Some(egress_targets(proxies, workers, topic))
}

} // verus!
