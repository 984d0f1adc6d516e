//! What holds of every relay.

use vstd::prelude::*;
use vstd::seq_lib::lemma_flatten_concat;
use vstd::seq_lib::lemma_multiset_commutative;

use crate::config::{lists, with_proxy, CloudflareConfig, WorkerConfig};
use crate::egress::{
    all_targets, pattern_targets, proxies_take_part, proxy_targets, url_targets, worker_target,
};
use crate::http::{all_take_part, resolved_targets};
use crate::resolver::{groups_take_part, resolution};

verus! {

/// What a flattened list holds is held by one of its parts.
proof fn lemma_flatten_contains<A, B>(items: Seq<A>, f: spec_fn(A) -> Seq<B>, b: B)
    ensures
        items.map_values(f).flatten().contains(b) <==> exists|i: int|
            0 <= i < items.len() && #[trigger] f(items[i]).contains(b),
    decreases items.len(),
{
    let parts = items.map_values(f);
    if items.len() > 0 {
        let rest = items.drop_first();
        lemma_flatten_contains(rest, f, b);
        assert(parts.drop_first() == rest.map_values(f));
        let head = f(items[0]);
        let tail = rest.map_values(f).flatten();
        assert(parts.first() == head);
        assert(parts.flatten() == head + tail);
        if parts.flatten().contains(b) {
            let k = choose|k: int| 0 <= k < parts.flatten().len() && parts.flatten()[k] == b;
            if k < head.len() {
                assert(head[k] == b);
                assert(f(items[0]).contains(b));
            } else {
                assert(tail[k - head.len()] == b);
                let i = choose|i: int| 0 <= i < rest.len() && #[trigger] f(rest[i]).contains(b);
                assert(items[i + 1] == rest[i]);
                assert(f(items[i + 1]).contains(b));
            }
        }
        if exists|i: int| 0 <= i < items.len() && #[trigger] f(items[i]).contains(b) {
            let i = choose|i: int| 0 <= i < items.len() && #[trigger] f(items[i]).contains(b);
            if i == 0 {
                let k = choose|k: int| 0 <= k < head.len() && head[k] == b;
                assert((head + tail)[k] == b);
            } else {
                assert(rest[i - 1] == items[i]);
                assert(f(rest[i - 1]).contains(b));
                let k = choose|k: int| 0 <= k < tail.len() && tail[k] == b;
                assert((head + tail)[head.len() + k] == b);
            }
        }
    }
}

/// Whether a worker is a target of a topic: one of the proxies has an address for
/// the topic that starts with the worker's base address.
pub open spec fn serves(
    worker: (Seq<char>, WorkerConfig),
    proxies: Seq<(Seq<char>, Seq<Seq<char>>)>,
    topic: Seq<char>,
) -> bool {
    exists|p: int, u: int|
        0 <= p < proxies.len() && 0 <= u < proxies[p].1.len() && reaches(
            worker.0,
            proxies[p].0,
            #[trigger] proxies[p].1[u],
            topic,
        )
}

/// Whether a topic has an address under a pattern, and the address starts with
/// the base address.
pub open spec fn reaches(
    base: Seq<char>,
    local: Seq<char>,
    remote: Seq<char>,
    topic: Seq<char>,
) -> bool {
    resolution(local, remote, topic) matches Ok(url) && base.is_prefix_of(url)
}

/// A sample goes to the push address of a worker exactly where the worker is a
/// Cloudflare worker and some proxy has an address for the topic that starts with
/// the worker's base address.
pub proof fn targets_are_the_serving_workers(
    proxies: Seq<(Seq<char>, Seq<Seq<char>>)>,
    topic: Seq<char>,
    workers: Seq<(Seq<char>, WorkerConfig)>,
    target: (Seq<char>, CloudflareConfig),
)
    ensures
        all_targets(proxies, topic, workers).contains(target) <==> exists|w: int|
            0 <= w < workers.len() && #[trigger] workers[w].1 == WorkerConfig::Cloudflare(target.1)
                && target.0 == workers[w].0 + target.1.push_path@ && serves(
                workers[w],
                proxies,
                topic,
            ),
{
    let f = |proxy: (Seq<char>, Seq<Seq<char>>)| proxy_targets(proxy, topic, workers);
    lemma_flatten_contains(proxies, f, target);
    if all_targets(proxies, topic, workers).contains(target) {
        let p = choose|p: int| 0 <= p < proxies.len() && #[trigger] f(proxies[p]).contains(target);
        let proxy = proxies[p];
        let g = |remote: Seq<char>| pattern_targets(proxy.0, remote, topic, workers);
        lemma_flatten_contains(proxy.1, g, target);
        let u = choose|u: int| 0 <= u < proxy.1.len() && #[trigger] g(proxy.1[u]).contains(target);
        let remote = proxy.1[u];
        let url = resolution(proxy.0, remote, topic)->Ok_0;
        let h = |w: (Seq<char>, WorkerConfig)| worker_target(url, w);
        lemma_flatten_contains(workers, h, target);
        let w = choose|w: int| 0 <= w < workers.len() && #[trigger] h(workers[w]).contains(target);
        assert(worker_target(url, workers[w]).contains(target));
        assert(reaches(workers[w].0, proxies[p].0, proxies[p].1[u], topic));
        assert(serves(workers[w], proxies, topic));
        assert(workers[w].1 == WorkerConfig::Cloudflare(target.1));
    }
    if exists|w: int|
        0 <= w < workers.len() && #[trigger] workers[w].1 == WorkerConfig::Cloudflare(target.1)
            && target.0 == workers[w].0 + target.1.push_path@ && serves(
            workers[w],
            proxies,
            topic,
        ) {
        let w = choose|w: int|
            0 <= w < workers.len() && #[trigger] workers[w].1 == WorkerConfig::Cloudflare(target.1)
                && target.0 == workers[w].0 + target.1.push_path@ && serves(
                workers[w],
                proxies,
                topic,
            );
        let (p, u) = choose|p: int, u: int|
            0 <= p < proxies.len() && 0 <= u < proxies[p].1.len() && reaches(
                workers[w].0,
                proxies[p].0,
                #[trigger] proxies[p].1[u],
                topic,
            );
        let proxy = proxies[p];
        let g = |remote: Seq<char>| pattern_targets(proxy.0, remote, topic, workers);
        let remote = proxy.1[u];
        let url = resolution(proxy.0, remote, topic)->Ok_0;
        let h = |w: (Seq<char>, WorkerConfig)| worker_target(url, w);
        assert(h(workers[w])[0] == target);
        assert(h(workers[w]).contains(target));
        lemma_flatten_contains(workers, h, target);
        assert(url_targets(url, workers).contains(target));
        assert(g(proxy.1[u]).contains(target));
        lemma_flatten_contains(proxy.1, g, target);
        assert(f(proxies[p]).contains(target));
    }
}

/// The bag of a flattened list does not depend on the order in the parts.
proof fn lemma_parts_bag<A, B>(items: Seq<A>, f: spec_fn(A) -> Seq<B>, g: spec_fn(A) -> Seq<B>)
    requires
        forall|i: int|
            0 <= i < items.len() ==> f(#[trigger] items[i]).to_multiset() == g(
                items[i],
            ).to_multiset(),
    ensures
        items.map_values(f).flatten().to_multiset() == items.map_values(g).flatten().to_multiset(),
    decreases items.len(),
{
    if items.len() > 0 {
        let rest = items.drop_first();
        assert forall|i: int| 0 <= i < rest.len() implies f(#[trigger] rest[i]).to_multiset() == g(
            rest[i],
        ).to_multiset() by {
            assert(rest[i] == items[i + 1]);
        }
        lemma_parts_bag(rest, f, g);
        assert(items.map_values(f).drop_first() == rest.map_values(f));
        assert(items.map_values(g).drop_first() == rest.map_values(g));
        lemma_multiset_commutative(f(items[0]), rest.map_values(f).flatten());
        lemma_multiset_commutative(g(items[0]), rest.map_values(g).flatten());
    } else {
        assert(items.map_values(f) == items.map_values(g));
    }
}

/// The bag of a flattened list does not depend on the order of the list.
proof fn lemma_order_bag<A, B>(these: Seq<A>, those: Seq<A>, f: spec_fn(A) -> Seq<B>)
    requires
        these.no_duplicates(),
        those.no_duplicates(),
        forall|x: A| these.contains(x) <==> #[trigger] those.contains(x),
    ensures
        these.map_values(f).flatten().to_multiset() == those.map_values(f).flatten().to_multiset(),
    decreases these.len(),
{
    if these.len() == 0 {
        if those.len() > 0 {
            assert(those.contains(those[0]));
        }
        assert(these.map_values(f) == those.map_values(f));
    } else {
        let x = these[0];
        let rest = these.drop_first();
        assert(these.contains(x));
        assert(those.contains(x));
        let k = choose|k: int| 0 <= k < those.len() && those[k] == x;
        let before = those.take(k);
        let after = those.skip(k + 1);
        let others = before + after;
        assert(those == before + seq![x] + after);
        assert forall|y: A| rest.contains(y) <==> #[trigger] others.contains(y) by {
            if rest.contains(y) {
                let i = choose|i: int| 0 <= i < rest.len() && rest[i] == y;
                assert(these[i + 1] == y);
                assert(these.contains(y));
                assert(those.contains(y));
                let j = choose|j: int| 0 <= j < those.len() && those[j] == y;
                if j < k {
                    assert(others[j] == y);
                } else {
                    assert(others[j - 1] == y);
                }
            }
            if others.contains(y) {
                let j = choose|j: int| 0 <= j < others.len() && others[j] == y;
                let at = if j < k {
                    j
                } else {
                    j + 1
                };
                assert(those[at] == y);
                assert(those.contains(y));
                assert(these.contains(y));
                let i = choose|i: int| 0 <= i < these.len() && these[i] == y;
                assert(rest[i - 1] == y);
            }
        }
        lemma_order_bag(rest, others, f);
        let fb = before.map_values(f);
        let fa = after.map_values(f);
        let one = seq![f(x)];
        assert(others.map_values(f) == fb + fa);
        assert(those.map_values(f) == fb + one + fa);
        lemma_flatten_concat(fb, fa);
        lemma_flatten_concat(fb + one, fa);
        lemma_flatten_concat(fb, one);
        one.lemma_flatten_one_element();
        lemma_multiset_commutative(fb.flatten(), fa.flatten());
        lemma_multiset_commutative(fb.flatten() + f(x), fa.flatten());
        lemma_multiset_commutative(fb.flatten(), f(x));
        assert(these.map_values(f).drop_first() == rest.map_values(f));
        lemma_multiset_commutative(f(x), rest.map_values(f).flatten());
        assert(these.map_values(f).flatten().to_multiset()
            =~= those.map_values(f).flatten().to_multiset());
    }
}

/// Two lists of a map hold the same entries, each once.
proof fn lemma_lists_agree<V>(
    these: Seq<(Seq<char>, V)>,
    those: Seq<(Seq<char>, V)>,
    map: Map<Seq<char>, V>,
)
    requires
        lists(these, map),
        lists(those, map),
    ensures
        these.no_duplicates(),
        forall|x: (Seq<char>, V)| these.contains(x) ==> #[trigger] those.contains(x),
{
    assert forall|i: int, j: int|
        0 <= i < these.len() && 0 <= j < these.len() && i != j implies these[i] != these[j] by {
        if i < j {
            assert(these[i].0 != these[j].0);
        } else {
            assert(these[j].0 != these[i].0);
        }
    }
    assert forall|x: (Seq<char>, V)| these.contains(x) implies #[trigger] those.contains(x) by {
        let i = choose|i: int| 0 <= i < these.len() && these[i] == x;
        assert(map.contains_pair(these[i].0, these[i].1));
        let j = choose|j: int| 0 <= j < those.len() && those[j].0 == x.0;
        assert(map.contains_pair(those[j].0, those[j].1));
        assert(those[j] == x);
    }
}

/// Any two answers for a topic name the same targets, each as often: neither the
/// order in which proxies and workers are walked, nor whether an answer was
/// remembered, makes a difference.
pub proof fn answers_agree(
    topic: Seq<char>,
    proxies: Map<Seq<char>, Seq<Seq<char>>>,
    workers: Map<Seq<char>, WorkerConfig>,
    this: Seq<(Seq<char>, CloudflareConfig)>,
    that: Seq<(Seq<char>, CloudflareConfig)>,
)
    requires
        resolved_targets(topic, proxies, workers, this),
        resolved_targets(topic, proxies, workers, that),
    ensures
        this.to_multiset() == that.to_multiset(),
{
    let (p1, w1) = choose|
        ps: Seq<(Seq<char>, Seq<Seq<char>>)>,
        ws: Seq<(Seq<char>, WorkerConfig)>,
    |
        {
            &&& lists(ps, proxies)
            &&& lists(ws, workers)
            &&& this == #[trigger] all_targets(ps, topic, ws)
        };
    let (p2, w2) = choose|
        ps: Seq<(Seq<char>, Seq<Seq<char>>)>,
        ws: Seq<(Seq<char>, WorkerConfig)>,
    |
        {
            &&& lists(ps, proxies)
            &&& lists(ws, workers)
            &&& that == #[trigger] all_targets(ps, topic, ws)
        };
    lemma_lists_agree(w1, w2, workers);
    lemma_lists_agree(w2, w1, workers);
    lemma_lists_agree(p1, p2, proxies);
    lemma_lists_agree(p2, p1, proxies);
    let f1 = |proxy: (Seq<char>, Seq<Seq<char>>)| proxy_targets(proxy, topic, w1);
    let f2 = |proxy: (Seq<char>, Seq<Seq<char>>)| proxy_targets(proxy, topic, w2);
    assert forall|i: int| 0 <= i < p1.len() implies f1(#[trigger] p1[i]).to_multiset() == f2(
        p1[i],
    ).to_multiset() by {
        let proxy = p1[i];
        let g1 = |remote: Seq<char>| pattern_targets(proxy.0, remote, topic, w1);
        let g2 = |remote: Seq<char>| pattern_targets(proxy.0, remote, topic, w2);
        assert forall|u: int| 0 <= u < proxy.1.len() implies g1(
            #[trigger] proxy.1[u],
        ).to_multiset() == g2(proxy.1[u]).to_multiset() by {
            if resolution(proxy.0, proxy.1[u], topic) is Ok {
                let url = resolution(proxy.0, proxy.1[u], topic)->Ok_0;
                let h = |w: (Seq<char>, WorkerConfig)| worker_target(url, w);
                lemma_order_bag(w1, w2, h);
            }
        }
        lemma_parts_bag(proxy.1, g1, g2);
    }
    lemma_parts_bag(p1, f1, f2);
    lemma_order_bag(p1, p2, f2);
}

/// A relay without proxies, or without workers, forwards nothing.
pub proof fn nothing_to_forward(
    topic: Seq<char>,
    proxies: Map<Seq<char>, Seq<Seq<char>>>,
    workers: Map<Seq<char>, WorkerConfig>,
    targets: Seq<(Seq<char>, CloudflareConfig)>,
)
    requires
        proxies.dom().is_empty() || workers.dom().is_empty(),
        resolved_targets(topic, proxies, workers, targets),
    ensures
        targets.len() == 0,
{
    let (ps, ws) = choose|
        ps: Seq<(Seq<char>, Seq<Seq<char>>)>,
        ws: Seq<(Seq<char>, WorkerConfig)>,
    |
        {
            &&& lists(ps, proxies)
            &&& lists(ws, workers)
            &&& targets == #[trigger] all_targets(ps, topic, ws)
        };
    if targets.len() > 0 {
        assert(targets.contains(targets[0]));
        targets_are_the_serving_workers(ps, topic, ws, targets[0]);
        let w = choose|w: int|
            0 <= w < ws.len() && #[trigger] ws[w].1 == WorkerConfig::Cloudflare(targets[0].1)
                && targets[0].0 == ws[w].0 + targets[0].1.push_path@ && serves(ws[w], ps, topic);
        assert(workers.dom().contains(ws[w].0));
        let (p, u) = choose|p: int, u: int|
            0 <= p < ps.len() && 0 <= u < ps[p].1.len() && reaches(
                ws[w].0,
                ps[p].0,
                #[trigger] ps[p].1[u],
                topic,
            );
        assert(proxies.dom().contains(ps[p].0));
    }
}

/// Registering adds the address behind those that the pattern has already, and
/// leaves every other pattern as it is.
pub proof fn registering_adds_one_address(
    proxies: Map<Seq<char>, Seq<Seq<char>>>,
    topic: Seq<char>,
    url: Seq<char>,
)
    ensures
        with_proxy(proxies, topic, url).contains_key(topic),
        with_proxy(proxies, topic, url)[topic].last() == url,
        with_proxy(proxies, topic, url)[topic].len() == if proxies.contains_key(topic) {
            proxies[topic].len() + 1
        } else {
            1
        },
        proxies.contains_key(topic) ==> proxies[topic].is_prefix_of(
            with_proxy(proxies, topic, url)[topic],
        ),
        forall|other: Seq<char>|
            other != topic ==> (#[trigger] with_proxy(proxies, topic, url).contains_key(other)
                <==> proxies.contains_key(other)) && (proxies.contains_key(other) ==> with_proxy(
                proxies,
                topic,
                url,
            )[other] == proxies[other]),
{
}

/// Unregistering undoes every registration of a pattern, and nothing else.
pub proof fn unregistering_undoes_registering(
    proxies: Map<Seq<char>, Seq<Seq<char>>>,
    topic: Seq<char>,
    url: Seq<char>,
)
    ensures
        with_proxy(proxies, topic, url).remove(topic) == proxies.remove(topic),
        !proxies.contains_key(topic) ==> with_proxy(proxies, topic, url).remove(topic) == proxies,
{
    assert(with_proxy(proxies, topic, url).remove(topic) =~= proxies.remove(topic));
    if !proxies.contains_key(topic) {
        assert(proxies.remove(topic) =~= proxies);
    }
}

/// Whether a worker is a Cloudflare worker whose base address an address starts
/// with, and `target` is its push address with its settings.
pub open spec fn serves_address(
    worker: (Seq<char>, WorkerConfig),
    url: Seq<char>,
    target: (Seq<char>, CloudflareConfig),
) -> bool {
    &&& worker.1 == WorkerConfig::Cloudflare(target.1)
    &&& worker.0.is_prefix_of(url)
    &&& target.0 == worker.0 + target.1.push_path@
}

/// Whether a worker serves the address that a pattern and one of its addresses give
/// the topic, and `target` is its push address with its settings.
pub open spec fn serves_pattern(
    local: Seq<char>,
    remote: Seq<char>,
    topic: Seq<char>,
    worker: (Seq<char>, WorkerConfig),
    target: (Seq<char>, CloudflareConfig),
) -> bool {
    resolution(local, remote, topic) matches Ok(url) && serves_address(worker, url, target)
}

/// The workers that serve an address, by their indices.
proof fn lemma_served_workers(url: Seq<char>, workers: Seq<(Seq<char>, WorkerConfig)>) -> (ks: Seq<
    int,
>)
    ensures
        ks.len() == url_targets(url, workers).len(),
        forall|i: int, j: int| 0 <= i < j < ks.len() ==> #[trigger] ks[i] < #[trigger] ks[j],
        forall|i: int|
            0 <= i < ks.len() ==> 0 <= #[trigger] ks[i] < workers.len() && serves_address(
                workers[ks[i]],
                url,
                url_targets(url, workers)[i],
            ),
        forall|w: int, target: (Seq<char>, CloudflareConfig)|
            0 <= w < workers.len() && #[trigger] serves_address(workers[w], url, target)
                ==> ks.contains(w),
    decreases workers.len(),
{
    let f = |w: (Seq<char>, WorkerConfig)| worker_target(url, w);
    if workers.len() == 0 {
        assert(workers.map_values(f).flatten() =~= Seq::empty());
        Seq::empty()
    } else {
        let n = workers.len() - 1;
        let rest = workers.drop_last();
        let ks = lemma_served_workers(url, rest);
        let last = workers[n];
        let one = f(last);
        let before = url_targets(url, rest);
        assert(workers.map_values(f) =~= rest.map_values(f).push(one));
        rest.map_values(f).lemma_flatten_push(one);
        assert(url_targets(url, workers) == before + one);
        let all = if one.len() == 0 {
            ks
        } else {
            ks.push(n)
        };
        assert forall|i: int| 0 <= i < all.len() implies 0 <= #[trigger] all[i] < workers.len()
            && serves_address(workers[all[i]], url, url_targets(url, workers)[i]) by {
            if i < ks.len() {
                assert(all[i] == ks[i]);
                assert(rest[ks[i]] == workers[ks[i]]);
                assert(url_targets(url, workers)[i] == before[i]);
            } else {
                assert(all[i] == n);
                assert(url_targets(url, workers)[i] == one[0]);
            }
        }
        assert forall|w: int, target: (Seq<char>, CloudflareConfig)|
            0 <= w < workers.len() && #[trigger] serves_address(
                workers[w],
                url,
                target,
            ) implies all.contains(w) by {
            if w < n {
                assert(rest[w] == workers[w]);
                assert(serves_address(rest[w], url, target));
                assert(ks.contains(w));
                let k = choose|k: int| 0 <= k < ks.len() && ks[k] == w;
                assert(all[k] == w);
            } else {
                assert(one.len() == 1);
                assert(all[ks.len() as int] == w);
            }
        }
        all
    }
}

/// Whether one pair comes before another: by address, then by worker.
pub open spec fn earlier_pair(a: (int, int), b: (int, int)) -> bool {
    a.0 < b.0 || (a.0 == b.0 && a.1 < b.1)
}

/// The pairs of an address and a worker that serve a topic under one pattern.
proof fn lemma_served_pairs(
    local: Seq<char>,
    remotes: Seq<Seq<char>>,
    topic: Seq<char>,
    workers: Seq<(Seq<char>, WorkerConfig)>,
) -> (ks: Seq<(int, int)>)
    ensures
        ks.len() == proxy_targets((local, remotes), topic, workers).len(),
        forall|i: int, j: int|
            0 <= i < j < ks.len() ==> earlier_pair(#[trigger] ks[i], #[trigger] ks[j]),
        forall|i: int|
            0 <= i < ks.len() ==> 0 <= (#[trigger] ks[i]).0 < remotes.len() && 0 <= ks[i].1
                < workers.len() && serves_pattern(
                local,
                remotes[ks[i].0],
                topic,
                workers[ks[i].1],
                proxy_targets((local, remotes), topic, workers)[i],
            ),
        forall|u: int, w: int, target: (Seq<char>, CloudflareConfig)|
            0 <= u < remotes.len() && 0 <= w < workers.len() && #[trigger] serves_pattern(
                local,
                remotes[u],
                topic,
                workers[w],
                target,
            ) ==> ks.contains((u, w)),
    decreases remotes.len(),
{
    let f = |remote: Seq<char>| pattern_targets(local, remote, topic, workers);
    let targets = proxy_targets((local, remotes), topic, workers);
    if remotes.len() == 0 {
        assert(remotes.map_values(f).flatten() =~= Seq::empty());
        Seq::empty()
    } else {
        let n = remotes.len() - 1;
        let rest = remotes.drop_last();
        let ks = lemma_served_pairs(local, rest, topic, workers);
        let before = proxy_targets((local, rest), topic, workers);
        let one = f(remotes[n]);
        assert(remotes.map_values(f) =~= rest.map_values(f).push(one));
        rest.map_values(f).lemma_flatten_push(one);
        assert(targets == before + one);
        let ws = if resolution(local, remotes[n], topic) is Ok {
            lemma_served_workers(resolution(local, remotes[n], topic)->Ok_0, workers)
        } else {
            Seq::empty()
        };
        assert(ws.len() == one.len());
        let more = Seq::new(ws.len(), |i: int| (n, ws[i]));
        let all = ks + more;
        assert forall|i: int, j: int| 0 <= i < j < all.len() implies earlier_pair(
            #[trigger] all[i],
            #[trigger] all[j],
        ) by {
            if j < ks.len() {
                assert(all[i] == ks[i] && all[j] == ks[j]);
            } else if i < ks.len() {
                assert(all[i] == ks[i] && all[j] == more[j - ks.len()]);
            } else {
                assert(all[i] == more[i - ks.len()] && all[j] == more[j - ks.len()]);
                assert(ws[i - ks.len()] < ws[j - ks.len()]);
            }
        }
        assert forall|i: int| 0 <= i < all.len() implies 0 <= (#[trigger] all[i]).0
            < remotes.len() && 0 <= all[i].1 < workers.len() && serves_pattern(
            local,
            remotes[all[i].0],
            topic,
            workers[all[i].1],
            targets[i],
        ) by {
            if i < ks.len() {
                assert(all[i] == ks[i]);
                assert(rest[ks[i].0] == remotes[ks[i].0]);
                assert(targets[i] == before[i]);
            } else {
                let k = i - ks.len();
                assert(all[i] == more[k]);
                assert(0 <= ws[k] < workers.len());
                assert(targets[i] == one[k]);
            }
        }
        assert forall|u: int, w: int, target: (Seq<char>, CloudflareConfig)|
            0 <= u < remotes.len() && 0 <= w < workers.len() && #[trigger] serves_pattern(
                local,
                remotes[u],
                topic,
                workers[w],
                target,
            ) implies all.contains((u, w)) by {
            if u < n {
                assert(rest[u] == remotes[u]);
                assert(serves_pattern(local, rest[u], topic, workers[w], target));
                assert(ks.contains((u, w)));
                let k = choose|k: int| 0 <= k < ks.len() && ks[k] == (u, w);
                assert(all[k] == (u, w));
            } else {
                let url = resolution(local, remotes[n], topic)->Ok_0;
                assert(serves_address(workers[w], url, target));
                assert(ws.contains(w));
                let k = choose|k: int| 0 <= k < ws.len() && ws[k] == w;
                assert(more[k] == (n, w));
                assert(all[ks.len() + k] == (u, w));
            }
        }
        all
    }
}

/// Whether one triple comes before another: by pattern, then by address, then by
/// worker.
pub open spec fn earlier(a: (int, int, int), b: (int, int, int)) -> bool {
    ||| a.0 < b.0
    ||| a.0 == b.0 && a.1 < b.1
    ||| a.0 == b.0 && a.1 == b.1 && a.2 < b.2
}

/// Whether `triples` tells, for each target in turn, which pattern, which of its
/// addresses and which worker it comes from; and names every triple of a pattern,
/// an address of it and a Cloudflare worker such that the address that the topic
/// has there starts with the worker's base address, each once and in order.
pub open spec fn come_from(
    triples: Seq<(int, int, int)>,
    targets: Seq<(Seq<char>, CloudflareConfig)>,
    proxies: Seq<(Seq<char>, Seq<Seq<char>>)>,
    topic: Seq<char>,
    workers: Seq<(Seq<char>, WorkerConfig)>,
) -> bool {
    &&& triples.len() == targets.len()
    &&& forall|i: int, j: int|
        0 <= i < j < triples.len() ==> earlier(#[trigger] triples[i], #[trigger] triples[j])
    &&& forall|i: int|
        0 <= i < triples.len() ==> {
            let (p, u, w) = #[trigger] triples[i];
            &&& 0 <= p < proxies.len()
            &&& 0 <= u < proxies[p].1.len()
            &&& 0 <= w < workers.len()
            &&& serves_pattern(proxies[p].0, proxies[p].1[u], topic, workers[w], targets[i])
        }
    &&& forall|p: int, u: int, w: int, target: (Seq<char>, CloudflareConfig)|
        0 <= p < proxies.len() && 0 <= u < proxies[p].1.len() && 0 <= w < workers.len()
            && #[trigger] serves_pattern(
            proxies[p].0,
            proxies[p].1[u],
            topic,
            workers[w],
            target,
        ) ==> triples.contains((p, u, w))
}

/// There is exactly one target for each triple of a pattern, one of its addresses
/// and a Cloudflare worker such that the address that the topic has there starts
/// with the worker's base address: the worker's push address with its settings. The
/// targets stand in the order of the triples, so each occurs as often as there are
/// triples that give it.
pub proof fn one_target_for_each_serving_triple(
    proxies: Seq<(Seq<char>, Seq<Seq<char>>)>,
    topic: Seq<char>,
    workers: Seq<(Seq<char>, WorkerConfig)>,
) -> (triples: Seq<(int, int, int)>)
    ensures
        come_from(triples, all_targets(proxies, topic, workers), proxies, topic, workers),
    decreases proxies.len(),
{
    let f = |proxy: (Seq<char>, Seq<Seq<char>>)| proxy_targets(proxy, topic, workers);
    let targets = all_targets(proxies, topic, workers);
    if proxies.len() == 0 {
        assert(proxies.map_values(f).flatten() =~= Seq::empty());
        Seq::empty()
    } else {
        let n = proxies.len() - 1;
        let rest = proxies.drop_last();
        let ks = one_target_for_each_serving_triple(rest, topic, workers);
        let before = all_targets(rest, topic, workers);
        let one = f(proxies[n]);
        assert(proxies.map_values(f) =~= rest.map_values(f).push(one));
        rest.map_values(f).lemma_flatten_push(one);
        assert(targets == before + one);
        let (local, remotes) = proxies[n];
        let pairs = lemma_served_pairs(local, remotes, topic, workers);
        let more = Seq::new(pairs.len(), |i: int| (n, pairs[i].0, pairs[i].1));
        let all = ks + more;
        assert forall|i: int, j: int| 0 <= i < j < all.len() implies earlier(
            #[trigger] all[i],
            #[trigger] all[j],
        ) by {
            if j < ks.len() {
                assert(all[i] == ks[i] && all[j] == ks[j]);
            } else if i < ks.len() {
                assert(all[i] == ks[i] && all[j] == more[j - ks.len()]);
            } else {
                assert(all[i] == more[i - ks.len()] && all[j] == more[j - ks.len()]);
                assert(earlier_pair(pairs[i - ks.len()], pairs[j - ks.len()]));
            }
        }
        assert forall|i: int| 0 <= i < all.len() implies {
            let (p, u, w) = #[trigger] all[i];
            &&& 0 <= p < proxies.len()
            &&& 0 <= u < proxies[p].1.len()
            &&& 0 <= w < workers.len()
            &&& serves_pattern(proxies[p].0, proxies[p].1[u], topic, workers[w], targets[i])
        } by {
            if i < ks.len() {
                assert(all[i] == ks[i]);
                assert(rest[ks[i].0] == proxies[ks[i].0]);
                assert(targets[i] == before[i]);
            } else {
                let k = i - ks.len();
                assert(all[i] == more[k]);
                assert(pairs[k] == pairs[k]);
                assert(targets[i] == one[k]);
            }
        }
        assert forall|p: int, u: int, w: int, target: (Seq<char>, CloudflareConfig)|
            0 <= p < proxies.len() && 0 <= u < proxies[p].1.len() && 0 <= w < workers.len()
                && #[trigger] serves_pattern(
                proxies[p].0,
                proxies[p].1[u],
                topic,
                workers[w],
                target,
            ) implies all.contains((p, u, w)) by {
            if p < n {
                assert(rest[p] == proxies[p]);
                assert(serves_pattern(rest[p].0, rest[p].1[u], topic, workers[w], target));
                assert(ks.contains((p, u, w)));
                let k = choose|k: int| 0 <= k < ks.len() && ks[k] == (p, u, w);
                assert(all[k] == (p, u, w));
            } else {
                assert(serves_pattern(local, remotes[u], topic, workers[w], target));
                assert(pairs.contains((u, w)));
                let k = choose|k: int| 0 <= k < pairs.len() && pairs[k] == (u, w);
                assert(more[k] == (n, u, w));
                assert(all[ks.len() + k] == (p, u, w));
            }
        }
        all
    }
}

/// One pattern with one address and one worker that serves it give exactly one
/// target, whatever else the worker's settings hold; where the worker does not serve
/// the address, they give none.
pub proof fn one_pattern_one_address_one_worker(
    local: Seq<char>,
    remote: Seq<char>,
    topic: Seq<char>,
    base: Seq<char>,
    config: CloudflareConfig,
)
    ensures
        ({
            let targets = all_targets(
                seq![(local, seq![remote])],
                topic,
                seq![(base, WorkerConfig::Cloudflare(config))],
            );
            match resolution(local, remote, topic) {
                Ok(url) => if base.is_prefix_of(url) {
                    targets == seq![(base + config.push_path@, config)]
                } else {
                    targets.len() == 0
                },
                Err(_) => targets.len() == 0,
            }
        }),
{
    let proxies = seq![(local, seq![remote])];
    let workers = seq![(base, WorkerConfig::Cloudflare(config))];
    let targets = all_targets(proxies, topic, workers);
    let triples = one_target_for_each_serving_triple(proxies, topic, workers);
    let target = (base + config.push_path@, config);
    if targets.len() > 0 {
        assert(triples[0] == (0int, 0int, 0int));
        if targets.len() > 1 {
            assert(triples[1] == (0int, 0int, 0int));
            assert(earlier(triples[0], triples[1]));
        }
        assert(targets[0] == target);
        assert(targets =~= seq![target]);
    }
    if resolution(local, remote, topic) is Ok && base.is_prefix_of(
        resolution(local, remote, topic)->Ok_0,
    ) {
        assert(serves_pattern(proxies[0].0, proxies[0].1[0], topic, workers[0], target));
        assert(triples.contains((0int, 0int, 0int)));
    }
}

/// Whether an entry of a list has the key.
pub open spec fn is_listed<V>(entries: Seq<(Seq<char>, V)>, key: Seq<char>) -> bool {
    exists|i: int| 0 <= i < entries.len() && (#[trigger] entries[i]).0 == key
}

/// A list of a map names every key once, with its value.
#[verifier::spinoff_prover]
proof fn lemma_listed<V>(entries: Seq<(Seq<char>, V)>, map: Map<Seq<char>, V>)
    requires
        lists(entries, map),
    ensures
        forall|i: int|
            0 <= i < entries.len() ==> map.contains_key((#[trigger] entries[i]).0)
                && map[entries[i].0] == entries[i].1,
        forall|key: Seq<char>| #[trigger]
            map.contains_key(key) ==> is_listed(entries, key),
        forall|i: int, j: int|
            0 <= i < j < entries.len() ==> (#[trigger] entries[i]).0 != (#[trigger] entries[j]).0,
{
    assert forall|i: int| 0 <= i < entries.len() implies map.contains_key((#[trigger] entries[i]).0)
        && map[entries[i].0] == entries[i].1 by {
        assert(map.contains_pair(entries[i].0, entries[i].1));
    }
    assert forall|key: Seq<char>| #[trigger] map.contains_key(key) implies is_listed(
        entries,
        key,
    ) by {
        let i = choose|i: int| 0 <= i < entries.len() && entries[i].0 == key;
        assert(entries[i].0 == key);
    }
}

/// The answer of a relay for a topic comes from its registered proxies and bound
/// workers: one target for each serving triple.
#[verifier::spinoff_prover]
pub proof fn answers_come_from_proxies_and_workers(
    topic: Seq<char>,
    proxies: Map<Seq<char>, Seq<Seq<char>>>,
    workers: Map<Seq<char>, WorkerConfig>,
    targets: Seq<(Seq<char>, CloudflareConfig)>,
) -> (r: (
    Seq<(Seq<char>, Seq<Seq<char>>)>,
    Seq<(Seq<char>, WorkerConfig)>,
    Seq<(int, int, int)>,
))
    requires
        resolved_targets(topic, proxies, workers, targets),
    ensures
        come_from(r.2, targets, r.0, topic, r.1),
        forall|i: int|
            0 <= i < r.0.len() ==> proxies.contains_key((#[trigger] r.0[i]).0)
                && proxies[r.0[i].0] == r.0[i].1,
        forall|i: int|
            0 <= i < r.1.len() ==> workers.contains_key((#[trigger] r.1[i]).0)
                && workers[r.1[i].0] == r.1[i].1,
        forall|key: Seq<char>| #[trigger]
            proxies.contains_key(key) ==> is_listed(r.0, key),
        forall|key: Seq<char>| #[trigger]
            workers.contains_key(key) ==> is_listed(r.1, key),
        forall|i: int, j: int|
            0 <= i < j < r.0.len() ==> (#[trigger] r.0[i]).0 != (#[trigger] r.0[j]).0,
        forall|i: int, j: int|
            0 <= i < j < r.1.len() ==> (#[trigger] r.1[i]).0 != (#[trigger] r.1[j]).0,
{
    let (ps, ws) = choose|
        ps: Seq<(Seq<char>, Seq<Seq<char>>)>,
        ws: Seq<(Seq<char>, WorkerConfig)>,
    |
        {
            &&& lists(ps, proxies)
            &&& lists(ws, workers)
            &&& targets == #[trigger] all_targets(ps, topic, ws)
        };
    let triples = one_target_for_each_serving_triple(ps, topic, ws);
    lemma_listed(ps, proxies);
    lemma_listed(ws, workers);
    (ps, ws, triples)
}

/// A list of a map holds every entry of it exactly once, with its value, and nothing
/// else.
pub proof fn maps_are_listed_whole<V>(
    entries: Seq<(Seq<char>, V)>,
    map: Map<Seq<char>, V>,
    key: Seq<char>,
)
    requires
        lists(entries, map),
    ensures
        map.contains_key(key) <==> exists|i: int|
            0 <= i < entries.len() && #[trigger] entries[i].0 == key,
        map.contains_key(key) ==> entries.contains((key, map[key])),
        forall|i: int|
            0 <= i < entries.len() ==> map.contains_key((#[trigger] entries[i]).0)
                && map[entries[i].0] == entries[i].1,
        forall|i: int, j: int|
            0 <= i < entries.len() && 0 <= j < entries.len() && #[trigger] entries[i].0
                == #[trigger] entries[j].0 ==> i == j,
        entries.len() == map.dom().len(),
        map.dom().finite(),
{
    let keys = entries.map_values(|e: (Seq<char>, V)| e.0);
    assert forall|i: int| 0 <= i < entries.len() implies map.contains_key((#[trigger] entries[i]).0)
        && map[entries[i].0] == entries[i].1 by {
        assert(map.contains_pair(entries[i].0, entries[i].1));
    }
    assert forall|i: int, j: int|
        0 <= i < entries.len() && 0 <= j < entries.len() && #[trigger] entries[i].0
            == #[trigger] entries[j].0 implies i == j by {
        if i < j {
            assert(entries[i].0 != entries[j].0);
        } else if j < i {
            assert(entries[j].0 != entries[i].0);
        }
    }
    if map.contains_key(key) {
        let i = choose|i: int| 0 <= i < entries.len() && entries[i].0 == key;
        assert(entries[i] == (key, map[key]));
    }
    assert(keys.no_duplicates()) by {
        assert forall|i: int, j: int|
            0 <= i < keys.len() && 0 <= j < keys.len() && i != j implies keys[i] != keys[j] by {
            assert(keys[i] == entries[i].0 && keys[j] == entries[j].0);
        }
    }
    keys.unique_seq_to_set();
    assert(keys.to_set() =~= map.dom()) by {
        assert forall|k: Seq<char>| keys.to_set().contains(k) <==> map.dom().contains(k) by {
            if keys.to_set().contains(k) {
                let i = choose|i: int| 0 <= i < keys.len() && keys[i] == k;
                assert(entries[i].0 == k);
            }
            if map.contains_key(k) {
                let i = choose|i: int| 0 <= i < entries.len() && entries[i].0 == k;
                assert(keys[i] == k);
            }
        }
    }
}

/// No group is left out for a topic exactly where none is under any registered
/// pattern, however the patterns are listed.
pub proof fn every_pattern_counts(
    proxies: Map<Seq<char>, Seq<Seq<char>>>,
    entries: Seq<(Seq<char>, Seq<Seq<char>>)>,
    topic: Seq<char>,
)
    requires
        lists(entries, proxies),
    ensures
        all_take_part(proxies, topic) <==> proxies_take_part(entries, topic),
        all_take_part(proxies, topic) <==> !exists|local: Seq<char>|
            proxies.contains_key(local) && !#[trigger] groups_take_part(local, topic),
{
    if proxies_take_part(entries, topic) {
        assert forall|local: Seq<char>| #[trigger]
            proxies.contains_key(local) implies groups_take_part(local, topic) by {
            let i = choose|i: int| 0 <= i < entries.len() && entries[i].0 == local;
            assert(groups_take_part(entries[i].0, topic));
        }
    }
    if all_take_part(proxies, topic) {
        assert forall|i: int| 0 <= i < entries.len() implies groups_take_part(
            #[trigger] entries[i].0,
            topic,
        ) by {
            assert(proxies.contains_pair(entries[i].0, entries[i].1));
        }
        assert forall|local: Seq<char>| !(proxies.contains_key(local)
            && !#[trigger] groups_take_part(local, topic)) by {
            if proxies.contains_key(local) {
                assert(groups_take_part(local, topic));
            }
        }
    }
}

} // verus!
