//! The concurrent maps that hold proxies and workers, and the cache of resolved
//! topics.

use std::time::Duration;

use dashmap::DashMap;
use moka::sync::Cache;
use vstd::prelude::*;

use crate::config::{
    lists, proxy_texts, texts, worker_texts, CloudflareConfig, WorkerConfig, NANOS_PER_SEC,
};

verus! {

/// The concurrent map of the `dashmap` crate.
#[verifier::external_type_specification]
#[verifier::external_body]
#[verifier::reject_recursive_types(K)]
#[verifier::reject_recursive_types(V)]
#[verifier::reject_recursive_types(S)]
pub struct ExDashMap<K, V, S>(DashMap<K, V, S>);

/// The cache of the `moka` crate.
#[verifier::external_type_specification]
#[verifier::external_body]
#[verifier::reject_recursive_types(K)]
#[verifier::reject_recursive_types(V)]
#[verifier::reject_recursive_types(S)]
pub struct ExCache<K, V, S>(Cache<K, V, S>);

/// What a map of proxies holds.
pub uninterp spec fn proxy_contents(map: DashMap<String, Vec<String>>) -> Map<
    Seq<char>,
    Seq<Seq<char>>,
>;

/// What a map of workers holds.
pub uninterp spec fn worker_contents(map: DashMap<String, WorkerConfig>) -> Map<
    Seq<char>,
    WorkerConfig,
>;

/// The texts of a list of targets.
pub open spec fn target_texts(targets: Seq<(String, CloudflareConfig)>) -> Seq<
    (Seq<char>, CloudflareConfig),
> {
    targets.map_values(|t: (String, CloudflareConfig)| (t.0@, t.1))
}

/// What was put into a cache since it was built: topic, generation and targets.
pub uninterp spec fn cache_contents(cache: Cache<String, (u64, Vec<(String, CloudflareConfig)>)>)
    -> Set<(Seq<char>, u64, Seq<(Seq<char>, CloudflareConfig)>)>;

/// The capacity that a cache was built with, and the time in nanoseconds after
/// which it drops an entry that is not used.
pub uninterp spec fn cache_limits(cache: Cache<String, (u64, Vec<(String, CloudflareConfig)>)>) -> (
    u64,
    nat,
);

/// `DashMap::new` makes a map that holds nothing.
#[verifier::external_body]
pub(crate) fn new_proxies() -> (map: DashMap<String, Vec<String>>)
    ensures
        proxy_contents(map).dom() == Set::<Seq<char>>::empty(),
{
    DashMap::new()
}

/// `DashMap::get` gives the value of a key; here a copy of it.
#[verifier::external_body]
pub(crate) fn get_proxy(map: &DashMap<String, Vec<String>>, key: &str) -> (r: Option<Vec<String>>)
    ensures
        r is Some <==> proxy_contents(*map).contains_key(key@),
        r matches Some(urls) ==> texts(urls@) == proxy_contents(*map)[key@],
{
    map.get(key).map(|entry| entry.value().clone())
}

/// `DashMap::insert` puts a value under a key in place of the one before.
#[verifier::external_body]
pub(crate) fn insert_proxy(map: &mut DashMap<String, Vec<String>>, key: String, urls: Vec<String>)
    ensures
        proxy_contents(*final(map)) == proxy_contents(*old(map)).insert(key@, texts(urls@)),
{
    map.insert(key, urls);
}

/// `DashMap::remove` takes a key out, and gives the value that was under it.
#[verifier::external_body]
pub(crate) fn remove_proxy(map: &mut DashMap<String, Vec<String>>, key: &str) -> (r: Option<
    Vec<String>,
>)
    ensures
        proxy_contents(*final(map)) == proxy_contents(*old(map)).remove(key@),
        r is Some <==> proxy_contents(*old(map)).contains_key(key@),
        r matches Some(urls) ==> texts(urls@) == proxy_contents(*old(map))[key@],
{
    map.remove(key).map(|entry| entry.1)
}

/// `DashMap::iter` walks every entry once, in no particular order; here the
/// entries are copied.
#[verifier::external_body]
pub(crate) fn list_proxies(map: &DashMap<String, Vec<String>>) -> (r: Vec<(String, Vec<String>)>)
    ensures
        lists(proxy_texts(r@), proxy_contents(*map)),
{
    map.iter().map(|entry| (entry.key().clone(), entry.value().clone())).collect()
}

/// `DashMap::new` makes a map that holds nothing.
#[verifier::external_body]
pub(crate) fn new_workers() -> (map: DashMap<String, WorkerConfig>)
    ensures
        worker_contents(map).dom() == Set::<Seq<char>>::empty(),
{
    DashMap::new()
}

/// `DashMap::get` gives the value of a key; here a copy of it.
#[verifier::external_body]
pub(crate) fn get_worker(map: &DashMap<String, WorkerConfig>, key: &str) -> (r: Option<
    WorkerConfig,
>)
    ensures
        r is Some <==> worker_contents(*map).contains_key(key@),
        r matches Some(config) ==> config == worker_contents(*map)[key@],
{
    map.get(key).map(|entry| entry.value().clone())
}

/// `DashMap::insert` puts a value under a key in place of the one before.
#[verifier::external_body]
pub(crate) fn insert_worker(
    map: &mut DashMap<String, WorkerConfig>,
    key: String,
    config: WorkerConfig,
)
    ensures
        worker_contents(*final(map)) == worker_contents(*old(map)).insert(key@, config),
{
    map.insert(key, config);
}

/// `DashMap::remove` takes a key out, and gives the value that was under it.
#[verifier::external_body]
pub(crate) fn remove_worker(map: &mut DashMap<String, WorkerConfig>, key: &str) -> (r: Option<
    WorkerConfig,
>)
    ensures
        worker_contents(*final(map)) == worker_contents(*old(map)).remove(key@),
        r is Some <==> worker_contents(*old(map)).contains_key(key@),
        r matches Some(config) ==> config == worker_contents(*old(map))[key@],
{
    map.remove(key).map(|entry| entry.1)
}

/// `DashMap::iter` walks every entry once, in no particular order; here the
/// entries are copied.
#[verifier::external_body]
pub(crate) fn list_workers(map: &DashMap<String, WorkerConfig>) -> (r: Vec<(String, WorkerConfig)>)
    ensures
        lists(worker_texts(r@), worker_contents(*map)),
{
    map.iter().map(|entry| (entry.key().clone(), entry.value().clone())).collect()
}

/// `Cache::builder`, with a maximal capacity and a time to idle: an empty cache
/// with these limits. The crate takes a time of up to a thousand years of 365
/// days, and panics on a longer one.
#[verifier::external_body]
pub(crate) fn new_cache(capacity: u64, secs: u64, nanos: u32) -> (cache: Cache<
    String,
    (u64, Vec<(String, CloudflareConfig)>),
>)
    requires
        nanos < NANOS_PER_SEC,
        secs * NANOS_PER_SEC + nanos <= 1_000 * 365 * 24 * 3_600 * NANOS_PER_SEC,
    ensures
        cache_contents(cache).is_empty(),
        cache_limits(cache) == (capacity, (secs * NANOS_PER_SEC + nanos) as nat),
{
    Cache::builder().max_capacity(capacity).time_to_idle(Duration::new(secs, nanos)).build()
}

/// `Cache::get` gives a copy of a value that was put under the key, or none: an
/// entry can be dropped at any time, for want of room or of use. When that
/// happens depends on the clock, so nothing is said of it.
#[verifier::external_body]
pub(crate) fn cached_targets(
    cache: &Cache<String, (u64, Vec<(String, CloudflareConfig)>)>,
    topic: &str,
) -> (r: Option<(u64, Vec<(String, CloudflareConfig)>)>)
    ensures
        r matches Some(entry) ==> cache_contents(*cache).contains(
            (topic@, entry.0, target_texts(entry.1@)),
        ),
{
    cache.get(topic)
}

/// `Cache::insert` puts a value under a key.
#[verifier::external_body]
pub(crate) fn cache_targets(
    cache: &mut Cache<String, (u64, Vec<(String, CloudflareConfig)>)>,
    topic: String,
    entry: (u64, Vec<(String, CloudflareConfig)>),
)
    ensures
        cache_contents(*final(cache)) == cache_contents(*old(cache)).insert(
            (topic@, entry.0, target_texts(entry.1@)),
        ),
        cache_limits(*final(cache)) == cache_limits(*old(cache)),
{
    cache.insert(topic, entry);
}

/// `Cache::invalidate_all` drops the entries that were put in before the present
/// tick of the clock. An entry put in during that tick can stay, so nothing is
/// said of which are gone.
#[verifier::external_body]
pub(crate) fn drop_cached(cache: &mut Cache<String, (u64, Vec<(String, CloudflareConfig)>)>)
    ensures
        cache_contents(*final(cache)).subset_of(cache_contents(*old(cache))),
        cache_limits(*final(cache)) == cache_limits(*old(cache)),
{
    cache.invalidate_all();
}

} // verus!
