//! Per-period caches of client addresses, each with its own size limit and
//! time to live, that count how often each address was seen.
use vstd::prelude::*;
use moka::sync::Cache;
use std::time::Duration;

verus! {

#[verifier::external_type_specification]
#[verifier::external_body]
#[verifier::reject_recursive_types(K)]
#[verifier::reject_recursive_types(V)]
#[verifier::reject_recursive_types(S)]
pub struct ExCache<K, V, S>(Cache<K, V, S>);

/// The address of a client: an IPv4 address as its 32 bits, or an IPv6
/// address as its 128 bits.
#[derive(Clone, Copy, Debug, Hash, PartialEq, Eq, Structural)]
pub enum ClientIp {
    V4(u32),
    V6(u128),
}

/// The longest time to live a cache accepts: 1000 years of 365 days, in
/// seconds. A longer one makes building the cache panic.
pub const MAX_TTL_SECS: u64 = 31_536_000_000;

/// The configuration a cache was built with: its maximum capacity and the
/// time to live of its entries, in seconds.
pub uninterp spec fn cache_config(c: Cache<ClientIp, u64>) -> (u64, u64);

/// The count last written for each address into a cache. The cache holds
/// at most these: an entry can expire or be evicted at any time, but what
/// it returns for an address is the value last inserted for it.
pub uninterp spec fn cache_written(c: Cache<ClientIp, u64>) -> Map<ClientIp, u64>;

/// `Cache::builder`, `max_capacity`, `time_to_live` and `build` of
/// `moka::sync::Cache`: a cache of at most `limit` entries, each of which
/// expires `ttl_secs` seconds after it was written. Trusted: the cache is
/// built with that capacity and time to live; the `requires` leaves out the
/// time to live on which `build` panics. A new cache holds nothing. Which
/// entries it keeps later depends on the clock and on its admission and
/// eviction policy.
#[verifier::external_body]
fn cache_new(limit: u64, ttl_secs: u64) -> (cache: Cache<ClientIp, u64>)
    requires
        ttl_secs <= MAX_TTL_SECS,
    ensures
        cache_config(cache) == (limit, ttl_secs),
        cache_written(cache).dom().is_empty(),
{
    Cache::builder().max_capacity(limit).time_to_live(Duration::from_secs(ttl_secs)).build()
}

/// `Cache::get`: the value stored for `ip`, if it is still there. Trusted:
/// what comes back is nothing or the value last inserted for `ip`; whether
/// the entry is still there depends on the clock and on evictions, so
/// either can come back.
#[verifier::external_body]
fn cache_get(cache: &Cache<ClientIp, u64>, ip: &ClientIp) -> (r: Option<u64>)
    ensures
        r matches Some(n) ==> cache_written(*cache).contains_key(*ip) && n == cache_written(*cache)[*ip],
{
    cache.get(ip)
}

/// `Cache::insert`: stores `v` for `ip` (replacing the value of an entry
/// that is there), subject to the cache's admission policy. Trusted: `v`
/// becomes the value last written for `ip`; the capacity and time to live
/// do not change.
#[verifier::external_body]
fn cache_insert(cache: &mut Cache<ClientIp, u64>, ip: ClientIp, v: u64)
    ensures
        cache_written(*final(cache)) == cache_written(*old(cache)).insert(ip, v),
        cache_config(*final(cache)) == cache_config(*old(cache)),
{
    cache.insert(ip, v)
}

/// `Cache::entry_count`: an approximate number of entries, which the cache
/// updates on its own schedule. Trusted: the count starts at 0 and changes
/// only when writes are applied, so a cache never written to reports 0.
#[verifier::external_body]
fn cache_entry_count(cache: &Cache<ClientIp, u64>) -> (n: u64)
    ensures
        cache_written(*cache).dom().is_empty() ==> n == 0,
{
    cache.entry_count()
}

/// The count a cache reports for an address: what it still holds, or 0.
pub fn count_or_zero(found: Option<u64>) -> (r: u64)
    ensures
        r == match found {
            Some(n) => n,
            None => 0,
        },
{
    match found {
        Some(n) => n,
        None => 0,
    }
}

/// The count after one more sighting of an address of which a cache still
/// held `found`: one more than that (saturating at `u64::MAX`), or 1.
pub fn next_client_count(found: Option<u64>) -> (r: u64)
    ensures
        r == match found {
            Some(n) => if n == u64::MAX { n } else { (n + 1) as u64 },
            None => 1,
        },
        r >= 1,
{
    count_or_zero(found).saturating_add(1)
}

/// The counts last written into a cache, if there is one.
pub open spec fn opt_written(c: Option<Cache<ClientIp, u64>>) -> Map<ClientIp, u64> {
    match c {
        Some(cache) => cache_written(cache),
        None => Map::empty(),
    }
}

/// The configuration of a cache, if there is one.
pub open spec fn opt_config(c: Option<Cache<ClientIp, u64>>) -> Option<(u64, u64)> {
    match c {
        Some(cache) => Some(cache_config(cache)),
        None => None,
    }
}

/// A list of client caches; a cache configured with a limit of 0 is left
/// out and reports 0 for every query.
pub struct ClientCache {
    caches: Vec<Option<Cache<ClientIp, u64>>>,
}

/// Whether a cache configuration `(limit, ttl)` makes a cache.
pub open spec fn config_enabled(config: (u64, u64)) -> bool {
    config.0 > 0
}

/// The cache that a configuration `(limit, ttl)` makes, by its
/// configuration: none when `limit` is 0.
pub open spec fn configured(config: (u64, u64)) -> Option<(u64, u64)> {
    if config_enabled(config) {
        Some(config)
    } else {
        None
    }
}

/// The count a cache holds after one more sighting of an address whose last
/// written count is `last`: one more, saturating at `u64::MAX`.
pub open spec fn next_count_after(last: u64) -> u64 {
    if last == u64::MAX {
        last
    } else {
        (last + 1) as u64
    }
}

/// The count after one more sighting, given the cache's reply for the
/// address: one more than the count it replied with (saturating), or 1 when
/// it replied with nothing.
pub open spec fn count_after_reply(reply: Option<u64>) -> u64 {
    match reply {
        Some(n) => next_count_after(n),
        None => 1,
    }
}

/// Counting a sighting from the cache's reply: a held count `n` becomes
/// `n + 1` (saturating), and the count is 1 only when the cache held
/// nothing for the address or held 0.
pub proof fn lemma_count_after_reply(reply: Option<u64>)
    ensures
        reply is Some && reply->0 < u64::MAX ==> count_after_reply(reply) == reply->0 + 1,
        reply is Some && reply->0 == u64::MAX ==> count_after_reply(reply) == u64::MAX,
        reply is None ==> count_after_reply(reply) == 1,
        count_after_reply(reply) == 1 <==> (reply is None || reply == Some(0u64)),
        count_after_reply(reply) >= 1,
{
}

/// A count that one more sighting of `ip` may give in a cache whose last
/// written counts are `written`: 1 when the cache no longer holds `ip`, or
/// one more than the count last written for it.
pub open spec fn counted_after(written: Map<ClientIp, u64>, ip: ClientIp, count: u64) -> bool {
    count == 1 || (written.contains_key(ip) && count == next_count_after(written[ip]))
}

/// A configuration list that building the caches accepts: every enabled
/// cache has a time to live of at most `MAX_TTL_SECS`.
pub open spec fn configs_valid(configs: Seq<(u64, u64)>) -> bool {
    forall|i: int| 0 <= i < configs.len() && config_enabled(#[trigger] configs[i]) ==> configs[i].1 <= MAX_TTL_SECS
}

impl ClientCache {
    /// For each configured cache, the capacity and time to live it was
    /// built with, or `None` where there is no cache.
    pub closed spec fn configs(self) -> Seq<Option<(u64, u64)>> {
        self.caches@.map_values(|c: Option<Cache<ClientIp, u64>>| opt_config(c))
    }

    /// For each configured cache, the counts last written per address
    /// (empty where there is no cache).
    pub closed spec fn written(self) -> Seq<Map<ClientIp, u64>> {
        self.caches@.map_values(|c: Option<Cache<ClientIp, u64>>| opt_written(c))
    }

    /// For each configured cache, whether it exists.
    pub open spec fn enabled(self) -> Seq<bool> {
        self.configs().map_values(|c: Option<(u64, u64)>| c is Some)
    }

    /// One cache per `(limit, ttl)` pair, with at most `limit` entries that
    /// live `ttl` seconds; none where `limit` is 0.
    pub fn new(configs: &[(u64, u64)]) -> (r: Self)
        requires
            configs_valid(configs@),
        ensures
            r.configs() == configs@.map_values(|c: (u64, u64)| configured(c)),
            r.enabled() == configs@.map_values(|c: (u64, u64)| config_enabled(c)),
            r.written().len() == configs@.len(),
            forall|i: int| 0 <= i < configs@.len() ==> #[trigger] r.written()[i].dom().is_empty(),
    {
        let mut caches: Vec<Option<Cache<ClientIp, u64>>> = Vec::new();
        let mut i: usize = 0;
        while i < configs.len()
            invariant
                i <= configs@.len(),
                configs_valid(configs@),
                caches@.len() == i,
                forall|j: int|
                    0 <= j < i ==> (match #[trigger] caches@[j] {
                        Some(cache) => Some(cache_config(cache)),
                        None => None,
                    }) == configured(configs@[j]),
                forall|j: int|
                    0 <= j < i ==> (match #[trigger] caches@[j] {
                        Some(cache) => cache_written(cache),
                        None => Map::empty(),
                    }).dom().is_empty(),
            decreases configs@.len() - i,
        {
            let (limit, ttl) = configs[i];
            proof {
                assert(config_enabled(configs@[i as int]) ==> configs@[i as int].1 <= MAX_TTL_SECS);
            }
            caches.push(Self::create_cache(limit, ttl));
            i = i + 1;
        }
        let r = ClientCache { caches };
        proof {
            assert(r.configs() =~= configs@.map_values(|c: (u64, u64)| configured(c)));
            assert(r.enabled() =~= configs@.map_values(|c: (u64, u64)| config_enabled(c)));
            assert forall|i: int| 0 <= i < configs@.len() implies #[trigger] r.written()[i].dom().is_empty() by {
                assert(r.written()[i] == (match caches@[i] {
                    Some(cache) => cache_written(cache),
                    None => Map::empty(),
                }));
            }
        }
        r
    }

    /// A cache of at most `limit` entries that live `ttl` seconds, or none
    /// when `limit` is 0.
    fn create_cache(limit: u64, ttl: u64) -> (r: Option<Cache<ClientIp, u64>>)
        requires
            limit > 0 ==> ttl <= MAX_TTL_SECS,
        ensures
            (match r {
                Some(cache) => Some(cache_config(cache)),
                None => None,
            }) == configured((limit, ttl)),
            r matches Some(cache) ==> cache_written(cache).dom().is_empty(),
    {
        if limit > 0 {
            Some(cache_new(limit, ttl))
        } else {
            None
        }
    }

    /// How often each cache has seen `ip`: 0 where there is no cache or
    /// where the cache no longer holds `ip`, else the count last written
    /// for it.
    pub fn get_client(&self, ip: ClientIp) -> (r: Vec<u64>)
        ensures
            r@.len() == self.enabled().len(),
            forall|i: int| 0 <= i < r@.len() && !self.enabled()[i] ==> r@[i] == 0,
            forall|i: int|
                0 <= i < r@.len() ==> r@[i] == 0 || (#[trigger] self.written()[i].contains_key(ip) && r@[i]
                    == self.written()[i][ip]),
    {
        let mut r: Vec<u64> = Vec::new();
        let mut i: usize = 0;
        while i < self.caches.len()
            invariant
                i <= self.caches@.len(),
                r@.len() == i,
                forall|j: int| 0 <= j < i && (#[trigger] self.caches@[j]) is None ==> r@[j] == 0,
                forall|j: int|
                    0 <= j < i ==> r@[j] == 0 || (#[trigger] opt_written(self.caches@[j]).contains_key(ip)
                        && r@[j] == opt_written(self.caches@[j])[ip]),
            decreases self.caches@.len() - i,
        {
            let v = match &self.caches[i] {
                Some(c) => count_or_zero(cache_get(c, &ip)),
                None => 0,
            };
            r.push(v);
            i = i + 1;
        }
        proof {
            assert forall|k: int| 0 <= k < r@.len() implies r@[k] == 0 || (#[trigger] self.written()[k].contains_key(
                ip,
            ) && r@[k] == self.written()[k][ip]) by {
                assert(self.written()[k] == opt_written(self.caches@[k]));
            }
        }
        r
    }

    /// The number of entries each cache holds (0 where there is no cache,
    /// and 0 for a cache never written to).
    pub fn get_counts(&self) -> (r: Vec<u64>)
        ensures
            r@.len() == self.enabled().len(),
            forall|i: int| 0 <= i < r@.len() && !self.enabled()[i] ==> r@[i] == 0,
            forall|i: int| 0 <= i < r@.len() && (#[trigger] self.written()[i]).dom().is_empty() ==> r@[i] == 0,
    {
        let mut r: Vec<u64> = Vec::new();
        let mut i: usize = 0;
        while i < self.caches.len()
            invariant
                i <= self.caches@.len(),
                r@.len() == i,
                forall|j: int| 0 <= j < i && (#[trigger] self.caches@[j]) is None ==> r@[j] == 0,
                forall|j: int| 0 <= j < i && (#[trigger] opt_written(self.caches@[j])).dom().is_empty() ==> r@[j] == 0,
            decreases self.caches@.len() - i,
        {
            let v = match &self.caches[i] {
                Some(c) => cache_entry_count(c),
                None => 0,
            };
            r.push(v);
            i = i + 1;
        }
        proof {
            assert forall|k: int| 0 <= k < r@.len() && (#[trigger] self.written()[k]).dom().is_empty() implies r@[k]
                == 0 by {
                assert(self.written()[k] == opt_written(self.caches@[k]));
            }
        }
        r
    }

    /// Counts one more sighting of `ip` in `cache` and returns the new count,
    /// with the cache's reply to the lookup: one more than the count the
    /// cache replied with (saturating), or 1 when it replied with nothing;
    /// the cache then holds the new count as the last written for `ip`.
    fn increment_cache(cache: &mut Option<Cache<ClientIp, u64>>, ip: ClientIp) -> (r: (u64, Ghost<Option<u64>>))
        ensures
            *old(cache) is None ==> r.0 == 0 && *final(cache) == *old(cache),
            *old(cache) is Some ==> {
                &&& *final(cache) is Some
                &&& r.0 >= 1
                &&& r.0 == count_after_reply(r.1@)
                &&& (r.1@ matches Some(n) ==> opt_written(*old(cache)).contains_key(ip) && n == opt_written(
                    *old(cache),
                )[ip])
                &&& counted_after(opt_written(*old(cache)), ip, r.0)
                &&& opt_written(*final(cache)) == opt_written(*old(cache)).insert(ip, r.0)
                &&& opt_config(*final(cache)) == opt_config(*old(cache))
            },
    {
        match cache {
            Some(c) => {
                let found = cache_get(c, &ip);
                let count = next_client_count(found);
                cache_insert(c, ip, count);
                (count, Ghost(found))
            },
            None => (0, Ghost(None)),
        }
    }

    /// Counts one more sighting of `ip` in every cache and returns the new
    /// counts: 0 where there is no cache; elsewhere 1, or one more than the
    /// count last written for `ip`, which each cache then holds as the last
    /// written count.
    pub fn inc_client(&mut self, ip: ClientIp) -> (r: Vec<u64>)
        ensures
            r@.len() == old(self).enabled().len(),
            final(self).configs() == old(self).configs(),
            final(self).written().len() == old(self).written().len(),
            forall|i: int| 0 <= i < r@.len() ==> (old(self).enabled()[i] <==> r@[i] >= 1),
            forall|i: int|
                0 <= i < r@.len() && #[trigger] old(self).enabled()[i] ==> counted_after(
                    old(self).written()[i],
                    ip,
                    r@[i],
                ) && final(self).written()[i] == old(self).written()[i].insert(ip, r@[i]),
            forall|i: int|
                0 <= i < r@.len() && !#[trigger] old(self).enabled()[i] ==> final(self).written()[i]
                    == old(self).written()[i],
    {
        let ghost c0 = self.caches@;
        let mut r: Vec<u64> = Vec::new();
        let mut i: usize = 0;
        while i < self.caches.len()
            invariant
                i <= self.caches@.len(),
                self.caches@.len() == c0.len(),
                r@.len() == i,
                forall|j: int| i <= j < c0.len() ==> #[trigger] self.caches@[j] == c0[j],
                forall|j: int|
                    0 <= j < i ==> (#[trigger] self.caches@[j] is Some <==> c0[j] is Some) && (c0[j] is Some
                        <==> r@[j] >= 1) && opt_config(self.caches@[j]) == opt_config(c0[j]),
                forall|j: int| 0 <= j < i && c0[j] is Some ==> counted_after(opt_written(c0[j]), ip, #[trigger] r@[j]),
                forall|j: int|
                    0 <= j < i && c0[j] is Some ==> #[trigger] opt_written(self.caches@[j]) =~= opt_written(c0[j]).insert(
                        ip,
                        r@[j],
                    ),
                forall|j: int| 0 <= j < i && c0[j] is None ==> #[trigger] self.caches@[j] == c0[j],
            decreases self.caches@.len() - i,
        {
            let ghost before = self.caches@;
            let ghost r_before = r@;
            assert(before[i as int] == c0[i as int]);
            let (v, _reply) = Self::increment_cache(&mut self.caches[i], ip);
            r.push(v);
            proof {
                assert forall|j: int|
                    0 <= j < i + 1 && c0[j] is Some implies counted_after(opt_written(c0[j]), ip, r@[j])
                        && #[trigger] opt_written(self.caches@[j]) =~= opt_written(c0[j]).insert(ip, r@[j]) by {
                    if j < i {
                        assert(self.caches@[j] == before[j]);
                        assert(r@[j] == r_before[j]);
                        assert(opt_written(before[j]) =~= opt_written(c0[j]).insert(ip, r_before[j]));
                    } else {
                        assert(j == i);
                        assert(r@[j] == v);
                        assert(self.caches@[j] == self.caches@[i as int]);
                        assert(opt_written(self.caches@[i as int]) == opt_written(before[i as int]).insert(ip, v));
                        assert(counted_after(opt_written(before[i as int]), ip, v));
                    }
                }
            }
            i = i + 1;
        }
        proof {
            assert(self.configs() =~= old(self).configs()) by {
                assert forall|k: int| 0 <= k < c0.len() implies self.configs()[k] == old(self).configs()[k] by {
                    assert(self.configs()[k] == opt_config(self.caches@[k]));
                    assert(old(self).configs()[k] == opt_config(c0[k]));
                }
            }
            assert forall|k: int| 0 <= k < r@.len() implies (old(self).enabled()[k] <==> r@[k] >= 1) by {
                assert(old(self).configs()[k] == opt_config(c0[k]));
            }
            assert forall|k: int| 0 <= k < r@.len() && #[trigger] old(self).enabled()[k] implies counted_after(
                old(self).written()[k],
                ip,
                r@[k],
            ) && self.written()[k] == old(self).written()[k].insert(ip, r@[k]) by {
                assert(old(self).configs()[k] == opt_config(c0[k]));
                assert(old(self).written()[k] == opt_written(c0[k]));
                assert(self.written()[k] == opt_written(self.caches@[k]));
            }
            assert forall|k: int| 0 <= k < r@.len() && !#[trigger] old(self).enabled()[k] implies self.written()[k]
                == old(self).written()[k] by {
                assert(old(self).configs()[k] == opt_config(c0[k]));
                assert(old(self).written()[k] == opt_written(c0[k]));
                assert(self.written()[k] == opt_written(self.caches@[k]));
            }
        }
        r
    }
}

} // verus!
