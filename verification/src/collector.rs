//! The packet event collector: per-thread and global event counters, first
//! and last time stamps of each event, packet sizes, and the number of
//! distinct clients per period.
//!
//! The distinct client gauges count first sightings per period and only
//! ever grow; there is no refresh that recomputes them from the caches.
use vstd::prelude::*;
use prometheus_client::metrics::histogram::Histogram;
use prometheus_client::registry::Registry;
use std::sync::Arc;
use crate::clock::{epoch_nanos, nanos_since_epoch, since_epoch, NANOS_PER_SEC};
use crate::client_cache::{ClientCache, ClientIp, configs_valid, counted_after};
use crate::events::{PacketEvent, event_name, lemma_event_names_differ};
use crate::prom_client::{
    count_at, next_count, next_level, LabelSet, label_view, level_at, bump_level, plain_entry, registry_entries,
    bump_count, MetricEntry, exposition, CollectorFamily, CollectorFamilies, counter_section, gauge_section,
    section_matches, families_entries, families_sources, families_counts, families_first_seen,
    families_last_seen, families_unique, family_set_new, set_register_packet_count, set_register_first_seen,
    set_register_last_seen, set_register_packet_size, set_register_unique_clients, set_entries, set_sources,
    family_set_share, families_encode, families_registry, families_inc_count, families_first_seen_get,
    families_first_seen_set, families_last_seen_set, families_unique_inc,
};
use crate::text::{decimal, lemma_decimal_injective, u32_to_string};

verus! {

/// Time to live of the minute client cache, in seconds.
pub const MINUTE_SECS: u64 = 60;
/// Time to live of the hour client cache, in seconds.
pub const HOUR_SECS: u64 = 3600;
/// Time to live of the day client cache, in seconds.
pub const DAY_SECS: u64 = 86400;

/// The labels of a packet event counter or time stamp.
pub open spec fn packet_labels(thread_id: u32, event: PacketEvent) -> Seq<(Seq<char>, Seq<char>)> {
    seq![("thread_id"@, decimal(thread_id as nat)), ("packet_event"@, event_name(event))]
}

/// The labels of a distinct client gauge.
pub open spec fn client_labels(period: Seq<char>, ip_version: Seq<char>) -> Seq<(Seq<char>, Seq<char>)> {
    seq![("period"@, period), ("ip_version"@, ip_version)]
}

/// A label set of the packet event families: a thread id and an event.
pub open spec fn is_packet_key(k: Seq<(Seq<char>, Seq<char>)>) -> bool {
    exists|thread_id: u32, event: PacketEvent| k == #[trigger] packet_labels(thread_id, event)
}

/// A label set of the distinct client gauges: a period (minute, hour or
/// day) and an IP version (4 or 6).
pub open spec fn is_client_key(k: Seq<(Seq<char>, Seq<char>)>) -> bool {
    ||| k == client_labels("minute"@, "4"@)
    ||| k == client_labels("minute"@, "6"@)
    ||| k == client_labels("hour"@, "4"@)
    ||| k == client_labels("hour"@, "6"@)
    ||| k == client_labels("day"@, "4"@)
    ||| k == client_labels("day"@, "6"@)
}

/// Every label set in `keys` is one of the packet event families'.
pub open spec fn packet_keyed(keys: Set<Seq<(Seq<char>, Seq<char>)>>) -> bool {
    forall|k: Seq<(Seq<char>, Seq<char>)>| keys.contains(k) ==> is_packet_key(k)
}

/// Every label set in `keys` is one of the distinct client gauges'.
pub open spec fn client_keyed(keys: Set<Seq<(Seq<char>, Seq<char>)>>) -> bool {
    forall|k: Seq<(Seq<char>, Seq<char>)>| keys.contains(k) ==> is_client_key(k)
}

/// The `ip_version` label value of an address.
pub open spec fn ip_version_name(ip: ClientIp) -> Seq<char> {
    match ip {
        ClientIp::V4(_) => "4"@,
        ClientIp::V6(_) => "6"@,
    }
}

/// Gauges `m` after the first-seen time stamp of `key` is offered `now`:
/// a gauge that still reads 0 takes `now`; one that was set keeps its value.
pub open spec fn first_seen_step(m: Map<Seq<(Seq<char>, Seq<char>)>, i64>, key: Seq<(Seq<char>, Seq<char>)>, now: i64) -> Map<Seq<(Seq<char>, Seq<char>)>, i64> {
    m.insert(key, if level_at(m, key) == 0 { now } else { level_at(m, key) })
}

/// Gauges `m` after the last-seen time stamp of `key` is set to `now`.
pub open spec fn last_seen_step(m: Map<Seq<(Seq<char>, Seq<char>)>, i64>, key: Seq<(Seq<char>, Seq<char>)>, now: i64) -> Map<Seq<(Seq<char>, Seq<char>)>, i64> {
    m.insert(key, now)
}

/// `m` with the gauge of `key` incremented when `cond` holds.
pub open spec fn bump_level_if(m: Map<Seq<(Seq<char>, Seq<char>)>, i64>, cond: bool, key: Seq<(Seq<char>, Seq<char>)>) -> Map<Seq<(Seq<char>, Seq<char>)>, i64> {
    if cond {
        bump_level(m, key)
    } else {
        m
    }
}

/// The distinct client gauges after `ip` was counted with the per-period
/// counts `counts` (minute, hour, day): each period in which this was the
/// first sighting (count 1) gains one client.
pub open spec fn new_clients_step(m: Map<Seq<(Seq<char>, Seq<char>)>, i64>, ip: ClientIp, counts: Seq<u64>) -> Map<Seq<(Seq<char>, Seq<char>)>, i64> {
    let v = ip_version_name(ip);
    bump_level_if(
        bump_level_if(
            bump_level_if(m, counts[0] == 1, client_labels("minute"@, v)),
            counts[1] == 1,
            client_labels("hour"@, v),
        ),
        counts[2] == 1,
        client_labels("day"@, v),
    )
}

/// The period label values differ from each other, and so do the two IP
/// version label values.
pub proof fn lemma_client_label_values_differ()
    ensures
        "minute"@ != "hour"@,
        "minute"@ != "day"@,
        "hour"@ != "day"@,
        "4"@ != "6"@,
{
    reveal_strlit("minute");
    reveal_strlit("hour");
    reveal_strlit("day");
    reveal_strlit("4");
    reveal_strlit("6");
    assert("minute"@.len() != "hour"@.len());
    assert("4"@[0] != "6"@[0]);
}

/// A client that is new in every period (all counts 1) adds one to the
/// minute, hour and day gauges of its IP version and touches no other
/// gauge.
pub proof fn lemma_new_client_everywhere(m: Map<Seq<(Seq<char>, Seq<char>)>, i64>, ip: ClientIp)
    ensures
        ({
            let r = new_clients_step(m, ip, seq![1u64, 1u64, 1u64]);
            let v = ip_version_name(ip);
            &&& r.dom() == m.dom().insert(client_labels("minute"@, v)).insert(client_labels("hour"@, v)).insert(
                client_labels("day"@, v),
            )
            &&& level_at(r, client_labels("minute"@, v)) == next_level(level_at(m, client_labels("minute"@, v)))
            &&& level_at(r, client_labels("hour"@, v)) == next_level(level_at(m, client_labels("hour"@, v)))
            &&& level_at(r, client_labels("day"@, v)) == next_level(level_at(m, client_labels("day"@, v)))
            &&& forall|k: Seq<(Seq<char>, Seq<char>)>|
                k != client_labels("minute"@, v) && k != client_labels("hour"@, v) && k != client_labels("day"@, v)
                    ==> #[trigger] level_at(r, k) == level_at(m, k)
        }),
{
    lemma_client_label_values_differ();
    let v = ip_version_name(ip);
    let km = client_labels("minute"@, v);
    let kh = client_labels("hour"@, v);
    let kd = client_labels("day"@, v);
    assert(km[0] != kh[0]);
    assert(km[0] != kd[0]);
    assert(kh[0] != kd[0]);
    let r = new_clients_step(m, ip, seq![1u64, 1u64, 1u64]);
    assert(r.dom() =~= m.dom().insert(km).insert(kh).insert(kd));
}

/// Counts after one `event` on thread `thread_id`: the thread's counter and,
/// for a thread other than 0, the global counter of thread 0 each gain one.
pub open spec fn count_event(m: Map<Seq<(Seq<char>, Seq<char>)>, u64>, event: PacketEvent, thread_id: u32) -> Map<Seq<(Seq<char>, Seq<char>)>, u64> {
    if thread_id == 0 {
        bump_count(m, packet_labels(0, event))
    } else {
        bump_count(bump_count(m, packet_labels(thread_id, event)), packet_labels(0, event))
    }
}

/// A reading of the system clock as `since_epoch` gives it: whole seconds
/// and fewer than a second's nanoseconds, or `None` before the epoch.
pub open spec fn clock_reading(r: Option<(u64, u32)>) -> bool {
    r matches Some(d) ==> d.1 < NANOS_PER_SEC
}

/// `after` is `before` with the first-seen stamps of `event` on thread
/// `thread_id` and on thread 0 offered one and the same clock reading, in
/// nanoseconds since the epoch.
pub open spec fn first_seen_updated(before: Map<Seq<(Seq<char>, Seq<char>)>, i64>, after: Map<Seq<(Seq<char>, Seq<char>)>, i64>, event: PacketEvent, thread_id: u32) -> bool {
    exists|r: Option<(u64, u32)>|
        clock_reading(r) && after == #[trigger] first_stamped(before, event, thread_id, epoch_nanos(r), epoch_nanos(r))
}

/// `after` is `before` with the last-seen stamps of `event` on thread
/// `thread_id` and on thread 0 set to one and the same clock reading, in
/// nanoseconds since the epoch.
pub open spec fn last_seen_updated(before: Map<Seq<(Seq<char>, Seq<char>)>, i64>, after: Map<Seq<(Seq<char>, Seq<char>)>, i64>, event: PacketEvent, thread_id: u32) -> bool {
    exists|r: Option<(u64, u32)>|
        clock_reading(r) && after == #[trigger] last_stamped(before, event, thread_id, epoch_nanos(r), epoch_nanos(r))
}

/// No thread other than 0 has the decimal label of thread 0.
pub proof fn lemma_decimal_of_nonzero(t: nat)
    requires
        t != 0,
    ensures
        decimal(t) != decimal(0),
{
    if t < 10 {
        assert(decimal(t)[0] != decimal(0)[0]);
    } else {
        assert(decimal(t).len() == decimal(t / 10).len() + 1);
        assert(decimal(t / 10).len() >= 1) by {
            reveal_with_fuel(decimal, 2);
        }
    }
}

/// Every counted event reaches the global counter of thread 0 exactly once,
/// and, for any other thread, that thread's own counter exactly once.
pub proof fn lemma_event_counted_once(m: Map<Seq<(Seq<char>, Seq<char>)>, u64>, event: PacketEvent, thread_id: u32)
    ensures
        count_at(count_event(m, event, thread_id), packet_labels(0, event)) == next_count(
            count_at(m, packet_labels(0, event)),
        ),
        thread_id != 0 ==> count_at(count_event(m, event, thread_id), packet_labels(thread_id, event))
            == next_count(count_at(m, packet_labels(thread_id, event))),
        forall|k: Seq<(Seq<char>, Seq<char>)>|
            k != packet_labels(0, event) && k != packet_labels(thread_id, event) ==> count_at(
                #[trigger] count_event(m, event, thread_id),
                k,
            ) == count_at(m, k),
{
    if thread_id != 0 {
        lemma_decimal_of_nonzero(thread_id as nat);
        assert(packet_labels(thread_id, event)[0] != packet_labels(0, event)[0]);
    }
}

/// The counts after each `(event, thread_id)` of `calls` was counted in
/// turn, starting from `m`.
pub open spec fn count_events(m: Map<Seq<(Seq<char>, Seq<char>)>, u64>, calls: Seq<(PacketEvent, u32)>) -> Map<Seq<(Seq<char>, Seq<char>)>, u64>
    decreases calls.len(),
{
    if calls.len() == 0 {
        m
    } else {
        count_event(count_events(m, calls.drop_last()), calls.last().0, calls.last().1)
    }
}

/// How many of `calls` are of `event`, on any thread.
pub open spec fn calls_of(calls: Seq<(PacketEvent, u32)>, event: PacketEvent) -> nat
    decreases calls.len(),
{
    if calls.len() == 0 {
        0
    } else {
        calls_of(calls.drop_last(), event) + if calls.last().0 == event { 1nat } else { 0nat }
    }
}

/// How many of `calls` are of `event` on thread `thread_id`.
pub open spec fn calls_on(calls: Seq<(PacketEvent, u32)>, event: PacketEvent, thread_id: u32) -> nat
    decreases calls.len(),
{
    if calls.len() == 0 {
        0
    } else {
        calls_on(calls.drop_last(), event, thread_id) + if calls.last() == (event, thread_id) {
            1nat
        } else {
            0nat
        }
    }
}

/// Label sets of different events differ, whatever their threads.
proof fn lemma_labels_of_other_event(t1: u32, e1: PacketEvent, t2: u32, e2: PacketEvent)
    requires
        e1 != e2,
    ensures
        packet_labels(t1, e1) != packet_labels(t2, e2),
{
    lemma_event_names_differ(e1, e2);
    assert(packet_labels(t1, e1)[1] != packet_labels(t2, e2)[1]);
}

/// Counted from no counts at all, the global counter (thread 0) of an
/// event counts every call of that event, whichever thread made it, and
/// the counter of any other thread counts that thread's calls; so the
/// global count is the sum of the per-thread counts. This holds while the
/// global count stays below 2^64.
pub proof fn lemma_global_count_sums_threads(calls: Seq<(PacketEvent, u32)>, event: PacketEvent, thread_id: u32)
    requires
        calls_of(calls, event) <= u64::MAX,
    ensures
        count_at(count_events(Map::empty(), calls), packet_labels(0, event)) == calls_of(calls, event),
        thread_id != 0 ==> count_at(count_events(Map::empty(), calls), packet_labels(thread_id, event))
            == calls_on(calls, event, thread_id),
        calls_on(calls, event, thread_id) <= calls_of(calls, event),
    decreases calls.len(),
{
    if calls.len() > 0 {
        let rest = calls.drop_last();
        let (e, t) = calls.last();
        lemma_global_count_sums_threads(rest, event, thread_id);
        let m = count_events(Map::empty(), rest);
        lemma_event_counted_once(m, e, t);
        if e != event {
            lemma_labels_of_other_event(0, e, 0, event);
            lemma_labels_of_other_event(t, e, 0, event);
            lemma_labels_of_other_event(0, e, thread_id, event);
            lemma_labels_of_other_event(t, e, thread_id, event);
        } else if thread_id != 0 && t != thread_id {
            assert(packet_labels(t, e) != packet_labels(thread_id, event)) by {
                if t == 0 {
                    lemma_decimal_of_nonzero(thread_id as nat);
                } else {
                    lemma_decimal_injective(t as nat, thread_id as nat);
                }
                assert(packet_labels(t, e)[0] != packet_labels(thread_id, event)[0]);
            }
            assert(packet_labels(0, e) != packet_labels(thread_id, event)) by {
                lemma_decimal_of_nonzero(thread_id as nat);
                assert(packet_labels(0, e)[0] != packet_labels(thread_id, event)[0]);
            }
        }
    }
}

/// The calls of `event` made on the threads `ts`, added up.
pub open spec fn calls_on_threads(calls: Seq<(PacketEvent, u32)>, event: PacketEvent, ts: Seq<u32>) -> nat
    decreases ts.len(),
{
    if ts.len() == 0 {
        0
    } else {
        calls_on(calls, event, ts[0]) + calls_on_threads(calls, event, ts.drop_first())
    }
}

/// The counters of `event` on the threads `ts`, added up.
pub open spec fn counts_on_threads(m: Map<Seq<(Seq<char>, Seq<char>)>, u64>, event: PacketEvent, ts: Seq<u32>) -> nat
    decreases ts.len(),
{
    if ts.len() == 0 {
        0
    } else {
        count_at(m, packet_labels(ts[0], event)) as nat + counts_on_threads(m, event, ts.drop_first())
    }
}

/// Every thread other than 0 on which `calls` made a call of `event` is
/// one of `ts`.
pub open spec fn threads_listed(calls: Seq<(PacketEvent, u32)>, event: PacketEvent, ts: Seq<u32>) -> bool {
    forall|i: int| 0 <= i < calls.len() && (#[trigger] calls[i]).0 == event && calls[i].1 != 0 ==> ts.contains(calls[i].1)
}

/// One more call adds one to the calls on the threads `ts` exactly when it
/// is of `event` on one of them.
proof fn lemma_calls_on_threads_step(calls: Seq<(PacketEvent, u32)>, event: PacketEvent, ts: Seq<u32>)
    requires
        calls.len() > 0,
        ts.no_duplicates(),
    ensures
        calls_on_threads(calls, event, ts) == calls_on_threads(calls.drop_last(), event, ts) + (if calls.last().0
            == event && ts.contains(calls.last().1) {
            1nat
        } else {
            0nat
        }),
    decreases ts.len(),
{
    if ts.len() > 0 {
        let rest_ts = ts.drop_first();
        assert(rest_ts.no_duplicates());
        lemma_calls_on_threads_step(calls, event, rest_ts);
        if calls.last().0 == event && calls.last().1 == ts[0] {
            assert(!rest_ts.contains(ts[0]));
        }
        if ts.contains(calls.last().1) && calls.last().1 != ts[0] {
            let k = choose|k: int| 0 <= k < ts.len() && ts[k] == calls.last().1;
            assert(rest_ts[k - 1] == calls.last().1);
        }
        if rest_ts.contains(calls.last().1) {
            let k = choose|k: int| 0 <= k < rest_ts.len() && rest_ts[k] == calls.last().1;
            assert(ts[k + 1] == calls.last().1);
        }
    }
}

/// The calls of `event` are those on thread 0 and those on the other
/// threads, when `ts` lists those threads once each.
proof fn lemma_calls_split(calls: Seq<(PacketEvent, u32)>, event: PacketEvent, ts: Seq<u32>)
    requires
        ts.no_duplicates(),
        !ts.contains(0u32),
        threads_listed(calls, event, ts),
    ensures
        calls_of(calls, event) == calls_on(calls, event, 0) + calls_on_threads(calls, event, ts),
    decreases calls.len(),
{
    if calls.len() > 0 {
        let rest = calls.drop_last();
        assert forall|i: int| 0 <= i < rest.len() && (#[trigger] rest[i]).0 == event && rest[i].1 != 0 implies ts.contains(
            rest[i].1,
        ) by {
            assert(rest[i] == calls[i]);
        }
        lemma_calls_split(rest, event, ts);
        lemma_calls_on_threads_step(calls, event, ts);
        let last = calls.last();
        assert(last == calls[calls.len() - 1]);
        if last.0 == event && last.1 != 0 {
            assert(ts.contains(last.1));
        }
    } else {
        lemma_calls_on_threads_none(calls, event, ts);
    }
}

/// Without calls, no thread made one.
proof fn lemma_calls_on_threads_none(calls: Seq<(PacketEvent, u32)>, event: PacketEvent, ts: Seq<u32>)
    requires
        calls.len() == 0,
    ensures
        calls_on_threads(calls, event, ts) == 0,
    decreases ts.len(),
{
    if ts.len() > 0 {
        lemma_calls_on_threads_none(calls, event, ts.drop_first());
    }
}

/// Counters of threads other than 0 are the calls on them, added up over
/// `ts`.
proof fn lemma_counts_on_threads(calls: Seq<(PacketEvent, u32)>, event: PacketEvent, ts: Seq<u32>)
    requires
        calls_of(calls, event) <= u64::MAX,
        !ts.contains(0u32),
    ensures
        counts_on_threads(count_events(Map::empty(), calls), event, ts) == calls_on_threads(calls, event, ts),
    decreases ts.len(),
{
    if ts.len() > 0 {
        lemma_global_count_sums_threads(calls, event, ts[0]);
        assert(!ts.drop_first().contains(0u32)) by {
            if ts.drop_first().contains(0u32) {
                let k = choose|k: int| 0 <= k < ts.drop_first().len() && ts.drop_first()[k] == 0u32;
                assert(ts[k + 1] == 0u32);
            }
        }
        assert(ts[0] != 0u32) by {
            assert(ts.contains(ts[0]));
        }
        lemma_counts_on_threads(calls, event, ts.drop_first());
    }
}

/// Counted from no counts at all, the global counter of an event (thread
/// 0) is the calls made on thread 0 itself plus the counters of all other
/// threads, added up: for `ts` listing, once each, every other thread that
/// counted the event. This holds while the global count stays below 2^64.
pub proof fn lemma_global_count_is_sum_over_threads(calls: Seq<(PacketEvent, u32)>, event: PacketEvent, ts: Seq<u32>)
    requires
        calls_of(calls, event) <= u64::MAX,
        ts.no_duplicates(),
        !ts.contains(0u32),
        threads_listed(calls, event, ts),
    ensures
        count_at(count_events(Map::empty(), calls), packet_labels(0, event)) == calls_on(calls, event, 0)
            + counts_on_threads(count_events(Map::empty(), calls), event, ts),
{
    lemma_global_count_sums_threads(calls, event, 0);
    lemma_calls_split(calls, event, ts);
    lemma_counts_on_threads(calls, event, ts);
}

/// The counters and the two kinds of stamps have the same label sets;
/// every counter is at least 1, and every first-seen stamp is positive and
/// no later than the last-seen stamp of the same labels.
pub open spec fn stamps_ordered(
    c: Map<Seq<(Seq<char>, Seq<char>)>, u64>,
    f: Map<Seq<(Seq<char>, Seq<char>)>, i64>,
    l: Map<Seq<(Seq<char>, Seq<char>)>, i64>,
) -> bool {
    &&& c.dom() == f.dom()
    &&& f.dom() == l.dom()
    &&& forall|k: Seq<(Seq<char>, Seq<char>)>| #[trigger] c.contains_key(k) ==> c[k] >= 1 && 0 < f[k] <= l[k]
}

/// The first-seen stamps after `event` on `thread_id` is stamped with the
/// clock readings `t1` (its thread) and `t2` (thread 0, when it is another
/// thread).
pub open spec fn first_stamped(f: Map<Seq<(Seq<char>, Seq<char>)>, i64>, event: PacketEvent, thread_id: u32, t1: i64, t2: i64) -> Map<Seq<(Seq<char>, Seq<char>)>, i64> {
    if thread_id == 0 {
        first_seen_step(f, packet_labels(0, event), t1)
    } else {
        first_seen_step(first_seen_step(f, packet_labels(thread_id, event), t1), packet_labels(0, event), t2)
    }
}

/// The last-seen stamps after `event` on `thread_id` is stamped with the
/// clock readings `t3` (its thread) and `t4` (thread 0, when it is another
/// thread).
pub open spec fn last_stamped(l: Map<Seq<(Seq<char>, Seq<char>)>, i64>, event: PacketEvent, thread_id: u32, t3: i64, t4: i64) -> Map<Seq<(Seq<char>, Seq<char>)>, i64> {
    if thread_id == 0 {
        last_seen_step(l, packet_labels(0, event), t3)
    } else {
        last_seen_step(last_seen_step(l, packet_labels(thread_id, event), t3), packet_labels(0, event), t4)
    }
}

/// When the clock readings of a counted event are positive, no earlier than
/// any stamp held, and do not go backwards, counting it (as
/// `update_packet_counter` does) keeps the counters and stamps on the same
/// label sets, every counter at least 1 and every first stamp no later than
/// the last. This holds while no counter reaches 2^64 - 1.
pub proof fn lemma_stamps_stay_ordered(
    c: Map<Seq<(Seq<char>, Seq<char>)>, u64>,
    f: Map<Seq<(Seq<char>, Seq<char>)>, i64>,
    l: Map<Seq<(Seq<char>, Seq<char>)>, i64>,
    event: PacketEvent,
    thread_id: u32,
    t1: i64,
    t2: i64,
    t3: i64,
    t4: i64,
)
    requires
        stamps_ordered(c, f, l),
        forall|k: Seq<(Seq<char>, Seq<char>)>| #[trigger] l.contains_key(k) ==> l[k] <= t1,
        forall|k: Seq<(Seq<char>, Seq<char>)>| #[trigger] c.contains_key(k) ==> c[k] < u64::MAX,
        0 < t1 <= t2 <= t3 <= t4,
    ensures
        stamps_ordered(
            count_event(c, event, thread_id),
            first_stamped(f, event, thread_id, t1, t2),
            last_stamped(l, event, thread_id, t3, t4),
        ),
{
    let c2 = count_event(c, event, thread_id);
    let f2 = first_stamped(f, event, thread_id, t1, t2);
    let l2 = last_stamped(l, event, thread_id, t3, t4);
    let k0 = packet_labels(0, event);
    let kt = packet_labels(thread_id, event);
    assert(c2.dom() =~= f2.dom());
    assert(f2.dom() =~= l2.dom());
    assert forall|k: Seq<(Seq<char>, Seq<char>)>| #[trigger] c2.contains_key(k) implies c2[k] >= 1 && 0 < f2[k]
        <= l2[k] by {
        if k != k0 && k != kt {
            assert(c2[k] == c[k]);
            assert(f2[k] == f[k]);
            assert(l2[k] == l[k]);
        } else if thread_id == 0 {
            assert(k == k0);
            assert(l2[k] == t3);
            if f.contains_key(k) {
                assert(f2[k] == f[k]);
            } else {
                assert(f2[k] == t1);
            }
        } else {
            lemma_decimal_of_nonzero(thread_id as nat);
            assert(kt[0] != k0[0]);
            let f1 = first_seen_step(f, kt, t1);
            let l1 = last_seen_step(l, kt, t3);
            if k == kt {
                assert(l2[k] == t3);
                assert(f2[k] == f1[k]);
                if f.contains_key(k) {
                    assert(f1[k] == f[k]);
                } else {
                    assert(f1[k] == t1);
                }
            } else {
                assert(k == k0);
                assert(l2[k] == t4);
                assert(f1.contains_key(k) == f.contains_key(k));
                if f.contains_key(k) {
                    assert(f1[k] == f[k]);
                    assert(f2[k] == f[k]);
                } else {
                    assert(f2[k] == t2);
                }
            }
        }
    }
}

/// Stamping the first-seen times of an event with one reading `t`: the
/// thread's stamp and the global stamp (thread 0) each keep a time already
/// set and otherwise take `t`; so two stamps that were both unset end up
/// equal, and with a non-zero reading neither is left unset. Nothing else
/// changes.
pub proof fn lemma_first_seen_one_reading(
    before: Map<Seq<(Seq<char>, Seq<char>)>, i64>,
    event: PacketEvent,
    thread_id: u32,
    t: i64,
)
    ensures
        ({
            let after = first_stamped(before, event, thread_id, t, t);
            let kt = packet_labels(thread_id, event);
            let k0 = packet_labels(0, event);
            &&& level_at(after, kt) == (if level_at(before, kt) == 0 { t } else { level_at(before, kt) })
            &&& level_at(after, k0) == (if level_at(before, k0) == 0 { t } else { level_at(before, k0) })
            &&& level_at(before, kt) == 0 && level_at(before, k0) == 0 ==> level_at(after, kt) == level_at(after, k0)
            &&& t != 0 ==> level_at(after, kt) != 0 && level_at(after, k0) != 0
            &&& after.dom() == before.dom().insert(kt).insert(k0)
            &&& forall|k: Seq<(Seq<char>, Seq<char>)>|
                k != kt && k != k0 ==> #[trigger] level_at(after, k) == level_at(before, k)
        }),
{
    let after = first_stamped(before, event, thread_id, t, t);
    let kt = packet_labels(thread_id, event);
    let k0 = packet_labels(0, event);
    if thread_id != 0 {
        lemma_decimal_of_nonzero(thread_id as nat);
        assert(kt[0] != k0[0]);
        assert(after.dom() =~= before.dom().insert(kt).insert(k0));
    } else {
        assert(after.dom() =~= before.dom().insert(kt).insert(k0));
    }
}

/// Stamping the last-seen times of an event with one reading `t`: the
/// thread's stamp and the global stamp (thread 0) both hold `t`; nothing
/// else changes.
pub proof fn lemma_last_seen_one_reading(
    before: Map<Seq<(Seq<char>, Seq<char>)>, i64>,
    event: PacketEvent,
    thread_id: u32,
    t: i64,
)
    ensures
        ({
            let after = last_stamped(before, event, thread_id, t, t);
            let kt = packet_labels(thread_id, event);
            let k0 = packet_labels(0, event);
            &&& level_at(after, kt) == t
            &&& level_at(after, k0) == t
            &&& after.dom() == before.dom().insert(kt).insert(k0)
            &&& forall|k: Seq<(Seq<char>, Seq<char>)>|
                k != kt && k != k0 ==> #[trigger] level_at(after, k) == level_at(before, k)
        }),
{
    let after = last_stamped(before, event, thread_id, t, t);
    let kt = packet_labels(thread_id, event);
    let k0 = packet_labels(0, event);
    if thread_id != 0 {
        lemma_decimal_of_nonzero(thread_id as nat);
        assert(kt[0] != k0[0]);
    }
    assert(after.dom() =~= before.dom().insert(kt).insert(k0));
}

/// The last whole second before 2^63 nanoseconds: up to it a reading's
/// nanoseconds fit in `i64`.
pub open spec fn last_i64_second() -> u64 {
    9_223_372_035
}

/// A reading after the epoch (and before 2262) is a positive number of
/// nanoseconds: its seconds times 10^9 plus its nanoseconds.
pub proof fn lemma_epoch_nanos_positive(r: Option<(u64, u32)>)
    requires
        clock_reading(r),
        r matches Some(d) && 0 < d.0 <= last_i64_second(),
    ensures
        epoch_nanos(r) > 0,
        epoch_nanos(r) == (r->0).0 * 1_000_000_000 + (r->0).1,
{
    let d = r->0;
    let v: u128 = (d.0 as u128 * NANOS_PER_SEC as u128 + d.1 as u128) as u128;
    assert(d.0 as u128 * NANOS_PER_SEC as u128 <= 9_223_372_035u128 * 1_000_000_000u128) by (nonlinear_arith)
        requires
            d.0 <= 9_223_372_035,
    ;
    assert(d.0 as u128 * NANOS_PER_SEC as u128 >= 1_000_000_000u128) by (nonlinear_arith)
        requires
            d.0 >= 1,
    ;
    assert(0 < v < 0x8000_0000_0000_0000u128);
}

/// What `update_first_seen_time` and `update_last_seen_time` leave, for a
/// clock reading after the epoch: every first-seen stamp of the event, the
/// thread's and the global one, is positive (when the stamps held were not
/// negative), an unset one is the reading in nanoseconds, and both
/// last-seen stamps are that reading.
pub proof fn lemma_stamps_take_the_reading(
    first: Map<Seq<(Seq<char>, Seq<char>)>, i64>,
    last: Map<Seq<(Seq<char>, Seq<char>)>, i64>,
    event: PacketEvent,
    thread_id: u32,
    r: Option<(u64, u32)>,
)
    requires
        clock_reading(r),
        r matches Some(d) && 0 < d.0 <= last_i64_second(),
        level_at(first, packet_labels(thread_id, event)) >= 0,
        level_at(first, packet_labels(0, event)) >= 0,
    ensures
        ({
            let t = epoch_nanos(r);
            let f = first_stamped(first, event, thread_id, t, t);
            let l = last_stamped(last, event, thread_id, t, t);
            &&& level_at(f, packet_labels(thread_id, event)) > 0
            &&& level_at(f, packet_labels(0, event)) > 0
            &&& level_at(first, packet_labels(thread_id, event)) == 0 ==> level_at(f, packet_labels(thread_id, event)) == t
            &&& level_at(first, packet_labels(0, event)) == 0 ==> level_at(f, packet_labels(0, event)) == t
            &&& level_at(l, packet_labels(thread_id, event)) == t
            &&& level_at(l, packet_labels(0, event)) == t
            &&& t == (r->0).0 * 1_000_000_000 + (r->0).1
        }),
{
    lemma_epoch_nanos_positive(r);
    lemma_first_seen_one_reading(first, event, thread_id, epoch_nanos(r));
    lemma_last_seen_one_reading(last, event, thread_id, epoch_nanos(r));
}

/// A first-seen stamp, once set to a non-zero time, keeps that time
/// whatever later times are offered; other stamps are not touched.
pub proof fn lemma_first_seen_kept(m: Map<Seq<(Seq<char>, Seq<char>)>, i64>, key: Seq<(Seq<char>, Seq<char>)>, t1: i64, t2: i64)
    requires
        level_at(first_seen_step(m, key, t1), key) != 0,
    ensures
        first_seen_step(first_seen_step(m, key, t1), key, t2) == first_seen_step(m, key, t1),
{
    assert(first_seen_step(first_seen_step(m, key, t1), key, t2) =~= first_seen_step(m, key, t1));
}

/// A last-seen stamp holds the latest time recorded.
pub proof fn lemma_last_seen_latest(m: Map<Seq<(Seq<char>, Seq<char>)>, i64>, key: Seq<(Seq<char>, Seq<char>)>, t1: i64, t2: i64)
    ensures
        last_seen_step(last_seen_step(m, key, t1), key, t2) == last_seen_step(m, key, t2),
        level_at(last_seen_step(m, key, t2), key) == t2,
{
    assert(last_seen_step(last_seen_step(m, key, t1), key, t2) =~= last_seen_step(m, key, t2));
}

/// The metrics of the collector's registry, in order.
pub open spec fn collector_registry_entries() -> Seq<MetricEntry> {
    seq![
        plain_entry("rsntp_packet_count"@, "NTP packet event counters"@, "counter"@),
        plain_entry("rsntp_first_seen_time"@, "First time each packet event was seen (Unix nanoseconds)"@, "gauge"@),
        plain_entry("rsntp_last_seen_time"@, "Last time each packet event was seen (Unix nanoseconds)"@, "gauge"@),
        plain_entry("rsntp_packet_size_bytes"@, "Histogram of packet sizes in bytes"@, "histogram"@),
        plain_entry("rsntp_unique_clients"@, "Number of unique client IP addresses by time period"@, "gauge"@),
    ]
}

/// The roles of the collector's metrics, in registration order.
pub open spec fn collector_sources() -> Seq<CollectorFamily> {
    seq![
        CollectorFamily::PacketCount,
        CollectorFamily::FirstSeen,
        CollectorFamily::LastSeen,
        CollectorFamily::PacketSize,
        CollectorFamily::UniqueClients,
    ]
}

/// The labels of a packet event counter or time stamp.
fn packet_label_set(thread_id: u32, event: PacketEvent) -> (l: LabelSet)
    ensures
        label_view(l) == packet_labels(thread_id, event),
{
    let mut l: LabelSet = Vec::new();
    l.push(("thread_id".to_owned(), u32_to_string(thread_id)));
    l.push(("packet_event".to_owned(), event.as_str().to_owned()));
    proof {
        assert(label_view(l) =~= packet_labels(thread_id, event));
    }
    l
}

/// The labels of a distinct client gauge.
fn client_label_set(period: &str, ip_version: &str) -> (l: LabelSet)
    ensures
        label_view(l) == client_labels(period@, ip_version@),
{
    let mut l: LabelSet = Vec::new();
    l.push(("period".to_owned(), period.to_owned()));
    l.push(("ip_version".to_owned(), ip_version.to_owned()));
    proof {
        assert(label_view(l) =~= client_labels(period@, ip_version@));
    }
    l
}

/// Collects packet event metrics into a `prometheus_client` registry.
pub struct MetricsCollector {
    families: CollectorFamilies,
    packet_size_histogram: Histogram,
    client_cache: Option<ClientCache>,
}

impl MetricsCollector {
    /// Packet event counts by labels.
    pub closed spec fn packet_counts(self) -> Map<Seq<(Seq<char>, Seq<char>)>, u64> {
        families_counts(self.families)
    }

    /// First-seen time stamps by labels.
    pub closed spec fn first_seen(self) -> Map<Seq<(Seq<char>, Seq<char>)>, i64> {
        families_first_seen(self.families)
    }

    /// Last-seen time stamps by labels.
    pub closed spec fn last_seen(self) -> Map<Seq<(Seq<char>, Seq<char>)>, i64> {
        families_last_seen(self.families)
    }

    /// Distinct client gauges by labels.
    pub closed spec fn unique_clients(self) -> Map<Seq<(Seq<char>, Seq<char>)>, i64> {
        families_unique(self.families)
    }

    /// Whether clients are tracked.
    pub closed spec fn cache_enabled(self) -> bool {
        self.client_cache is Some
    }

    /// The metrics of the collector's registry, in registration order.
    pub closed spec fn metric_entries(self) -> Seq<MetricEntry> {
        families_entries(self.families)
    }

    /// Which of the collector's metrics each registered metric is.
    pub closed spec fn metric_sources(self) -> Seq<CollectorFamily> {
        families_sources(self.families)
    }

    /// `text` is what the metric `source`, registered as `name`, reports:
    /// one sample line per label set of its family, with the value it holds
    /// (in some order); the histogram's lines are not modelled.
    pub open spec fn reports(self, source: CollectorFamily, name: Seq<char>, text: Seq<char>) -> bool {
        match source {
            CollectorFamily::PacketCount => counter_section(name, self.packet_counts(), text),
            CollectorFamily::FirstSeen => gauge_section(name, self.first_seen(), text),
            CollectorFamily::LastSeen => gauge_section(name, self.last_seen(), text),
            CollectorFamily::UniqueClients => gauge_section(name, self.unique_clients(), text),
            CollectorFamily::PacketSize => true,
        }
    }

    /// The packet size histogram.
    pub closed spec fn histogram_view(self) -> Histogram {
        self.packet_size_histogram
    }

    /// The capacity and time to live of each client cache (minute, hour,
    /// day), when clients are tracked; empty otherwise.
    pub closed spec fn cache_configs(self) -> Seq<Option<(u64, u64)>> {
        match self.client_cache {
            Some(c) => c.configs(),
            None => Seq::empty(),
        }
    }

    /// The counts last written per address into each client cache (minute,
    /// hour, day), when clients are tracked; empty otherwise.
    pub closed spec fn client_counts(self) -> Seq<Map<ClientIp, u64>> {
        match self.client_cache {
            Some(c) => c.written(),
            None => Seq::empty(),
        }
    }

    /// The parts that no operation changes: the registry, the histogram,
    /// and whether and with which caches clients are tracked.
    pub open spec fn same_config(self, other: Self) -> bool {
        &&& self.metric_entries() == other.metric_entries()
        &&& self.metric_sources() == other.metric_sources()
        &&& self.histogram_view() == other.histogram_view()
        &&& self.cache_enabled() == other.cache_enabled()
        &&& self.cache_configs() == other.cache_configs()
    }

    /// The parts that an operation other than counting a client does not
    /// change: the configuration and what the client caches were written.
    pub open spec fn same_setup(self, other: Self) -> bool {
        &&& self.same_config(other)
        &&& self.client_counts() == other.client_counts()
    }

    /// The client cache, when there is one, holds the minute, hour and day
    /// caches, and the label sets have the names of their families.
    pub closed spec fn wf(self) -> bool {
        &&& self.client_cache matches Some(c) ==> c.enabled() == seq![true, true, true] && c.written().len() == 3
        &&& self.labels_well_named()
    }

    /// The counters and time stamps are labelled by thread id and packet
    /// event, the distinct client gauges by period and IP version.
    pub open spec fn labels_well_named(self) -> bool {
        &&& packet_keyed(self.packet_counts().dom())
        &&& packet_keyed(self.first_seen().dom())
        &&& packet_keyed(self.last_seen().dom())
        &&& client_keyed(self.unique_clients().dom())
    }

    /// Every label set that a well-formed collector holds has the label
    /// names of its family: `thread_id` and `packet_event` for the event
    /// counters and time stamps, `period` and `ip_version` for the distinct
    /// client gauges.
    pub proof fn lemma_labels_well_named(self)
        requires
            self.wf(),
        ensures
            self.labels_well_named(),
    {
    }

    /// A collector whose metrics are registered, in order, as
    /// `rsntp_packet_count` (counters), `rsntp_first_seen_time` and
    /// `rsntp_last_seen_time` (gauges), `rsntp_packet_size_bytes` (the
    /// histogram passed in) and `rsntp_unique_clients` (gauges), none with a
    /// label set yet. Clients are tracked, in caches of at most
    /// `minute_limit`, `hour_limit` and `day_limit` addresses that live a
    /// minute, an hour and a day, only when all three limits are non-zero.
    pub fn new(minute_limit: u64, hour_limit: u64, day_limit: u64, packet_size_histogram: Histogram) -> (r: Self)
        ensures
            r.wf(),
            r.cache_enabled() <==> (minute_limit != 0 && hour_limit != 0 && day_limit != 0),
            r.cache_enabled() ==> r.cache_configs() == seq![
                Some((minute_limit, MINUTE_SECS)),
                Some((hour_limit, HOUR_SECS)),
                Some((day_limit, DAY_SECS)),
            ],
            r.cache_enabled() ==> r.client_counts().len() == 3 && forall|i: int|
                0 <= i < 3 ==> (#[trigger] r.client_counts()[i]).dom().is_empty(),
            r.histogram_view() == packet_size_histogram,
            r.packet_counts().dom().is_empty(),
            r.first_seen().dom().is_empty(),
            r.last_seen().dom().is_empty(),
            r.unique_clients().dom().is_empty(),
            r.metric_entries() == collector_registry_entries(),
            r.metric_sources() == collector_sources(),
    {
        let mut set = family_set_new();

        let client_cache = if minute_limit == 0 || hour_limit == 0 || day_limit == 0 {
            None
        } else {
            let configs = [(minute_limit, MINUTE_SECS), (hour_limit, HOUR_SECS), (day_limit, DAY_SECS)];
            proof {
                assert(configs_valid(configs@));
            }
            let c = ClientCache::new(&configs);
            proof {
                assert(c.enabled() =~= seq![true, true, true]);
                assert(c.configs() =~= seq![
                    Some((minute_limit, MINUTE_SECS)),
                    Some((hour_limit, HOUR_SECS)),
                    Some((day_limit, DAY_SECS)),
                ]);
            }
            Some(c)
        };

        set_register_packet_count(&mut set, "rsntp_packet_count", "NTP packet event counters");
        set_register_first_seen(
            &mut set,
            "rsntp_first_seen_time",
            "First time each packet event was seen (Unix nanoseconds)",
        );
        set_register_last_seen(&mut set, "rsntp_last_seen_time", "Last time each packet event was seen (Unix nanoseconds)");
        set_register_packet_size(
            &mut set,
            "rsntp_packet_size_bytes",
            "Histogram of packet sizes in bytes",
            &packet_size_histogram,
        );
        set_register_unique_clients(
            &mut set,
            "rsntp_unique_clients",
            "Number of unique client IP addresses by time period",
        );
        proof {
            assert(set_entries(set) =~= collector_registry_entries());
            assert(set_sources(set) =~= collector_sources());
        }
        let families = family_set_share(set);
        let r = MetricsCollector { families, packet_size_histogram, client_cache };
        proof {
            assert(r.packet_counts() == families_counts(families));
        }
        r
    }

    /// A shared handle to the registry, which holds the collector's metrics
    /// (handles to its families and histogram) in registration order.
    pub fn registry(&self) -> (r: Arc<Registry>)
        ensures
            registry_entries(*r) == self.metric_entries(),
    {
        families_registry(&self.families)
    }

    /// The registry in the text exposition format: each metric with its
    /// `# HELP` and `# TYPE` lines and then its samples, in registration
    /// order, and the `# EOF` marker. The samples of the counters and gauges
    /// are one line per label set with the value the collector holds now.
    /// Encoding the collector's metrics into a string does not fail.
    /// Nothing is refreshed first: the distinct client gauges report what
    /// `add_client_ip` counted.
    pub fn encode_metrics(&self) -> (encoded: Option<String>)
        ensures
            encoded is Some,
            encoded matches Some(t) ==> exists|samples: Seq<Seq<char>>|
                samples.len() == self.metric_entries().len() && t@ == #[trigger] exposition(
                    self.metric_entries(),
                    samples,
                ) && forall|i: int|
                    0 <= i < samples.len() ==> self.reports(
                        self.metric_sources()[i],
                        self.metric_entries()[i].0,
                        #[trigger] samples[i],
                    ),
    {
        let encoded = families_encode(&self.families);
        proof {
            if encoded is Some {
                let t = encoded->0;
                let f = self.families;
                let samples = choose|samples: Seq<Seq<char>>|
                    samples.len() == families_entries(f).len() && t@ == #[trigger] exposition(
                        families_entries(f),
                        samples,
                    ) && forall|i: int|
                        0 <= i < samples.len() ==> section_matches(
                            f,
                            families_sources(f)[i],
                            families_entries(f)[i].0,
                            #[trigger] samples[i],
                        );
                assert(t@ == exposition(self.metric_entries(), samples));
                assert forall|i: int| 0 <= i < samples.len() implies self.reports(
                    self.metric_sources()[i],
                    self.metric_entries()[i].0,
                    #[trigger] samples[i],
                ) by {
                    assert(section_matches(f, families_sources(f)[i], families_entries(f)[i].0, samples[i]));
                }
            }
        }
        encoded
    }

    /// The client cache, if clients are tracked.
    pub fn client_cache(&self) -> (c: &Option<ClientCache>)
        ensures
            c is Some <==> self.cache_enabled(),
    {
        &self.client_cache
    }

    /// The packet size histogram.
    pub fn packet_size_histogram(&self) -> (h: &Histogram)
        ensures
            *h == self.histogram_view(),
    {
        &self.packet_size_histogram
    }
    /// The current time in nanoseconds since the Unix epoch, truncated to
    /// `i64`; 0 when the system clock reads before the epoch.
    pub fn current_time_nanos() -> (n: i64)
        ensures
            exists|r: Option<(u64, u32)>|
                (r matches Some(d) ==> d.1 < NANOS_PER_SEC) && n == #[trigger] epoch_nanos(r),
    {
        let reading = since_epoch();
        nanos_since_epoch(reading)
    }

    /// Counts one `event` on thread `thread_id` and, when `thread_id` is not
    /// 0, once more on the global counter of thread 0.
    pub fn increment_packet_counter(&mut self, event: PacketEvent, thread_id: u32)
        requires
            old(self).wf(),
        ensures
            final(self).wf(),
            final(self).same_setup(*old(self)),
            final(self).packet_counts() == count_event(old(self).packet_counts(), event, thread_id),
            final(self).first_seen() == old(self).first_seen(),
            final(self).last_seen() == old(self).last_seen(),
            final(self).unique_clients() == old(self).unique_clients(),
        decreases thread_id,
    {
        let labels = packet_label_set(thread_id, event);
        families_inc_count(&mut self.families, &labels);
        assert(is_packet_key(packet_labels(thread_id, event)));
        if thread_id != 0 {
            self.increment_packet_counter(event, 0);
        }
    }

    /// Offers the time stamp `now` to the first-seen gauge of `event` on
    /// thread `thread_id`, which keeps it only if it was never set (reads 0).
    pub fn record_first_seen(&mut self, event: PacketEvent, thread_id: u32, now: i64)
        requires
            old(self).wf(),
        ensures
            final(self).wf(),
            final(self).same_setup(*old(self)),
            final(self).first_seen() == first_seen_step(old(self).first_seen(), packet_labels(thread_id, event), now),
            final(self).packet_counts() == old(self).packet_counts(),
            final(self).last_seen() == old(self).last_seen(),
            final(self).unique_clients() == old(self).unique_clients(),
    {
        let labels = packet_label_set(thread_id, event);
        let ghost m = self.first_seen();
        assert(is_packet_key(packet_labels(thread_id, event)));
        let current = families_first_seen_get(&mut self.families, &labels);
        if current == 0 {
            families_first_seen_set(&mut self.families, &labels, now);
        }
        proof {
            let k = packet_labels(thread_id, event);
            assert(self.first_seen() =~= first_seen_step(m, k, now));
        }
    }

    /// Records the current time as the first time `event` was seen on thread
    /// `thread_id` and, when `thread_id` is not 0, on thread 0, unless that
    /// time is already set. The clock is read once, and that reading is
    /// offered to both stamps.
    pub fn update_first_seen_time(&mut self, event: PacketEvent, thread_id: u32)
        requires
            old(self).wf(),
        ensures
            final(self).wf(),
            final(self).same_setup(*old(self)),
            first_seen_updated(old(self).first_seen(), final(self).first_seen(), event, thread_id),
            final(self).packet_counts() == old(self).packet_counts(),
            final(self).last_seen() == old(self).last_seen(),
            final(self).unique_clients() == old(self).unique_clients(),
    {
        let ghost m = self.first_seen();
        let now = Self::current_time_nanos();
        self.record_first_seen(event, thread_id, now);
        if thread_id != 0 {
            self.record_first_seen(event, 0, now);
        }
        proof {
            let r = choose|r: Option<(u64, u32)>| clock_reading(r) && now == #[trigger] epoch_nanos(r);
            assert(self.first_seen() == first_stamped(m, event, thread_id, epoch_nanos(r), epoch_nanos(r)));
        }
    }

    /// Sets the last-seen gauge of `event` on thread `thread_id` to `now`.
    pub fn record_last_seen(&mut self, event: PacketEvent, thread_id: u32, now: i64)
        requires
            old(self).wf(),
        ensures
            final(self).wf(),
            final(self).same_setup(*old(self)),
            final(self).last_seen() == last_seen_step(old(self).last_seen(), packet_labels(thread_id, event), now),
            final(self).packet_counts() == old(self).packet_counts(),
            final(self).first_seen() == old(self).first_seen(),
            final(self).unique_clients() == old(self).unique_clients(),
    {
        let labels = packet_label_set(thread_id, event);
        assert(is_packet_key(packet_labels(thread_id, event)));
        families_last_seen_set(&mut self.families, &labels, now);
    }

    /// Records the current time as the last time `event` was seen on thread
    /// `thread_id` and, when `thread_id` is not 0, on thread 0. The clock is
    /// read once, and that reading goes to both stamps.
    pub fn update_last_seen_time(&mut self, event: PacketEvent, thread_id: u32)
        requires
            old(self).wf(),
        ensures
            final(self).wf(),
            final(self).same_setup(*old(self)),
            last_seen_updated(old(self).last_seen(), final(self).last_seen(), event, thread_id),
            final(self).packet_counts() == old(self).packet_counts(),
            final(self).first_seen() == old(self).first_seen(),
            final(self).unique_clients() == old(self).unique_clients(),
    {
        let ghost m = self.last_seen();
        let now = Self::current_time_nanos();
        self.record_last_seen(event, thread_id, now);
        if thread_id != 0 {
            self.record_last_seen(event, 0, now);
        }
        proof {
            let r = choose|r: Option<(u64, u32)>| clock_reading(r) && now == #[trigger] epoch_nanos(r);
            assert(self.last_seen() == last_stamped(m, event, thread_id, epoch_nanos(r), epoch_nanos(r)));
        }
    }

    /// Adds one to the distinct client gauge of each period (minute, hour,
    /// day, in that order in `counts`) in which `ip` was seen for the first
    /// time, that is, whose count is 1.
    pub fn record_client_counts(&mut self, ip: ClientIp, counts: &Vec<u64>)
        requires
            old(self).wf(),
            counts@.len() == 3,
        ensures
            final(self).wf(),
            final(self).same_setup(*old(self)),
            final(self).unique_clients() == new_clients_step(old(self).unique_clients(), ip, counts@),
            final(self).packet_counts() == old(self).packet_counts(),
            final(self).first_seen() == old(self).first_seen(),
            final(self).last_seen() == old(self).last_seen(),
    {
        let version = match ip {
            ClientIp::V4(_) => "4",
            ClientIp::V6(_) => "6",
        };
        if counts[0] == 1 {
            let labels = client_label_set("minute", version);
            families_unique_inc(&mut self.families, &labels);
        }
        if counts[1] == 1 {
            let labels = client_label_set("hour", version);
            families_unique_inc(&mut self.families, &labels);
        }
        if counts[2] == 1 {
            let labels = client_label_set("day", version);
            families_unique_inc(&mut self.families, &labels);
        }
    }

    /// Counts a sighting of client `ip` in the minute, hour and day caches
    /// and adds it to the distinct client gauge of each period in which it
    /// is new. Without client tracking nothing changes. What the caches
    /// report depends on the clock and on their evictions; whatever they
    /// report, every count is at least 1. The gauges count first sightings
    /// in each window and never go down: an address that expires from a
    /// window and comes back counts again, and nothing lowers a gauge when
    /// addresses expire.
    pub fn add_client_ip(&mut self, ip: ClientIp)
        requires
            old(self).wf(),
        ensures
            final(self).wf(),
            final(self).same_config(*old(self)),
            !old(self).cache_enabled() ==> final(self).unique_clients() == old(self).unique_clients(),
            !old(self).cache_enabled() ==> final(self).client_counts() == old(self).client_counts(),
            old(self).cache_enabled() ==> exists|counts: Seq<u64>|
                counts.len() == 3 && (forall|i: int|
                    0 <= i < 3 ==> counted_after(old(self).client_counts()[i], ip, #[trigger] counts[i])
                        && final(self).client_counts()[i] == old(self).client_counts()[i].insert(ip, counts[i]))
                    && final(self).unique_clients() == #[trigger] new_clients_step(
                    old(self).unique_clients(),
                    ip,
                    counts,
                ),
            final(self).packet_counts() == old(self).packet_counts(),
            final(self).first_seen() == old(self).first_seen(),
            final(self).last_seen() == old(self).last_seen(),
    {
        let mut taken = self.client_cache.take();
        let counts = match &mut taken {
            Some(cache) => Some(cache.inc_client(ip)),
            None => None,
        };
        self.client_cache = taken;
        match counts {
            Some(counts) => {
                let ghost m = self.unique_clients();
                self.record_client_counts(ip, &counts);
                proof {
                    assert(self.unique_clients() == new_clients_step(m, ip, counts@));
                    assert(self.cache_configs() == old(self).cache_configs());
                    assert forall|i: int| 0 <= i < 3 implies counted_after(
                        old(self).client_counts()[i],
                        ip,
                        #[trigger] counts@[i],
                    ) && self.client_counts()[i] == old(self).client_counts()[i].insert(ip, counts@[i]) by {
                        assert(old(self).client_cache.unwrap().enabled()[i]);
                    }
                }
            },
            None => {},
        }
    }

    /// Counts `event` on thread `thread_id` and records the current time as
    /// its first-seen (if unset) and last-seen time; each also on the
    /// global thread 0 when `thread_id` is not 0.
    pub fn update_packet_counter(&mut self, event: PacketEvent, thread_id: u32)
        requires
            old(self).wf(),
        ensures
            final(self).wf(),
            final(self).same_setup(*old(self)),
            final(self).packet_counts() == count_event(old(self).packet_counts(), event, thread_id),
            first_seen_updated(old(self).first_seen(), final(self).first_seen(), event, thread_id),
            last_seen_updated(old(self).last_seen(), final(self).last_seen(), event, thread_id),
            final(self).unique_clients() == old(self).unique_clients(),
    {
        self.increment_packet_counter(event, thread_id);
        self.update_first_seen_time(event, thread_id);
        self.update_last_seen_time(event, thread_id);
    }
}

} // verus!
