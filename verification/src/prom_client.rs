//! The metric types of the `prometheus_client` crate that the collectors use,
//! with what their operations do, stated over the values they hold.
//!
//! Counters, gauges and families are shared handles in `prometheus_client`:
//! a clone (such as the one handed to a registry) sees the same values. The
//! operations here take the handle by `&mut`, so that what a call changes is
//! visible in the contract of the caller.
use vstd::prelude::*;
use prometheus_client::metrics::counter::Counter;
use prometheus_client::metrics::family::Family;
use prometheus_client::metrics::gauge::Gauge;
use prometheus_client::metrics::histogram::Histogram;
use prometheus_client::metrics::info::Info;
use prometheus_client::registry::Registry;
use std::sync::Arc;
use crate::text::decimal;

verus! {

#[verifier::external_type_specification]
#[verifier::external_body]
#[verifier::reject_recursive_types(N)]
#[verifier::reject_recursive_types(A)]
pub struct ExGauge<N, A>(Gauge<N, A>);

#[verifier::external_type_specification]
#[verifier::external_body]
pub struct ExRegistry(Registry);

#[verifier::external_type_specification]
#[verifier::external_body]
pub struct ExHistogram(Histogram);

#[verifier::external_type_specification]
#[verifier::external_body]
#[verifier::reject_recursive_types(S)]
pub struct ExInfo<S>(Info<S>);

/// Label values of one metric, as name and value pairs.
pub type LabelSet = Vec<(String, String)>;

/// A label set as a sequence of name and value character sequences.
pub open spec fn label_view(labels: LabelSet) -> Seq<(Seq<char>, Seq<char>)> {
    labels@.map_values(|p: (String, String)| (p.0@, p.1@))
}

/// The value after an atomic `u64` increment, which wraps around.
pub open spec fn next_count(v: u64) -> u64 {
    if v == u64::MAX {
        0
    } else {
        (v + 1) as u64
    }
}

/// The value after an atomic `i64` increment, which wraps around.
pub open spec fn next_level(v: i64) -> i64 {
    if v == i64::MAX {
        i64::MIN
    } else {
        (v + 1) as i64
    }
}

/// The counter of `key` in `m`; a label set that was never used counts 0.
pub open spec fn count_at(m: Map<Seq<(Seq<char>, Seq<char>)>, u64>, key: Seq<(Seq<char>, Seq<char>)>) -> u64 {
    if m.contains_key(key) {
        m[key]
    } else {
        0
    }
}

/// `m` after the counter of `key` is incremented.
pub open spec fn bump_count(m: Map<Seq<(Seq<char>, Seq<char>)>, u64>, key: Seq<(Seq<char>, Seq<char>)>) -> Map<Seq<(Seq<char>, Seq<char>)>, u64> {
    m.insert(key, next_count(count_at(m, key)))
}

/// The gauge of `key` in `m`; a label set that was never used reads 0.
pub open spec fn level_at(m: Map<Seq<(Seq<char>, Seq<char>)>, i64>, key: Seq<(Seq<char>, Seq<char>)>) -> i64 {
    if m.contains_key(key) {
        m[key]
    } else {
        0
    }
}

/// `m` after the gauge of `key` is incremented.
pub open spec fn bump_level(m: Map<Seq<(Seq<char>, Seq<char>)>, i64>, key: Seq<(Seq<char>, Seq<char>)>) -> Map<Seq<(Seq<char>, Seq<char>)>, i64> {
    m.insert(key, next_level(level_at(m, key)))
}

// ---------------------------------------------------------------------------
// Gauge families
// ---------------------------------------------------------------------------

/// A `Family<LabelSet, Gauge>`: one gauge per label set.
#[verifier::external_body]
pub struct GaugeFamily {
    inner: Family<LabelSet, Gauge>,
}

/// The gauges of a family, by label set: the label sets that have been
/// used, each with its value.
pub uninterp spec fn gauge_family_values(f: GaugeFamily) -> Map<Seq<(Seq<char>, Seq<char>)>, i64>;

/// `Family::default`. Trusted: a new family holds no gauge.
#[verifier::external_body]
pub(crate) fn gauge_family_new() -> (family: GaugeFamily)
    ensures
        gauge_family_values(family).dom().is_empty(),
{
    GaugeFamily { inner: Family::default() }
}

/// `Family::get_or_create` then `Gauge::set`. Trusted: the gauge of `labels`
/// now holds `v` (an atomic swap, which returns the value it replaced); no
/// other gauge changes.
#[verifier::external_body]
pub(crate) fn gauge_family_set(family: &mut GaugeFamily, labels: &LabelSet, v: i64) -> (previous: i64)
    ensures
        previous == level_at(gauge_family_values(*old(family)), label_view(*labels)),
        gauge_family_values(*final(family)) == gauge_family_values(*old(family)).insert(
            label_view(*labels),
            v,
        ),
{
    family.inner.get_or_create(labels).set(v)
}

// ---------------------------------------------------------------------------
// Single gauges
// ---------------------------------------------------------------------------

/// The value that a gauge holds.
pub uninterp spec fn gauge_value(g: Gauge) -> i64;

/// `Gauge::default`. Trusted: a new gauge holds 0.
#[verifier::external_body]
pub(crate) fn gauge_new() -> (g: Gauge)
    ensures
        gauge_value(g) == 0,
{
    Gauge::default()
}

/// `Gauge::set`. Trusted: the gauge now holds `v`; returns the value it
/// replaced.
#[verifier::external_body]
pub(crate) fn gauge_set(g: &mut Gauge, v: i64) -> (previous: i64)
    ensures
        previous == gauge_value(*old(g)),
        gauge_value(*final(g)) == v,
{
    g.set(v)
}

// ---------------------------------------------------------------------------
// Info metrics
// ---------------------------------------------------------------------------

/// The label set that an info metric reports.
pub uninterp spec fn info_labels(i: Info<LabelSet>) -> Seq<(Seq<char>, Seq<char>)>;

/// `Info::new`. Trusted: the info metric reports `labels`.
#[verifier::external_body]
pub(crate) fn info_new(labels: LabelSet) -> (i: Info<LabelSet>)
    ensures
        info_labels(i) == label_view(labels),
{
    Info::new(labels)
}

// ---------------------------------------------------------------------------
// Registries
// ---------------------------------------------------------------------------

/// A registered metric as its name, its help text, the label set it reports
/// on its own (that of an info metric; empty for the other kinds), and its
/// type as the text format names it.
pub type MetricEntry = (Seq<char>, Seq<char>, Seq<(Seq<char>, Seq<char>)>, Seq<char>);

/// The metrics of a registry, in the order they were registered.
pub uninterp spec fn registry_entries(r: Registry) -> Seq<MetricEntry>;

/// The help text that a registry keeps for `help`: a full stop is appended.
pub open spec fn help_text(help: Seq<char>) -> Seq<char> {
    help + "."@
}

/// The entry that registering a metric of type `kind` without labels of
/// its own adds.
pub open spec fn plain_entry(name: Seq<char>, help: Seq<char>, kind: Seq<char>) -> MetricEntry {
    (name, help_text(help), Seq::empty(), kind)
}

/// The two descriptor lines that open a metric in the text format.
pub open spec fn descriptor_lines(e: MetricEntry) -> Seq<char> {
    "# HELP "@ + e.0 + " "@ + e.1 + "\n"@ + "# TYPE "@ + e.0 + " "@ + e.3 + "\n"@
}

/// A text exposition of `entries`: each metric's descriptor lines followed
/// by the sample lines in `samples` at the same position, in registration
/// order, then the end marker.
pub open spec fn exposition(entries: Seq<MetricEntry>, samples: Seq<Seq<char>>) -> Seq<char>
    decreases entries.len(),
{
    if entries.len() == 0 {
        "# EOF\n"@
    } else {
        descriptor_lines(entries[0]) + samples[0] + exposition(entries.drop_first(), samples.drop_first())
    }
}

/// `Registry::register` of a gauge family. Trusted: appends the metric under
/// `name` with `help` followed by a full stop, of type `gauge`.
#[verifier::external_body]
pub(crate) fn register_gauge_family(r: &mut Registry, name: &str, help: &str, family: &GaugeFamily)
    ensures
        registry_entries(*final(r)) == registry_entries(*old(r)).push(plain_entry(name@, help@, "gauge"@)),
{
    r.register(name, help, family.inner.clone())
}

/// `Registry::register` of a gauge. Trusted: appends the metric under `name`
/// with `help` followed by a full stop, of type `gauge`.
#[verifier::external_body]
pub(crate) fn register_gauge(r: &mut Registry, name: &str, help: &str, gauge: &Gauge)
    ensures
        registry_entries(*final(r)) == registry_entries(*old(r)).push(plain_entry(name@, help@, "gauge"@)),
{
    r.register(name, help, gauge.clone())
}

/// `Registry::register` of an info metric. Trusted: appends the metric under
/// `name` with `help` followed by a full stop, of type `info`, reporting
/// its label set.
#[verifier::external_body]
pub(crate) fn register_info(r: &mut Registry, name: &str, help: &str, info: Info<LabelSet>)
    ensures
        registry_entries(*final(r)) == registry_entries(*old(r)).push(
            (name@, help_text(help@), info_labels(info), "info"@),
        ),
{
    r.register(name, help, info)
}

// ---------------------------------------------------------------------------
// Sample lines of the text format
// ---------------------------------------------------------------------------

/// One label as the text format writes it: `name="value"`.
pub open spec fn label_pair_text(p: (Seq<char>, Seq<char>)) -> Seq<char> {
    p.0 + "=\""@ + p.1 + "\""@
}

/// Labels as the text format writes them, separated by commas.
pub open spec fn label_pairs_text(labels: Seq<(Seq<char>, Seq<char>)>) -> Seq<char>
    decreases labels.len(),
{
    if labels.len() == 0 {
        Seq::empty()
    } else if labels.len() == 1 {
        label_pair_text(labels[0])
    } else {
        label_pair_text(labels[0]) + ","@ + label_pairs_text(labels.drop_first())
    }
}

/// A signed integer in decimal, with a minus sign when negative.
pub open spec fn signed_decimal(v: i64) -> Seq<char> {
    if v < 0 {
        "-"@ + decimal((-v) as nat)
    } else {
        decimal(v as nat)
    }
}

/// The sample line of the counter of `labels` in the family `name`.
pub open spec fn counter_line(name: Seq<char>, labels: Seq<(Seq<char>, Seq<char>)>, v: u64) -> Seq<char> {
    name + "_total{"@ + label_pairs_text(labels) + "} "@ + decimal(v as nat) + "\n"@
}

/// The sample line of the gauge of `labels` in the family `name`.
pub open spec fn gauge_line(name: Seq<char>, labels: Seq<(Seq<char>, Seq<char>)>, v: i64) -> Seq<char> {
    name + "{"@ + label_pairs_text(labels) + "} "@ + signed_decimal(v) + "\n"@
}

/// The counter lines of the label sets `keys`, in that order.
pub open spec fn counter_lines(name: Seq<char>, m: Map<Seq<(Seq<char>, Seq<char>)>, u64>, keys: Seq<Seq<(Seq<char>, Seq<char>)>>) -> Seq<char>
    decreases keys.len(),
{
    if keys.len() == 0 {
        Seq::empty()
    } else {
        counter_line(name, keys[0], m[keys[0]]) + counter_lines(name, m, keys.drop_first())
    }
}

/// The gauge lines of the label sets `keys`, in that order.
pub open spec fn gauge_lines(name: Seq<char>, m: Map<Seq<(Seq<char>, Seq<char>)>, i64>, keys: Seq<Seq<(Seq<char>, Seq<char>)>>) -> Seq<char>
    decreases keys.len(),
{
    if keys.len() == 0 {
        Seq::empty()
    } else {
        gauge_line(name, keys[0], m[keys[0]]) + gauge_lines(name, m, keys.drop_first())
    }
}

/// `keys` lists each label set of `dom` once, in some order.
pub open spec fn lists_each_once(keys: Seq<Seq<(Seq<char>, Seq<char>)>>, dom: Set<Seq<(Seq<char>, Seq<char>)>>) -> bool {
    keys.no_duplicates() && keys.to_set() == dom
}

/// `text` is the samples of a counter family `name` holding `m`: one line
/// per label set, in some order.
pub open spec fn counter_section(name: Seq<char>, m: Map<Seq<(Seq<char>, Seq<char>)>, u64>, text: Seq<char>) -> bool {
    exists|keys: Seq<Seq<(Seq<char>, Seq<char>)>>|
        lists_each_once(keys, m.dom()) && text == #[trigger] counter_lines(name, m, keys)
}

/// `text` is the samples of a gauge family `name` holding `m`: one line per
/// label set, in some order.
pub open spec fn gauge_section(name: Seq<char>, m: Map<Seq<(Seq<char>, Seq<char>)>, i64>, text: Seq<char>) -> bool {
    exists|keys: Seq<Seq<(Seq<char>, Seq<char>)>>|
        lists_each_once(keys, m.dom()) && text == #[trigger] gauge_lines(name, m, keys)
}

// ---------------------------------------------------------------------------
// The collector's families and their registry
// ---------------------------------------------------------------------------

/// The metrics of the packet event collector, by their role.
#[derive(Clone, Copy, Debug, PartialEq, Eq, Structural)]
pub enum CollectorFamily {
    /// The packet event counters.
    PacketCount,
    /// The first-seen time stamps.
    FirstSeen,
    /// The last-seen time stamps.
    LastSeen,
    /// The packet size histogram.
    PacketSize,
    /// The distinct client gauges.
    UniqueClients,
}

/// A registry being filled with handles to the collector's own counter
/// family and gauge families.
#[verifier::external_body]
pub struct FamilySet {
    registry: Registry,
    packet_counter: Family<LabelSet, Counter>,
    first_seen: Family<LabelSet, Gauge>,
    last_seen: Family<LabelSet, Gauge>,
    unique_clients: Family<LabelSet, Gauge>,
}

/// The metrics registered in a family set, in order.
pub uninterp spec fn set_entries(s: FamilySet) -> Seq<MetricEntry>;

/// Which of the set's metrics each registered metric is, in order.
pub uninterp spec fn set_sources(s: FamilySet) -> Seq<CollectorFamily>;

/// A new registry and four new families, none registered yet.
/// Trusted: `Registry::default` and `Family::default` hold nothing.
#[verifier::external_body]
pub(crate) fn family_set_new() -> (s: FamilySet)
    ensures
        set_entries(s).len() == 0,
        set_sources(s).len() == 0,
{
    FamilySet {
        registry: Registry::default(),
        packet_counter: Family::default(),
        first_seen: Family::default(),
        last_seen: Family::default(),
        unique_clients: Family::default(),
    }
}

/// `Registry::register` of a handle to the set's counter family. Trusted:
/// appends it under `name` with `help` and a full stop, of type `counter`.
#[verifier::external_body]
pub(crate) fn set_register_packet_count(s: &mut FamilySet, name: &str, help: &str)
    ensures
        set_entries(*final(s)) == set_entries(*old(s)).push(plain_entry(name@, help@, "counter"@)),
        set_sources(*final(s)) == set_sources(*old(s)).push(CollectorFamily::PacketCount),
{
    s.registry.register(name, help, s.packet_counter.clone())
}

/// `Registry::register` of a handle to the set's first-seen gauges.
/// Trusted: appends it under `name` with `help` and a full stop, of type
/// `gauge`.
#[verifier::external_body]
pub(crate) fn set_register_first_seen(s: &mut FamilySet, name: &str, help: &str)
    ensures
        set_entries(*final(s)) == set_entries(*old(s)).push(plain_entry(name@, help@, "gauge"@)),
        set_sources(*final(s)) == set_sources(*old(s)).push(CollectorFamily::FirstSeen),
{
    s.registry.register(name, help, s.first_seen.clone())
}

/// `Registry::register` of a handle to the set's last-seen gauges.
/// Trusted: appends it under `name` with `help` and a full stop, of type
/// `gauge`.
#[verifier::external_body]
pub(crate) fn set_register_last_seen(s: &mut FamilySet, name: &str, help: &str)
    ensures
        set_entries(*final(s)) == set_entries(*old(s)).push(plain_entry(name@, help@, "gauge"@)),
        set_sources(*final(s)) == set_sources(*old(s)).push(CollectorFamily::LastSeen),
{
    s.registry.register(name, help, s.last_seen.clone())
}

/// `Registry::register` of a handle to the set's distinct client gauges.
/// Trusted: appends it under `name` with `help` and a full stop, of type
/// `gauge`.
#[verifier::external_body]
pub(crate) fn set_register_unique_clients(s: &mut FamilySet, name: &str, help: &str)
    ensures
        set_entries(*final(s)) == set_entries(*old(s)).push(plain_entry(name@, help@, "gauge"@)),
        set_sources(*final(s)) == set_sources(*old(s)).push(CollectorFamily::UniqueClients),
{
    s.registry.register(name, help, s.unique_clients.clone())
}

/// `Registry::register` of a handle to `histogram`. Trusted: appends it
/// under `name` with `help` and a full stop, of type `histogram`.
#[verifier::external_body]
pub(crate) fn set_register_packet_size(s: &mut FamilySet, name: &str, help: &str, histogram: &Histogram)
    ensures
        set_entries(*final(s)) == set_entries(*old(s)).push(plain_entry(name@, help@, "histogram"@)),
        set_sources(*final(s)) == set_sources(*old(s)).push(CollectorFamily::PacketSize),
{
    s.registry.register(name, help, histogram.clone())
}

/// The collector's families together with the shared registry that holds
/// handles to them.
#[verifier::external_body]
pub struct CollectorFamilies {
    registry: Arc<Registry>,
    packet_counter: Family<LabelSet, Counter>,
    first_seen: Family<LabelSet, Gauge>,
    last_seen: Family<LabelSet, Gauge>,
    unique_clients: Family<LabelSet, Gauge>,
}

/// The metrics registered, in order.
pub uninterp spec fn families_entries(f: CollectorFamilies) -> Seq<MetricEntry>;

/// Which of the collector's metrics each registered metric is, in order.
pub uninterp spec fn families_sources(f: CollectorFamilies) -> Seq<CollectorFamily>;

/// The packet event counters, by label set.
pub uninterp spec fn families_counts(f: CollectorFamilies) -> Map<Seq<(Seq<char>, Seq<char>)>, u64>;

/// The first-seen time stamps, by label set.
pub uninterp spec fn families_first_seen(f: CollectorFamilies) -> Map<Seq<(Seq<char>, Seq<char>)>, i64>;

/// The last-seen time stamps, by label set.
pub uninterp spec fn families_last_seen(f: CollectorFamilies) -> Map<Seq<(Seq<char>, Seq<char>)>, i64>;

/// The distinct client gauges, by label set.
pub uninterp spec fn families_unique(f: CollectorFamilies) -> Map<Seq<(Seq<char>, Seq<char>)>, i64>;

/// `Arc::new` of the set's registry. Trusted: the registry keeps what was
/// registered, and the families, still empty, are the ones registered.
#[verifier::external_body]
pub(crate) fn family_set_share(s: FamilySet) -> (f: CollectorFamilies)
    ensures
        families_entries(f) == set_entries(s),
        families_sources(f) == set_sources(s),
        families_counts(f).dom().is_empty(),
        families_first_seen(f).dom().is_empty(),
        families_last_seen(f).dom().is_empty(),
        families_unique(f).dom().is_empty(),
{
    CollectorFamilies {
        registry: Arc::new(s.registry),
        packet_counter: s.packet_counter,
        first_seen: s.first_seen,
        last_seen: s.last_seen,
        unique_clients: s.unique_clients,
    }
}

/// The values that the family of `source` holds, as they appear in the
/// text: what the text of a registered metric reports.
pub open spec fn section_matches(f: CollectorFamilies, source: CollectorFamily, name: Seq<char>, text: Seq<char>) -> bool {
    match source {
        CollectorFamily::PacketCount => counter_section(name, families_counts(f), text),
        CollectorFamily::FirstSeen => gauge_section(name, families_first_seen(f), text),
        CollectorFamily::LastSeen => gauge_section(name, families_last_seen(f), text),
        CollectorFamily::UniqueClients => gauge_section(name, families_unique(f), text),
        CollectorFamily::PacketSize => true,
    }
}

/// `prometheus_client::encoding::text::encode` of the registry into a new
/// string. Trusted: the registry writes each metric, in registration order,
/// as its `# HELP` and `# TYPE` lines followed by its samples, and `encode`
/// ends the text with `# EOF`. A counter family writes one line
/// `name_total{labels} value` per label set and a gauge family one line
/// `name{labels} value`, in the order of its hash map, with the values the
/// families hold now (the registry holds handles to them); the histogram's
/// lines are not stated. These encoders fail only when the writer does, and
/// writing to a `String` does not fail.
#[verifier::external_body]
pub(crate) fn families_encode(f: &CollectorFamilies) -> (encoded: Option<String>)
    ensures
        encoded is Some,
        encoded matches Some(t) ==> exists|samples: Seq<Seq<char>>|
            samples.len() == families_entries(*f).len() && t@ == #[trigger] exposition(
                families_entries(*f),
                samples,
            ) && forall|i: int|
                0 <= i < samples.len() ==> section_matches(
                    *f,
                    families_sources(*f)[i],
                    families_entries(*f)[i].0,
                    #[trigger] samples[i],
                ),
{
    let mut text = String::new();
    match prometheus_client::encoding::text::encode(&mut text, &f.registry) {
        Ok(()) => Some(text),
        Err(_) => None,
    }
}

/// `Arc::clone` of the registry. Trusted: the handle reaches the registry
/// that holds the families' metrics in registration order.
#[verifier::external_body]
pub(crate) fn families_registry(f: &CollectorFamilies) -> (r: Arc<Registry>)
    ensures
        registry_entries(*r) == families_entries(*f),
{
    Arc::clone(&f.registry)
}

/// `Family::get_or_create` then `Counter::inc` on the packet event counters.
/// Trusted: the counter of `labels` is created at 0 if it is missing, then
/// incremented (a `fetch_add` of 1, which wraps); nothing else changes.
#[verifier::external_body]
pub(crate) fn families_inc_count(f: &mut CollectorFamilies, labels: &LabelSet)
    ensures
        families_counts(*final(f)) == bump_count(families_counts(*old(f)), label_view(*labels)),
        families_first_seen(*final(f)) == families_first_seen(*old(f)),
        families_last_seen(*final(f)) == families_last_seen(*old(f)),
        families_unique(*final(f)) == families_unique(*old(f)),
        families_entries(*final(f)) == families_entries(*old(f)),
        families_sources(*final(f)) == families_sources(*old(f)),
{
    f.packet_counter.get_or_create(labels).inc();
}

/// `Family::get_or_create` then `Gauge::get` on the first-seen gauges.
/// Trusted: returns the value of the gauge of `labels` (0 for a new gauge),
/// which is created if it is missing; nothing else changes.
#[verifier::external_body]
pub(crate) fn families_first_seen_get(f: &mut CollectorFamilies, labels: &LabelSet) -> (v: i64)
    ensures
        v == level_at(families_first_seen(*old(f)), label_view(*labels)),
        families_first_seen(*final(f)) == families_first_seen(*old(f)).insert(label_view(*labels), v),
        families_counts(*final(f)) == families_counts(*old(f)),
        families_last_seen(*final(f)) == families_last_seen(*old(f)),
        families_unique(*final(f)) == families_unique(*old(f)),
        families_entries(*final(f)) == families_entries(*old(f)),
        families_sources(*final(f)) == families_sources(*old(f)),
{
    f.first_seen.get_or_create(labels).get()
}

/// `Family::get_or_create` then `Gauge::set` on the first-seen gauges.
/// Trusted: the gauge of `labels` now holds `v`; nothing else changes.
#[verifier::external_body]
pub(crate) fn families_first_seen_set(f: &mut CollectorFamilies, labels: &LabelSet, v: i64)
    ensures
        families_first_seen(*final(f)) == families_first_seen(*old(f)).insert(label_view(*labels), v),
        families_counts(*final(f)) == families_counts(*old(f)),
        families_last_seen(*final(f)) == families_last_seen(*old(f)),
        families_unique(*final(f)) == families_unique(*old(f)),
        families_entries(*final(f)) == families_entries(*old(f)),
        families_sources(*final(f)) == families_sources(*old(f)),
{
    f.first_seen.get_or_create(labels).set(v);
}

/// `Family::get_or_create` then `Gauge::set` on the last-seen gauges.
/// Trusted: the gauge of `labels` now holds `v`; nothing else changes.
#[verifier::external_body]
pub(crate) fn families_last_seen_set(f: &mut CollectorFamilies, labels: &LabelSet, v: i64)
    ensures
        families_last_seen(*final(f)) == families_last_seen(*old(f)).insert(label_view(*labels), v),
        families_counts(*final(f)) == families_counts(*old(f)),
        families_first_seen(*final(f)) == families_first_seen(*old(f)),
        families_unique(*final(f)) == families_unique(*old(f)),
        families_entries(*final(f)) == families_entries(*old(f)),
        families_sources(*final(f)) == families_sources(*old(f)),
{
    f.last_seen.get_or_create(labels).set(v);
}

/// `Family::get_or_create` then `Gauge::inc` on the distinct client gauges.
/// Trusted: the gauge of `labels` is created at 0 if it is missing, then
/// incremented (a `fetch_add` of 1, which wraps); nothing else changes.
#[verifier::external_body]
pub(crate) fn families_unique_inc(f: &mut CollectorFamilies, labels: &LabelSet)
    ensures
        families_unique(*final(f)) == bump_level(families_unique(*old(f)), label_view(*labels)),
        families_counts(*final(f)) == families_counts(*old(f)),
        families_first_seen(*final(f)) == families_first_seen(*old(f)),
        families_last_seen(*final(f)) == families_last_seen(*old(f)),
        families_entries(*final(f)) == families_entries(*old(f)),
        families_sources(*final(f)) == families_sources(*old(f)),
{
    f.unique_clients.get_or_create(labels).inc();
}

} // verus!
