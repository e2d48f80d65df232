//! Packet counters of the NTP server in the `prometheus` crate's model:
//! packets received and sent by IP version, packets dropped by reason, and
//! the number of distinct remote addresses by IP version.
use vstd::prelude::*;
use vstd::pervasive::unreached;
use prometheus::{Encoder, IntCounterVec, Opts, Registry, TextEncoder};
use vstd::hash_set::StringHashSet;
use crate::text::{decimal, is_digit};
use vstd::utf8::{encode_utf8, is_ascii_chars, is_ascii_chars_encode_utf8};

verus! {

#[verifier::external_type_specification]
#[verifier::external_body]
pub struct ExPromRegistry(Registry);

#[verifier::external_type_specification]
#[verifier::external_body]
pub struct ExPromError(prometheus::Error);

/// An `IntCounterVec`: counters partitioned by label values.
#[verifier::external_body]
pub struct PromCounterVec {
    inner: IntCounterVec,
}

/// FNV-1a offset basis.
pub const HASH_OFFSET: u64 = 0xcbf2_9ce4_8422_2325;

/// FNV-1a prime.
pub const HASH_PRIME: u64 = 0x0000_0100_0000_01b3;

/// One FNV-1a step over a byte.
pub open spec fn fnv_byte(h: u64, b: u8) -> u64 {
    (((h ^ (b as u64)) as nat * HASH_PRIME as nat) % 0x1_0000_0000_0000_0000nat) as u64
}

/// FNV-1a, continued from `h`, over `bytes`.
pub open spec fn fnv_bytes(h: u64, bytes: Seq<u8>) -> u64
    decreases bytes.len(),
{
    if bytes.len() == 0 {
        h
    } else {
        fnv_byte(fnv_bytes(h, bytes.drop_last()), bytes.last())
    }
}

/// The UTF-8 bytes of a list of label values, one after the other.
pub open spec fn label_values_bytes(values: Seq<Seq<char>>) -> Seq<u8>
    decreases values.len(),
{
    if values.len() == 0 {
        Seq::empty()
    } else {
        label_values_bytes(values.drop_last()) + encode_utf8(values.last())
    }
}

/// The key under which an `IntCounterVec` keeps the counter of a list of
/// label values (`MetricVecCore::hash_label_values`): FNV-1a over the
/// values' bytes, so values with equal keys share one counter.
pub open spec fn prom_label_key(values: Seq<Seq<char>>) -> u64 {
    fnv_bytes(HASH_OFFSET, label_values_bytes(values))
}

/// The counters of a vector, by key.
pub uninterp spec fn prom_counter_values(v: PromCounterVec) -> Map<u64, u64>;

/// The metric name, help text and label names a vector was made with.
pub uninterp spec fn prom_counter_desc(v: PromCounterVec) -> (Seq<char>, Seq<char>, Seq<Seq<char>>);

/// The label value each counter of a vector was created with, by key.
pub uninterp spec fn prom_counter_labels(v: PromCounterVec) -> Map<u64, Seq<char>>;

/// The id `Desc::new` gives the descriptor of a metric named `name` without
/// constant labels: FNV-1a over the name's bytes and the separator byte
/// 0xFF.
pub open spec fn desc_id(name: Seq<char>) -> u64 {
    fnv_bytes(HASH_OFFSET, encode_utf8(name).push(0xFFu8))
}

/// The counter under `key` in `m`; a key that was never used counts 0.
pub open spec fn key_count(m: Map<u64, u64>, key: u64) -> u64 {
    if m.contains_key(key) {
        m[key]
    } else {
        0
    }
}

/// `m` after the counter under `key` is incremented (wrapping, as the
/// atomic add does).
pub open spec fn bump_key(m: Map<u64, u64>, key: u64) -> Map<u64, u64> {
    m.insert(key, if key_count(m, key) == u64::MAX { 0 } else { (key_count(m, key) + 1) as u64 })
}

/// The key of the single label value `label`.
pub open spec fn label_key(label: Seq<char>) -> u64 {
    prom_label_key(seq![label])
}

/// A character of `[a-zA-Z_]`, or of `[a-zA-Z_:]` when `colon` holds.
pub open spec fn ident_start(c: char, colon: bool) -> bool {
    let u = c as u32;
    (65 <= u <= 90) || (97 <= u <= 122) || u == 95 || (colon && u == 58)
}

/// Every character of `s` from index `i` on is an identifier character or
/// a decimal digit.
pub open spec fn ident_rest(s: Seq<char>, colon: bool, i: int) -> bool
    decreases s.len() - i,
{
    if i < 0 || i >= s.len() {
        true
    } else {
        (ident_start(s[i], colon) || is_digit(s[i])) && ident_rest(s, colon, i + 1)
    }
}

/// A metric name (`colon`) or label name as the `prometheus` crate accepts
/// it: `[a-zA-Z_:][a-zA-Z0-9_:]*` or `[a-zA-Z_][a-zA-Z0-9_]*`.
pub open spec fn valid_ident(s: Seq<char>, colon: bool) -> bool {
    s.len() > 0 && ident_start(s[0], colon) && ident_rest(s, colon, 1)
}

/// `IntCounterVec::new(Opts::new(name, help), &[label])`. Trusted: it
/// succeeds exactly when the help text is not empty, the name is a valid
/// metric name and the label a valid label name (the checks of
/// `Desc::new`); then the vector holds no counter and has the name, help
/// and the one label name given.
#[verifier::external_body]
fn prom_counter_vec_new(name: &str, help: &str, label: &str) -> (r: Result<PromCounterVec, prometheus::Error>)
    ensures
        r is Ok <==> (help@.len() > 0 && valid_ident(name@, true) && valid_ident(label@, false)),
        r matches Ok(v) ==> prom_counter_values(v).dom().is_empty() && prom_counter_labels(v).dom().is_empty()
            && prom_counter_desc(v) == (name@, help@, seq![label@]),
{
    match IntCounterVec::new(Opts::new(name, help), &[label]) {
        Ok(inner) => Ok(PromCounterVec { inner }),
        Err(e) => Err(e),
    }
}

/// `prometheus::register`: registers a handle to the vector in the global
/// default registry. The outcome depends on what that registry already
/// holds, so nothing is stated of it.
#[verifier::external_body]
fn prom_register_default(v: &PromCounterVec) -> Result<(), prometheus::Error> {
    prometheus::register(Box::new(v.inner.clone()))
}

/// The four counter vectors of the packet metrics, by their role.
#[derive(Clone, Copy, Debug, PartialEq, Eq, Structural)]
pub enum CounterRole {
    /// Packets received, by IP version.
    Received,
    /// Packets sent, by IP version.
    Sent,
    /// Packets dropped, by reason.
    Dropped,
    /// Distinct remote addresses, by IP version.
    Unique,
}

/// The four counter vectors together with a registry of their own that
/// holds handles to the ones registered in it.
#[verifier::external_body]
pub struct PromCounters {
    registry: Registry,
    received: IntCounterVec,
    sent: IntCounterVec,
    dropped: IntCounterVec,
    unique: IntCounterVec,
}

/// The counters of the vector of `role`, by key.
pub uninterp spec fn counters_values(c: PromCounters, role: CounterRole) -> Map<u64, u64>;

/// The label value each counter of the vector of `role` was created with,
/// by key.
pub uninterp spec fn counters_labels(c: PromCounters, role: CounterRole) -> Map<u64, Seq<char>>;

/// The metric name, help text and label names of the vector of `role`.
pub uninterp spec fn counters_desc(c: PromCounters, role: CounterRole) -> (Seq<char>, Seq<char>, Seq<Seq<char>>);

/// The vectors registered in the registry, in the order they were
/// registered.
pub uninterp spec fn counters_registered(c: PromCounters) -> Seq<CounterRole>;

/// Every registration into the registry succeeded, so that its descriptor
/// ids, and the names registered, are those of the registered vectors,
/// each once.
pub uninterp spec fn counters_plain(c: PromCounters) -> bool;

/// `after` is `before` with nothing changed but what the vector of `role`
/// holds.
pub open spec fn others_unchanged(before: PromCounters, after: PromCounters, role: CounterRole) -> bool {
    &&& forall|r: CounterRole| r != role ==> #[trigger] counters_values(after, r) == counters_values(before, r)
    &&& forall|r: CounterRole| r != role ==> #[trigger] counters_labels(after, r) == counters_labels(before, r)
    &&& forall|r: CounterRole| #[trigger] counters_desc(after, r) == counters_desc(before, r)
    &&& counters_registered(after) == counters_registered(before)
    &&& counters_plain(after) == counters_plain(before)
}

/// A registry of their own for the four vectors, with none registered yet.
/// Trusted: `Registry::new` has no prefix, common labels or collectors; the
/// vectors are moved in unchanged.
#[verifier::external_body]
fn counters_new(received: PromCounterVec, sent: PromCounterVec, dropped: PromCounterVec, unique: PromCounterVec) -> (c: PromCounters)
    ensures
        counters_values(c, CounterRole::Received) == prom_counter_values(received),
        counters_values(c, CounterRole::Sent) == prom_counter_values(sent),
        counters_values(c, CounterRole::Dropped) == prom_counter_values(dropped),
        counters_values(c, CounterRole::Unique) == prom_counter_values(unique),
        counters_labels(c, CounterRole::Received) == prom_counter_labels(received),
        counters_labels(c, CounterRole::Sent) == prom_counter_labels(sent),
        counters_labels(c, CounterRole::Dropped) == prom_counter_labels(dropped),
        counters_labels(c, CounterRole::Unique) == prom_counter_labels(unique),
        counters_desc(c, CounterRole::Received) == prom_counter_desc(received),
        counters_desc(c, CounterRole::Sent) == prom_counter_desc(sent),
        counters_desc(c, CounterRole::Dropped) == prom_counter_desc(dropped),
        counters_desc(c, CounterRole::Unique) == prom_counter_desc(unique),
        counters_registered(c).len() == 0,
        counters_plain(c),
{
    PromCounters {
        registry: Registry::new(),
        received: received.inner,
        sent: sent.inner,
        dropped: dropped.inner,
        unique: unique.inner,
    }
}

/// What registering the vector of `role` gives: on success the registry
/// holds it too, on an error what it held (`RegistryCore::register` adds a
/// collector only once every check has passed); nothing else changes.
/// `RegistryCore::register` refuses only a descriptor id it holds, a known
/// name with another dimension hash, or a collector id in use; in a
/// registry into which every registration succeeded, these all come down to
/// the id of the vector's name being the id of a name registered, so a name
/// with another id is accepted.
pub open spec fn registered_after(before: PromCounters, after: PromCounters, role: CounterRole, ok: bool) -> bool {
    &&& ok ==> counters_registered(after) == counters_registered(before).push(role)
    &&& !ok ==> counters_registered(after) == counters_registered(before)
    &&& ok && counters_plain(before) ==> counters_plain(after)
    &&& counters_plain(before) && (forall|i: int|
        0 <= i < counters_registered(before).len() ==> desc_id(
            counters_desc(before, #[trigger] counters_registered(before)[i]).0,
        ) != desc_id(counters_desc(before, role).0)) ==> ok
    &&& forall|r: CounterRole| #[trigger] counters_values(after, r) == counters_values(before, r)
    &&& forall|r: CounterRole| #[trigger] counters_labels(after, r) == counters_labels(before, r)
    &&& forall|r: CounterRole| #[trigger] counters_desc(after, r) == counters_desc(before, r)
}

/// `Registry::register` of a handle to the received vector. Trusted: as
/// `registered_after` says.
#[verifier::external_body]
fn counters_register_received(c: &mut PromCounters) -> (res: Result<(), prometheus::Error>)
    ensures
        registered_after(*old(c), *final(c), CounterRole::Received, res is Ok),
{
    c.registry.register(Box::new(c.received.clone()))
}

/// `Registry::register` of a handle to the sent vector. Trusted: as
/// `registered_after` says.
#[verifier::external_body]
fn counters_register_sent(c: &mut PromCounters) -> (res: Result<(), prometheus::Error>)
    ensures
        registered_after(*old(c), *final(c), CounterRole::Sent, res is Ok),
{
    c.registry.register(Box::new(c.sent.clone()))
}

/// `Registry::register` of a handle to the dropped vector. Trusted: as
/// `registered_after` says.
#[verifier::external_body]
fn counters_register_dropped(c: &mut PromCounters) -> (res: Result<(), prometheus::Error>)
    ensures
        registered_after(*old(c), *final(c), CounterRole::Dropped, res is Ok),
{
    c.registry.register(Box::new(c.dropped.clone()))
}

/// `Registry::register` of a handle to the unique-address vector. Trusted:
/// as `registered_after` says.
#[verifier::external_body]
fn counters_register_unique(c: &mut PromCounters) -> (res: Result<(), prometheus::Error>)
    ensures
        registered_after(*old(c), *final(c), CounterRole::Unique, res is Ok),
{
    c.registry.register(Box::new(c.unique.clone()))
}

/// What `with_label_values(&[label]).inc()` on the vector of `role` does:
/// the counter under the key of `label` (`fnv::FnvHasher` over its bytes)
/// is created at 0, with `label` as its label value, if it is missing, and
/// then incremented with a wrapping atomic add; nothing else changes.
pub open spec fn incremented(before: PromCounters, after: PromCounters, role: CounterRole, label: Seq<char>) -> bool {
    let k = label_key(label);
    &&& counters_values(after, role) == bump_key(counters_values(before, role), k)
    &&& counters_labels(after, role) == (if counters_labels(before, role).contains_key(k) {
        counters_labels(before, role)
    } else {
        counters_labels(before, role).insert(k, label)
    })
    &&& others_unchanged(before, after, role)
}

/// `with_label_values(&[label]).inc()` on the received vector. Trusted: as
/// `incremented` says, for a vector of one label name (on another,
/// `with_label_values` panics).
#[verifier::external_body]
fn counters_inc_received(c: &mut PromCounters, label: &str)
    requires
        counters_desc(*old(c), CounterRole::Received).2.len() == 1,
    ensures
        incremented(*old(c), *final(c), CounterRole::Received, label@),
{
    c.received.with_label_values(&[label]).inc()
}

/// `with_label_values(&[label]).inc()` on the sent vector. Trusted: as
/// `incremented` says, for a vector of one label name.
#[verifier::external_body]
fn counters_inc_sent(c: &mut PromCounters, label: &str)
    requires
        counters_desc(*old(c), CounterRole::Sent).2.len() == 1,
    ensures
        incremented(*old(c), *final(c), CounterRole::Sent, label@),
{
    c.sent.with_label_values(&[label]).inc()
}

/// `with_label_values(&[label]).inc()` on the dropped vector. Trusted: as
/// `incremented` says, for a vector of one label name.
#[verifier::external_body]
fn counters_inc_dropped(c: &mut PromCounters, label: &str)
    requires
        counters_desc(*old(c), CounterRole::Dropped).2.len() == 1,
    ensures
        incremented(*old(c), *final(c), CounterRole::Dropped, label@),
{
    c.dropped.with_label_values(&[label]).inc()
}

/// `with_label_values(&[label]).inc()` on the unique-address vector.
/// Trusted: as `incremented` says, for a vector of one label name.
#[verifier::external_body]
fn counters_inc_unique(c: &mut PromCounters, label: &str)
    requires
        counters_desc(*old(c), CounterRole::Unique).2.len() == 1,
    ensures
        incremented(*old(c), *final(c), CounterRole::Unique, label@),
{
    c.unique.with_label_values(&[label]).inc()
}

/// The registry that holds handles to the registered vectors.
#[verifier::external_body]
fn counters_registry(c: &PromCounters) -> &Registry {
    &c.registry
}

// ---------------------------------------------------------------------------
// The text format of the `prometheus` crate
// ---------------------------------------------------------------------------

/// A character as the text format escapes it: a backslash and a line feed
/// always, a double quote inside label values.
pub open spec fn escape_char(c: char, quote: bool) -> Seq<char> {
    if c == '\\' {
        seq!['\\', '\\']
    } else if c == '\n' {
        seq!['\\', 'n']
    } else if quote && c == '"' {
        seq!['\\', '"']
    } else {
        seq![c]
    }
}

/// Text as the text format escapes it.
pub open spec fn escaped(s: Seq<char>, quote: bool) -> Seq<char>
    decreases s.len(),
{
    if s.len() == 0 {
        Seq::empty()
    } else {
        escaped(s.drop_last(), quote) + escape_char(s.last(), quote)
    }
}

/// `a` sorts before `b` as Rust compares strings (by code point, a proper
/// prefix first).
pub open spec fn text_lt(a: Seq<char>, b: Seq<char>) -> bool
    decreases a.len(),
{
    if a.len() == 0 {
        b.len() > 0
    } else if b.len() == 0 {
        false
    } else if a[0] != b[0] {
        (a[0] as u32) < (b[0] as u32)
    } else {
        text_lt(a.drop_first(), b.drop_first())
    }
}

/// The `# HELP` line (when there is a help text) and the `# TYPE` line of a
/// counter family.
pub open spec fn counter_header(name: Seq<char>, help: Seq<char>) -> Seq<char> {
    (if help.len() > 0 {
        "# HELP "@ + name + " "@ + escaped(help, false) + "\n"@
    } else {
        Seq::empty()
    }) + "# TYPE "@ + name + " counter\n"@
}

/// The sample line of one counter: its label, then the value text.
pub open spec fn counter_sample(name: Seq<char>, label_name: Seq<char>, label_value: Seq<char>, value_text: Seq<char>) -> Seq<char> {
    name + "{"@ + label_name + "=\""@ + escaped(label_value, true) + "\"} "@ + value_text + "\n"@
}

/// The sample lines of the counters under `keys`, in that order, each
/// value written as `value_texts` says.
pub open spec fn counter_samples(name: Seq<char>, label_name: Seq<char>, labels: Map<u64, Seq<char>>, keys: Seq<u64>, value_texts: Seq<Seq<char>>) -> Seq<char>
    decreases keys.len(),
{
    if keys.len() == 0 {
        Seq::empty()
    } else {
        counter_sample(name, label_name, labels[keys[0]], value_texts[0]) + counter_samples(
            name,
            label_name,
            labels,
            keys.drop_first(),
            value_texts.drop_first(),
        )
    }
}

/// 2 to the 53: below it a count passes through an `f64` exactly.
pub open spec fn exact_float_limit() -> nat {
    0x20_0000_0000_0000
}

/// `text` is a counter family: its header, then one line per counter, in
/// the order of the label values; a count below 2^53 is written in decimal.
pub open spec fn counter_family_text(
    text: Seq<char>,
    desc: (Seq<char>, Seq<char>, Seq<Seq<char>>),
    values: Map<u64, u64>,
    labels: Map<u64, Seq<char>>,
) -> bool {
    exists|keys: Seq<u64>, value_texts: Seq<Seq<char>>|
        #![trigger counter_samples(desc.0, desc.2[0], labels, keys, value_texts)]
        {
            &&& keys.no_duplicates()
            &&& keys.to_set() == values.dom()
            &&& value_texts.len() == keys.len()
            &&& forall|i: int, j: int| 0 <= i < j < keys.len() ==> text_lt(labels[keys[i]], labels[keys[j]])
            &&& forall|i: int|
                0 <= i < keys.len() && values[keys[i]] < exact_float_limit() ==> value_texts[i] == decimal(
                    values[keys[i]] as nat,
                )
            &&& text == counter_header(desc.0, desc.1) + counter_samples(desc.0, desc.2[0], labels, keys, value_texts)
        }
}

/// The texts of `families`, one after the other.
pub open spec fn concat_texts(families: Seq<Seq<char>>) -> Seq<char>
    decreases families.len(),
{
    if families.len() == 0 {
        Seq::empty()
    } else {
        families[0] + concat_texts(families.drop_first())
    }
}

/// `bytes` is the text encoding of what the registry of `c` gathers: the
/// registered vectors that hold at least one counter, in the order of their
/// names, each as a counter family.
pub open spec fn counters_exposition(c: PromCounters, bytes: Seq<u8>) -> bool {
    exists|order: Seq<CounterRole>, families: Seq<Seq<char>>|
        #![trigger concat_texts(families), order.len()]
        {
            &&& order.no_duplicates()
            &&& families.len() == order.len()
            &&& forall|r: CounterRole|
                #[trigger] order.contains(r) <==> (counters_registered(c).contains(r) && !counters_values(
                    c,
                    r,
                ).dom().is_empty())
            &&& forall|i: int, j: int|
                0 <= i < j < order.len() ==> text_lt(counters_desc(c, order[i]).0, counters_desc(c, order[j]).0)
            &&& forall|i: int|
                0 <= i < order.len() ==> counter_family_text(
                    #[trigger] families[i],
                    counters_desc(c, order[i]),
                    counters_values(c, order[i]),
                    counters_labels(c, order[i]),
                )
            &&& bytes == encode_utf8(concat_texts(families))
        }
}

/// `Registry::gather` followed by `TextEncoder::encode` into a byte vector.
/// Trusted: `gather` collects each registered vector as a family (its
/// name, help, type counter, and one metric per counter, with its label
/// value and the count as an `f64`), leaves out the families without
/// metrics, sorts the families by name and each family's metrics by label
/// value; the encoder writes each family's `# HELP` line (when there is a
/// help text), its `# TYPE` line and one sample line per metric with the
/// label value escaped and the value as `f64` displays it (the digits of a
/// whole number, exact below 2^53), without time stamp. It refuses only a
/// family without metrics or without a name, panics only on untyped
/// metrics, which counter vectors never give, and writing to a `Vec` does
/// not fail. Names registered are distinct, as every registration into this
/// registry succeeded.
#[verifier::external_body]
fn counters_encode(c: &PromCounters) -> (text: Option<Vec<u8>>)
    requires
        counters_plain(*c),
        forall|r: CounterRole| (#[trigger] counters_desc(*c, r)).2.len() == 1,
    ensures
        text is Some,
        text matches Some(t) ==> counters_exposition(*c, t@),
{
    let mut buffer = Vec::new();
    match TextEncoder::new().encode(&c.registry.gather(), &mut buffer) {
        Ok(()) => Some(buffer),
        Err(_) => None,
    }
}

/// A remote socket address, by IP version, in its text form (as `Display`
/// writes a `SocketAddr`).
#[derive(Clone, Debug)]
pub enum RemoteAddr {
    V4(String),
    V6(String),
}

/// What went wrong when the counters were set up.
#[derive(Debug)]
pub enum MetricsError {
    /// The process-wide default registry refused a counter vector (it holds
    /// one of that name already).
    Register(prometheus::Error),
}

/// 2 to the 64.
pub open spec fn two_pow_64() -> nat {
    0x1_0000_0000_0000_0000
}

/// The IP version label of an address.
pub open spec fn version_label(addr: RemoteAddr) -> Seq<char> {
    match addr {
        RemoteAddr::V4(_) => "ipv4"@,
        RemoteAddr::V6(_) => "ipv6"@,
    }
}

/// The IP version label of the other version than the address's.
pub open spec fn other_version_label(addr: RemoteAddr) -> Seq<char> {
    match addr {
        RemoteAddr::V4(_) => "ipv6"@,
        RemoteAddr::V6(_) => "ipv4"@,
    }
}

/// The text of an address.
pub open spec fn addr_text(addr: RemoteAddr) -> Seq<char> {
    match addr {
        RemoteAddr::V4(t) => t@,
        RemoteAddr::V6(t) => t@,
    }
}

/// The names, help texts and label names of the received, sent, dropped
/// and unique-address counter vectors.
pub open spec fn metrics_descs() -> Seq<(Seq<char>, Seq<char>, Seq<Seq<char>>)> {
    seq![
        ("ntp_packets_received_total"@, "Total number of NTP packets received"@, seq!["ip_version"@]),
        ("ntp_packets_sent_total"@, "Total number of NTP packets sent"@, seq!["ip_version"@]),
        ("ntp_packets_dropped_total"@, "Total number of NTP packets dropped"@, seq!["reason"@]),
        ("ntp_unique_addresses_total"@, "Total number of unique remote addresses seen"@, seq!["ip_version"@]),
    ]
}

/// The names, label names and help texts of the four counter vectors are
/// accepted.
pub proof fn lemma_metric_names_valid()
    ensures
        valid_ident("ntp_packets_received_total"@, true),
        valid_ident("ntp_packets_sent_total"@, true),
        valid_ident("ntp_packets_dropped_total"@, true),
        valid_ident("ntp_unique_addresses_total"@, true),
        valid_ident("ip_version"@, false),
        valid_ident("reason"@, false),
        "Total number of NTP packets received"@.len() > 0,
        "Total number of NTP packets sent"@.len() > 0,
        "Total number of NTP packets dropped"@.len() > 0,
        "Total number of unique remote addresses seen"@.len() > 0,
{
    reveal_strlit("ntp_packets_received_total");
    reveal_strlit("ntp_packets_sent_total");
    reveal_strlit("ntp_packets_dropped_total");
    reveal_strlit("ntp_unique_addresses_total");
    reveal_strlit("ip_version");
    reveal_strlit("reason");
    reveal_strlit("Total number of NTP packets received");
    reveal_strlit("Total number of NTP packets sent");
    reveal_strlit("Total number of NTP packets dropped");
    reveal_strlit("Total number of unique remote addresses seen");
    reveal_with_fuel(ident_rest, 30);
}

/// The counters of the two IP versions are kept under different keys:
/// FNV-1a of `ipv4` and of `ipv6` differ.
pub proof fn lemma_version_keys_differ()
    ensures
        label_key("ipv4"@) != label_key("ipv6"@),
{
    reveal_strlit("ipv4");
    reveal_strlit("ipv6");
    let a = "ipv4"@;
    let b = "ipv6"@;
    assert(is_ascii_chars(a));
    assert(is_ascii_chars(b));
    is_ascii_chars_encode_utf8(a);
    is_ascii_chars_encode_utf8(b);
    let ea = encode_utf8(a);
    let eb = encode_utf8(b);
    assert(ea =~= seq![0x69u8, 0x70u8, 0x76u8, 0x34u8]) by {
        assert(ea[0] == a[0] as u8);
        assert(ea[1] == a[1] as u8);
        assert(ea[2] == a[2] as u8);
        assert(ea[3] == a[3] as u8);
    }
    assert(eb =~= seq![0x69u8, 0x70u8, 0x76u8, 0x36u8]) by {
        assert(eb[0] == b[0] as u8);
        assert(eb[1] == b[1] as u8);
        assert(eb[2] == b[2] as u8);
        assert(eb[3] == b[3] as u8);
    }
    assert(label_values_bytes(seq![a]) =~= ea) by {
        let vs = seq![a];
        assert(vs.drop_last() =~= Seq::<Seq<char>>::empty());
        assert(vs.last() == a);
        assert(label_values_bytes(vs.drop_last()) =~= Seq::<u8>::empty());
        assert(Seq::<u8>::empty() + ea =~= ea);
    }
    assert(label_values_bytes(seq![b]) =~= eb) by {
        let vs = seq![b];
        assert(vs.drop_last() =~= Seq::<Seq<char>>::empty());
        assert(vs.last() == b);
        assert(label_values_bytes(vs.drop_last()) =~= Seq::<u8>::empty());
        assert(Seq::<u8>::empty() + eb =~= eb);
    }
    let p0 = Seq::<u8>::empty();
    let p1 = seq![0x69u8];
    let p2 = seq![0x69u8, 0x70u8];
    let p3 = seq![0x69u8, 0x70u8, 0x76u8];
    assert(ea.drop_last() =~= p3);
    assert(eb.drop_last() =~= p3);
    assert(p3.drop_last() =~= p2);
    assert(p2.drop_last() =~= p1);
    assert(p1.drop_last() =~= p0);
    assert(0xcbf2_9ce4_8422_2325u64 ^ 0x69u64 == 0xcbf2_9ce4_8422_234cu64) by (bit_vector);
    assert(0xaf63_e44c_8601_fa24u64 ^ 0x70u64 == 0xaf63_e44c_8601_fa54u64) by (bit_vector);
    assert(0x08b7_4207_b55c_5cbcu64 ^ 0x76u64 == 0x08b7_4207_b55c_5ccau64) by (bit_vector);
    assert(0x2bc1_fd19_2bf1_ab3eu64 ^ 0x34u64 == 0x2bc1_fd19_2bf1_ab0au64) by (bit_vector);
    assert(0x2bc1_fd19_2bf1_ab3eu64 ^ 0x36u64 == 0x2bc1_fd19_2bf1_ab08u64) by (bit_vector);
    assert(fnv_bytes(HASH_OFFSET, p0) == HASH_OFFSET);
    assert(fnv_bytes(HASH_OFFSET, p1) == 0xaf63_e44c_8601_fa24u64);
    assert(fnv_bytes(HASH_OFFSET, p2) == 0x08b7_4207_b55c_5cbcu64);
    assert(fnv_bytes(HASH_OFFSET, p3) == 0x2bc1_fd19_2bf1_ab3eu64);
    assert(fnv_bytes(HASH_OFFSET, ea) == 0x4c4c_1bc5_aba5_a1feu64);
    assert(fnv_bytes(HASH_OFFSET, eb) == 0x4c4c_19c5_aba5_9e98u64);
}

/// Each prefix of `b` one byte longer hashes as one more FNV-1a step.
proof fn lemma_fnv_prefixes(h: u64, b: Seq<u8>)
    ensures
        forall|k: int|
            1 <= k <= b.len() ==> #[trigger] fnv_bytes(h, b.take(k)) == fnv_byte(fnv_bytes(h, b.take(k - 1)), b[k - 1]),
{
    assert forall|k: int| 1 <= k <= b.len() implies #[trigger] fnv_bytes(h, b.take(k)) == fnv_byte(
        fnv_bytes(h, b.take(k - 1)),
        b[k - 1],
    ) by {
        assert(b.take(k).drop_last() =~= b.take(k - 1));
        assert(b.take(k).last() == b[k - 1]);
    }
}

/// The descriptor id of `ntp_packets_received_total`.
proof fn lemma_desc_id_received()
    ensures
        desc_id("ntp_packets_received_total"@) == 0x0e3c_4566_8593_771bu64,
{
    reveal_strlit("ntp_packets_received_total");
    let n = "ntp_packets_received_total"@;
    assert(is_ascii_chars(n));
    is_ascii_chars_encode_utf8(n);
    let b = encode_utf8(n).push(0xFFu8);
    assert(b[26] == 0xFFu8);
    assert(b.take(0) =~= Seq::<u8>::empty());
    assert(b.take(27) =~= b);
    lemma_fnv_prefixes(HASH_OFFSET, b);
    assert(fnv_byte(fnv_byte(fnv_byte(fnv_byte(fnv_byte(fnv_byte(fnv_byte(fnv_byte(fnv_byte(fnv_byte(fnv_byte(fnv_byte(fnv_byte(fnv_byte(fnv_byte(fnv_byte(fnv_byte(fnv_byte(fnv_byte(fnv_byte(fnv_byte(fnv_byte(fnv_byte(fnv_byte(fnv_byte(fnv_byte(fnv_byte(0xcbf2_9ce4_8422_2325u64, 0x6eu8), 0x74u8), 0x70u8), 0x5fu8), 0x70u8), 0x61u8), 0x63u8), 0x6bu8), 0x65u8), 0x74u8), 0x73u8), 0x5fu8), 0x72u8), 0x65u8), 0x63u8), 0x65u8), 0x69u8), 0x76u8), 0x65u8), 0x64u8), 0x5fu8), 0x74u8), 0x6fu8), 0x74u8), 0x61u8), 0x6cu8), 0xffu8) == 0x0e3c_4566_8593_771bu64) by (bit_vector);
}

/// The descriptor id of `ntp_packets_sent_total`.
proof fn lemma_desc_id_sent()
    ensures
        desc_id("ntp_packets_sent_total"@) == 0x99db_c338_b91a_306cu64,
{
    reveal_strlit("ntp_packets_sent_total");
    let n = "ntp_packets_sent_total"@;
    assert(is_ascii_chars(n));
    is_ascii_chars_encode_utf8(n);
    let b = encode_utf8(n).push(0xFFu8);
    assert(b[22] == 0xFFu8);
    assert(b.take(0) =~= Seq::<u8>::empty());
    assert(b.take(23) =~= b);
    lemma_fnv_prefixes(HASH_OFFSET, b);
    assert(fnv_byte(fnv_byte(fnv_byte(fnv_byte(fnv_byte(fnv_byte(fnv_byte(fnv_byte(fnv_byte(fnv_byte(fnv_byte(fnv_byte(fnv_byte(fnv_byte(fnv_byte(fnv_byte(fnv_byte(fnv_byte(fnv_byte(fnv_byte(fnv_byte(fnv_byte(fnv_byte(0xcbf2_9ce4_8422_2325u64, 0x6eu8), 0x74u8), 0x70u8), 0x5fu8), 0x70u8), 0x61u8), 0x63u8), 0x6bu8), 0x65u8), 0x74u8), 0x73u8), 0x5fu8), 0x73u8), 0x65u8), 0x6eu8), 0x74u8), 0x5fu8), 0x74u8), 0x6fu8), 0x74u8), 0x61u8), 0x6cu8), 0xffu8) == 0x99db_c338_b91a_306cu64) by (bit_vector);
}

/// The descriptor id of `ntp_packets_dropped_total`.
proof fn lemma_desc_id_dropped()
    ensures
        desc_id("ntp_packets_dropped_total"@) == 0xdb4c_2d23_1a92_3dd4u64,
{
    reveal_strlit("ntp_packets_dropped_total");
    let n = "ntp_packets_dropped_total"@;
    assert(is_ascii_chars(n));
    is_ascii_chars_encode_utf8(n);
    let b = encode_utf8(n).push(0xFFu8);
    assert(b[25] == 0xFFu8);
    assert(b.take(0) =~= Seq::<u8>::empty());
    assert(b.take(26) =~= b);
    lemma_fnv_prefixes(HASH_OFFSET, b);
    assert(fnv_byte(fnv_byte(fnv_byte(fnv_byte(fnv_byte(fnv_byte(fnv_byte(fnv_byte(fnv_byte(fnv_byte(fnv_byte(fnv_byte(fnv_byte(fnv_byte(fnv_byte(fnv_byte(fnv_byte(fnv_byte(fnv_byte(fnv_byte(fnv_byte(fnv_byte(fnv_byte(fnv_byte(fnv_byte(fnv_byte(0xcbf2_9ce4_8422_2325u64, 0x6eu8), 0x74u8), 0x70u8), 0x5fu8), 0x70u8), 0x61u8), 0x63u8), 0x6bu8), 0x65u8), 0x74u8), 0x73u8), 0x5fu8), 0x64u8), 0x72u8), 0x6fu8), 0x70u8), 0x70u8), 0x65u8), 0x64u8), 0x5fu8), 0x74u8), 0x6fu8), 0x74u8), 0x61u8), 0x6cu8), 0xffu8) == 0xdb4c_2d23_1a92_3dd4u64) by (bit_vector);
}

/// The descriptor id of `ntp_unique_addresses_total`.
proof fn lemma_desc_id_unique()
    ensures
        desc_id("ntp_unique_addresses_total"@) == 0x1650_38ac_3f16_c0c0u64,
{
    reveal_strlit("ntp_unique_addresses_total");
    let n = "ntp_unique_addresses_total"@;
    assert(is_ascii_chars(n));
    is_ascii_chars_encode_utf8(n);
    let b = encode_utf8(n).push(0xFFu8);
    assert(b[26] == 0xFFu8);
    assert(b.take(0) =~= Seq::<u8>::empty());
    assert(b.take(27) =~= b);
    lemma_fnv_prefixes(HASH_OFFSET, b);
    assert(fnv_byte(fnv_byte(fnv_byte(fnv_byte(fnv_byte(fnv_byte(fnv_byte(fnv_byte(fnv_byte(fnv_byte(fnv_byte(fnv_byte(fnv_byte(fnv_byte(fnv_byte(fnv_byte(fnv_byte(fnv_byte(fnv_byte(fnv_byte(fnv_byte(fnv_byte(fnv_byte(fnv_byte(fnv_byte(fnv_byte(fnv_byte(0xcbf2_9ce4_8422_2325u64, 0x6eu8), 0x74u8), 0x70u8), 0x5fu8), 0x75u8), 0x6eu8), 0x69u8), 0x71u8), 0x75u8), 0x65u8), 0x5fu8), 0x61u8), 0x64u8), 0x64u8), 0x72u8), 0x65u8), 0x73u8), 0x73u8), 0x65u8), 0x73u8), 0x5fu8), 0x74u8), 0x6fu8), 0x74u8), 0x61u8), 0x6cu8), 0xffu8) == 0x1650_38ac_3f16_c0c0u64) by (bit_vector);
}

/// A wrapping increment is an increment modulo 2^64.
pub proof fn lemma_wrapping_inc(x: nat)
    ensures
        (if x % two_pow_64() == u64::MAX { 0 } else { x % two_pow_64() + 1 }) == (x + 1) % two_pow_64(),
{
    let m = two_pow_64();
    assert(x == m * (x / m) + x % m) by (nonlinear_arith)
        requires
            m > 0,
    ;
    assert((x + 1) % m == (if x % m + 1 == m { 0 } else { x % m + 1 })) by (nonlinear_arith)
        requires
            m > 0,
            x == m * (x / m) + x % m,
            0 <= x % m < m,
    ;
}

/// Packet counters, registered in the global registry and in one of their
/// own.
pub struct Metrics {
    counters: PromCounters,
    unique_addresses_v4: StringHashSet,
    unique_addresses_v6: StringHashSet,
    received_v4: Ghost<nat>,
    received_v6: Ghost<nat>,
}

/// The fresh counter vectors of the packet metrics, by role.
fn make_vectors() -> (r: (PromCounterVec, PromCounterVec, PromCounterVec, PromCounterVec))
    ensures
        prom_counter_desc(r.0) == metrics_descs()[0],
        prom_counter_desc(r.1) == metrics_descs()[1],
        prom_counter_desc(r.2) == metrics_descs()[2],
        prom_counter_desc(r.3) == metrics_descs()[3],
        prom_counter_values(r.0).dom().is_empty() && prom_counter_labels(r.0).dom().is_empty(),
        prom_counter_values(r.1).dom().is_empty() && prom_counter_labels(r.1).dom().is_empty(),
        prom_counter_values(r.2).dom().is_empty() && prom_counter_labels(r.2).dom().is_empty(),
        prom_counter_values(r.3).dom().is_empty() && prom_counter_labels(r.3).dom().is_empty(),
{
    proof {
        lemma_metric_names_valid();
    }
    let received = match prom_counter_vec_new(
        "ntp_packets_received_total",
        "Total number of NTP packets received",
        "ip_version",
    ) {
        Ok(v) => v,
        Err(_) => unreached(),
    };
    let sent = match prom_counter_vec_new("ntp_packets_sent_total", "Total number of NTP packets sent", "ip_version") {
        Ok(v) => v,
        Err(_) => unreached(),
    };
    let dropped = match prom_counter_vec_new(
        "ntp_packets_dropped_total",
        "Total number of NTP packets dropped",
        "reason",
    ) {
        Ok(v) => v,
        Err(_) => unreached(),
    };
    let unique = match prom_counter_vec_new(
        "ntp_unique_addresses_total",
        "Total number of unique remote addresses seen",
        "ip_version",
    ) {
        Ok(v) => v,
        Err(_) => unreached(),
    };
    (received, sent, dropped, unique)
}

/// The four roles, in the order the vectors are registered.
pub open spec fn all_roles() -> Seq<CounterRole> {
    seq![CounterRole::Received, CounterRole::Sent, CounterRole::Dropped, CounterRole::Unique]
}

impl Metrics {
    /// The counter vectors and their registry.
    pub closed spec fn counters_view(self) -> PromCounters {
        self.counters
    }

    /// Packets received, by key of the IP version label.
    pub open spec fn received(self) -> Map<u64, u64> {
        counters_values(self.counters_view(), CounterRole::Received)
    }

    /// Packets sent, by key of the IP version label.
    pub open spec fn sent(self) -> Map<u64, u64> {
        counters_values(self.counters_view(), CounterRole::Sent)
    }

    /// Packets dropped, by key of the reason label.
    pub open spec fn dropped(self) -> Map<u64, u64> {
        counters_values(self.counters_view(), CounterRole::Dropped)
    }

    /// Distinct addresses counted, by key of the IP version label.
    pub open spec fn unique(self) -> Map<u64, u64> {
        counters_values(self.counters_view(), CounterRole::Unique)
    }

    /// The vectors registered in the registry of their own, in order.
    pub open spec fn registered(self) -> Seq<CounterRole> {
        counters_registered(self.counters_view())
    }

    /// The names, help texts and label names of the four counter vectors.
    pub open spec fn descs(self) -> Seq<(Seq<char>, Seq<char>, Seq<Seq<char>>)> {
        all_roles().map_values(|r: CounterRole| counters_desc(self.counters_view(), r))
    }

    /// The IPv4 addresses seen.
    pub closed spec fn seen_v4(self) -> Set<Seq<char>> {
        self.unique_addresses_v4.view()
    }

    /// The IPv6 addresses seen.
    pub closed spec fn seen_v6(self) -> Set<Seq<char>> {
        self.unique_addresses_v6.view()
    }

    /// The number of packets received from IPv4 addresses, without wrapping.
    pub closed spec fn received_v4_total(self) -> nat {
        self.received_v4@
    }

    /// The number of packets received from IPv6 addresses, without wrapping.
    pub closed spec fn received_v6_total(self) -> nat {
        self.received_v6@
    }

    /// Each vector has one label name; every registration into the
    /// registry of their own succeeded; the received counter of each IP
    /// version counts that version's packets, and the unique-address counter
    /// the distinct addresses seen, both modulo 2^64; and no more addresses
    /// were seen than packets received.
    pub closed spec fn wf(self) -> bool {
        &&& forall|r: CounterRole| (#[trigger] counters_desc(self.counters, r)).2.len() == 1
        &&& counters_plain(self.counters)
        &&& self.seen_v4().finite()
        &&& self.seen_v6().finite()
        &&& key_count(self.unique(), label_key("ipv4"@)) as nat == self.seen_v4().len() % two_pow_64()
        &&& key_count(self.unique(), label_key("ipv6"@)) as nat == self.seen_v6().len() % two_pow_64()
        &&& key_count(self.received(), label_key("ipv4"@)) as nat == self.received_v4@ % two_pow_64()
        &&& key_count(self.received(), label_key("ipv6"@)) as nat == self.received_v6@ % two_pow_64()
        &&& self.seen_v4().len() <= self.received_v4@
        &&& self.seen_v6().len() <= self.received_v6@
    }

    /// For each IP version: the distinct-address counter counts the distinct
    /// addresses of that version seen, the received counter counts the
    /// packets received from that version, both modulo 2^64, and there are
    /// no more distinct addresses than packets.
    pub proof fn lemma_unique_counts_distinct(self)
        requires
            self.wf(),
        ensures
            self.seen_v4().finite(),
            self.seen_v6().finite(),
            key_count(self.unique(), label_key("ipv4"@)) as nat == self.seen_v4().len() % two_pow_64(),
            key_count(self.unique(), label_key("ipv6"@)) as nat == self.seen_v6().len() % two_pow_64(),
            key_count(self.received(), label_key("ipv4"@)) as nat == self.received_v4_total() % two_pow_64(),
            key_count(self.received(), label_key("ipv6"@)) as nat == self.received_v6_total() % two_pow_64(),
            self.seen_v4().len() <= self.received_v4_total(),
            self.seen_v6().len() <= self.received_v6_total(),
    {
    }

    /// Whether the address has been seen before.
    pub open spec fn has_seen(self, addr: RemoteAddr) -> bool {
        match addr {
            RemoteAddr::V4(t) => self.seen_v4().contains(t@),
            RemoteAddr::V6(t) => self.seen_v6().contains(t@),
        }
    }

    /// Fresh counters: well formed, with the names, help texts and label
    /// names of `metrics_descs`, all four registered in the registry of
    /// their own, no counter yet and no address seen.
    pub open spec fn is_fresh(self) -> bool {
        &&& self.wf()
        &&& self.descs() == metrics_descs()
        &&& self.registered() == all_roles()
        &&& forall|r: CounterRole| (#[trigger] counters_values(self.counters_view(), r)).dom().is_empty()
        &&& forall|r: CounterRole| (#[trigger] counters_labels(self.counters_view(), r)).dom().is_empty()
        &&& self.seen_v4() == Set::<Seq<char>>::empty()
        &&& self.seen_v6() == Set::<Seq<char>>::empty()
        &&& self.received_v4_total() == 0
        &&& self.received_v6_total() == 0
    }

    /// Fresh counters encode to no text at all: every family is empty, and
    /// the encoder leaves empty families out.
    pub proof fn lemma_fresh_encodes_empty(self, bytes: Seq<u8>)
        requires
            self.is_fresh(),
            counters_exposition(self.counters_view(), bytes),
        ensures
            bytes.len() == 0,
    {
        let c = self.counters_view();
        let (order, families) = choose|order: Seq<CounterRole>, families: Seq<Seq<char>>|
            #![trigger concat_texts(families), order.len()]
            {
                &&& order.no_duplicates()
                &&& families.len() == order.len()
                &&& forall|r: CounterRole|
                    #[trigger] order.contains(r) <==> (counters_registered(c).contains(r) && !counters_values(
                        c,
                        r,
                    ).dom().is_empty())
                &&& forall|i: int, j: int|
                    0 <= i < j < order.len() ==> text_lt(counters_desc(c, order[i]).0, counters_desc(c, order[j]).0)
                &&& forall|i: int|
                    0 <= i < order.len() ==> counter_family_text(
                        #[trigger] families[i],
                        counters_desc(c, order[i]),
                        counters_values(c, order[i]),
                        counters_labels(c, order[i]),
                    )
                &&& bytes == encode_utf8(concat_texts(families))
            };
        if order.len() > 0 {
            assert(order.contains(order[0]));
            assert(counters_values(c, order[0]).dom().is_empty());
        }
        assert(concat_texts(families) =~= Seq::<char>::empty());
        assert(encode_utf8(Seq::<char>::empty()) =~= Seq::<u8>::empty());
    }

    /// The four vectors registered, in role order, in a registry of their
    /// own, with no address seen.
    fn assemble(received: PromCounterVec, sent: PromCounterVec, dropped: PromCounterVec, unique: PromCounterVec) -> (m: Metrics)
        requires
            prom_counter_desc(received) == metrics_descs()[0],
            prom_counter_desc(sent) == metrics_descs()[1],
            prom_counter_desc(dropped) == metrics_descs()[2],
            prom_counter_desc(unique) == metrics_descs()[3],
            prom_counter_values(received).dom().is_empty() && prom_counter_labels(received).dom().is_empty(),
            prom_counter_values(sent).dom().is_empty() && prom_counter_labels(sent).dom().is_empty(),
            prom_counter_values(dropped).dom().is_empty() && prom_counter_labels(dropped).dom().is_empty(),
            prom_counter_values(unique).dom().is_empty() && prom_counter_labels(unique).dom().is_empty(),
        ensures
            m.is_fresh(),
    {
        proof {
            lemma_desc_id_received();
            lemma_desc_id_sent();
            lemma_desc_id_dropped();
            lemma_desc_id_unique();
        }
        let mut counters = counters_new(received, sent, dropped, unique);
        let ghost c0 = counters;
        if counters_register_received(&mut counters).is_err() {
            proof {
                assert(false);
            }
        }
        let ghost c1 = counters;
        proof {
            assert(counters_registered(c1)[0] == CounterRole::Received);
        }
        if counters_register_sent(&mut counters).is_err() {
            proof {
                assert(false);
            }
        }
        let ghost c2 = counters;
        proof {
            assert(counters_registered(c2) =~= seq![CounterRole::Received, CounterRole::Sent]);
        }
        if counters_register_dropped(&mut counters).is_err() {
            proof {
                assert(false);
            }
        }
        let ghost c3 = counters;
        proof {
            assert(counters_registered(c3) =~= seq![
                CounterRole::Received,
                CounterRole::Sent,
                CounterRole::Dropped,
            ]);
        }
        if counters_register_unique(&mut counters).is_err() {
            proof {
                assert(false);
            }
        }
        let m = Metrics {
            counters,
            unique_addresses_v4: StringHashSet::new(),
            unique_addresses_v6: StringHashSet::new(),
            received_v4: Ghost(0),
            received_v6: Ghost(0),
        };
        proof {
            assert(m.registered() =~= all_roles());
            assert(m.descs() =~= metrics_descs());
            assert forall|r: CounterRole| (#[trigger] counters_desc(m.counters, r)).2.len() == 1 by {
                assert(counters_desc(m.counters, r) == counters_desc(c0, r));
            }
            assert forall|r: CounterRole| (#[trigger] counters_values(m.counters_view(), r)).dom().is_empty() by {
                assert(counters_values(m.counters, r) == counters_values(c0, r));
            }
            assert forall|r: CounterRole| (#[trigger] counters_labels(m.counters_view(), r)).dom().is_empty() by {
                assert(counters_labels(m.counters, r) == counters_labels(c0, r));
            }
            assert(key_count(m.unique(), label_key("ipv4"@)) == 0);
        }
        m
    }

    /// The four counter vectors, fresh, each with its name, help and label
    /// name, registered in a registry of their own, which then holds exactly
    /// these four. Making and registering them cannot fail: the names and
    /// help texts are valid, and the four names have distinct descriptor
    /// ids.
    pub fn unregistered() -> (m: Metrics)
        ensures
            m.is_fresh(),
    {
        let (received, sent, dropped, unique) = make_vectors();
        Self::assemble(received, sent, dropped, unique)
    }

    /// Fresh counters, each made (with its name, help and label name) and
    /// registered, in turn, in the process-wide default registry, then all
    /// four registered in a registry of their own. The first refusal of the
    /// default registry is returned; it refuses a name it holds already, so
    /// a second construction in one process fails. What that registry holds
    /// is outside state, so success is not promised.
    pub fn new() -> (r: Result<Metrics, MetricsError>)
        ensures
            r matches Ok(m) ==> m.is_fresh(),
    {
        let (received, sent, dropped, unique) = make_vectors();
        if let Err(e) = prom_register_default(&received) {
            return Err(MetricsError::Register(e));
        }
        if let Err(e) = prom_register_default(&sent) {
            return Err(MetricsError::Register(e));
        }
        if let Err(e) = prom_register_default(&dropped) {
            return Err(MetricsError::Register(e));
        }
        if let Err(e) = prom_register_default(&unique) {
            return Err(MetricsError::Register(e));
        }
        Ok(Self::assemble(received, sent, dropped, unique))
    }

    /// Counts a packet received from `addr` under its IP version and, if the
    /// address was not seen before, remembers it and counts one more
    /// distinct address of that version. The other version's counters do
    /// not change.
    pub fn record_packet_received(&mut self, addr: &RemoteAddr)
        requires
            old(self).wf(),
        ensures
            final(self).wf(),
            final(self).descs() == old(self).descs(),
            final(self).registered() == old(self).registered(),
            final(self).has_seen(*addr),
            final(self).received() == bump_key(old(self).received(), label_key(version_label(*addr))),
            final(self).unique() == (if old(self).has_seen(*addr) {
                old(self).unique()
            } else {
                bump_key(old(self).unique(), label_key(version_label(*addr)))
            }),
            key_count(final(self).received(), label_key(other_version_label(*addr))) == key_count(
                old(self).received(),
                label_key(other_version_label(*addr)),
            ),
            key_count(final(self).unique(), label_key(other_version_label(*addr))) == key_count(
                old(self).unique(),
                label_key(other_version_label(*addr)),
            ),
            addr is V4 ==> final(self).received_v4_total() == old(self).received_v4_total() + 1,
            addr is V4 ==> final(self).received_v6_total() == old(self).received_v6_total(),
            addr is V6 ==> final(self).received_v6_total() == old(self).received_v6_total() + 1,
            addr is V6 ==> final(self).received_v4_total() == old(self).received_v4_total(),
            old(self).has_seen(*addr) ==> final(self).seen_v4() == old(self).seen_v4(),
            old(self).has_seen(*addr) ==> final(self).seen_v6() == old(self).seen_v6(),
            !old(self).has_seen(*addr) && addr is V4 ==> final(self).seen_v4() == old(self).seen_v4().insert(
                addr_text(*addr),
            ),
            !old(self).has_seen(*addr) && addr is V4 ==> final(self).seen_v6() == old(self).seen_v6(),
            !old(self).has_seen(*addr) && addr is V6 ==> final(self).seen_v6() == old(self).seen_v6().insert(
                addr_text(*addr),
            ),
            !old(self).has_seen(*addr) && addr is V6 ==> final(self).seen_v4() == old(self).seen_v4(),
            final(self).sent() == old(self).sent(),
            final(self).dropped() == old(self).dropped(),
    {
        proof {
            lemma_version_keys_differ();
        }
        let ghost s4 = self.seen_v4();
        let ghost s6 = self.seen_v6();
        let ghost r4 = self.received_v4@;
        let ghost r6 = self.received_v6@;
        let ghost c0 = self.counters;
        match addr {
            RemoteAddr::V4(text) => {
                counters_inc_received(&mut self.counters, "ipv4");
                self.received_v4 = Ghost(r4 + 1);
                proof {
                    lemma_wrapping_inc(r4);
                }
                if !self.unique_addresses_v4.contains(text.as_str()) {
                    self.unique_addresses_v4.insert(text.clone());
                    counters_inc_unique(&mut self.counters, "ipv4");
                    proof {
                        assert(self.seen_v4().len() == s4.len() + 1);
                        lemma_wrapping_inc(s4.len());
                    }
                }
            },
            RemoteAddr::V6(text) => {
                counters_inc_received(&mut self.counters, "ipv6");
                self.received_v6 = Ghost(r6 + 1);
                proof {
                    lemma_wrapping_inc(r6);
                }
                if !self.unique_addresses_v6.contains(text.as_str()) {
                    self.unique_addresses_v6.insert(text.clone());
                    counters_inc_unique(&mut self.counters, "ipv6");
                    proof {
                        assert(self.seen_v6().len() == s6.len() + 1);
                        lemma_wrapping_inc(s6.len());
                    }
                }
            },
        }
        proof {
            assert(self.descs() =~= old(self).descs());
            assert forall|r: CounterRole| (#[trigger] counters_desc(self.counters, r)).2.len() == 1 by {
                assert(counters_desc(self.counters, r) == counters_desc(c0, r));
            }
        }
    }

    /// Counts a packet sent to `addr` under its IP version; the other
    /// version's count does not change.
    pub fn record_packet_sent(&mut self, addr: &RemoteAddr)
        requires
            old(self).wf(),
        ensures
            final(self).wf(),
            final(self).descs() == old(self).descs(),
            final(self).registered() == old(self).registered(),
            final(self).sent() == bump_key(old(self).sent(), label_key(version_label(*addr))),
            key_count(final(self).sent(), label_key(other_version_label(*addr))) == key_count(
                old(self).sent(),
                label_key(other_version_label(*addr)),
            ),
            final(self).received() == old(self).received(),
            final(self).dropped() == old(self).dropped(),
            final(self).unique() == old(self).unique(),
            final(self).seen_v4() == old(self).seen_v4(),
            final(self).seen_v6() == old(self).seen_v6(),
            final(self).received_v4_total() == old(self).received_v4_total(),
            final(self).received_v6_total() == old(self).received_v6_total(),
    {
        proof {
            lemma_version_keys_differ();
        }
        let ghost c0 = self.counters;
        match addr {
            RemoteAddr::V4(_) => counters_inc_sent(&mut self.counters, "ipv4"),
            RemoteAddr::V6(_) => counters_inc_sent(&mut self.counters, "ipv6"),
        }
        proof {
            assert(self.descs() =~= old(self).descs());
            assert forall|r: CounterRole| (#[trigger] counters_desc(self.counters, r)).2.len() == 1 by {
                assert(counters_desc(self.counters, r) == counters_desc(c0, r));
            }
        }
    }

    /// Counts a packet dropped for `reason`.
    pub fn record_packet_dropped(&mut self, reason: &str)
        requires
            old(self).wf(),
        ensures
            final(self).wf(),
            final(self).descs() == old(self).descs(),
            final(self).registered() == old(self).registered(),
            final(self).dropped() == bump_key(old(self).dropped(), label_key(reason@)),
            final(self).received() == old(self).received(),
            final(self).sent() == old(self).sent(),
            final(self).unique() == old(self).unique(),
            final(self).seen_v4() == old(self).seen_v4(),
            final(self).seen_v6() == old(self).seen_v6(),
            final(self).received_v4_total() == old(self).received_v4_total(),
            final(self).received_v6_total() == old(self).received_v6_total(),
    {
        let ghost c0 = self.counters;
        counters_inc_dropped(&mut self.counters, reason);
        proof {
            assert(self.descs() =~= old(self).descs());
            assert forall|r: CounterRole| (#[trigger] counters_desc(self.counters, r)).2.len() == 1 by {
                assert(counters_desc(self.counters, r) == counters_desc(c0, r));
            }
        }
    }

    /// The registry's metrics in the text exposition format: the vectors
    /// that hold at least one counter, in the order of their names, each
    /// with its `# HELP` and `# TYPE` lines and one line per label value, in
    /// label value order, with its count (in decimal below 2^53). Encoding
    /// does not fail: the registry holds only the four counter vectors.
    pub fn encode_text(&self) -> (text: Option<Vec<u8>>)
        requires
            self.wf(),
        ensures
            text is Some,
            text matches Some(t) ==> counters_exposition(self.counters_view(), t@),
    {
        counters_encode(&self.counters)
    }

    /// The registry that holds the four counter vectors.
    pub fn registry(&self) -> &Registry {
        counters_registry(&self.counters)
    }
}

} // verus!
