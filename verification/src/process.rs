//! Process statistics: start time, open and maximum file descriptors,
//! thread count and memory use, read from the text of `/proc/self/limits`
//! and `/proc/self/status`.
use vstd::prelude::*;
use prometheus_client::metrics::gauge::Gauge;
use prometheus_client::registry::Registry;
use crate::clock::{epoch_secs, secs_since_epoch, since_epoch};
use crate::prom_client::{
    GaugeFamily, LabelSet, label_view, help_text, plain_entry, registry_entries, MetricEntry, gauge_value,
    gauge_family_values, gauge_family_new, gauge_family_set, gauge_new, gauge_set, info_new,
    register_gauge, register_gauge_family, register_info,
};
use crate::text::{
    lines, nth_token, parse_i64, starts_with, find_from, lowercase, views, chars_of, split_lines,
    nth_field, parse_i64_chars, has_prefix, find_char_from, copy_range, string_of_chars,
    to_lowercase, lemma_find_from_bounds,
};

verus! {

// ---------------------------------------------------------------------------
// What the files say
// ---------------------------------------------------------------------------

/// The soft limit of open files on a line of `/proc/self/limits`: the
/// fourth field of the line that starts with `Max open files`, if it is a
/// number.
pub open spec fn max_open_files_line(line: Seq<char>) -> Option<i64> {
    if starts_with(line, "Max open files"@) {
        match nth_token(line, 3) {
            Some(t) => parse_i64(t),
            None => None,
        }
    } else {
        None
    }
}

/// The first soft limit of open files among `ls[i..]`.
pub open spec fn max_open_files_from(ls: Seq<Seq<char>>, i: int) -> Option<i64>
    decreases ls.len() - i,
{
    if i < 0 || i >= ls.len() {
        None
    } else {
        match max_open_files_line(ls[i]) {
            Some(v) => Some(v),
            None => max_open_files_from(ls, i + 1),
        }
    }
}

/// The soft limit of open files that a `/proc/self/limits` text gives.
pub open spec fn max_open_files(limits: Seq<char>) -> Option<i64> {
    max_open_files_from(lines(limits), 0)
}

/// The thread count on a line of `/proc/self/status`: the second field of
/// a line that starts with `Threads:`, if it is a number.
pub open spec fn threads_line(line: Seq<char>) -> Option<i64> {
    if starts_with(line, "Threads:"@) {
        match nth_token(line, 1) {
            Some(t) => parse_i64(t),
            None => None,
        }
    } else {
        None
    }
}

/// The memory figure on a line of `/proc/self/status`: for a line that
/// starts with `Vm` and holds a colon, the lower-cased text between `Vm` and
/// the first colon, and the second field of the line (in kB), if it is a
/// number.
pub open spec fn memory_line(line: Seq<char>) -> Option<(Seq<char>, i64)> {
    if !starts_with(line, "Threads:"@) && starts_with(line, "Vm"@) {
        let c = find_from(line, ':', 0);
        if c < line.len() {
            match nth_token(line, 1) {
                Some(t) => match parse_i64(t) {
                    Some(kb) => Some((lowercase(line.subrange(2, c)), kb)),
                    None => None,
                },
                None => None,
            }
        } else {
            None
        }
    } else {
        None
    }
}

/// `kb` kilobytes, in bytes, fit in an `i64`.
pub open spec fn kb_fits(kb: i64) -> bool {
    i64::MIN <= kb * 1024 <= i64::MAX
}

/// Every memory figure of a `/proc/self/status` text, in bytes, fits in an
/// `i64` (the multiplication overflows otherwise).
pub open spec fn memory_fits(status: Seq<char>) -> bool {
    forall|i: int|
        0 <= i < lines(status).len() ==> match memory_line(#[trigger] lines(status)[i]) {
            Some(p) => kb_fits(p.1),
            None => true,
        }
}

/// The labels of a memory gauge.
pub open spec fn memory_labels(memory_type: Seq<char>) -> Seq<(Seq<char>, Seq<char>)> {
    seq![("memory_type"@, memory_type)]
}

/// The labels of a file descriptor gauge.
pub open spec fn fd_labels(fd_type: Seq<char>) -> Seq<(Seq<char>, Seq<char>)> {
    seq![("fd_type"@, fd_type)]
}

/// The thread gauge after the lines `ls[..i]` were read, starting at `cur`:
/// the count of the last `Threads:` line that had one.
pub open spec fn threads_after(ls: Seq<Seq<char>>, i: int, cur: i64) -> i64
    decreases i,
{
    if i <= 0 {
        cur
    } else {
        match threads_line(ls[i - 1]) {
            Some(v) => v,
            None => threads_after(ls, i - 1, cur),
        }
    }
}

/// The memory gauges after the lines `ls[..i]` were read, starting at `m`:
/// each memory figure, in bytes, set under its memory type in turn.
pub open spec fn memory_after(ls: Seq<Seq<char>>, i: int, m: Map<Seq<(Seq<char>, Seq<char>)>, i64>) -> Map<Seq<(Seq<char>, Seq<char>)>, i64>
    decreases i,
{
    if i <= 0 {
        m
    } else {
        let prev = memory_after(ls, i - 1, m);
        match memory_line(ls[i - 1]) {
            Some(p) => prev.insert(memory_labels(p.0), (p.1 * 1024) as i64),
            None => prev,
        }
    }
}

/// The file descriptor gauges after the count of open descriptors and the
/// text of the limits file (each if it could be read) were taken in.
pub open spec fn fds_after(m: Map<Seq<(Seq<char>, Seq<char>)>, i64>, open_fds: Option<usize>, limits: Option<Seq<char>>) -> Map<Seq<(Seq<char>, Seq<char>)>, i64> {
    let m1 = match open_fds {
        Some(n) => m.insert(fd_labels("open"@), n as i64),
        None => m,
    };
    match limits {
        Some(l) => match max_open_files(l) {
            Some(v) => m1.insert(fd_labels("max"@), v),
            None => m1,
        },
        None => m1,
    }
}

/// The metrics that `ProcessMetrics::new` registers, in order.
pub open spec fn process_registry_entries(rust_version: Seq<char>, rsntp_version: Seq<char>) -> Seq<MetricEntry> {
    seq![
        ("rsntp"@, help_text("Information about the rsntp version"@), seq![("version"@, rsntp_version)], "info"@),
        plain_entry("rsntp_process_fds"@, "Process file descriptors by type"@, "gauge"@),
        plain_entry("rsntp_process_memory_bytes"@, "Process memory usage in bytes by type"@, "gauge"@),
        plain_entry("rsntp_process_start_time_seconds"@, "Start time of the process since unix epoch in seconds"@, "gauge"@),
        plain_entry("rsntp_process_threads"@, "Number of OS threads in the process"@, "gauge"@),
        ("rsntp_rust"@, help_text("Information about the Rust version"@), seq![("version"@, rust_version)], "info"@),
    ]
}

// ---------------------------------------------------------------------------
// Reading the files
// ---------------------------------------------------------------------------

/// The soft limit of open files on one line of the limits file.
fn max_open_files_of_line(line: &Vec<char>, prefix: &Vec<char>) -> (r: Option<i64>)
    requires
        prefix@ == "Max open files"@,
    ensures
        r == max_open_files_line(line@),
{
    if has_prefix(line, prefix) {
        match nth_field(line, 3) {
            Some(t) => parse_i64_chars(&t),
            None => None,
        }
    } else {
        None
    }
}

/// The soft limit of open files that a limits file text gives.
pub fn parse_max_open_files(limits: &str) -> (r: Option<i64>)
    ensures
        r == max_open_files(limits@),
{
    let text = chars_of(limits);
    let ls = split_lines(&text);
    let prefix = chars_of("Max open files");
    let mut i: usize = 0;
    while i < ls.len()
        invariant
            i <= ls@.len(),
            views(ls@) == lines(limits@),
            prefix@ == "Max open files"@,
            max_open_files(limits@) == max_open_files_from(views(ls@), i as int),
        decreases ls@.len() - i,
    {
        let r = max_open_files_of_line(&ls[i], &prefix);
        if r.is_some() {
            return r;
        }
        i = i + 1;
    }
    None
}

/// The thread count on one line of the status file.
fn threads_of_line(line: &Vec<char>, threads_prefix: &Vec<char>) -> (r: Option<i64>)
    requires
        threads_prefix@ == "Threads:"@,
    ensures
        r == threads_line(line@),
{
    if has_prefix(line, threads_prefix) {
        match nth_field(line, 1) {
            Some(t) => parse_i64_chars(&t),
            None => None,
        }
    } else {
        None
    }
}

/// The memory type and figure (in kB) on one line of the status file.
fn memory_of_line(line: &Vec<char>, threads_prefix: &Vec<char>, vm_prefix: &Vec<char>) -> (r: Option<(String, i64)>)
    requires
        threads_prefix@ == "Threads:"@,
        vm_prefix@ == "Vm"@,
    ensures
        match r {
            Some(p) => memory_line(line@) == Some((p.0@, p.1)),
            None => memory_line(line@) is None,
        },
{
    if has_prefix(line, threads_prefix) || !has_prefix(line, vm_prefix) {
        return None;
    }
    let c = find_char_from(line, ':', 0);
    if c >= line.len() {
        return None;
    }
    let kb = match nth_field(line, 1) {
        Some(t) => match parse_i64_chars(&t) {
            Some(kb) => kb,
            None => return None,
        },
        None => return None,
    };
    proof {
        reveal_strlit("Vm");
        assert("Vm"@[0] == 'V' && "Vm"@[1] == 'm');
        assert(line@.subrange(0, 2) == "Vm"@);
        assert(line@[0] == line@.subrange(0, 2)[0]);
        assert(line@[1] == line@.subrange(0, 2)[1]);
        lemma_find_from_bounds(line@, ':', 2);
        assert(find_from(line@, ':', 0) == find_from(line@, ':', 1));
        assert(find_from(line@, ':', 1) == find_from(line@, ':', 2));
    }
    let raw = copy_range(line, 2, c);
    let name = string_of_chars(&raw);
    let memory_type = to_lowercase(name.as_str());
    Some((memory_type, kb))
}

/// Whether every memory figure of a status file text, in bytes, fits in an
/// `i64`.
pub fn memory_values_fit(status: &str) -> (b: bool)
    ensures
        b == memory_fits(status@),
{
    let text = chars_of(status);
    let ls = split_lines(&text);
    let threads_prefix = chars_of("Threads:");
    let vm_prefix = chars_of("Vm");
    let mut i: usize = 0;
    while i < ls.len()
        invariant
            i <= ls@.len(),
            views(ls@) == lines(status@),
            threads_prefix@ == "Threads:"@,
            vm_prefix@ == "Vm"@,
            forall|j: int|
                0 <= j < i ==> match memory_line(#[trigger] lines(status@)[j]) {
                    Some(p) => kb_fits(p.1),
                    None => true,
                },
        decreases ls@.len() - i,
    {
        proof {
            assert(views(ls@)[i as int] == ls@[i as int]@);
        }
        match memory_of_line(&ls[i], &threads_prefix, &vm_prefix) {
            Some((_, kb)) => {
                if kb < -9007199254740992 || kb > 9007199254740991 {
                    return false;
                }
            },
            None => {},
        }
        i = i + 1;
    }
    true
}

/// The labels of a memory gauge.
fn memory_label_set(memory_type: String) -> (l: LabelSet)
    ensures
        label_view(l) == memory_labels(memory_type@),
{
    let mut l: LabelSet = Vec::new();
    l.push(("memory_type".to_owned(), memory_type));
    proof {
        assert(label_view(l) =~= memory_labels(memory_type@));
    }
    l
}

/// The labels of a file descriptor gauge.
fn fd_label_set(fd_type: &str) -> (l: LabelSet)
    ensures
        label_view(l) == fd_labels(fd_type@),
{
    let mut l: LabelSet = Vec::new();
    l.push(("fd_type".to_owned(), fd_type.to_owned()));
    proof {
        assert(label_view(l) =~= fd_labels(fd_type@));
    }
    l
}

/// `rustc_version_runtime::version`, as text: the version of the compiler
/// this was built with. Nothing is stated of it.
#[verifier::external_body]
fn rustc_version_text() -> String {
    rustc_version_runtime::version().to_string()
}

/// What was read about the process, as the process metrics take it in.
pub struct ProcessReadings {
    /// The process shows in the system's process list.
    pub process_found: bool,
    /// The number of entries of `/proc/self/fd`, if it could be read.
    pub open_fds: Option<usize>,
    /// The text of `/proc/self/limits`, if it could be read.
    pub limits: Option<String>,
    /// The text of `/proc/self/status`, if it could be read.
    pub status: Option<String>,
}

/// Gauges of the process's threads, memory, start time and file
/// descriptors.
pub struct ProcessMetrics {
    threads: Gauge,
    memory_bytes: GaugeFamily,
    start_time: Gauge,
    fds: GaugeFamily,
    process_start_time: u64,
}

impl ProcessMetrics {
    /// The thread count gauge.
    pub closed spec fn threads(self) -> i64 {
        gauge_value(self.threads)
    }

    /// The memory gauges, by labels.
    pub closed spec fn memory(self) -> Map<Seq<(Seq<char>, Seq<char>)>, i64> {
        gauge_family_values(self.memory_bytes)
    }

    /// The start time gauge.
    pub closed spec fn start_time(self) -> i64 {
        gauge_value(self.start_time)
    }

    /// The file descriptor gauges, by labels.
    pub closed spec fn fds(self) -> Map<Seq<(Seq<char>, Seq<char>)>, i64> {
        gauge_family_values(self.fds)
    }

    /// The process start time that the start time gauge reports.
    pub closed spec fn process_start_time(self) -> u64 {
        self.process_start_time
    }

    /// Gauges for a process that starts now, registered in `registry` after
    /// what it holds: the info of `rsntp_version`, file descriptors,
    /// memory, start time, threads, and the info of the Rust version this
    /// was built with. What the clock and the version read is not stated.
    pub fn new(registry: &mut Registry, rsntp_version: &str) -> (r: Self)
        ensures
            exists|rust_version: Seq<char>|
                registry_entries(*final(registry)) == registry_entries(*old(registry))
                    + #[trigger] process_registry_entries(rust_version, rsntp_version@),
            exists|reading: Option<(u64, u32)>| r.process_start_time() == #[trigger] epoch_secs(reading),
            r.threads() == 0,
            r.start_time() == 0,
            r.memory().dom().is_empty(),
            r.fds().dom().is_empty(),
    {
        let reading = since_epoch();
        let process_start_time = secs_since_epoch(reading);
        let rust_version = rustc_version_text();
        let r = Self::with_versions(registry, process_start_time, rust_version.as_str(), rsntp_version);
        proof {
            assert(registry_entries(*registry) == registry_entries(*old(registry))
                + process_registry_entries(rust_version@, rsntp_version@));
            assert(r.process_start_time() == epoch_secs(reading));
        }
        r
    }

    /// Gauges for a process that started at `process_start_time` (seconds
    /// since the Unix epoch), registered in `registry` after what it
    /// holds: the info of `rsntp_version`, file descriptors, memory, start
    /// time, threads, and the info of `rust_version`.
    pub fn with_versions(registry: &mut Registry, process_start_time: u64, rust_version: &str, rsntp_version: &str) -> (r: Self)
        ensures
            registry_entries(*final(registry)) == registry_entries(*old(registry)) + process_registry_entries(
                rust_version@,
                rsntp_version@,
            ),
            r.process_start_time() == process_start_time,
            r.threads() == 0,
            r.start_time() == 0,
            r.memory().dom().is_empty(),
            r.fds().dom().is_empty(),
    {
        let ghost before = registry_entries(*registry);
        let mut rust_labels: LabelSet = Vec::new();
        rust_labels.push(("version".to_owned(), rust_version.to_owned()));
        let mut rsntp_labels: LabelSet = Vec::new();
        rsntp_labels.push(("version".to_owned(), rsntp_version.to_owned()));
        proof {
            assert(label_view(rust_labels) =~= seq![("version"@, rust_version@)]);
            assert(label_view(rsntp_labels) =~= seq![("version"@, rsntp_version@)]);
        }

        let threads = gauge_new();
        let memory_bytes = gauge_family_new();
        let start_time = gauge_new();
        let fds = gauge_family_new();
        let rust_info = info_new(rust_labels);
        let rsntp_info = info_new(rsntp_labels);

        register_info(registry, "rsntp", "Information about the rsntp version", rsntp_info);
        register_gauge_family(registry, "rsntp_process_fds", "Process file descriptors by type", &fds);
        register_gauge_family(
            registry,
            "rsntp_process_memory_bytes",
            "Process memory usage in bytes by type",
            &memory_bytes,
        );
        register_gauge(
            registry,
            "rsntp_process_start_time_seconds",
            "Start time of the process since unix epoch in seconds",
            &start_time,
        );
        register_gauge(registry, "rsntp_process_threads", "Number of OS threads in the process", &threads);
        register_info(registry, "rsntp_rust", "Information about the Rust version", rust_info);
        proof {
            assert(registry_entries(*registry) =~= before + process_registry_entries(
                rust_version@,
                rsntp_version@,
            ));
        }

        ProcessMetrics { threads, memory_bytes, start_time, fds, process_start_time }
    }

    /// Takes in what was read about the process: the start time gauge is
    /// set when the process was found; the open file descriptor count and
    /// the soft limit of open files go into the file descriptor gauges; the
    /// thread count and memory figures (in bytes) of the status text go into
    /// their gauges, line by line.
    pub fn update(&mut self, readings: &ProcessReadings)
        requires
            readings.status matches Some(s) ==> memory_fits(s@),
        ensures
            final(self).process_start_time() == old(self).process_start_time(),
            final(self).start_time() == (if readings.process_found {
                old(self).process_start_time() as i64
            } else {
                old(self).start_time()
            }),
            final(self).fds() == fds_after(
                old(self).fds(),
                readings.open_fds,
                match readings.limits {
                    Some(l) => Some(l@),
                    None => None,
                },
            ),
            final(self).threads() == (match readings.status {
                Some(s) => threads_after(lines(s@), lines(s@).len() as int, old(self).threads()),
                None => old(self).threads(),
            }),
            final(self).memory() == (match readings.status {
                Some(s) => memory_after(lines(s@), lines(s@).len() as int, old(self).memory()),
                None => old(self).memory(),
            }),
    {
        if readings.process_found {
            gauge_set(&mut self.start_time, self.process_start_time as i64);
        }

        if let Some(n) = readings.open_fds {
            let labels = fd_label_set("open");
            gauge_family_set(&mut self.fds, &labels, n as i64);
        }

        if let Some(limits) = &readings.limits {
            if let Some(max_fds) = parse_max_open_files(limits.as_str()) {
                let labels = fd_label_set("max");
                gauge_family_set(&mut self.fds, &labels, max_fds);
            }
        }

        if let Some(status) = &readings.status {
            let text = chars_of(status.as_str());
            let ls = split_lines(&text);
            let threads_prefix = chars_of("Threads:");
            let vm_prefix = chars_of("Vm");
            let ghost t0 = self.threads();
            let ghost m0 = self.memory();
            let ghost fds0 = self.fds();
            let ghost st0 = self.start_time();
            let mut i: usize = 0;
            while i < ls.len()
                invariant
                    i <= ls@.len(),
                    views(ls@) == lines(status@),
                    memory_fits(status@),
                    threads_prefix@ == "Threads:"@,
                    vm_prefix@ == "Vm"@,
                    self.threads() == threads_after(lines(status@), i as int, t0),
                    self.memory() == memory_after(lines(status@), i as int, m0),
                    self.fds() == fds0,
                    self.start_time() == st0,
                    self.process_start_time() == old(self).process_start_time(),
                decreases ls@.len() - i,
            {
                proof {
                    assert(views(ls@)[i as int] == ls@[i as int]@);
                }
                let line = &ls[i];
                if has_prefix(line, &threads_prefix) {
                    if let Some(count) = threads_of_line(line, &threads_prefix) {
                        gauge_set(&mut self.threads, count);
                    }
                    proof {
                        assert(memory_line(line@) is None);
                    }
                } else {
                    proof {
                        assert(threads_line(line@) is None);
                    }
                    if let Some((memory_type, kb)) = memory_of_line(line, &threads_prefix, &vm_prefix) {
                        proof {
                            assert(kb_fits(kb));
                        }
                        let labels = memory_label_set(memory_type);
                        gauge_family_set(&mut self.memory_bytes, &labels, kb * 1024);
                    }
                }
                i = i + 1;
            }
        }
    }
}

} // verus!
