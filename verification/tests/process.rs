use prometheus_client::encoding::text::encode;
use prometheus_client::registry::Registry;
use rsntp::process::{memory_values_fit, parse_max_open_files, ProcessMetrics, ProcessReadings};

const LIMITS: &str = "Limit                     Soft Limit           Hard Limit           Units     \n\
Max cpu time              unlimited            unlimited            seconds   \n\
Max open files            1024                 1048576              files     \n\
Max locked memory         8388608              8388608              bytes     \n";

const STATUS: &str = "Name:\trsntp\nUmask:\t0022\nState:\tS (sleeping)\nVmPeak:\t  123456 kB\nVmSize:\t  120000 kB\nVmRSS:\t    2000 kB\nThreads:\t7\nSigQ:\t0/63459\n";

fn encoded(r: &Registry) -> String {
    let mut buffer = String::new();
    encode(&mut buffer, r).unwrap();
    buffer
}

fn value_of(text: &str, series: &str) -> Option<String> {
    for line in text.lines() {
        if let Some(rest) = line.strip_prefix(series) {
            if let Some(v) = rest.strip_prefix(' ') {
                return Some(v.to_string());
            }
        }
    }
    None
}

#[test]
fn max_open_files_is_the_soft_limit() {
    assert_eq!(parse_max_open_files(LIMITS), Some(1024));
}

#[test]
fn max_open_files_needs_a_number() {
    assert_eq!(parse_max_open_files("Max open files  unlimited  unlimited files\n"), None);
    assert_eq!(parse_max_open_files("Max open files\n"), None);
    assert_eq!(parse_max_open_files(""), None);
    assert_eq!(
        parse_max_open_files("Max open files x y z\nMax open files  -12  5  files\r\n"),
        Some(-12)
    );
    assert_eq!(parse_max_open_files("Max open files\t+77 1 files"), Some(77));
    assert_eq!(parse_max_open_files("  Max open files 1 2 3"), None);
}

#[test]
fn max_open_files_out_of_range() {
    assert_eq!(parse_max_open_files("Max open files 9223372036854775808 1 f"), None);
    assert_eq!(
        parse_max_open_files("Max open files 9223372036854775807 1 f"),
        Some(i64::MAX)
    );
}

#[test]
fn memory_fits_check() {
    assert!(memory_values_fit(STATUS));
    assert!(memory_values_fit("VmX: 9007199254740991 kB\n"));
    assert!(!memory_values_fit("VmX: 9007199254740992 kB\n"));
    assert!(memory_values_fit("VmX: -9007199254740992 kB\n"));
    assert!(!memory_values_fit("VmX: -9007199254740993 kB\n"));
}

#[test]
fn registers_process_metrics_in_order() {
    let mut registry = Registry::default();
    let _metrics = ProcessMetrics::with_versions(&mut registry, 1_700_000_000, "1.95.0", "0.1.0");
    let text = encoded(&registry);
    let names: Vec<&str> = text
        .lines()
        .filter_map(|l| l.strip_prefix("# TYPE "))
        .map(|l| l.split(' ').next().unwrap())
        .collect();
    assert_eq!(
        names,
        vec![
            "rsntp",
            "rsntp_process_fds",
            "rsntp_process_memory_bytes",
            "rsntp_process_start_time_seconds",
            "rsntp_process_threads",
            "rsntp_rust",
        ]
    );
    assert!(text.contains("rsntp_info{version=\"0.1.0\"} 1"));
    assert!(text.contains("rsntp_rust_info{version=\"1.95.0\"} 1"));
    assert_eq!(value_of(&text, "rsntp_process_threads"), Some("0".to_string()));
}

#[test]
fn update_takes_in_readings() {
    let mut registry = Registry::default();
    let mut metrics = ProcessMetrics::with_versions(&mut registry, 1_700_000_000, "1.95.0", "0.1.0");
    let readings = ProcessReadings {
        process_found: true,
        open_fds: Some(12),
        limits: Some(LIMITS.to_string()),
        status: Some(STATUS.to_string()),
    };
    metrics.update(&readings);
    let text = encoded(&registry);
    assert_eq!(value_of(&text, "rsntp_process_start_time_seconds"), Some("1700000000".to_string()));
    assert_eq!(value_of(&text, "rsntp_process_threads"), Some("7".to_string()));
    assert_eq!(value_of(&text, "rsntp_process_fds{fd_type=\"open\"}"), Some("12".to_string()));
    assert_eq!(value_of(&text, "rsntp_process_fds{fd_type=\"max\"}"), Some("1024".to_string()));
    assert_eq!(
        value_of(&text, "rsntp_process_memory_bytes{memory_type=\"peak\"}"),
        Some("126418944".to_string())
    );
    assert_eq!(
        value_of(&text, "rsntp_process_memory_bytes{memory_type=\"rss\"}"),
        Some("2048000".to_string())
    );
    assert_eq!(
        value_of(&text, "rsntp_process_memory_bytes{memory_type=\"size\"}"),
        Some("122880000".to_string())
    );
}

#[test]
fn update_without_readings_changes_nothing() {
    let mut registry = Registry::default();
    let mut metrics = ProcessMetrics::with_versions(&mut registry, 42, "r", "v");
    let readings = ProcessReadings { process_found: false, open_fds: None, limits: None, status: None };
    metrics.update(&readings);
    let text = encoded(&registry);
    assert_eq!(value_of(&text, "rsntp_process_start_time_seconds"), Some("0".to_string()));
    assert!(!text.contains("rsntp_process_fds{"));
    assert!(!text.contains("rsntp_process_memory_bytes{"));
}

#[test]
fn last_thread_line_wins_and_memory_type_is_lower_cased() {
    let mut registry = Registry::default();
    let mut metrics = ProcessMetrics::with_versions(&mut registry, 1, "r", "v");
    let status = "Threads:\t3\nThreads: many\nVmHWM: 10 kB\nThreads:\t9\nVmNoColon 5 kB\nVmData:\tbad kB\nVmHWM: 20 kB\n";
    let readings = ProcessReadings { process_found: false, open_fds: None, limits: None, status: Some(status.to_string()) };
    metrics.update(&readings);
    let text = encoded(&registry);
    assert_eq!(value_of(&text, "rsntp_process_threads"), Some("9".to_string()));
    assert_eq!(value_of(&text, "rsntp_process_memory_bytes{memory_type=\"hwm\"}"), Some("20480".to_string()));
    assert!(!text.contains("memory_type=\"nocolon"));
    assert!(!text.contains("memory_type=\"data\""));
}

#[test]
fn new_reads_clock_and_compiler_version() {
    let mut registry = Registry::default();
    let mut metrics = ProcessMetrics::new(&mut registry, "0.1.0");
    let readings = ProcessReadings { process_found: true, open_fds: None, limits: None, status: None };
    metrics.update(&readings);
    let text = encoded(&registry);
    let start: i64 = value_of(&text, "rsntp_process_start_time_seconds").unwrap().parse().unwrap();
    assert!(start > 1_600_000_000);
    assert!(text.contains("rsntp_info{version=\"0.1.0\"} 1"));
    assert!(text.contains("rsntp_rust_info{version=\"1."));
}
