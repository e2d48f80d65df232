use prometheus_client::encoding::text::encode;
use prometheus_client::metrics::family::Family;
use prometheus_client::metrics::gauge::Gauge;
use prometheus_client::metrics::histogram::Histogram;
use rsntp::client_cache::ClientIp;
use rsntp::collector::MetricsCollector;
use rsntp::events::PacketEvent;

fn size_histogram() -> Histogram {
    Histogram::new(vec![48.0, 56.0, 128.0].into_iter())
}

fn collector(minute: u64, hour: u64, day: u64) -> MetricsCollector {
    MetricsCollector::new(minute, hour, day, size_histogram())
}

fn encoded(c: &MetricsCollector) -> String {
    let mut buffer = String::new();
    encode(&mut buffer, &c.registry()).unwrap();
    assert_eq!(c.encode_metrics(), Some(buffer.clone()));
    buffer
}

fn value_of(text: &str, series: &str) -> Option<String> {
    for line in text.lines() {
        if let Some(rest) = line.strip_prefix(series) {
            if let Some(v) = rest.strip_prefix(' ') {
                return Some(v.to_string());
            }
        }
    }
    None
}

const RECEIVED_T1: &str = "rsntp_packet_count_total{thread_id=\"1\",packet_event=\"server_request_received\"}";
const RECEIVED_T0: &str = "rsntp_packet_count_total{thread_id=\"0\",packet_event=\"server_request_received\"}";

#[test]
fn test_new_metrics_collector() {
    let collector = collector(100, 1000, 10000);
    assert!(collector.client_cache().is_some());
}

#[test]
fn test_new_metrics_collector_disabled_cache() {
    let collector = collector(0, 1000, 10000);
    assert!(collector.client_cache().is_none());
}

#[test]
fn test_increment_packet_counter() {
    let mut collector = collector(100, 1000, 10000);
    collector.increment_packet_counter(PacketEvent::ServerRequestReceived, 1);
}

#[test]
fn test_update_first_seen_time() {
    let mut collector = collector(100, 1000, 10000);
    collector.update_first_seen_time(PacketEvent::ServerRequestReceived, 1);
}

#[test]
fn test_update_last_seen_time() {
    let mut collector = collector(100, 1000, 10000);
    collector.update_last_seen_time(PacketEvent::ServerRequestReceived, 1);
}

#[test]
fn test_record_packet_size() {
    let collector = collector(100, 1000, 10000);
    collector.packet_size_histogram().observe(48 as f64);
    collector.packet_size_histogram().observe(128 as f64);
    let text = encoded(&collector);
    assert_eq!(value_of(&text, "rsntp_packet_size_bytes_count"), Some("2".to_string()));
}

#[test]
fn test_add_client_ip_v4() {
    let mut collector = collector(100, 1000, 10000);
    let ip = ClientIp::V4(0xC0A8_0101);
    collector.add_client_ip(ip);
}

#[test]
fn test_add_client_ip_v6() {
    let mut collector = collector(100, 1000, 10000);
    let ip = ClientIp::V6(0x2001_0db8_0000_0000_0000_0000_0000_0001);
    collector.add_client_ip(ip);
}

#[test]
fn test_add_client_ip_disabled_cache() {
    let mut collector = collector(0, 1000, 10000);
    let ip = ClientIp::V4(0xC0A8_0101);
    collector.add_client_ip(ip);
    let text = encoded(&collector);
    assert!(!text.contains("rsntp_unique_clients{"));
}

#[test]
fn test_update_packet_counter() {
    let mut collector = collector(100, 1000, 10000);
    collector.update_packet_counter(PacketEvent::ServerRequestReceived, 1);
}

#[test]
fn test_registry_access() {
    let collector = collector(0, 0, 0);
    let _registry = collector.registry();
}

#[test]
fn test_gauge_operations_simple() {
    let mut collector = collector(0, 0, 0);
    // Offering the time 0 to an unset first-seen stamp creates its gauge at 0.
    collector.record_first_seen(PacketEvent::ServerRequestReceived, 1, 0);
    let text = encoded(&collector);
    assert_eq!(
        value_of(
            &text,
            "rsntp_first_seen_time{thread_id=\"1\",packet_event=\"server_request_received\"}"
        ),
        Some("0".to_string())
    );
}

#[test]
fn test_direct_gauge() {
    let gauge: Gauge = Gauge::default();
    assert_eq!(0, gauge.set(42));
    assert_eq!(42, gauge.get());
}

#[test]
fn test_family_gauge_set() {
    let family: Family<Vec<(String, String)>, Gauge> = Family::default();
    let labels = vec![
        ("thread_id".to_string(), "1".to_string()),
        ("packet_event".to_string(), "test".to_string()),
    ];
    let gauge = family.get_or_create(&labels);
    gauge.set(42);
    assert_eq!(42, gauge.get());
}

#[test]
fn registry_lists_metrics_in_order() {
    let collector = collector(1, 1, 1);
    let text = encoded(&collector);
    let names: Vec<&str> = text
        .lines()
        .filter_map(|l| l.strip_prefix("# TYPE "))
        .map(|l| l.split(' ').next().unwrap())
        .collect();
    assert_eq!(
        names,
        vec![
            "rsntp_packet_count",
            "rsntp_first_seen_time",
            "rsntp_last_seen_time",
            "rsntp_packet_size_bytes",
            "rsntp_unique_clients",
        ]
    );
    assert!(text.contains("# HELP rsntp_packet_count NTP packet event counters."));
}

#[test]
fn counter_counts_thread_and_global() {
    let mut collector = collector(0, 0, 0);
    collector.increment_packet_counter(PacketEvent::ServerRequestReceived, 1);
    collector.increment_packet_counter(PacketEvent::ServerRequestReceived, 1);
    collector.increment_packet_counter(PacketEvent::ServerRequestReceived, 0);
    let text = encoded(&collector);
    assert_eq!(value_of(&text, RECEIVED_T1), Some("2".to_string()));
    assert_eq!(value_of(&text, RECEIVED_T0), Some("3".to_string()));
}

#[test]
fn counter_of_global_thread_counts_once() {
    let mut collector = collector(0, 0, 0);
    collector.increment_packet_counter(PacketEvent::ServerSendError, 0);
    let text = encoded(&collector);
    assert_eq!(
        value_of(&text, "rsntp_packet_count_total{thread_id=\"0\",packet_event=\"server_send_error\"}"),
        Some("1".to_string())
    );
    assert_eq!(text.matches("rsntp_packet_count_total{").count(), 1);
}

#[test]
fn first_seen_keeps_first_time() {
    let mut collector = collector(0, 0, 0);
    collector.record_first_seen(PacketEvent::ServerResponseSent, 7, 100);
    collector.record_first_seen(PacketEvent::ServerResponseSent, 7, 200);
    let text = encoded(&collector);
    assert_eq!(
        value_of(&text, "rsntp_first_seen_time{thread_id=\"7\",packet_event=\"server_response_sent\"}"),
        Some("100".to_string())
    );
}

#[test]
fn first_seen_unset_takes_next_time() {
    let mut collector = collector(0, 0, 0);
    collector.record_first_seen(PacketEvent::ServerResponseSent, 7, 0);
    collector.record_first_seen(PacketEvent::ServerResponseSent, 7, 300);
    let text = encoded(&collector);
    assert_eq!(
        value_of(&text, "rsntp_first_seen_time{thread_id=\"7\",packet_event=\"server_response_sent\"}"),
        Some("300".to_string())
    );
}

#[test]
fn last_seen_takes_latest_time() {
    let mut collector = collector(0, 0, 0);
    collector.record_last_seen(PacketEvent::ServerRequestDropped, 12, 100);
    collector.record_last_seen(PacketEvent::ServerRequestDropped, 12, 50);
    let text = encoded(&collector);
    assert_eq!(
        value_of(&text, "rsntp_last_seen_time{thread_id=\"12\",packet_event=\"server_request_dropped\"}"),
        Some("50".to_string())
    );
}

#[test]
fn clock_updates_stamp_thread_and_global() {
    let mut collector = collector(0, 0, 0);
    collector.update_packet_counter(PacketEvent::ServerRequestReceived, 3);
    let text = encoded(&collector);
    let series = "{thread_id=\"3\",packet_event=\"server_request_received\"}";
    let global = "{thread_id=\"0\",packet_event=\"server_request_received\"}";
    let first = value_of(&text, &format!("rsntp_first_seen_time{}", series)).unwrap();
    let last = value_of(&text, &format!("rsntp_last_seen_time{}", series)).unwrap();
    assert!(first.parse::<i64>().unwrap() > 0);
    assert!(last.parse::<i64>().unwrap() >= first.parse::<i64>().unwrap());
    assert!(value_of(&text, &format!("rsntp_first_seen_time{}", global)).is_some());
    assert!(value_of(&text, &format!("rsntp_last_seen_time{}", global)).is_some());
    assert_eq!(value_of(&text, &format!("rsntp_packet_count_total{}", global)), Some("1".to_string()));
}

#[test]
fn first_clock_stamp_is_kept() {
    let mut collector = collector(0, 0, 0);
    collector.update_first_seen_time(PacketEvent::ServerRequestReceived, 0);
    let before = encoded(&collector);
    collector.update_first_seen_time(PacketEvent::ServerRequestReceived, 0);
    let after = encoded(&collector);
    let series = "rsntp_first_seen_time{thread_id=\"0\",packet_event=\"server_request_received\"}";
    assert_eq!(value_of(&before, series), value_of(&after, series));
}

#[test]
fn distinct_clients_counted_once_per_period() {
    let mut collector = collector(100, 1000, 10000);
    collector.add_client_ip(ClientIp::V4(0xC0A8_0101));
    collector.add_client_ip(ClientIp::V4(0xC0A8_0101));
    collector.add_client_ip(ClientIp::V4(0xC0A8_0102));
    collector.add_client_ip(ClientIp::V6(1));
    let text = encoded(&collector);
    for period in ["minute", "hour", "day"] {
        assert_eq!(
            value_of(&text, &format!("rsntp_unique_clients{{period=\"{}\",ip_version=\"4\"}}", period)),
            Some("2".to_string())
        );
        assert_eq!(
            value_of(&text, &format!("rsntp_unique_clients{{period=\"{}\",ip_version=\"6\"}}", period)),
            Some("1".to_string())
        );
    }
}

#[test]
fn client_counts_bump_only_new_periods() {
    let mut collector = collector(0, 0, 0);
    collector.record_client_counts(ClientIp::V6(5), &vec![1, 2, 1]);
    let text = encoded(&collector);
    assert_eq!(
        value_of(&text, "rsntp_unique_clients{period=\"minute\",ip_version=\"6\"}"),
        Some("1".to_string())
    );
    assert_eq!(value_of(&text, "rsntp_unique_clients{period=\"hour\",ip_version=\"6\"}"), None);
    assert_eq!(
        value_of(&text, "rsntp_unique_clients{period=\"day\",ip_version=\"6\"}"),
        Some("1".to_string())
    );
}

#[test]
fn event_labels() {
    assert_eq!(PacketEvent::ServerRequestReceived.as_str(), "server_request_received");
    assert_eq!(PacketEvent::ServerResponseSent.as_str(), "server_response_sent");
    assert_eq!(PacketEvent::ServerRequestDropped.as_str(), "server_request_dropped");
    assert_eq!(PacketEvent::ServerSendError.as_str(), "server_send_error");
}

#[test]
fn encoded_metrics_end_with_eof() {
    let mut collector = collector(0, 0, 0);
    collector.increment_packet_counter(PacketEvent::ServerRequestReceived, 2);
    let text = collector.encode_metrics().unwrap();
    assert!(text.ends_with("# EOF\n"));
}

#[test]
fn encoded_metrics_list_descriptors_in_registration_order() {
    let collector = collector(0, 0, 0);
    let text = collector.encode_metrics().unwrap();
    let expected = "# HELP rsntp_packet_count NTP packet event counters.\n\
                    # TYPE rsntp_packet_count counter\n\
                    # HELP rsntp_first_seen_time First time each packet event was seen (Unix nanoseconds).\n\
                    # TYPE rsntp_first_seen_time gauge\n\
                    # HELP rsntp_last_seen_time Last time each packet event was seen (Unix nanoseconds).\n\
                    # TYPE rsntp_last_seen_time gauge\n\
                    # HELP rsntp_packet_size_bytes Histogram of packet sizes in bytes.\n\
                    # TYPE rsntp_packet_size_bytes histogram\n";
    assert!(text.starts_with(expected), "{}", text);
    let unique = "# HELP rsntp_unique_clients Number of unique client IP addresses by time period.\n\
                  # TYPE rsntp_unique_clients gauge\n";
    assert!(text.contains(unique), "{}", text);
    assert!(text.ends_with("# EOF\n"));
}

#[test]
fn current_time_is_after_the_epoch() {
    let a = MetricsCollector::current_time_nanos();
    let b = MetricsCollector::current_time_nanos();
    assert!(a > 0);
    assert!(b >= a);
}

#[test]
fn global_count_is_the_sum_over_threads() {
    let mut collector = collector(0, 0, 0);
    collector.increment_packet_counter(PacketEvent::ServerRequestReceived, 1);
    collector.increment_packet_counter(PacketEvent::ServerRequestReceived, 1);
    collector.increment_packet_counter(PacketEvent::ServerRequestReceived, 2);
    collector.increment_packet_counter(PacketEvent::ServerRequestReceived, 0);
    collector.increment_packet_counter(PacketEvent::ServerResponseSent, 2);
    let text = encoded(&collector);
    assert_eq!(value_of(&text, RECEIVED_T0), Some("4".to_string()));
    assert_eq!(value_of(&text, RECEIVED_T1), Some("2".to_string()));
    assert_eq!(
        value_of(&text, "rsntp_packet_count_total{thread_id=\"2\",packet_event=\"server_request_received\"}"),
        Some("1".to_string())
    );
    assert_eq!(
        value_of(&text, "rsntp_packet_count_total{thread_id=\"0\",packet_event=\"server_response_sent\"}"),
        Some("1".to_string())
    );
}

#[test]
fn fresh_client_counts_once_in_each_period() {
    let mut collector = collector(100, 1000, 10000);
    collector.add_client_ip(ClientIp::V4(0xC0A8_0101));
    let text = encoded(&collector);
    for period in ["minute", "hour", "day"] {
        let series = format!("rsntp_unique_clients{{period=\"{}\",ip_version=\"4\"}}", period);
        assert_eq!(value_of(&text, &series), Some("1".to_string()), "{}", text);
    }
    assert!(!text.contains("ip_version=\"6\""));
}
