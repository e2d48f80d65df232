use prometheus::{Encoder, TextEncoder};
use rsntp::packet_metrics::{Metrics, MetricsError, RemoteAddr};

fn encoded(m: &Metrics) -> String {
    let mut buffer = vec![];
    TextEncoder::new().encode(&m.registry().gather(), &mut buffer).unwrap();
    String::from_utf8(buffer).unwrap()
}

fn value_of(text: &str, series: &str) -> Option<String> {
    for line in text.lines() {
        if let Some(rest) = line.strip_prefix(series) {
            if let Some(v) = rest.strip_prefix(' ') {
                return Some(v.to_string());
            }
        }
    }
    None
}

// The counters register in the process-wide default registry, which takes
// each name once, so one test holds every check that needs a `Metrics`.
#[test]
fn packet_counters() {
    let mut m = Metrics::new().unwrap();
    let a = RemoteAddr::V4("192.168.1.1:123".to_string());
    let b = RemoteAddr::V4("192.168.1.2:123".to_string());
    let c = RemoteAddr::V6("[2001:db8::1]:123".to_string());
    m.record_packet_received(&a);
    m.record_packet_received(&a);
    m.record_packet_received(&b);
    let before_v6 = encoded(&m);
    assert_eq!(value_of(&before_v6, "ntp_packets_received_total{ip_version=\"ipv4\"}"), Some("3".to_string()));
    assert!(!before_v6.contains("ipv6"), "{}", before_v6);
    m.record_packet_received(&c);
    m.record_packet_sent(&a);
    m.record_packet_sent(&c);
    m.record_packet_sent(&c);
    m.record_packet_dropped("rate_limited");
    m.record_packet_dropped("malformed");
    m.record_packet_dropped("rate_limited");
    let text = encoded(&m);
    assert_eq!(value_of(&text, "ntp_packets_received_total{ip_version=\"ipv4\"}"), Some("3".to_string()));
    assert_eq!(value_of(&text, "ntp_packets_received_total{ip_version=\"ipv6\"}"), Some("1".to_string()));
    assert_eq!(value_of(&text, "ntp_unique_addresses_total{ip_version=\"ipv4\"}"), Some("2".to_string()));
    assert_eq!(value_of(&text, "ntp_unique_addresses_total{ip_version=\"ipv6\"}"), Some("1".to_string()));
    assert_eq!(value_of(&text, "ntp_packets_sent_total{ip_version=\"ipv4\"}"), Some("1".to_string()));
    assert_eq!(value_of(&text, "ntp_packets_sent_total{ip_version=\"ipv6\"}"), Some("2".to_string()));
    assert_eq!(value_of(&text, "ntp_packets_dropped_total{reason=\"rate_limited\"}"), Some("2".to_string()));
    assert_eq!(value_of(&text, "ntp_packets_dropped_total{reason=\"malformed\"}"), Some("1".to_string()));
    assert!(text.contains("# HELP ntp_packets_received_total Total number of NTP packets received"));

    let families = m.registry().gather();
    let mut names: Vec<String> = families.iter().map(|f| f.get_name().to_string()).collect();
    names.sort();
    assert_eq!(
        names,
        vec![
            "ntp_packets_dropped_total".to_string(),
            "ntp_packets_received_total".to_string(),
            "ntp_packets_sent_total".to_string(),
            "ntp_unique_addresses_total".to_string(),
        ]
    );

    assert_eq!(m.encode_text().map(|b| String::from_utf8(b).unwrap()), Some(text.clone()));

    let global = prometheus::gather();
    assert!(global.iter().any(|f| f.get_name() == "ntp_unique_addresses_total"));

    match Metrics::new() {
        Err(MetricsError::Register(_)) => {}
        _ => panic!("a second set of counters must not register"),
    }
}

#[test]
fn unregistered_counters_encode() {
    let mut m = Metrics::unregistered();
    let a = RemoteAddr::V6("[2001:db8::1]:123".to_string());
    m.record_packet_received(&a);
    m.record_packet_sent(&a);
    let text = String::from_utf8(m.encode_text().unwrap()).unwrap();
    assert_eq!(value_of(&text, "ntp_packets_received_total{ip_version=\"ipv6\"}"), Some("1".to_string()));
    assert_eq!(value_of(&text, "ntp_unique_addresses_total{ip_version=\"ipv6\"}"), Some("1".to_string()));
    assert_eq!(value_of(&text, "ntp_packets_sent_total{ip_version=\"ipv6\"}"), Some("1".to_string()));
    assert!(!text.contains("ipv4"));
    let empty = Metrics::unregistered();
    assert_eq!(empty.encode_text(), Some(Vec::new()));
}

#[test]
fn exposition_lists_families_by_name_and_labels_in_order() {
    let mut m = Metrics::unregistered();
    m.record_packet_received(&RemoteAddr::V4("192.168.1.1:123".to_string()));
    let text = String::from_utf8(m.encode_text().unwrap()).unwrap();
    let expected = "# HELP ntp_packets_received_total Total number of NTP packets received\n\
                    # TYPE ntp_packets_received_total counter\n\
                    ntp_packets_received_total{ip_version=\"ipv4\"} 1\n\
                    # HELP ntp_unique_addresses_total Total number of unique remote addresses seen\n\
                    # TYPE ntp_unique_addresses_total counter\n\
                    ntp_unique_addresses_total{ip_version=\"ipv4\"} 1\n";
    assert_eq!(text, expected);

    m.record_packet_dropped("rate_limited");
    m.record_packet_dropped("malformed");
    m.record_packet_dropped("quote\"and\\slash");
    m.record_packet_dropped("malformed");
    let text = String::from_utf8(m.encode_text().unwrap()).unwrap();
    let dropped = "# HELP ntp_packets_dropped_total Total number of NTP packets dropped\n\
                   # TYPE ntp_packets_dropped_total counter\n\
                   ntp_packets_dropped_total{reason=\"malformed\"} 2\n\
                   ntp_packets_dropped_total{reason=\"quote\\\"and\\\\slash\"} 1\n\
                   ntp_packets_dropped_total{reason=\"rate_limited\"} 1\n";
    assert!(text.starts_with(dropped), "{}", text);
}
