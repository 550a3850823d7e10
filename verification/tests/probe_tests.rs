use telemetry_core::probe::{collect_host_latencies, latency_or_ceiling};

#[test]
fn unreachable_hosts_report_the_ceiling() {
    // A dead host reports the configured timeout, never a missing entry.
    assert_eq!(latency_or_ceiling(None, 3_000_000), 3_000_000);
    assert_eq!(latency_or_ceiling(Some(1234), 3_000_000), 1234);

    let readings = vec![
        ("h1".to_string(), Some(10u64)),
        ("h2".to_string(), None),
        ("h3".to_string(), Some(999u64)),
        ("h4".to_string(), None),
    ];
    let out = collect_host_latencies(readings, 5_000_000);
    assert_eq!(out.len(), 4);
    assert_eq!(out[1].host, "h2");
    assert_eq!(out[1].micros, 5_000_000);
    assert_eq!(out[3].micros, 5_000_000);
    assert_eq!(out[0].micros, 10);
    assert_eq!(out[2].micros, 999);
}

#[test]
fn no_hosts_no_entries() {
    let out = collect_host_latencies(Vec::new(), 1);
    assert!(out.is_empty());
}
