use telemetry_core::probe::{collect_host_latencies, HostLatency};
use telemetry_core::stats::{
    update_stats, RequestResult, RequestStats, StatsBase, SystemResources, Usage,
};

fn base() -> StatsBase {
    StatsBase {
        server_name: "srv-1".to_string(),
        scraper_name: "spider".to_string(),
        project_code: "p-7".to_string(),
        scraper_type: "market".to_string(),
        request_frequency: 10,
    }
}

fn resources() -> SystemResources {
    SystemResources {
        cpu_usage: "12.34%".to_string(),
        memory_usage: Usage { used: 512, total: 2048 },
        disk_usage: Usage { used: 10_000, total: 50_000 },
    }
}

#[test]
fn counters_follow_every_outcome() {
    let mut stats = RequestStats::new(1000);
    stats.update_stats(0, 10, 200, RequestResult::Successful);
    stats.update_stats(0, 20, 200, RequestResult::SuccessfulAndCache);
    stats.update_stats(0, 30, 500, RequestResult::ParseError);
    stats.update_stats(0, 40, 0, RequestResult::TimeoutError);
    stats.update_stats(0, 50, 404, RequestResult::ConnectionError);

    let report = stats.to_stats_and_reset(base(), Vec::new(), resources(), 61000);
    assert_eq!(report.total_requests, 5);
    assert_eq!(report.exception_types.parse_error, 1);
    assert_eq!(report.exception_types.timeout_error, 1);
    assert_eq!(report.exception_types.connection_error, 1);
    assert_eq!(report.cache_hit, 1);
    // 3 errors of 5 requests: 600 thousandths.
    assert_eq!(report.error_rate_milli, 600);
    // 1 cache hit of 2 successes: 500 thousandths.
    assert_eq!(report.cache_hit_rate_milli, 500);
    // 150 ms over 5 requests: 30 ms, in thousandths of a ms.
    assert_eq!(report.average_request_latency_milli, 30_000);
    // (61000 - 1000) ms of runtime: 60 s.
    assert_eq!(report.runtime_duration, 60);
    assert_eq!(report.time_period.start, 1000);
    assert_eq!(report.time_period.end, 61000);
    // The sentinel code 0 never enters the histogram.
    assert_eq!(report.http_status_codes.get(&200), Some(&2));
    assert_eq!(report.http_status_codes.get(&500), Some(&1));
    assert_eq!(report.http_status_codes.get(&404), Some(&1));
    assert_eq!(report.http_status_codes.get(&0), None);
    assert_eq!(report.http_status_codes.len(), 3);
    assert_eq!(report.base.server_name, "srv-1");
    assert_eq!(report.base.request_frequency, 10);
    assert_eq!(report.system_resources.memory_usage.used, 512);
}

#[test]
fn empty_window_reports_zero_rates() {
    let mut stats = RequestStats::new(500);
    stats.update_stats(0, 10, 200, RequestResult::ParseError);
    let first = stats.to_stats_and_reset(base(), Vec::new(), resources(), 700);
    assert_eq!(first.total_requests, 1);

    // No records in between: the second snapshot is all zeros.
    let second = stats.to_stats_and_reset(base(), Vec::new(), resources(), 900);
    assert_eq!(second.total_requests, 0);
    assert_eq!(second.error_rate_milli, 0);
    assert_eq!(second.cache_hit_rate_milli, 0);
    assert_eq!(second.average_request_latency_milli, 0);
    assert_eq!(second.cache_hit, 0);
    assert_eq!(second.http_status_codes.len(), 0);
    assert_eq!(second.time_period.start, 700);
    assert_eq!(second.time_period.end, 900);
    // The process start is carried across windows.
    assert_eq!(second.runtime_duration, 0);
}

#[test]
fn record_after_snapshot_counts_in_next_window_only() {
    let mut stats = RequestStats::new(0);
    stats.update_stats(0, 5, 200, RequestResult::Successful);
    let first = stats.to_stats_and_reset(base(), Vec::new(), resources(), 1000);

    update_stats(&mut stats, 0, 8, 201, RequestResult::Successful);

    // The report already taken is untouched by the later record.
    assert_eq!(first.total_requests, 1);
    assert_eq!(first.http_status_codes.get(&201), None);

    let second = stats.to_stats_and_reset(base(), Vec::new(), resources(), 2000);
    assert_eq!(second.total_requests, 1);
    assert_eq!(second.http_status_codes.get(&201), Some(&1));
    assert_eq!(second.time_period.start, 1000);
    // Runtime still counts from the process start, not the window start.
    assert_eq!(second.runtime_duration, 2);
}

#[test]
fn success_cached_counts_both() {
    let mut stats = RequestStats::new(0);
    stats.update_stats(0, 1, 200, RequestResult::SuccessfulAndCache);
    stats.update_stats(0, 1, 200, RequestResult::SuccessfulAndCache);
    let report = stats.to_stats_and_reset(base(), Vec::new(), resources(), 10);
    assert_eq!(report.total_requests, 2);
    assert_eq!(report.cache_hit, 2);
    // Every success was a cache hit: 1000 thousandths.
    assert_eq!(report.cache_hit_rate_milli, 1000);
    assert_eq!(report.error_rate_milli, 0);
}

#[test]
fn host_latencies_travel_into_the_report() {
    let readings = vec![
        ("10.0.0.1".to_string(), Some(1500u64)),
        ("10.0.0.2".to_string(), None),
    ];
    let hosts: Vec<HostLatency> = collect_host_latencies(readings, 3_000_000);
    let mut stats = RequestStats::new(0);
    let report = stats.to_stats_and_reset(base(), hosts, resources(), 10);
    assert_eq!(report.hosts_ping_delay.len(), 2);
    assert_eq!(report.hosts_ping_delay[0].host, "10.0.0.1");
    assert_eq!(report.hosts_ping_delay[0].micros, 1500);
    assert_eq!(report.hosts_ping_delay[1].host, "10.0.0.2");
    assert_eq!(report.hosts_ping_delay[1].micros, 3_000_000);
}

#[test]
fn negative_latency_is_averaged_exactly() {
    let mut stats = RequestStats::new(0);
    // A clock skew can stamp the response before the request.
    stats.update_stats(20, 10, 200, RequestResult::Successful);
    stats.update_stats(20, 17, 200, RequestResult::Successful);
    // Total -13 ms over 2 requests: -6.5 ms, in thousandths of a ms.
    let report = stats.to_stats_and_reset(base(), Vec::new(), resources(), 10);
    assert_eq!(report.average_request_latency_milli, -6500);

    let mut stats = RequestStats::new(0);
    stats.update_stats(1, 0, 200, RequestResult::Successful);
    stats.update_stats(0, 0, 200, RequestResult::Successful);
    stats.update_stats(0, 0, 200, RequestResult::Successful);
    // -1 ms over 3 requests: -333.33 thousandths, rounded to -333.
    let report = stats.to_stats_and_reset(base(), Vec::new(), resources(), 10);
    assert_eq!(report.average_request_latency_milli, -333);
}
