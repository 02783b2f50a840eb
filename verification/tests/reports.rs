use std::time::{Duration, SystemTime};

use ratelimit_agent::agent::RateLimitAgent;
use ratelimit_agent::clock::{now_ms, unix_millis, unix_second};
use ratelimit_agent::config::RateLimitConfig;
use ratelimit_agent::event::RequestHeadersEvent;
use ratelimit_agent::report::{EventType, HealthState, HealthStatus, LoadMetrics};
use ratelimit_agent::string_map::StringMap;

fn used_agent() -> RateLimitAgent {
    let mut agent = RateLimitAgent::new(RateLimitConfig::with_default_limits(1, 1, false));
    for _ in 0..3 {
        agent.on_request_headers(RequestHeadersEvent {
            client_ip: "a".to_string(),
            method: "GET".to_string(),
            uri: "/".to_string(),
            headers: StringMap::new(),
        });
    }
    agent
}

#[test]
fn capabilities_in_full() {
    let agent = RateLimitAgent::new(RateLimitConfig::default());
    let capabilities = agent.capabilities("1.2.3");
    assert_eq!(capabilities.protocol_version, 2);
    assert_eq!(capabilities.agent_id, "ratelimit-agent");
    assert_eq!(capabilities.name, "Zentinel Rate Limit Agent");
    assert_eq!(capabilities.version, "1.2.3");
    assert_eq!(capabilities.supported_events, vec![EventType::RequestHeaders, EventType::Configure]);
    assert!(!capabilities.features.streaming_body);
    assert!(!capabilities.features.websocket);
    assert!(!capabilities.features.guardrails);
    assert!(capabilities.features.config_push);
    assert!(capabilities.features.metrics_export);
    assert_eq!(capabilities.features.concurrent_requests, 1000);
    assert!(capabilities.features.cancellation);
    assert!(capabilities.features.flow_control);
    assert!(capabilities.features.health_reporting);
    assert_eq!(capabilities.limits.max_body_size, 0);
    assert_eq!(capabilities.limits.max_concurrency, 1000);
    assert_eq!(capabilities.limits.preferred_chunk_size, 0);
    assert_eq!(capabilities.limits.max_memory, None);
    assert_eq!(capabilities.limits.max_processing_time_ms, Some(100));
    assert_eq!(capabilities.health.report_interval_ms, 10_000);
    assert!(capabilities.health.include_load_metrics);
    assert!(!capabilities.health.include_resource_metrics);
}

#[test]
fn load_counts_requests() {
    let load = used_agent().get_load_metrics();
    assert_eq!(load.requests_processed, 3);
    assert_eq!(load.requests_rejected, 2);
    assert_eq!(load.requests_timed_out, 0);
    assert_eq!((load.in_flight, load.queue_depth), (0, 0));
    assert_eq!((load.avg_latency_ms, load.p50_latency_ms), (0, 0));
    assert_eq!((load.p95_latency_ms, load.p99_latency_ms), (0, 0));
}

#[test]
fn healthy_until_told_to_drain() {
    let mut agent = used_agent();
    let status = agent.health_status_at(17);
    assert_eq!(status.agent_id, "ratelimit-agent");
    assert!(matches!(status.state, HealthState::Healthy));
    assert_eq!(status.message, None);
    assert_eq!(status.load.unwrap().requests_processed, 3);
    assert_eq!(status.valid_until_ms, None);
    assert_eq!(status.timestamp_ms, 17);
    agent.on_drain();
    let status = agent.health_status_at(18);
    assert!(matches!(status.state, HealthState::Draining { eta_ms: None }));
    assert_eq!(status.message, Some("Agent is draining".to_string()));
    assert_eq!(status.load.unwrap().requests_rejected, 2);
    assert_eq!(status.timestamp_ms, 18);
}

#[test]
fn shutdown_drains_for_good() {
    let mut agent = used_agent();
    agent.on_shutdown();
    assert!(agent.on_configure(Some(RateLimitConfig::default()), None));
    agent.remove_expired_limiters(u128::MAX, 0);
    let status = agent.health_status();
    assert!(matches!(status.state, HealthState::Draining { .. }));
}

#[test]
fn status_builders() {
    let load = LoadMetrics {
        in_flight: 1,
        queue_depth: 2,
        avg_latency_ms: 3,
        p50_latency_ms: 4,
        p95_latency_ms: 5,
        p99_latency_ms: 6,
        requests_processed: 7,
        requests_rejected: 8,
        requests_timed_out: 9,
    };
    let status = HealthStatus::healthy("x", 5);
    assert!(status.load.is_none());
    let status = status.with_load(load);
    assert_eq!(status.agent_id, "x");
    assert_eq!(status.timestamp_ms, 5);
    assert_eq!(status.load.unwrap().requests_rejected, 8);
}

#[test]
fn metrics_in_full() {
    let report = used_agent().metrics_report_at(Duration::ZERO, 99);
    assert_eq!(report.agent_id, "ratelimit-agent");
    assert_eq!(report.timestamp_ms, 99);
    assert_eq!(report.interval_ms, 10_000);
    let counters: Vec<(&str, u64)> =
        report.counters.iter().map(|c| (c.name.as_str(), c.value)).collect();
    assert_eq!(
        counters,
        vec![
            ("ratelimit_requests_total", 3),
            ("ratelimit_allowed_total", 1),
            ("ratelimit_limited_total", 2),
        ]
    );
    let gauges: Vec<(&str, Option<&str>, u64)> =
        report.gauges.iter().map(|g| (g.name.as_str(), g.key.as_deref(), g.value)).collect();
    assert_eq!(
        gauges,
        vec![
            ("ratelimit_active_limiters", None, 1),
            ("ratelimit_bucket_tokens", Some("a"), 0),
        ]
    );
}

#[test]
fn reports_carry_the_time() {
    let agent = used_agent();
    let before = now_ms();
    let health = agent.health_status().timestamp_ms;
    let metrics = agent.metrics_report().unwrap().timestamp_ms;
    let after = now_ms();
    assert!(before <= health && health <= metrics && metrics <= after);
}

#[test]
fn milliseconds_since_the_epoch() {
    let epoch = SystemTime::UNIX_EPOCH;
    assert_eq!(unix_millis(epoch), 0);
    assert_eq!(unix_millis(epoch + Duration::from_micros(1_500_999)), 1500);
    assert_eq!(unix_millis(epoch - Duration::from_secs(1)), 0);
}

#[test]
fn seconds_since_the_epoch() {
    let epoch = SystemTime::UNIX_EPOCH;
    assert_eq!(unix_second(epoch), 0);
    assert_eq!(unix_second(epoch + Duration::from_millis(1_999)), 1);
    assert_eq!(unix_second(epoch + Duration::from_secs(1_700_000_000)), 1_700_000_000);
    assert_eq!(unix_second(epoch - Duration::from_millis(1)), 0);
    assert_eq!(unix_second(epoch + Duration::from_secs(8_100_000_000_000)), 8_100_000_000_000);
    assert_eq!(unix_second(epoch + Duration::from_secs(8_210_266_876_798)), 8_210_266_876_798);
    assert_eq!(unix_second(epoch + Duration::from_secs(8_210_266_876_799)), 0);
}

#[test]
fn now_agrees_with_the_calendar() {
    let before = chrono::Utc::now().timestamp_millis() as u64;
    let now = now_ms();
    let after = chrono::Utc::now().timestamp_millis() as u64;
    assert!(before <= now && now <= after);
}

#[test]
fn milliseconds_are_cut_to_64_bits() {
    assert_eq!(ratelimit_agent::clock::millis_or_zero(None), 0);
    assert_eq!(ratelimit_agent::clock::millis_or_zero(Some(1500)), 1500);
    assert_eq!(ratelimit_agent::clock::millis_or_zero(Some(u64::MAX as u128)), u64::MAX);
    assert_eq!(ratelimit_agent::clock::millis_or_zero(Some(u64::MAX as u128 + 3)), 2);
}
