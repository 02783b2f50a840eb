use std::time::{Duration, Instant};

use ratelimit_agent::agent::{process_request_headers, RateLimitAgent};
use ratelimit_agent::config::{MatchCondition, RateLimitConfig, RateLimitKey, RateLimitRule};
use ratelimit_agent::event::RequestHeadersEvent;
use ratelimit_agent::response::{
    request_response, AgentResponse, AuditValue, Decision, HeaderOp,
};
use ratelimit_agent::string_map::StringMap;

fn event(client_ip: &str, uri: &str) -> RequestHeadersEvent {
    RequestHeadersEvent {
        client_ip: client_ip.to_string(),
        method: "GET".to_string(),
        uri: uri.to_string(),
        headers: StringMap::new(),
    }
}

fn rule(name: &str, requests_per_second: u32, burst: u32) -> RateLimitRule {
    RateLimitRule {
        name: name.to_string(),
        key: RateLimitKey::ClientIp,
        requests_per_second,
        burst,
        conditions: vec![],
        message: None,
        status_code: None,
    }
}

fn agent(default: RateLimitRule, dry_run: bool) -> RateLimitAgent {
    RateLimitAgent::new(RateLimitConfig { rules: vec![], default, dry_run })
}

fn allowed(response: &AgentResponse) -> bool {
    matches!(response.decision, Decision::Allow)
}

fn counters(agent: &RateLimitAgent) -> (u64, u64, u64, u64) {
    let report = agent.metrics_report_at(Duration::ZERO, 0);
    (
        report.counters[0].value,
        report.counters[1].value,
        report.counters[2].value,
        report.gauges[0].value,
    )
}

fn tokens(agent: &RateLimitAgent) -> Vec<(String, u64)> {
    tokens_at(agent, Duration::ZERO)
}

fn tokens_at(agent: &RateLimitAgent, now: Duration) -> Vec<(String, u64)> {
    let report = agent.metrics_report_at(now, 0);
    let mut tokens: Vec<(String, u64)> = Vec::new();
    for gauge in &report.gauges[1..] {
        assert_eq!(gauge.name, "ratelimit_bucket_tokens");
        tokens.push((gauge.key.clone().unwrap(), gauge.value));
    }
    tokens.sort();
    tokens
}

#[test]
fn burst_is_let_through_and_then_refused() {
    let mut agent = agent(rule("tight", 1, 3), false);
    assert!(allowed(&agent.on_request_headers(event("a", "/"))));
    assert!(allowed(&agent.on_request_headers(event("a", "/"))));
    assert!(allowed(&agent.on_request_headers(event("a", "/"))));
    assert!(!allowed(&agent.on_request_headers(event("a", "/"))));
    assert_eq!(counters(&agent), (4, 3, 1, 1));
}

#[test]
fn burst_of_one() {
    let mut agent = agent(rule("tight", 1, 1), false);
    assert!(allowed(&agent.on_request_headers(event("a", "/"))));
    assert!(!allowed(&agent.on_request_headers(event("a", "/"))));
}

#[test]
fn rule_without_burst_gets_one_seconds_requests() {
    let mut agent = agent(rule("no burst", 2, 0), false);
    assert!(allowed(&agent.on_request_headers(event("a", "/"))));
    assert!(allowed(&agent.on_request_headers(event("a", "/"))));
    assert!(!allowed(&agent.on_request_headers(event("a", "/"))));
}

#[test]
fn rule_without_rate_gets_the_usual_rate() {
    let mut agent = agent(rule("no rate", 0, 0), false);
    let mut let_through = 0;
    for _ in 0..100 {
        if allowed(&agent.on_request_headers(event("a", "/"))) {
            let_through += 1;
        }
    }
    assert_eq!(let_through, 100);
}

#[test]
fn clients_have_buckets_of_their_own() {
    let mut agent = agent(rule("tight", 1, 1), false);
    assert!(allowed(&agent.on_request_headers(event("a", "/"))));
    assert!(!allowed(&agent.on_request_headers(event("a", "/"))));
    assert!(allowed(&agent.on_request_headers(event("b", "/"))));
    assert_eq!(counters(&agent), (3, 2, 1, 2));
}

#[test]
fn a_bucket_keeps_the_quota_it_was_made_with() {
    let mut first = rule("first", 1, 1);
    first.conditions = vec![MatchCondition::Path("/first".to_string())];
    let config =
        RateLimitConfig { rules: vec![first], default: rule("second", 1000, 1000), dry_run: false };
    let mut agent = RateLimitAgent::new(config);
    assert!(allowed(&agent.on_request_headers(event("a", "/first"))));
    assert!(!allowed(&agent.on_request_headers(event("a", "/second"))));
    assert_eq!(counters(&agent).3, 1);
}

#[test]
fn tokens_come_back() {
    let mut agent = agent(rule("quick", 1000, 1), false);
    assert!(allowed(&agent.on_request_headers(event("a", "/"))));
    wait(Duration::from_millis(20));
    assert!(allowed(&agent.on_request_headers(event("a", "/"))));
}

#[test]
fn refused_request_is_answered_with_429() {
    let mut agent = agent(rule("tight", 1, 1), false);
    process_request_headers(&mut agent, event("a", "/"));
    let earliest = chrono::Utc::now().timestamp() + 1;
    let response = process_request_headers(&mut agent, event("a", "/"));
    let latest = chrono::Utc::now().timestamp() + 1;
    match response.decision {
        Decision::Block { status, body, headers } => {
            assert_eq!(status, 429);
            assert_eq!(
                body,
                Some("Rate limit exceeded: 1 requests per second allowed".to_string())
            );
            let headers = headers.unwrap();
            let reset: i64 =
                headers.get(&"X-RateLimit-Reset".to_string()).unwrap().parse().unwrap();
            assert!(earliest <= reset && reset <= latest);
        }
        Decision::Allow => panic!("the second request fits no burst of one"),
    }
}

#[test]
fn dry_run_only_reports() {
    let mut agent = agent(rule("tight", 1, 1), true);
    agent.on_request_headers(event("a", "/"));
    let response = agent.on_request_headers(event("a", "/"));
    assert!(allowed(&response));
    assert_eq!(response.audit.tags, vec!["ratelimit".to_string(), "limited".to_string()]);
    assert_eq!(counters(&agent), (2, 1, 1, 1));
}

#[test]
fn refusal_in_full() {
    let response = request_response(&rule("api", 250, 5), &"10.0.0.1".to_string(), true, false, 1_700_000_001);
    assert_eq!(response.version, 2);
    assert!(!response.needs_more);
    assert!(response.response_headers.is_empty());
    assert!(response.routing_metadata.entries().is_empty());
    match response.decision {
        Decision::Block { status, body, headers } => {
            assert_eq!(status, 429);
            assert_eq!(
                body,
                Some("Rate limit exceeded: 250 requests per second allowed".to_string())
            );
            let headers = headers.unwrap();
            assert_eq!(headers.entries().len(), 4);
            assert_eq!(headers.get(&"X-RateLimit-Limit".to_string()), Some(&"250".to_string()));
            assert_eq!(headers.get(&"X-RateLimit-Remaining".to_string()), Some(&"0".to_string()));
            assert_eq!(
                headers.get(&"X-RateLimit-Reset".to_string()),
                Some(&"1700000001".to_string())
            );
            assert_eq!(headers.get(&"Retry-After".to_string()), Some(&"1".to_string()));
        }
        Decision::Allow => panic!("a limited request is refused"),
    }
    assert_eq!(response.request_headers.len(), 2);
    let HeaderOp::SetValue { name, value } = &response.request_headers[0];
    assert_eq!((name.as_str(), value.as_str()), ("X-RateLimit-Rule", "api"));
    let HeaderOp::SetValue { name, value } = &response.request_headers[1];
    assert_eq!((name.as_str(), value.as_str()), ("X-RateLimit-Key", "10.0.0.1"));
    assert_eq!(response.audit.tags, vec!["ratelimit".to_string(), "limited".to_string()]);
    assert!(response.audit.rule_ids.is_empty());
    assert!(response.audit.reason_codes.is_empty());
    let custom = &response.audit.custom;
    assert_eq!(custom.entries().len(), 4);
    assert!(matches!(custom.get(&"rule".to_string()), Some(AuditValue::Text(t)) if t == "api"));
    assert!(matches!(custom.get(&"key".to_string()), Some(AuditValue::Text(t)) if t == "10.0.0.1"));
    assert!(matches!(custom.get(&"limited".to_string()), Some(AuditValue::Flag(true))));
    assert!(matches!(custom.get(&"rps".to_string()), Some(AuditValue::Number(250))));
}

#[test]
fn refusal_with_the_words_of_the_rule() {
    let mut custom = rule("custom", 1, 1);
    custom.message = Some("come back later".to_string());
    custom.status_code = Some(503);
    let response = request_response(&custom, &"k".to_string(), true, false, 0);
    match response.decision {
        Decision::Block { status, body, .. } => {
            assert_eq!(status, 503);
            assert_eq!(body, Some("come back later".to_string()));
        }
        Decision::Allow => panic!("a limited request is refused"),
    }
}

#[test]
fn request_let_through_in_full() {
    let response = request_response(&rule("api", 250, 5), &"k".to_string(), false, false, 9);
    assert!(allowed(&response));
    assert_eq!(response.version, 2);
    assert_eq!(response.request_headers.len(), 2);
    assert_eq!(response.audit.tags, vec!["ratelimit".to_string()]);
    let custom = &response.audit.custom;
    assert!(matches!(custom.get(&"limited".to_string()), Some(AuditValue::Flag(false))));
}

#[test]
fn new_configuration_drops_the_buckets() {
    let mut agent = agent(rule("tight", 1, 1), false);
    assert!(allowed(&agent.on_request_headers(event("a", "/"))));
    assert!(!allowed(&agent.on_request_headers(event("a", "/"))));
    let config =
        RateLimitConfig { rules: vec![], default: rule("wider", 1, 2), dry_run: false };
    assert!(agent.on_configure(Some(config), Some("v2".to_string())));
    assert_eq!(counters(&agent), (2, 1, 1, 0));
    let response = agent.on_request_headers(event("a", "/"));
    assert!(allowed(&response));
    let HeaderOp::SetValue { value, .. } = &response.request_headers[0];
    assert_eq!(value, "wider");
    assert!(allowed(&agent.on_request_headers(event("a", "/"))));
    assert!(!allowed(&agent.on_request_headers(event("a", "/"))));
}

#[test]
fn failed_configuration_changes_nothing() {
    let mut agent = agent(rule("tight", 1, 1), false);
    agent.on_request_headers(event("a", "/"));
    assert!(!agent.on_configure(None, Some("v2".to_string())));
    assert_eq!(counters(&agent), (1, 1, 0, 1));
    assert!(!allowed(&agent.on_request_headers(event("a", "/"))));
}

#[test]
fn expired_buckets_are_dropped() {
    let mut agent = agent(rule("r", 1, 1), false);
    let rule = rule("r", 1, 1);
    agent.get_or_create_limiter_at("old".to_string(), &rule, Duration::from_nanos(10));
    agent.get_or_create_limiter_at("edge".to_string(), &rule, Duration::from_nanos(20));
    agent.get_or_create_limiter_at("young".to_string(), &rule, Duration::from_nanos(30));
    assert_eq!(counters(&agent).3, 3);
    assert_eq!(agent.remove_expired_limiters(30, 10), 1);
    assert_eq!(counters(&agent).3, 2);
    assert_eq!(agent.remove_expired_limiters(30, 10), 0);
    assert_eq!(agent.remove_expired_limiters(31, 10), 1);
    assert_eq!(agent.remove_expired_limiters(5, 0), 0);
    assert_eq!(agent.remove_expired_limiters(u128::MAX, u128::MAX - 31), 1);
    assert_eq!(counters(&agent).3, 0);
}

#[test]
fn second_use_does_not_renew_a_bucket() {
    let mut agent = agent(rule("r", 1, 1), false);
    let rule = rule("r", 1, 1);
    agent.get_or_create_limiter_at("key".to_string(), &rule, Duration::from_nanos(10));
    agent.get_or_create_limiter_at("key".to_string(), &rule, Duration::from_nanos(90));
    assert_eq!(counters(&agent).3, 1);
    assert_eq!(agent.remove_expired_limiters(100, 50), 1);
}

#[test]
fn cleanup_reads_the_clock() {
    let mut agent = agent(rule("tight", 1, 1), false);
    agent.on_request_headers(event("a", "/"));
    agent.get_or_create_limiter("b".to_string(), &rule("other", 1, 1));
    assert_eq!(agent.cleanup_expired_limiters(Duration::from_secs(300)), 0);
    wait(Duration::from_millis(5));
    assert_eq!(agent.cleanup_expired_limiters(Duration::from_millis(1)), 2);
    assert_eq!(counters(&agent).3, 0);
    assert!(allowed(&agent.on_request_headers(event("a", "/"))));
}

#[test]
fn cleanup_goes_by_the_clock() {
    let mut agent = agent(rule("r", 1, 1), false);
    let rule = rule("r", 1, 1);
    agent.get_or_create_limiter_at("start".to_string(), &rule, Duration::ZERO);
    agent.get_or_create_limiter_at("later".to_string(), &rule, Duration::from_secs(400));
    assert_eq!(agent.cleanup_expired_limiters(Duration::from_secs(300)), 0);
    assert_eq!(tokens(&agent), vec![("later".to_string(), 1), ("start".to_string(), 1)]);
    assert_eq!(agent.remove_expired_limiters(100_000_000_000, 300_000_000_000), 0);
    assert_eq!(agent.remove_expired_limiters(300_000_000_001, 300_000_000_000), 1);
    assert_eq!(tokens(&agent), vec![("later".to_string(), 1)]);
}

#[test]
fn greater_age_keeps_more_buckets() {
    let rule = rule("r", 1, 1);
    let mut kept: Vec<u64> = Vec::new();
    for max_age in [0, 5, 15, 25] {
        let mut agent = agent(rule.clone(), false);
        agent.get_or_create_limiter_at("a".to_string(), &rule, Duration::from_nanos(10));
        agent.get_or_create_limiter_at("b".to_string(), &rule, Duration::from_nanos(20));
        agent.get_or_create_limiter_at("c".to_string(), &rule, Duration::from_nanos(30));
        agent.remove_expired_limiters(30, max_age);
        kept.push(counters(&agent).3);
    }
    assert_eq!(kept, vec![1, 1, 2, 3]);
}

#[test]
fn greatest_age_drops_nothing() {
    let mut agent = agent(rule("r", 1, 1), false);
    let rule = rule("r", 1, 1);
    agent.get_or_create_limiter_at("start".to_string(), &rule, Duration::ZERO);
    agent.get_or_create_limiter_at("end".to_string(), &rule, Duration::MAX);
    assert_eq!(agent.cleanup_expired_limiters(Duration::MAX), 0);
    assert_eq!(counters(&agent).3, 2);
}

#[test]
fn tokens_go_down_with_the_requests() {
    let mut agent = agent(rule("slow", 1, 3), false);
    assert_eq!(tokens(&agent), vec![]);
    agent.get_or_create_limiter("a".to_string(), &rule("slow", 1, 3));
    assert_eq!(tokens(&agent), vec![("a".to_string(), 3)]);
    for left in [2, 1, 0] {
        assert!(allowed(&agent.on_request_headers(event("a", "/"))));
        assert_eq!(tokens(&agent), vec![("a".to_string(), left)]);
    }
    assert!(!allowed(&agent.on_request_headers(event("a", "/"))));
    assert_eq!(tokens(&agent), vec![("a".to_string(), 0)]);
}

#[test]
fn every_key_has_its_tokens() {
    let mut agent = agent(rule("slow", 1, 5), false);
    agent.on_request_headers(event("a", "/"));
    agent.on_request_headers(event("b", "/"));
    agent.on_request_headers(event("b", "/"));
    agent.get_or_create_limiter("c".to_string(), &rule("other", 1, 7));
    assert_eq!(
        tokens(&agent),
        vec![("a".to_string(), 4), ("b".to_string(), 3), ("c".to_string(), 7)]
    );
}

#[test]
fn bucket_without_refill_interval_stays_full() {
    let mut agent = agent(rule("fastest", 1_000_000_001, 2), false);
    for _ in 0..10 {
        assert!(allowed(&agent.on_request_headers(event("a", "/"))));
        assert_eq!(tokens(&agent), vec![("a".to_string(), 2)]);
    }
}

#[test]
fn shortest_refill_interval() {
    let mut agent = agent(rule("fast", 1_000_000_000, 4_000_000_000), false);
    assert!(allowed(&agent.on_request_headers(event("a", "/"))));
    assert_eq!(tokens(&agent), vec![("a".to_string(), 3_999_999_999)]);
}

#[test]
fn rate_holds_over_a_window() {
    let mut agent = agent(rule("thousand", 1000, 1000), false);
    let start = Instant::now();
    let mut let_through: u128 = 0;
    while start.elapsed() < Duration::from_millis(50) {
        if allowed(&agent.on_request_headers(event("a", "/"))) {
            let_through += 1;
        }
    }
    let window = start.elapsed().as_millis();
    assert!(let_through <= 1000 + window + 1);
    let (total, passed, limited, _) = counters(&agent);
    assert_eq!(passed as u128, let_through);
    assert_eq!(total, passed + limited);
}

fn wait(time: Duration) {
    let start = Instant::now();
    while start.elapsed() < time {}
}

#[test]
fn tokens_come_back_with_time() {
    let mut agent = agent(rule("slow", 1, 3), false);
    for _ in 0..3 {
        assert!(allowed(&agent.on_request_headers(event("a", "/"))));
    }
    for (millis, expected) in [(500, 0), (1_500, 1), (2_500, 2), (3_500, 3), (100_000, 3)] {
        assert_eq!(
            tokens_at(&agent, Duration::from_millis(millis)),
            vec![("a".to_string(), expected)]
        );
    }
    assert_eq!(tokens_at(&agent, Duration::MAX), vec![("a".to_string(), 3)]);
}

#[test]
fn refusal_does_not_hold_the_next_token_back() {
    let mut agent = agent(rule("slow", 1, 1), false);
    assert!(allowed(&agent.on_request_headers(event("a", "/"))));
    wait(Duration::from_millis(300));
    assert!(!allowed(&agent.on_request_headers(event("a", "/"))));
    assert_eq!(tokens_at(&agent, Duration::from_millis(900)), vec![("a".to_string(), 0)]);
    assert_eq!(tokens_at(&agent, Duration::from_millis(1_150)), vec![("a".to_string(), 1)]);
}

#[test]
fn request_does_not_hold_the_next_token_back() {
    let mut agent = agent(rule("slow", 1, 2), false);
    assert!(allowed(&agent.on_request_headers(event("a", "/"))));
    wait(Duration::from_millis(300));
    assert!(allowed(&agent.on_request_headers(event("a", "/"))));
    assert_eq!(tokens_at(&agent, Duration::from_millis(900)), vec![("a".to_string(), 0)]);
    assert_eq!(tokens_at(&agent, Duration::from_millis(1_150)), vec![("a".to_string(), 1)]);
    assert_eq!(tokens_at(&agent, Duration::from_millis(2_150)), vec![("a".to_string(), 2)]);
}

#[test]
fn report_tells_the_tokens_of_the_moment() {
    let mut agent = agent(rule("quick", 100, 1), false);
    assert!(allowed(&agent.on_request_headers(event("a", "/"))));
    assert_eq!(tokens(&agent), vec![("a".to_string(), 0)]);
    wait(Duration::from_millis(50));
    let report = agent.metrics_report().unwrap();
    assert_eq!(report.gauges[1].value, 1);
    assert!(allowed(&agent.on_request_headers(event("a", "/"))));
}

#[test]
fn idle_bucket_is_full_after_a_request() {
    let mut agent = agent(rule("quick", 100, 2), false);
    assert!(allowed(&agent.on_request_headers(event("a", "/"))));
    assert_eq!(tokens(&agent), vec![("a".to_string(), 1)]);
    wait(Duration::from_millis(100));
    assert!(allowed(&agent.on_request_headers(event("a", "/"))));
    assert_eq!(tokens(&agent), vec![("a".to_string(), 2)]);
}
