use ratelimit_agent::agent::RateLimitAgent;
use ratelimit_agent::config::{
    MatchCondition, RateLimitConfig, RateLimitKey, RateLimitRule, RouteLimits,
};
use ratelimit_agent::event::RequestHeadersEvent;
use ratelimit_agent::string_map::StringMap;

fn event(client_ip: &str, method: &str, uri: &str) -> RequestHeadersEvent {
    RequestHeadersEvent {
        client_ip: client_ip.to_string(),
        method: method.to_string(),
        uri: uri.to_string(),
        headers: StringMap::new(),
    }
}

fn event_with_header(name: &str, values: &[&str]) -> RequestHeadersEvent {
    let mut event = event("10.0.0.1", "GET", "/");
    event.headers.insert(name.to_string(), values.iter().map(|v| v.to_string()).collect());
    event
}

fn rule(name: &str, conditions: Vec<MatchCondition>) -> RateLimitRule {
    RateLimitRule {
        name: name.to_string(),
        key: RateLimitKey::ClientIp,
        requests_per_second: 10,
        burst: 5,
        conditions,
        message: None,
        status_code: None,
    }
}

fn agent(rules: Vec<RateLimitRule>) -> RateLimitAgent {
    RateLimitAgent::new(RateLimitConfig { rules, default: rule("default", vec![]), dry_run: false })
}

fn prefix(text: &str) -> MatchCondition {
    MatchCondition::PathPrefix(text.to_string())
}

#[test]
fn path_prefix_condition() {
    let condition = prefix("/api/");
    assert!(condition.holds(&event("a", "GET", "/api/v1")));
    assert!(condition.holds(&event("a", "GET", "/api/")));
    assert!(!condition.holds(&event("a", "GET", "/api")));
    assert!(!condition.holds(&event("a", "GET", "/v1/api/")));
    assert!(prefix("").holds(&event("a", "GET", "")));
    assert!(prefix("/caf\u{e9}").holds(&event("a", "GET", "/caf\u{e9}/menu")));
    assert!(!prefix("/caf\u{e9}").holds(&event("a", "GET", "/cafe/menu")));
}

#[test]
fn exact_path_condition() {
    let condition = MatchCondition::Path("/login".to_string());
    assert!(condition.holds(&event("a", "GET", "/login")));
    assert!(!condition.holds(&event("a", "GET", "/login/")));
    assert!(!condition.holds(&event("a", "GET", "/Login")));
}

#[test]
fn header_condition_by_presence() {
    let condition = MatchCondition::Header { name: "x-api-key".to_string(), value: None };
    assert!(condition.holds(&event_with_header("x-api-key", &["k"])));
    assert!(condition.holds(&event_with_header("x-api-key", &[])));
    assert!(!condition.holds(&event_with_header("X-Api-Key", &["k"])));
    assert!(!condition.holds(&event("a", "GET", "/")));
}

#[test]
fn header_condition_by_value() {
    let condition = MatchCondition::Header {
        name: "x-tier".to_string(),
        value: Some("free".to_string()),
    };
    assert!(condition.holds(&event_with_header("x-tier", &["free"])));
    assert!(condition.holds(&event_with_header("x-tier", &["paid", "free"])));
    assert!(!condition.holds(&event_with_header("x-tier", &["paid"])));
    assert!(!condition.holds(&event_with_header("x-tier", &[])));
    assert!(!condition.holds(&event_with_header("x-other", &["free"])));
}

#[test]
fn method_condition_ignores_case() {
    let condition = MatchCondition::Method(vec!["POST".to_string(), "put".to_string()]);
    assert!(condition.holds(&event("a", "POST", "/")));
    assert!(condition.holds(&event("a", "post", "/")));
    assert!(condition.holds(&event("a", "PUT", "/")));
    assert!(!condition.holds(&event("a", "GET", "/")));
    assert!(!MatchCondition::Method(vec![]).holds(&event("a", "GET", "/")));
}

#[test]
fn method_condition_folds_ascii_letters_only() {
    let condition = MatchCondition::Method(vec!["\u{c9}TAT".to_string()]);
    assert!(condition.holds(&event("a", "\u{c9}tat", "/")));
    assert!(!condition.holds(&event("a", "\u{e9}tat", "/")));
}

#[test]
fn all_conditions_must_hold() {
    let agent = agent(vec![]);
    let conditions = vec![prefix("/api"), MatchCondition::Method(vec!["GET".to_string()])];
    assert!(agent.matches_conditions(&conditions, &event("a", "GET", "/api")));
    assert!(!agent.matches_conditions(&conditions, &event("a", "POST", "/api")));
    assert!(!agent.matches_conditions(&conditions, &event("a", "GET", "/")));
    assert!(agent.matches_conditions(&[], &event("a", "GET", "/")));
}

#[test]
fn first_matching_rule_is_found() {
    let agent = agent(vec![
        rule("upload", vec![prefix("/api/upload")]),
        rule("api", vec![prefix("/api")]),
        rule("late", vec![prefix("/api/upload")]),
    ]);
    assert_eq!(agent.find_matching_rule(&event("a", "GET", "/api/upload/1")).name, "upload");
    assert_eq!(agent.find_matching_rule(&event("a", "GET", "/api/search")).name, "api");
    assert_eq!(agent.find_matching_rule(&event("a", "GET", "/")).name, "default");
}

#[test]
fn rule_without_conditions_takes_all() {
    let agent = agent(vec![rule("all", vec![]), rule("api", vec![prefix("/api")])]);
    assert_eq!(agent.find_matching_rule(&event("a", "GET", "/api")).name, "all");
}

#[test]
fn found_rule_is_a_full_copy() {
    let original = RateLimitRule {
        name: "full".to_string(),
        key: RateLimitKey::Composite(vec![RateLimitKey::Path, RateLimitKey::Header("h".to_string())]),
        requests_per_second: 7,
        burst: 3,
        conditions: vec![
            prefix("/"),
            MatchCondition::Method(vec!["GET".to_string()]),
        ],
        message: Some("slow down".to_string()),
        status_code: Some(503),
    };
    let expected = format!("{:?}", original);
    let agent = agent(vec![original]);
    let found = agent.find_matching_rule(&event("a", "GET", "/"));
    assert_eq!(format!("{:?}", found), expected);
}

#[test]
fn simple_keys() {
    let agent = agent(vec![]);
    let event = event("10.1.2.3", "PATCH", "/a/b?c=d");
    assert_eq!(agent.generate_key(&RateLimitKey::ClientIp, &event), "10.1.2.3");
    assert_eq!(agent.generate_key(&RateLimitKey::Path, &event), "/a/b?c=d");
    assert_eq!(agent.generate_key(&RateLimitKey::Method, &event), "PATCH");
    assert_eq!(agent.generate_key(&RateLimitKey::Global, &event), "global");
}

#[test]
fn header_keys() {
    let agent = agent(vec![]);
    let key = RateLimitKey::Header("x-api-key".to_string());
    assert_eq!(agent.generate_key(&key, &event_with_header("x-api-key", &["one", "two"])), "one");
    assert_eq!(agent.generate_key(&key, &event_with_header("x-api-key", &[])), "unknown_x-api-key");
    assert_eq!(agent.generate_key(&key, &event("a", "GET", "/")), "unknown_x-api-key");
}

#[test]
fn composite_keys() {
    let agent = agent(vec![]);
    let event = event("10.1.2.3", "GET", "/a");
    let pair = RateLimitKey::Composite(vec![RateLimitKey::ClientIp, RateLimitKey::Path]);
    assert_eq!(agent.generate_key(&pair, &event), "10.1.2.3:/a");
    let nested = RateLimitKey::Composite(vec![
        RateLimitKey::Method,
        pair,
        RateLimitKey::Composite(vec![]),
        RateLimitKey::Global,
    ]);
    assert_eq!(agent.generate_key(&nested, &event), "GET:10.1.2.3:/a::global");
    assert_eq!(agent.generate_key(&RateLimitKey::Composite(vec![]), &event), "");
    let single = RateLimitKey::Composite(vec![RateLimitKey::Path]);
    assert_eq!(agent.generate_key(&single, &event), "/a");
}

#[test]
fn default_configuration() {
    let config = RateLimitConfig::default();
    assert!(config.rules.is_empty());
    assert!(!config.dry_run);
    assert_eq!(config.default.name, "default");
    assert!(matches!(config.default.key, RateLimitKey::ClientIp));
    assert_eq!(config.default.requests_per_second, 100);
    assert_eq!(config.default.burst, 10);
    assert!(config.default.conditions.is_empty());
    assert_eq!(config.default.message, None);
    assert_eq!(config.default.status_code, None);
}

#[test]
fn configuration_from_limits() {
    let config = RateLimitConfig::with_default_limits(7, 3, true);
    assert!(config.dry_run);
    assert!(config.rules.is_empty());
    assert_eq!(config.default.name, "default");
    assert_eq!(config.default.requests_per_second, 7);
    assert_eq!(config.default.burst, 3);
}

fn route(path: &str, requests_per_second: u32, burst: u32) -> RouteLimits {
    RouteLimits { path: path.to_string(), requests_per_second, burst }
}

#[test]
fn routes_have_limits_of_their_own() {
    let config = RateLimitConfig::with_routes(
        100,
        10,
        vec![route("/api/v1/upload", 10, 2), route("/api/v1/search", 50, 5)],
        RateLimitKey::Header("X-API-Key".to_string()),
        false,
    );
    assert_eq!(config.rules.len(), 2);
    assert!(!config.dry_run);
    let agent = RateLimitAgent::new(config);
    for (uri, requests_per_second, burst) in [
        ("/api/v1/upload", 10, 2),
        ("/api/v1/search", 50, 5),
        ("/api/v1/upload/x", 100, 10),
        ("/", 100, 10),
    ] {
        let rule = agent.find_matching_rule(&event("a", "GET", uri));
        assert_eq!((rule.requests_per_second, rule.burst), (requests_per_second, burst));
        assert!(matches!(rule.key, RateLimitKey::Header(name) if name == "X-API-Key"));
        assert_eq!((rule.message, rule.status_code), (None, None));
    }
}

#[test]
fn first_of_two_routes_with_one_path() {
    let config = RateLimitConfig::with_routes(
        100,
        10,
        vec![route("/x", 1, 1), route("/x", 2, 2)],
        RateLimitKey::ClientIp,
        true,
    );
    assert!(config.dry_run);
    assert!(matches!(&config.rules[0].conditions[..], [MatchCondition::Path(path)] if path == "/x"));
    let agent = RateLimitAgent::new(config);
    let rule = agent.find_matching_rule(&event("a", "GET", "/x"));
    assert_eq!((rule.name.as_str(), rule.burst), ("/x", 1));
    let rule = agent.find_matching_rule(&event("a", "GET", "/y"));
    assert_eq!((rule.name.as_str(), rule.burst), ("default", 10));
}
