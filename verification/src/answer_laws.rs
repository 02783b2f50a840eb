//! What holds of answers, reports, numerals and times.
use std::time::SystemTime;

use vstd::prelude::*;

use crate::agent::AgentModel;
#[allow(unused_imports)]
use crate::clock::{millis_of_reading, second_of_reading, since_unix_epoch_nanos};
use crate::config::RuleModel;
#[allow(unused_imports)]
use crate::limiters::current_tokens;
#[allow(unused_imports)]
use crate::report::{capabilities_model, health_of, load_of, reports};
use crate::report::{
    AgentCapabilities, EventType, GaugeMetric, HealthState, HealthStatus, MetricsReport,
    ReportModel,
};
#[allow(unused_imports)]
use crate::response::{bare_response, empty_audit, response_model};
use crate::response::{
    AgentResponse, AuditMetadata, AuditValue, AuditValueModel, Decision, DecisionModel, HeaderOp,
    HeaderOpModel,
};
#[allow(unused_imports)]
use crate::text::{decimal, signed_decimal};

verus! {

/// The numeral of a number below ten is its digit; a further digit is written behind the numeral
/// of the number before it. So all numerals are made of digits and none begins with a zero but
/// that of zero.
pub proof fn numerals_grow_by_digits(n: nat, d: nat)
    requires
        d < 10,
    ensures
        decimal(d).len() == 1,
        decimal(d)[0] as int == '0' as int + d,
        n > 0 ==> decimal(10 * n + d) == decimal(n) + decimal(d),
{
    if n > 0 {
        assert((10 * n + d) / 10 == n && (10 * n + d) % 10 == d);
        assert(decimal(10 * n + d) =~= decimal(n) + decimal(d));
    }
}

/// Different numbers have different numerals.
pub proof fn numerals_tell_numbers_apart(n: nat, m: nat)
    ensures
        decimal(n) == decimal(m) <==> n == m,
{
    crate::text::decimal_round_trip(n);
    crate::text::decimal_round_trip(m);
}

/// An integer from 0 on is written as a number, and a negative one as its opposite behind a minus
/// sign.
pub proof fn negative_numerals_have_a_sign(n: nat)
    ensures
        signed_decimal(n as int) == decimal(n),
        n > 0 ==> signed_decimal(-n) == seq!['-'] + decimal(n),
{
}

/// The second of a reading of the system clock is the one that the reading lies in, as long as
/// the calendar lasts, and 0 for readings that have none.
pub proof fn second_is_the_one_of_the_reading(time: SystemTime)
    ensures
        since_unix_epoch_nanos(time) is None ==> second_of_reading(time) == 0,
        since_unix_epoch_nanos(time) matches Some(nanos) ==> {
            let second = second_of_reading(time);
            &&& nanos < 8_210_266_876_799 * 1_000_000_000 ==> second * 1_000_000_000 <= nanos < (
            second + 1) * 1_000_000_000
            &&& nanos >= 8_210_266_876_799 * 1_000_000_000 ==> second == 0
        },
{
}

/// The milliseconds of a reading of the system clock are those that are over, as long as they fit
/// into 64 bits, and 0 for readings from before the epoch.
pub proof fn milliseconds_are_those_over(time: SystemTime)
    ensures
        since_unix_epoch_nanos(time) is None ==> millis_of_reading(time) == 0,
        since_unix_epoch_nanos(time) matches Some(nanos) ==> (nanos < 0x1_0000_0000_0000_0000
            * 1_000_000 ==> millis_of_reading(time) * 1_000_000 <= nanos < (millis_of_reading(time)
            + 1) * 1_000_000),
{
}

/// A request is refused exactly if its limit is reached and the agent does not only report. The
/// refusal has the status and the message of the rule, or else 429 and a message that tells the
/// limit, and exactly the four headers; everything else goes on.
pub proof fn decision_in_full(
    rule: RuleModel,
    key: Seq<char>,
    limited: bool,
    dry_run: bool,
    reset: int,
)
    ensures
        ({
            let answer = response_model(rule, key, limited, dry_run, reset);
            let limit = decimal(rule.requests_per_second as nat);
            &&& !limited || dry_run <==> answer.decision is Allow
            &&& limited && !dry_run ==> {
                &&& answer.decision matches DecisionModel::Block {
                    status,
                    body: Some(body),
                    headers: Some(headers),
                }
                &&& rule.status_code is Some ==> status == rule.status_code->0
                &&& rule.status_code is None ==> status == 429
                &&& rule.message is Some ==> body == rule.message->0
                &&& rule.message is None ==> body == "Rate limit exceeded: "@ + limit
                    + " requests per second allowed"@
                &&& forall|name: Seq<char>| #[trigger]
                    headers.contains_key(name) <==> name == "X-RateLimit-Limit"@ || name
                        == "X-RateLimit-Remaining"@ || name == "X-RateLimit-Reset"@ || name
                        == "Retry-After"@
                &&& headers["X-RateLimit-Limit"@] == limit
                &&& headers["X-RateLimit-Remaining"@] == "0"@
                &&& headers["X-RateLimit-Reset"@] == signed_decimal(reset)
                &&& headers["Retry-After"@] == "1"@
            }
        }),
{
    reveal_strlit("X-RateLimit-Limit");
    reveal_strlit("X-RateLimit-Remaining");
    reveal_strlit("X-RateLimit-Reset");
    reveal_strlit("Retry-After");
    assert("X-RateLimit-Limit"@.len() == 17);
    assert("X-RateLimit-Remaining"@.len() == 21);
    assert("X-RateLimit-Reset"@.len() == 17);
    assert("Retry-After"@.len() == 11);
    assert("X-RateLimit-Limit"@[12] == 'L');
    assert("X-RateLimit-Reset"@[12] == 'R');
}

/// Whatever the decision, the answer sets the two request headers to the rule and the key, whole
/// and in this order, tags the audit record with whether the limit was reached, records the rule,
/// the key, whether the limit was reached and the rate and nothing else, and is otherwise empty.
pub proof fn answer_in_full(
    rule: RuleModel,
    key: Seq<char>,
    limited: bool,
    dry_run: bool,
    reset: int,
)
    ensures
        ({
            let answer = response_model(rule, key, limited, dry_run, reset);
            let custom = answer.audit.custom;
            &&& answer.version == 2
            &&& !answer.needs_more
            &&& answer.request_headers.len() == 2
            &&& answer.request_headers[0] == (HeaderOpModel::SetValue {
                name: "X-RateLimit-Rule"@,
                value: rule.name,
            })
            &&& answer.request_headers[1] == (HeaderOpModel::SetValue {
                name: "X-RateLimit-Key"@,
                value: key,
            })
            &&& answer.response_headers.len() == 0
            &&& forall|name: Seq<char>| !(#[trigger] answer.routing_metadata.contains_key(name))
            &&& answer.audit.rule_ids.len() == 0
            &&& answer.audit.reason_codes.len() == 0
            &&& answer.audit.tags == (if limited {
                seq!["ratelimit"@, "limited"@]
            } else {
                seq!["ratelimit"@]
            })
            &&& forall|name: Seq<char>| #[trigger]
                custom.contains_key(name) <==> name == "rule"@ || name == "key"@ || name
                    == "limited"@ || name == "rps"@
            &&& custom["rule"@] == AuditValueModel::Text(rule.name)
            &&& custom["key"@] == AuditValueModel::Text(key)
            &&& custom["limited"@] == AuditValueModel::Flag(limited)
            &&& custom["rps"@] == AuditValueModel::Number(rule.requests_per_second)
        }),
{
    reveal_strlit("rule");
    reveal_strlit("key");
    reveal_strlit("limited");
    reveal_strlit("rps");
    assert("rule"@.len() == 4);
    assert("key"@.len() == 3);
    assert("rps"@.len() == 3);
    assert("limited"@.len() == 7);
    assert("key"@[0] == 'k');
    assert("rps"@[0] == 'r');
}

/// An answer that only gives a decision gives that one and is otherwise empty.
pub proof fn bare_answer_is_empty(decision: DecisionModel, name: Seq<char>)
    ensures
        ({
            let answer = bare_response(decision);
            &&& answer.decision == decision
            &&& answer.version == 2
            &&& !answer.needs_more
            &&& answer.request_headers.len() == 0
            &&& answer.response_headers.len() == 0
            &&& !answer.routing_metadata.contains_key(name)
            &&& answer.audit.tags.len() == 0
            &&& answer.audit.rule_ids.len() == 0
            &&& answer.audit.reason_codes.len() == 0
            &&& !answer.audit.custom.contains_key(name)
        }),
        empty_audit().tags.len() == 0,
        empty_audit().rule_ids.len() == 0,
        empty_audit().reason_codes.len() == 0,
        !empty_audit().custom.contains_key(name),
{
}

/// The content of an answer is what its fields hold, whole.
pub proof fn response_content_is_whole(response: AgentResponse, name: Seq<char>)
    ensures
        response@.version == response.version,
        response@.needs_more == response.needs_more,
        response@.decision == response.decision@,
        response@.audit == response.audit@,
        response@.request_headers.len() == response.request_headers.len(),
        forall|i: int|
            0 <= i < response.request_headers.len() ==> (#[trigger] response@.request_headers[i])
                == response.request_headers[i]@,
        response@.response_headers.len() == response.response_headers.len(),
        forall|i: int|
            0 <= i < response.response_headers.len() ==> (#[trigger] response@.response_headers[i])
                == response.response_headers[i]@,
        response@.routing_metadata.contains_key(name) == response.routing_metadata@.contains_key(
            name,
        ),
        response.routing_metadata@.contains_key(name) ==> response@.routing_metadata[name]
            == response.routing_metadata@[name]@,
{
}

/// The content of a decision is of its kind, with its status, body and headers whole.
pub proof fn decision_content_is_whole(decision: Decision, name: Seq<char>)
    ensures
        decision is Allow <==> decision@ is Allow,
        decision matches Decision::Block { status, body, headers } ==> {
            &&& decision@ matches DecisionModel::Block {
                status: told_status,
                body: told_body,
                headers: told_headers,
            }
            &&& told_status == status
            &&& told_body is Some == body is Some
            &&& body is Some ==> told_body->0 == (body->0)@
            &&& told_headers is Some == headers is Some
            &&& headers is Some ==> told_headers->0.contains_key(name)
                == (headers->0)@.contains_key(name)
            &&& headers is Some && (headers->0)@.contains_key(name) ==> told_headers->0[name]
                == (headers->0)@[name]@
        },
{
}

/// The contents of header changes and audit records are what their fields hold, whole.
pub proof fn audit_content_is_whole(
    op: HeaderOp,
    value: AuditValue,
    audit: AuditMetadata,
    name: Seq<char>,
    i: int,
)
    ensures
        op matches HeaderOp::SetValue { name, value } ==> op@ == (HeaderOpModel::SetValue {
            name: name@,
            value: value@,
        }),
        value matches AuditValue::Text(text) ==> value@ == AuditValueModel::Text(text@),
        value matches AuditValue::Flag(flag) ==> value@ == AuditValueModel::Flag(flag),
        value matches AuditValue::Number(number) ==> value@ == AuditValueModel::Number(number),
        audit@.tags.len() == audit.tags.len(),
        0 <= i < audit.tags.len() ==> audit@.tags[i] == audit.tags[i]@,
        audit@.rule_ids.len() == audit.rule_ids.len(),
        0 <= i < audit.rule_ids.len() ==> audit@.rule_ids[i] == audit.rule_ids[i]@,
        audit@.reason_codes.len() == audit.reason_codes.len(),
        0 <= i < audit.reason_codes.len() ==> audit@.reason_codes[i] == audit.reason_codes[i]@,
        audit@.custom.contains_key(name) == audit.custom@.contains_key(name),
        audit.custom@.contains_key(name) ==> audit@.custom[name] == audit.custom@[name]@,
{
}

/// The agent is reported as draining, with the message, exactly if it was told to drain or to
/// shut down, whatever its counters are, and as healthy otherwise. The report has the load, the
/// time and nothing else.
pub proof fn health_tells_whether_draining(agent: AgentModel, time_ms: u64)
    ensures
        ({
            let health = health_of(agent, time_ms);
            &&& health.state == (HealthState::Draining { eta_ms: None }) <==> agent.draining
            &&& health.state == HealthState::Healthy <==> !agent.draining
            &&& agent.draining ==> health.message == Some("Agent is draining"@)
            &&& !agent.draining ==> health.message is None
            &&& health.agent_id == "ratelimit-agent"@
            &&& health.timestamp_ms == time_ms
            &&& health.valid_until_ms is None
            &&& health.load == Some(load_of(agent))
        }),
{
}

/// Telling an agent to drain shows in its health at once, and shows in nothing else of it.
pub proof fn draining_shows_in_the_health(agent: AgentModel, time_ms: u64)
    ensures
        ({
            let draining = AgentModel { draining: true, ..agent };
            let health = health_of(draining, time_ms);
            &&& health.state == (HealthState::Draining { eta_ms: None })
            &&& health.message == Some("Agent is draining"@)
            &&& health.load == health_of(agent, time_ms).load
            &&& health.agent_id == health_of(agent, time_ms).agent_id
            &&& health.timestamp_ms == health_of(agent, time_ms).timestamp_ms
        }),
{
}

/// The load tells the requests and those of them that were limited; the agent has no queue, takes
/// no time and lets nothing time out.
pub proof fn load_tells_the_requests(agent: AgentModel)
    ensures
        ({
            let load = load_of(agent);
            &&& load.requests_processed == agent.metrics.requests_total
            &&& load.requests_rejected == agent.metrics.requests_limited
            &&& load.requests_timed_out == 0
            &&& load.in_flight == 0
            &&& load.queue_depth == 0
            &&& load.avg_latency_ms == 0
            &&& load.p50_latency_ms == 0
            &&& load.p95_latency_ms == 0
            &&& load.p99_latency_ms == 0
        }),
{
}

/// The agent declares the version that it is given, whole, and else the same in every version:
/// that it handles request heads and pushed configurations.
pub proof fn capabilities_tell_the_version(version: Seq<char>, other: Seq<char>)
    ensures
        ({
            let told = capabilities_model(version);
            &&& told.version == version
            &&& told == (crate::report::CapabilitiesModel { version, ..capabilities_model(other) })
            &&& told.agent_id == "ratelimit-agent"@
            &&& told.name == "Zentinel Rate Limit Agent"@
            &&& told.protocol_version == 2
            &&& told.supported_events == seq![EventType::RequestHeaders, EventType::Configure]
            &&& told.features.config_push && told.features.metrics_export
                && told.features.health_reporting
        }),
{
}

/// A report tells each counter under its name, the number of buckets, and for each bucket, and
/// nothing else, its tokens at that time under its key.
pub proof fn report_in_full(
    agent: AgentModel,
    now: nat,
    time_ms: u64,
    report: ReportModel,
    key: Seq<char>,
)
    requires
        reports(agent, now, time_ms, report),
    ensures
        report.agent_id == "ratelimit-agent"@,
        report.timestamp_ms == time_ms,
        report.interval_ms == 10_000,
        report.counters.len() == 3,
        report.counters[0].0 == "ratelimit_requests_total"@,
        report.counters[0].1 == agent.metrics.requests_total,
        report.counters[1].0 == "ratelimit_allowed_total"@,
        report.counters[1].1 == agent.metrics.requests_allowed,
        report.counters[2].0 == "ratelimit_limited_total"@,
        report.counters[2].1 == agent.metrics.requests_limited,
        report.gauges.len() > 0,
        report.gauges[0].name == "ratelimit_active_limiters"@,
        report.gauges[0].key is None,
        report.gauges[0].value == agent.metrics.active_limiters,
        forall|i: int|
            0 < i < report.gauges.len() ==> {
                &&& (#[trigger] report.gauges[i]).name == "ratelimit_bucket_tokens"@
                &&& report.gauges[i].key is Some
                &&& agent.buckets.contains_key(report.gauges[i].key->0)
                &&& report.gauges[i].value == current_tokens(
                    agent.buckets[report.gauges[i].key->0],
                    now,
                )
            },
        agent.buckets.contains_key(key) <==> exists|i: int|
            0 < i < report.gauges.len() && (#[trigger] report.gauges[i]).key == Some(key),
{
    let tokens = report.gauges.drop_first();
    assert forall|i: int| 0 < i < report.gauges.len() implies ({
        &&& (#[trigger] report.gauges[i]).name == "ratelimit_bucket_tokens"@
        &&& report.gauges[i].key is Some
        &&& agent.buckets.contains_key(report.gauges[i].key->0)
        &&& report.gauges[i].value == current_tokens(
            agent.buckets[report.gauges[i].key->0],
            now,
        )
    }) by {
        assert(tokens[i - 1] == report.gauges[i]);
        crate::rates::tokens_only_come_back(agent.buckets[report.gauges[i].key->0], now, now);
    }
    if agent.buckets.contains_key(key) {
        let k = choose|k: int| 0 <= k < tokens.len() && (#[trigger] tokens[k]).key == Some(key);
        assert(tokens[k] == report.gauges[k + 1]);
    }
}

/// The contents of reports are what their fields hold, whole.
pub proof fn report_content_is_whole(
    report: MetricsReport,
    gauge: GaugeMetric,
    status: HealthStatus,
    capabilities: AgentCapabilities,
    i: int,
)
    ensures
        report@.agent_id == report.agent_id@,
        report@.timestamp_ms == report.timestamp_ms,
        report@.interval_ms == report.interval_ms,
        report@.counters.len() == report.counters.len(),
        0 <= i < report.counters.len() ==> report@.counters[i].0 == report.counters[i].name@
            && report@.counters[i].1 == report.counters[i].value,
        report@.gauges.len() == report.gauges.len(),
        0 <= i < report.gauges.len() ==> report@.gauges[i] == report.gauges[i]@,
        gauge@.name == gauge.name@,
        gauge@.value == gauge.value,
        gauge@.key is Some == gauge.key is Some,
        gauge.key is Some ==> gauge@.key->0 == (gauge.key->0)@,
        status@.agent_id == status.agent_id@,
        status@.state == status.state,
        status@.load == status.load,
        status@.valid_until_ms == status.valid_until_ms,
        status@.timestamp_ms == status.timestamp_ms,
        status@.message is Some == status.message is Some,
        status.message is Some ==> status@.message->0 == (status.message->0)@,
        capabilities@.protocol_version == capabilities.protocol_version,
        capabilities@.agent_id == capabilities.agent_id@,
        capabilities@.name == capabilities.name@,
        capabilities@.version == capabilities.version@,
        capabilities@.supported_events == capabilities.supported_events@,
        capabilities@.features == capabilities.features,
        capabilities@.limits == capabilities.limits,
        capabilities@.health == capabilities.health,
{
}

} // verus!
