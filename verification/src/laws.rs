//! What holds of the agent as a whole.
#[allow(unused_imports)]
use std::time::{Duration, Instant};

use vstd::prelude::*;

#[allow(unused_imports)]
use crate::agent::{
    after_request, consistent, count_up, deciding_bucket, initial_agent, next_u64,
    reconfigured, request_allowed, request_answer, request_effect, request_step, usize_values,
    with_bucket, without_expired,
};
use crate::agent::{AgentModel, Readings};
#[allow(unused_imports)]
use crate::clock::{duration_nanos, is_duration, nanos_between, second_of_reading};
use crate::config::{ConditionModel, ConfigModel, KeyModel, RouteModel, RuleModel};
#[allow(unused_imports)]
use crate::config::{route_config, route_rule};
use crate::event::EventModel;
#[allow(unused_imports)]
use crate::limiters::{
    answer_keeps_bucket_consistent, answered, bucket_consistent, current_tokens, lets_through,
    new_bucket, refill_interval, refill_interval_of_rate, rule_quota,
};
#[allow(unused_imports)]
use crate::rates::{
    answers_from, answers_keep_the_refills_known, available, bucket_fills_up_again,
    burst_is_let_through, every_window_is_bounded,
    first_window_is_bounded, let_through, let_through_at_most, let_through_by, lets_through_from,
    one_interval_later_is_let_through, rate_bounds_the_first_window, readings_grow,
    refill_interval_is_at_most_a_second, refills_known, tokens_are_told_exactly,
};
use crate::report::ReportModel;
#[allow(unused_imports)]
use crate::report::{load_of, reports, token_gauge};
#[allow(unused_imports)]
use crate::response::refusal_headers;
use crate::response::{AuditValueModel, DecisionModel, HeaderOpModel, ResponseModel};
#[allow(unused_imports)]
use crate::rules::{
    condition_holds, conditions_hold, key_text, key_texts, key_texts_at, selected_rule,
};
#[allow(unused_imports)]
use crate::text::{ascii_lower, decimal, joined, signed_decimal};

verus! {

/// The rule that applies to a request is the earliest whose conditions all hold of it.
pub proof fn earliest_matching_rule_applies(config: ConfigModel, event: EventModel, i: int)
    requires
        0 <= i < config.rules.len(),
        conditions_hold(config.rules[i].conditions, event),
        forall|j: int|
            0 <= j < i ==> !conditions_hold((#[trigger] config.rules[j]).conditions, event),
    ensures
        selected_rule(config, event) == config.rules[i],
    decreases i,
{
    if i > 0 {
        let rest = ConfigModel { rules: config.rules.drop_first(), ..config };
        assert(!conditions_hold(config.rules[0].conditions, event));
        assert forall|j: int| 0 <= j < i - 1 implies !conditions_hold(
            (#[trigger] rest.rules[j]).conditions,
            event,
        ) by {
            assert(rest.rules[j] == config.rules[j + 1]);
        }
        earliest_matching_rule_applies(rest, event, i - 1);
    }
}

/// The default rule applies to a request of which the conditions of no rule hold.
pub proof fn default_rule_applies_otherwise(config: ConfigModel, event: EventModel)
    requires
        forall|j: int|
            0 <= j < config.rules.len() ==> !conditions_hold(
                (#[trigger] config.rules[j]).conditions,
                event,
            ),
    ensures
        selected_rule(config, event) == config.default,
    decreases config.rules.len(),
{
    if config.rules.len() > 0 {
        let rest = ConfigModel { rules: config.rules.drop_first(), ..config };
        assert(!conditions_hold(config.rules[0].conditions, event));
        assert forall|j: int| 0 <= j < rest.rules.len() implies !conditions_hold(
            (#[trigger] rest.rules[j]).conditions,
            event,
        ) by {
            assert(rest.rules[j] == config.rules[j + 1]);
        }
        default_rule_applies_otherwise(rest, event);
    }
}

/// A rule without conditions applies to every request that no rule before it takes.
pub proof fn rule_without_conditions_matches(rule: RuleModel, event: EventModel)
    requires
        rule.conditions.len() == 0,
    ensures
        conditions_hold(rule.conditions, event),
{
}

/// A request for the path of a route goes by the limits of the route: those of the first route
/// with that path.
pub proof fn route_limits_apply(
    requests_per_second: u32,
    burst: u32,
    routes: Seq<RouteModel>,
    key: KeyModel,
    dry_run: bool,
    event: EventModel,
    i: int,
)
    requires
        0 <= i < routes.len(),
        event.uri == routes[i].path,
        forall|j: int| 0 <= j < i ==> event.uri != (#[trigger] routes[j]).path,
    ensures
        selected_rule(
            route_config(requests_per_second, burst, routes, key, dry_run),
            event,
        ) == route_rule(routes[i], key),
{
    let config = route_config(requests_per_second, burst, routes, key, dry_run);
    assert forall|j: int| 0 <= j < routes.len() implies conditions_hold(
        (#[trigger] config.rules[j]).conditions,
        event,
    ) == (event.uri == routes[j].path) by {
        route_takes_its_path(routes[j], key, event);
    }
    earliest_matching_rule_applies(config, event, i);
}

/// A request that is for the path of no route goes by the default limits, under the same key.
pub proof fn default_limits_apply_off_the_routes(
    requests_per_second: u32,
    burst: u32,
    routes: Seq<RouteModel>,
    key: KeyModel,
    dry_run: bool,
    event: EventModel,
)
    requires
        forall|j: int| 0 <= j < routes.len() ==> event.uri != (#[trigger] routes[j]).path,
    ensures
        ({
            let rule = selected_rule(
                route_config(requests_per_second, burst, routes, key, dry_run),
                event,
            );
            &&& rule.requests_per_second == requests_per_second
            &&& rule.burst == burst
            &&& rule.key == key
        }),
{
    let config = route_config(requests_per_second, burst, routes, key, dry_run);
    assert forall|j: int| 0 <= j < routes.len() implies !conditions_hold(
        (#[trigger] config.rules[j]).conditions,
        event,
    ) by {
        route_takes_its_path(routes[j], key, event);
        assert(event.uri != routes[j].path);
    }
    default_rule_applies_otherwise(config, event);
}

proof fn route_takes_its_path(route: RouteModel, key: KeyModel, event: EventModel)
    ensures
        conditions_hold(route_rule(route, key).conditions, event) == (event.uri == route.path),
{
    assert(route_rule(route, key).conditions[0] == ConditionModel::Path(route.path));
}

/// A condition on the method does not tell upper from lower case.
pub proof fn method_case_does_not_matter(
    methods: Seq<Seq<char>>,
    event: EventModel,
    other: EventModel,
)
    requires
        ascii_lower(event.method) == ascii_lower(other.method),
    ensures
        condition_holds(ConditionModel::Method(methods), event) == condition_holds(
            ConditionModel::Method(methods),
            other,
        ),
{
}

/// A rule that counts by client address counts two requests together exactly if they come from
/// the same address.
pub proof fn clients_are_counted_apart(event: EventModel, other: EventModel)
    ensures
        key_text(KeyModel::ClientIp, event) == key_text(KeyModel::ClientIp, other)
            <==> event.client_ip == other.client_ip,
{
}

/// A rule that counts globally counts all requests together.
pub proof fn global_rule_counts_all_together(event: EventModel, other: EventModel)
    ensures
        key_text(KeyModel::Global, event) == key_text(KeyModel::Global, other),
{
}

/// A rule that counts by a header counts all requests without that header together.
pub proof fn requests_without_the_header_are_counted_together(
    name: Seq<char>,
    event: EventModel,
    other: EventModel,
)
    requires
        !event.headers.contains_key(name),
        !other.headers.contains_key(name),
    ensures
        key_text(KeyModel::Header(name), event) == "unknown_"@ + name,
        key_text(KeyModel::Header(name), event) == key_text(KeyModel::Header(name), other),
{
}

/// A composite key is made of the texts of its parts, in order, with a colon between each two.
pub proof fn composite_key_joins_its_parts(keys: Seq<KeyModel>, event: EventModel)
    ensures
        key_text(KeyModel::Composite(keys), event) == joined(
            Seq::new(keys.len(), |i: int| key_text(keys[i], event)),
            ":"@,
        ),
{
    key_texts_at(keys, event);
    assert(key_texts(keys, event) =~= Seq::new(keys.len(), |i: int| key_text(keys[i], event)));
}

/// A request is refused exactly if its bucket says so and the agent does not only report.
pub proof fn refused_exactly_when_limited(
    before: AgentModel,
    event: EventModel,
    readings: Readings,
    allowed: bool,
    after: AgentModel,
    answer: ResponseModel,
)
    requires
        request_step(before, event, readings, allowed, after, answer),
    ensures
        answer.decision is Block <==> !allowed && !before.config.dry_run,
        answer.decision is Allow <==> allowed || before.config.dry_run,
{
}

/// A refused request is answered with the status and the message of the rule, or else with 429
/// and a message that tells the limit, and with the headers that tell the limit, that nothing
/// remains of it, the second at which it resets and that the client may try again a second later;
/// there is no other header.
pub proof fn answer_to_a_refused_request(
    before: AgentModel,
    event: EventModel,
    readings: Readings,
    after: AgentModel,
    answer: ResponseModel,
)
    requires
        request_step(before, event, readings, false, after, answer),
        !before.config.dry_run,
    ensures
        ({
            let rule = selected_rule(before.config, event);
            let limit = decimal(rule.requests_per_second as nat);
            &&& answer.decision matches DecisionModel::Block {
                status,
                body: Some(body),
                headers: Some(headers),
            }
            &&& status == (if rule.status_code is Some {
                rule.status_code->0
            } else {
                429
            })
            &&& body == (if rule.message is Some {
                rule.message->0
            } else {
                "Rate limit exceeded: "@ + limit + " requests per second allowed"@
            })
            &&& headers.dom() == set![
                "X-RateLimit-Limit"@,
                "X-RateLimit-Remaining"@,
                "X-RateLimit-Reset"@,
                "Retry-After"@,
            ]
            &&& headers["X-RateLimit-Limit"@] == limit
            &&& headers["X-RateLimit-Remaining"@] == "0"@
            &&& headers["X-RateLimit-Reset"@] == signed_decimal(
                second_of_reading(readings.system) + 1,
            )
            &&& headers["Retry-After"@] == "1"@
        }),
{
    reveal_strlit("X-RateLimit-Limit");
    reveal_strlit("X-RateLimit-Remaining");
    reveal_strlit("X-RateLimit-Reset");
    reveal_strlit("Retry-After");
    let rule = selected_rule(before.config, event);
    let headers = refusal_headers(rule, second_of_reading(readings.system) + 1);
    assert("X-RateLimit-Limit"@.len() == 17);
    assert("X-RateLimit-Remaining"@.len() == 21);
    assert("X-RateLimit-Reset"@.len() == 17);
    assert("Retry-After"@.len() == 11);
    assert("X-RateLimit-Limit"@[12] == 'L');
    assert("X-RateLimit-Reset"@[12] == 'R');
    assert(headers.dom() =~= set![
        "X-RateLimit-Limit"@,
        "X-RateLimit-Remaining"@,
        "X-RateLimit-Reset"@,
        "Retry-After"@,
    ]);
}

/// Every answer, of whatever kind, tells the proxy the rule and the key, and puts both into the
/// audit log with the rate and with whether the limit was reached.
pub proof fn every_answer_tells_rule_and_key(
    before: AgentModel,
    event: EventModel,
    readings: Readings,
    allowed: bool,
    after: AgentModel,
    answer: ResponseModel,
)
    requires
        request_step(before, event, readings, allowed, after, answer),
    ensures
        ({
            let rule = selected_rule(before.config, event);
            let key = key_text(rule.key, event);
            &&& answer.request_headers == seq![
                HeaderOpModel::SetValue { name: "X-RateLimit-Rule"@, value: rule.name },
                HeaderOpModel::SetValue { name: "X-RateLimit-Key"@, value: key },
            ]
            &&& answer.audit.tags.contains("ratelimit"@)
            &&& answer.audit.tags.contains("limited"@) <==> !allowed
            &&& answer.audit.custom["rule"@] == AuditValueModel::Text(rule.name)
            &&& answer.audit.custom["key"@] == AuditValueModel::Text(key)
            &&& answer.audit.custom["limited"@] == AuditValueModel::Flag(!allowed)
            &&& answer.audit.custom["rps"@] == AuditValueModel::Number(rule.requests_per_second)
        }),
{
    reveal_strlit("rule");
    reveal_strlit("key");
    reveal_strlit("limited");
    reveal_strlit("rps");
    reveal_strlit("ratelimit");
    assert("rule"@.len() == 4);
    assert("key"@.len() == 3);
    assert("rps"@.len() == 3);
    assert("limited"@.len() == 7);
    assert("ratelimit"@.len() == 9);
    assert("key"@[0] == 'k');
    assert("rps"@[0] == 'r');
    let tags = answer.audit.tags;
    assert(tags[0] == "ratelimit"@);
    if !allowed {
        assert(tags[1] == "limited"@);
    }
}

/// A request leaves the buckets of all other keys as they were.
pub proof fn other_buckets_stay(
    before: AgentModel,
    event: EventModel,
    now: nat,
    at: nat,
    reading: nat,
    allowed: bool,
    key: Seq<char>,
)
    requires
        key != key_text(selected_rule(before.config, event).key, event),
    ensures
        ({
            let after = after_request(before, event, now, at, reading, allowed);
            &&& after.buckets.contains_key(key) == before.buckets.contains_key(key)
            &&& before.buckets.contains_key(key) ==> after.buckets[key] == before.buckets[key]
        }),
{
}

/// After a request the bucket of its key has given one answer more. It keeps the quota, the rule
/// and the age that it had; a bucket made for the request has those that its rule asks for.
pub proof fn own_bucket_answers_once(
    before: AgentModel,
    event: EventModel,
    now: nat,
    at: nat,
    reading: nat,
    allowed: bool,
)
    ensures
        ({
            let rule = selected_rule(before.config, event);
            let key = key_text(rule.key, event);
            let after = after_request(before, event, now, at, reading, allowed);
            &&& after.buckets.contains_key(key)
            &&& before.buckets.contains_key(key) ==> {
                &&& after.buckets[key].history == before.buckets[key].history.push(
                    (reading, allowed),
                )
                &&& after.buckets[key].quota == before.buckets[key].quota
                &&& after.buckets[key].rule_name == before.buckets[key].rule_name
                &&& after.buckets[key].last_used == before.buckets[key].last_used
            }
            &&& !before.buckets.contains_key(key) ==> {
                &&& after.buckets[key].history == seq![(reading, allowed)]
                &&& after.buckets[key].quota == rule_quota(rule)
                &&& after.buckets[key].rule_name == rule.name
                &&& after.buckets[key].last_used == now
            }
        }),
{
    let rule = selected_rule(before.config, event);
    assert(new_bucket(rule, now).history.push((reading, allowed)) =~= seq![(reading, allowed)]);
}

/// Two requests that are counted under one key are decided by one bucket: the second finds the
/// answer to the first in it.
pub proof fn requests_under_one_key_share_a_bucket(
    agent: AgentModel,
    first: EventModel,
    second: EventModel,
    now: nat,
    later: nat,
    at: nat,
    reading: nat,
    allowed: bool,
)
    requires
        key_text(selected_rule(agent.config, first).key, first) == key_text(
            selected_rule(agent.config, second).key,
            second,
        ),
    ensures
        ({
            let between = after_request(agent, first, now, at, reading, allowed);
            deciding_bucket(between, second, later).history == deciding_bucket(
                agent,
                first,
                now,
            ).history.push((reading, allowed))
        }),
{
}

/// The rate and the burst of a rule are those of its buckets, where the rule gives them.
pub proof fn rule_sets_rate_and_burst(rule: RuleModel, now: nat)
    requires
        rule.requests_per_second > 0,
        rule.burst > 0,
    ensures
        new_bucket(rule, now).quota.per_second == rule.requests_per_second,
        new_bucket(rule, now).quota.burst == rule.burst,
{
}

/// Every operation keeps the agent consistent, as every agent is at its start.
pub proof fn agents_stay_consistent(
    config: ConfigModel,
    started: Instant,
    agent: AgentModel,
    event: EventModel,
    readings: Readings,
    allowed: bool,
    after: AgentModel,
    answer: ResponseModel,
    version: Option<Seq<char>>,
    key: Seq<char>,
    rule: RuleModel,
    now: nat,
    max_age: nat,
)
    ensures
        consistent(initial_agent(config, started)),
        consistent(agent) && is_duration(now) ==> consistent(with_bucket(agent, key, rule, now)),
        consistent(agent) && request_step(agent, event, readings, allowed, after, answer)
            ==> consistent(after),
        consistent(agent) ==> consistent(reconfigured(agent, config, version)),
        consistent(agent) ==> consistent(without_expired(agent, now, max_age)),
        consistent(agent) ==> consistent((AgentModel { draining: true, ..agent })),
{
    vstd::arithmetic::div_mod::lemma_small_mod(0, usize_values());
    if consistent(agent) && request_step(agent, event, readings, allowed, after, answer) {
        requests_keep_consistency(
            agent,
            event,
            nanos_between(readings.stamp, agent.started),
            nanos_between(readings.asked, agent.started),
            readings.bucket,
        );
    }
    if consistent(agent) {
        count_up(agent.buckets.dom().len());
        assert(agent.buckets.insert(key, new_bucket(rule, now)).dom() =~= agent.buckets.dom().insert(
            key,
        ));
        let kept = without_expired(agent, now, max_age).buckets;
        vstd::set_lib::lemma_len_subset(kept.dom(), agent.buckets.dom());
        vstd::arithmetic::div_mod::lemma_mod_bound(
            kept.dom().len() as int,
            usize_values() as int,
        );
    }
}

proof fn requests_keep_consistency(
    agent: AgentModel,
    event: EventModel,
    now: nat,
    at: nat,
    reading: nat,
)
    requires
        consistent(agent),
        is_duration(now),
    ensures
        consistent(
            after_request(agent, event, now, at, reading, request_allowed(agent, event, reading)),
        ),
{
    let rule = selected_rule(agent.config, event);
    let key = key_text(rule.key, event);
    let bucket = deciding_bucket(agent, event, now);
    let allowed = request_allowed(agent, event, reading);
    let after = after_request(agent, event, now, at, reading, allowed);
    count_up(agent.buckets.dom().len());
    answer_keeps_bucket_consistent(bucket, reading, at);
    assert(after.buckets =~= agent.buckets.insert(
        key,
        answered(bucket, reading, at, allowed),
    ));
    assert(after.buckets.dom() =~= agent.buckets.dom().insert(key));
}

/// A request is let through as long as its bucket, a new one included, has let fewer requests
/// through than its burst and the readings of its clock never went back.
pub proof fn burst_of_requests_is_let_through(
    before: AgentModel,
    event: EventModel,
    readings: Readings,
    allowed: bool,
    after: AgentModel,
    answer: ResponseModel,
)
    requires
        consistent(before),
        request_step(before, event, readings, allowed, after, answer),
        readings_grow(deciding_bucket(before, event, 0).history, readings.bucket),
        let_through(deciding_bucket(before, event, 0).history) < deciding_bucket(
            before,
            event,
            0,
        ).quota.burst,
    ensures
        allowed,
        answer.decision == DecisionModel::Allow,
{
    let bucket = deciding_bucket(before, event, 0);
    burst_is_let_through(bucket.quota, bucket.history, readings.bucket);
}

/// A client that keeps to `Retry-After` is served: a request is let through that comes a second
/// after the last answer of its bucket, as long as the readings of the bucket's clock never went
/// back.
pub proof fn retry_after_a_second_is_let_through(
    before: AgentModel,
    event: EventModel,
    readings: Readings,
    allowed: bool,
    after: AgentModel,
    answer: ResponseModel,
)
    requires
        consistent(before),
        request_step(before, event, readings, allowed, after, answer),
        deciding_bucket(before, event, 0).history.len() > 0,
        readings_grow(deciding_bucket(before, event, 0).history, readings.bucket),
        readings.bucket >= deciding_bucket(before, event, 0).history.last().0 + 1_000_000_000,
    ensures
        allowed,
        answer.decision == DecisionModel::Allow,
{
    let bucket = deciding_bucket(before, event, 0);
    refill_interval_is_at_most_a_second(bucket.quota);
    one_interval_later_is_let_through(bucket.quota, bucket.history, readings.bucket);
}

/// No bucket is empty for good: there is a reading of its clock from which on a request is let
/// through.
pub proof fn requests_are_let_through_again(agent: AgentModel, event: EventModel)
    ensures
        exists|from: nat| #[trigger] allowed_from(agent, event, from),
{
    let bucket = deciding_bucket(agent, event, 0);
    bucket_fills_up_again(bucket.quota, bucket.history);
    let from = choose|from: nat| #[trigger]
        lets_through_from(bucket.quota, bucket.history, from);
    assert forall|reading: nat| from <= reading implies #[trigger] request_allowed(
        agent,
        event,
        reading,
    ) by {
        assert(lets_through(bucket.quota, bucket.history, reading));
    }
    assert(allowed_from(agent, event, from));
}

/// Whether a request is let through at every reading of its bucket's clock from the given one on.
pub open spec fn allowed_from(agent: AgentModel, event: EventModel, from: nat) -> bool {
    forall|reading: nat| from <= reading ==> #[trigger] request_allowed(agent, event, reading)
}

/// Whether the agent goes through these states on these requests.
pub open spec fn request_run(
    states: Seq<AgentModel>,
    events: Seq<EventModel>,
    readings: Seq<Readings>,
    answers: Seq<bool>,
) -> bool {
    &&& states.len() == events.len() + 1
    &&& readings.len() == events.len()
    &&& answers.len() == events.len()
    &&& forall|i: int|
        #![trigger events[i]]
        0 <= i < events.len() ==> request_effect(
            states[i],
            events[i],
            readings[i],
            answers[i],
            states[i + 1],
        )
}

/// Whether all requests are counted under the key.
pub open spec fn counted_under(
    config: ConfigModel,
    events: Seq<EventModel>,
    key: Seq<char>,
) -> bool {
    forall|i: int|
        0 <= i < events.len() ==> key_text(
            selected_rule(config, #[trigger] events[i]).key,
            events[i],
        ) == key
}

/// The answers with the readings of the bucket's clock that they were given at.
pub open spec fn answer_history(readings: Seq<Readings>, answers: Seq<bool>) -> Seq<(nat, bool)> {
    Seq::new(answers.len(), |i: int| (readings[i].bucket, answers[i]))
}

proof fn run_without_the_last(
    states: Seq<AgentModel>,
    events: Seq<EventModel>,
    readings: Seq<Readings>,
    answers: Seq<bool>,
)
    requires
        request_run(states, events, readings, answers),
        events.len() > 0,
    ensures
        request_run(
            states.drop_last(),
            events.drop_last(),
            readings.drop_last(),
            answers.drop_last(),
        ),
        ({
            let n = events.len() - 1;
            &&& states.drop_last().last() == states[n]
            &&& request_effect(states[n], events[n], readings[n], answers[n], states.last())
        }),
{
    let n = events.len() - 1;
    assert(events[n] == events.last());
    assert forall|i: int|
        #![trigger events.drop_last()[i]]
        0 <= i < n implies request_effect(
        states.drop_last()[i],
        events.drop_last()[i],
        readings.drop_last()[i],
        answers.drop_last()[i],
        states.drop_last()[i + 1],
    ) by {
        assert(events.drop_last()[i] == events[i]);
    }
}

proof fn run_is_kept_in_the_bucket(
    states: Seq<AgentModel>,
    events: Seq<EventModel>,
    readings: Seq<Readings>,
    answers: Seq<bool>,
    key: Seq<char>,
)
    requires
        consistent(states[0]),
        !states[0].buckets.contains_key(key),
        request_run(states, events, readings, answers),
        counted_under(states[0].config, events, key),
        events.len() > 0,
    ensures
        consistent(states.last()),
        states.last().config == states[0].config,
        states.last().started == states[0].started,
        states.last().buckets.contains_key(key),
        states.last().buckets[key].history == answer_history(readings, answers),
        states.last().buckets[key].quota == rule_quota(selected_rule(states[0].config, events[0])),
    decreases events.len(),
{
    let n = events.len() - 1;
    let last = events[n];
    let earlier = answer_history(readings.drop_last(), answers.drop_last());
    run_without_the_last(states, events, readings, answers);
    if n > 0 {
        assert(counted_under(states[0].config, events.drop_last(), key)) by {
            assert forall|i: int| 0 <= i < n implies key_text(
                selected_rule(states[0].config, #[trigger] events.drop_last()[i]).key,
                events.drop_last()[i],
            ) == key by {
                assert(events.drop_last()[i] == events[i]);
            }
        }
        assert(events.drop_last()[0] == events[0]);
        run_is_kept_in_the_bucket(
            states.drop_last(),
            events.drop_last(),
            readings.drop_last(),
            answers.drop_last(),
            key,
        );
        assert(states.drop_last().last() == states[n]);
    } else {
        assert(states[n] == states[0]);
        assert(earlier =~= Seq::empty());
    }
    requests_keep_consistency(
        states[n],
        last,
        nanos_between(readings[n].stamp, states[n].started),
        nanos_between(readings[n].asked, states[n].started),
        readings[n].bucket,
    );
    assert(states.last() == states[n + 1]);
    assert(answer_history(readings, answers) =~= earlier.push((readings[n].bucket, answers[n])));
}

/// A new key gets the burst of its rule: the requests that come first under it are let through,
/// as many as the burst, as long as the readings of the bucket's clock never go back.
pub proof fn first_requests_under_a_key_are_let_through(
    states: Seq<AgentModel>,
    events: Seq<EventModel>,
    readings: Seq<Readings>,
    answers: Seq<bool>,
    key: Seq<char>,
    i: int,
)
    requires
        consistent(states[0]),
        !states[0].buckets.contains_key(key),
        request_run(states, events, readings, answers),
        counted_under(states[0].config, events, key),
        forall|j: int, k: int|
            0 <= j <= k < readings.len() ==> (#[trigger] readings[j]).bucket <= (
            #[trigger] readings[k]).bucket,
        0 <= i < events.len(),
        i < rule_quota(selected_rule(states[0].config, events[0])).burst,
    ensures
        answers[i],
{
    let states_to = states.take(i + 1);
    let events_to = events.take(i);
    let readings_to = readings.take(i);
    let answers_to = answers.take(i);
    assert(events[i] == events[i]);
    if i > 0 {
        assert forall|j: int|
            #![trigger events_to[j]]
            0 <= j < i implies request_effect(
            states_to[j],
            events_to[j],
            readings_to[j],
            answers_to[j],
            states_to[j + 1],
        ) by {
            assert(events_to[j] == events[j]);
        }
        assert forall|j: int| 0 <= j < i implies key_text(
            selected_rule(states[0].config, #[trigger] events_to[j]).key,
            events_to[j],
        ) == key by {
            assert(events_to[j] == events[j]);
        }
        run_is_kept_in_the_bucket(states_to, events_to, readings_to, answers_to, key);
        assert(states_to.last() == states[i]);
        assert(events_to[0] == events[0]);
    }
    let history = answer_history(readings_to, answers_to);
    let bucket = deciding_bucket(states[i], events[i], 0);
    assert(bucket.history =~= history);
    let_through_at_most(history);
    assert(readings_grow(history, readings[i].bucket)) by {
        assert forall|j: int, k: int| 0 <= j <= k < history.len() implies (#[trigger] history[j]).0
            <= (#[trigger] history[k]).0 by {
            assert(history[j].0 == readings[j].bucket && history[k].0 == readings[k].bucket);
        }
        if i > 0 {
            assert(history.last().0 == readings[i - 1].bucket);
        }
    }
    burst_is_let_through(bucket.quota, history, readings[i].bucket);
}

/// Whether the clock of the agent is ahead of that of the bucket by the offset at each answer, and
/// neither goes back.
pub open spec fn clocks_agree(readings: Seq<Readings>, started: Instant, offset: nat) -> bool {
    &&& forall|i: int|
        0 <= i < readings.len() ==> nanos_between((#[trigger] readings[i]).asked, started)
            == readings[i].bucket + offset
    &&& forall|i: int, j: int|
        0 <= i <= j < readings.len() ==> (#[trigger] readings[i]).bucket <= (
        #[trigger] readings[j]).bucket
}

proof fn run_keeps_the_refills_known(
    states: Seq<AgentModel>,
    events: Seq<EventModel>,
    readings: Seq<Readings>,
    answers: Seq<bool>,
    key: Seq<char>,
    offset: nat,
)
    requires
        consistent(states[0]),
        !states[0].buckets.contains_key(key),
        request_run(states, events, readings, answers),
        counted_under(states[0].config, events, key),
        clocks_agree(readings, states[0].started, offset),
        rule_quota(selected_rule(states[0].config, events[0])).per_second <= 1_000_000_000,
        events.len() > 0,
    ensures
        refills_known(states.last().buckets[key], offset),
        readings_grow(answer_history(readings, answers), readings.last().bucket),
    decreases events.len(),
{
    let n = events.len() - 1;
    let history = answer_history(readings, answers);
    assert forall|i: int, j: int| 0 <= i <= j < history.len() implies (#[trigger] history[i]).0 <= (
    #[trigger] history[j]).0 by {
        assert(history[i].0 == readings[i].bucket && history[j].0 == readings[j].bucket);
    }
    run_without_the_last(states, events, readings, answers);
    let bucket = deciding_bucket(
        states[n],
        events[n],
        nanos_between(readings[n].stamp, states[n].started),
    );
    assert(key_text(selected_rule(states[0].config, events[n]).key, events[n]) == key);
    if n > 0 {
        let fewer = events.drop_last();
        let earlier = readings.drop_last();
        assert(counted_under(states[0].config, fewer, key)) by {
            assert forall|i: int| 0 <= i < n implies key_text(
                selected_rule(states[0].config, #[trigger] fewer[i]).key,
                fewer[i],
            ) == key by {
                assert(fewer[i] == events[i]);
            }
        }
        assert(clocks_agree(earlier, states[0].started, offset)) by {
            assert forall|i: int| 0 <= i < earlier.len() implies nanos_between(
                (#[trigger] earlier[i]).asked,
                states[0].started,
            ) == earlier[i].bucket + offset by {
                assert(earlier[i] == readings[i]);
            }
            assert forall|i: int, j: int| 0 <= i <= j < earlier.len() implies (
            #[trigger] earlier[i]).bucket <= (#[trigger] earlier[j]).bucket by {
                assert(earlier[i] == readings[i] && earlier[j] == readings[j]);
            }
        }
        assert(fewer[0] == events[0]);
        run_keeps_the_refills_known(
            states.drop_last(),
            fewer,
            earlier,
            answers.drop_last(),
            key,
            offset,
        );
        run_is_kept_in_the_bucket(
            states.drop_last(),
            fewer,
            earlier,
            answers.drop_last(),
            key,
        );
        assert(earlier.last() == readings[n - 1]);
        assert(readings[n - 1].bucket <= readings[n].bucket);
    } else {
        assert(states[n] == states[0]);
        let none = answer_history(readings.drop_last(), answers.drop_last());
        assert(none =~= Seq::empty());
    }
    assert(nanos_between(readings[n].asked, states[0].started) == readings[n].bucket + offset);
    answers_keep_the_refills_known(bucket, offset, readings[n].bucket, answers[n]);
}

/// The tokens that are reported for a key are those in its bucket at that time: as many as the
/// answers so far leave at the reading of the bucket's clock, as long as the clock of the agent
/// and that of the bucket agree up to an offset.
pub proof fn reported_tokens_are_current(
    states: Seq<AgentModel>,
    events: Seq<EventModel>,
    readings: Seq<Readings>,
    answers: Seq<bool>,
    key: Seq<char>,
    offset: nat,
    reading: nat,
)
    requires
        consistent(states[0]),
        !states[0].buckets.contains_key(key),
        request_run(states, events, readings, answers),
        counted_under(states[0].config, events, key),
        clocks_agree(readings, states[0].started, offset),
        rule_quota(selected_rule(states[0].config, events[0])).per_second <= 1_000_000_000,
        events.len() > 0,
        readings.last().bucket <= reading,
    ensures
        current_tokens(states.last().buckets[key], reading + offset) == available(
            rule_quota(selected_rule(states[0].config, events[0])),
            answer_history(readings, answers),
            reading,
        ),
{
    run_is_kept_in_the_bucket(states, events, readings, answers, key);
    run_keeps_the_refills_known(states, events, readings, answers, key, offset);
    let bucket = states.last().buckets[key];
    assert(bucket_consistent(bucket));
    assert(readings_grow(bucket.history, reading));
    tokens_are_told_exactly(bucket, offset, reading);
}

/// The rate of a rule holds: of the requests under a new key that come within a window after the
/// first, by the clock of their bucket, no more are let through than the burst of the rule and
/// one for each refill interval in the window. The interval is the part of a second that the rate
/// gives each request, in whole nanoseconds.
pub proof fn requests_within_a_window_are_bounded(
    states: Seq<AgentModel>,
    events: Seq<EventModel>,
    readings: Seq<Readings>,
    answers: Seq<bool>,
    key: Seq<char>,
    window: nat,
)
    requires
        consistent(states[0]),
        !states[0].buckets.contains_key(key),
        request_run(states, events, readings, answers),
        counted_under(states[0].config, events, key),
        events.len() > 0,
        rule_quota(selected_rule(states[0].config, events[0])).per_second <= 1_000_000_000,
    ensures
        ({
            let quota = rule_quota(selected_rule(states[0].config, events[0]));
            let passed = let_through_by(
                answer_history(readings, answers),
                readings[0].bucket + window,
            );
            &&& passed <= quota.burst + window / refill_interval(quota)
            &&& 1_000_000_000nat % (quota.per_second as nat) == 0 ==> passed <= quota.burst + (
            quota.per_second * window) / 1_000_000_000
        }),
{
    let quota = rule_quota(selected_rule(states[0].config, events[0]));
    let history = answer_history(readings, answers);
    run_is_kept_in_the_bucket(states, events, readings, answers, key);
    assert(bucket_consistent(states.last().buckets[key]));
    refill_interval_of_rate(quota);
    assert(history[0].0 == readings[0].bucket);
    first_window_is_bounded(quota, history, window);
    if 1_000_000_000nat % (quota.per_second as nat) == 0 {
        rate_bounds_the_first_window(quota, history, window);
    }
}

/// Whatever a bucket has answered, within a window after an answer that let a request through it
/// lets no more through, that one included, than its burst, one more, and one for each refill
/// interval in the window.
pub proof fn every_bucket_keeps_its_rate(agent: AgentModel, key: Seq<char>, i: int, window: nat)
    requires
        consistent(agent),
        agent.buckets.contains_key(key),
        agent.buckets[key].quota.per_second <= 1_000_000_000,
        0 <= i < agent.buckets[key].history.len(),
        agent.buckets[key].history[i].1,
    ensures
        ({
            let bucket = agent.buckets[key];
            let_through_by(answers_from(bucket.history, i), bucket.history[i].0 + window)
                <= bucket.quota.burst + 1 + window / refill_interval(bucket.quota)
        }),
{
    let bucket = agent.buckets[key];
    refill_interval_of_rate(bucket.quota);
    every_window_is_bounded(bucket.quota, bucket.history, i, window);
}

/// The first request under a key is let through.
pub proof fn first_request_is_let_through(
    before: AgentModel,
    event: EventModel,
    readings: Readings,
    allowed: bool,
    after: AgentModel,
    answer: ResponseModel,
)
    requires
        request_step(before, event, readings, allowed, after, answer),
        !before.buckets.contains_key(key_text(selected_rule(before.config, event).key, event)),
    ensures
        allowed,
        answer.decision == DecisionModel::Allow,
{
}

/// A pushed configuration applies at once: the next request, whatever it is, goes by the new
/// rules, finds a new bucket and is let through.
pub proof fn new_configuration_applies_at_once(
    agent: AgentModel,
    config: ConfigModel,
    version: Option<Seq<char>>,
    event: EventModel,
    readings: Readings,
    allowed: bool,
    after: AgentModel,
    answer: ResponseModel,
)
    requires
        request_step(
            reconfigured(agent, config, version),
            event,
            readings,
            allowed,
            after,
            answer,
        ),
    ensures
        ({
            let rule = selected_rule(config, event);
            let key = key_text(rule.key, event);
            &&& allowed
            &&& answer.decision == DecisionModel::Allow
            &&& after.buckets.dom() == set![key]
            &&& after.buckets[key].quota == rule_quota(rule)
        }),
{
    let rule = selected_rule(config, event);
    let key = key_text(rule.key, event);
    assert(after.buckets.dom() =~= set![key]);
}

/// A pushed configuration leaves the request counters and the draining mark as they were.
pub proof fn new_configuration_keeps_the_counts(
    agent: AgentModel,
    config: ConfigModel,
    version: Option<Seq<char>>,
)
    ensures
        ({
            let after = reconfigured(agent, config, version);
            &&& after.metrics.requests_total == agent.metrics.requests_total
            &&& after.metrics.requests_allowed == agent.metrics.requests_allowed
            &&& after.metrics.requests_limited == agent.metrics.requests_limited
            &&& after.request_count == agent.request_count
            &&& after.limited_count == agent.limited_count
            &&& after.draining == agent.draining
        }),
{
}

/// An agent that is draining goes on draining, whatever comes, and goes on answering requests as
/// before.
pub proof fn draining_is_for_good(
    agent: AgentModel,
    event: EventModel,
    now: nat,
    at: nat,
    reading: nat,
    allowed: bool,
    second: int,
    config: ConfigModel,
    version: Option<Seq<char>>,
    max_age: nat,
)
    requires
        agent.draining,
    ensures
        after_request(agent, event, now, at, reading, allowed).draining,
        reconfigured(agent, config, version).draining,
        without_expired(agent, now, max_age).draining,
        request_answer(agent, event, allowed, second) == request_answer(
            (AgentModel { draining: false, ..agent }),
            event,
            allowed,
            second,
        ),
{
}

/// A bucket is dropped exactly if it is older than the greatest age; those that stay are
/// unchanged.
pub proof fn cleanup_drops_exactly_the_expired(
    agent: AgentModel,
    now: nat,
    max_age: nat,
    key: Seq<char>,
)
    requires
        agent.buckets.contains_key(key),
    ensures
        ({
            let after = without_expired(agent, now, max_age);
            &&& after.buckets.contains_key(key) <==> now - agent.buckets[key].last_used <= max_age
            &&& after.buckets.contains_key(key) ==> after.buckets[key] == agent.buckets[key]
        }),
{
}

/// Cleaning up makes no bucket, and cleaning up a second time at the same moment changes nothing.
pub proof fn cleanup_is_idempotent(agent: AgentModel, now: nat, max_age: nat)
    ensures
        without_expired(agent, now, max_age).buckets.submap_of(agent.buckets),
        without_expired(without_expired(agent, now, max_age), now, max_age) == without_expired(
            agent,
            now,
            max_age,
        ),
{
    let once = without_expired(agent, now, max_age);
    assert(without_expired(once, now, max_age).buckets =~= once.buckets);
}

/// A greater age keeps every bucket that a smaller one keeps, and an earlier cleanup every bucket
/// that a later one keeps.
pub proof fn greater_age_keeps_more(
    agent: AgentModel,
    now: nat,
    later: nat,
    max_age: nat,
    greater: nat,
)
    requires
        now <= later,
        max_age <= greater,
    ensures
        without_expired(agent, later, max_age).buckets.submap_of(
            without_expired(agent, now, greater).buckets,
        ),
{
}

/// A cleanup with the greatest age that there is drops nothing.
pub proof fn greatest_age_keeps_everything(agent: AgentModel, at: Instant, max_age: Duration)
    requires
        consistent(agent),
        forall|other: Duration| #[trigger] duration_nanos(other) <= duration_nanos(max_age),
    ensures
        without_expired(agent, nanos_between(at, agent.started), duration_nanos(max_age)) == agent,
{
    let after = without_expired(agent, nanos_between(at, agent.started), duration_nanos(max_age));
    assert(nanos_between(at, agent.started) <= duration_nanos(max_age));
    assert(after.buckets =~= agent.buckets);
}

/// A bucket that is stamped with a time that the clock has not reached is never dropped, and the
/// others go by the clock all the same.
pub proof fn late_stamps_count_as_new(
    agent: AgentModel,
    now: nat,
    max_age: nat,
    key: Seq<char>,
    other: Seq<char>,
)
    requires
        agent.buckets.contains_key(key),
        agent.buckets[key].last_used >= now,
        agent.buckets.contains_key(other),
        other != key,
    ensures
        without_expired(agent, now, max_age).buckets.contains_key(key),
        without_expired(agent, now, max_age).buckets.contains_key(other) <==> now
            - agent.buckets[other].last_used <= max_age,
{
}

/// What the agent exports adds up: the requests are those let through and those limited, the load
/// tells the same numbers as the metrics, the active limiters are the buckets in the table, and
/// there is one gauge of tokens for each of them; counters that have run over agree up to the
/// values they can have.
pub proof fn exported_numbers_add_up(
    agent: AgentModel,
    now: nat,
    time_ms: u64,
    report: ReportModel,
)
    requires
        consistent(agent),
        reports(agent, now, time_ms, report),
    ensures
        ({
            let load = load_of(agent);
            &&& report.counters[0].1 as int == (report.counters[1].1 + report.counters[2].1) % (
            u64::MAX + 1)
            &&& load.requests_processed == report.counters[0].1
            &&& load.requests_rejected == report.counters[2].1
            &&& report.gauges[0].value as nat == agent.buckets.dom().len() % usize_values()
            &&& report.gauges.len() - 1 == agent.buckets.dom().len()
        }),
{
    let tokens = report.gauges.drop_first();
    let keys = Seq::new(tokens.len(), |i: int| tokens[i].key->0);
    assert forall|i: int, j: int| 0 <= i < j < keys.len() implies keys[i] != keys[j] by {
        assert(tokens[i].key != tokens[j].key);
    }
    assert(keys.to_set() =~= agent.buckets.dom()) by {
        assert forall|key: Seq<char>| agent.buckets.contains_key(key) implies #[trigger]
        keys.contains(key) by {
            let i = choose|i: int| 0 <= i < tokens.len() && (#[trigger] tokens[i]).key == Some(key);
            assert(keys[i] == key);
        }
        assert forall|key: Seq<char>| #[trigger] keys.contains(key) implies
            agent.buckets.contains_key(key) by {
            let i = choose|i: int| 0 <= i < keys.len() && keys[i] == key;
            assert(tokens[i].key == Some(key));
        }
    }
    keys.unique_seq_to_set();
}

/// Each bucket of the table has one gauge in a report, which tells its tokens at that time.
pub proof fn every_bucket_has_its_gauge(
    agent: AgentModel,
    now: nat,
    time_ms: u64,
    report: ReportModel,
    key: Seq<char>,
)
    requires
        reports(agent, now, time_ms, report),
        agent.buckets.contains_key(key),
    ensures
        exists|i: int|
            0 < i < report.gauges.len() && #[trigger] report.gauges[i] == token_gauge(
                key,
                agent.buckets[key],
                now,
            ),
        forall|i: int, j: int|
            0 <= i < j < report.gauges.len() && (#[trigger] report.gauges[i]).key == Some(key)
                ==> (#[trigger] report.gauges[j]).key != Some(key),
{
    let tokens = report.gauges.drop_first();
    let k = choose|k: int| 0 <= k < tokens.len() && (#[trigger] tokens[k]).key == Some(key);
    assert(tokens[k] == report.gauges[k + 1]);
    assert forall|i: int, j: int|
        0 <= i < j < report.gauges.len() && (#[trigger] report.gauges[i]).key == Some(
            key,
        ) implies (#[trigger] report.gauges[j]).key != Some(key) by {
        if i > 0 {
            assert(tokens[i - 1] == report.gauges[i]);
            assert(tokens[j - 1] == report.gauges[j]);
        }
    }
}

/// How often an answer was given.
pub open spec fn times_answered(answers: Seq<bool>, answer: bool) -> nat
    decreases answers.len(),
{
    if answers.len() == 0 {
        0
    } else {
        times_answered(answers.drop_last(), answer) + if answers.last() == answer {
            1nat
        } else {
            0nat
        }
    }
}

/// From the start of an agent on, each request is counted once, as let through or as limited by
/// its answer; the counters start again at 0 when they run over.
#[verifier::spinoff_prover]
pub proof fn every_request_is_counted_once(
    config: ConfigModel,
    started: Instant,
    states: Seq<AgentModel>,
    events: Seq<EventModel>,
    readings: Seq<Readings>,
    answers: Seq<bool>,
)
    requires
        states[0] == initial_agent(config, started),
        request_run(states, events, readings, answers),
    ensures
        ({
            let metrics = states.last().metrics;
            &&& metrics.requests_total as int == events.len() as int % (u64::MAX + 1)
            &&& metrics.requests_allowed as int == times_answered(answers, true) as int % (u64::MAX
                + 1)
            &&& metrics.requests_limited as int == times_answered(answers, false) as int % (u64::MAX
                + 1)
            &&& states.last().request_count == metrics.requests_total
            &&& states.last().limited_count == metrics.requests_limited
            &&& metrics.requests_total as int == (metrics.requests_allowed
                + metrics.requests_limited) % (u64::MAX + 1)
        }),
    decreases events.len(),
{
    if events.len() > 0 {
        let n = events.len() - 1;
        run_without_the_last(states, events, readings, answers);
        every_request_is_counted_once(
            config,
            started,
            states.drop_last(),
            events.drop_last(),
            readings.drop_last(),
            answers.drop_last(),
        );
        request_counts_once(
            states[n],
            events[n],
            nanos_between(readings[n].stamp, states[n].started),
            nanos_between(readings[n].asked, states[n].started),
            readings[n].bucket,
            answers[n],
        );
        counter_goes_up(n as nat);
        counter_goes_up(times_answered(answers.drop_last(), true));
        counter_goes_up(times_answered(answers.drop_last(), false));
    }
}

proof fn request_counts_once(
    agent: AgentModel,
    event: EventModel,
    now: nat,
    at: nat,
    reading: nat,
    allowed: bool,
)
    ensures
        after_request(agent, event, now, at, reading, allowed).request_count == next_u64(
            agent.request_count,
        ),
        after_request(agent, event, now, at, reading, allowed).limited_count == (if allowed {
            agent.limited_count
        } else {
            next_u64(agent.limited_count)
        }),
        after_request(agent, event, now, at, reading, allowed).metrics.requests_total == next_u64(
            agent.metrics.requests_total,
        ),
        after_request(agent, event, now, at, reading, allowed).metrics.requests_allowed == (if allowed {
            next_u64(agent.metrics.requests_allowed)
        } else {
            agent.metrics.requests_allowed
        }),
        after_request(agent, event, now, at, reading, allowed).metrics.requests_limited == (if allowed {
            agent.metrics.requests_limited
        } else {
            next_u64(agent.metrics.requests_limited)
        }),
{
}

proof fn counter_goes_up(n: nat)
    ensures
        (n as int + 1) % (u64::MAX + 1) == next_u64((n as int % (u64::MAX + 1)) as u64),
        0 <= n as int % (u64::MAX + 1) <= u64::MAX,
{
}

} // verus!
