//! What each operation does to the agent, and when.
use std::time::{Instant, SystemTime};

use vstd::prelude::*;

#[allow(unused_imports)]
use crate::agent::{
    cleanup_step, consistent, create_step, initial_agent, reconfigured, request_answer,
    request_step, with_bucket, without_expired,
};
use crate::agent::{AgentModel, Readings};
#[allow(unused_imports)]
use crate::clock::{
    duration_nanos, is_reading, is_system_reading, nanos_between, read_next, second_of_reading,
    time_between,
};
use crate::config::{ConfigModel, RuleModel};
use crate::event::EventModel;
#[allow(unused_imports)]
use crate::limiters::{current_tokens, lets_through, rule_quota};
use crate::limiters::BucketModel;
use crate::response::ResponseModel;
#[allow(unused_imports)]
use crate::rules::{key_text, selected_rule};

verus! {

/// A new agent has the configuration that it is given, whole, no version of it, no buckets and
/// its counters at 0, and does not drain.
pub proof fn new_agent_has_done_nothing(config: ConfigModel, started: Instant, key: Seq<char>)
    ensures
        ({
            let agent = initial_agent(config, started);
            &&& agent.config == config
            &&& agent.config_version is None
            &&& !agent.buckets.contains_key(key)
            &&& agent.request_count == 0
            &&& agent.limited_count == 0
            &&& agent.metrics.requests_total == 0
            &&& agent.metrics.requests_allowed == 0
            &&& agent.metrics.requests_limited == 0
            &&& agent.metrics.active_limiters == 0
            &&& !agent.draining
            &&& agent.started == started
            &&& agent.latest == started
        }),
{
}

/// A reading is what the clock of that name gave, and the time between two readings is measured
/// in nanoseconds, none left out.
pub proof fn readings_come_from_the_clocks(at: Instant, earlier: Instant, time: SystemTime)
    ensures
        is_reading(at) <==> call_ensures(Instant::now, (), at),
        is_system_reading(time) <==> call_ensures(SystemTime::now, (), time),
        nanos_between(at, earlier) == duration_nanos(time_between(at, earlier)),
{
}

/// The time at which the clock is read is not before the latest reading, and not before a reading
/// that is taken then; where the clock has not gone back it is that reading.
pub proof fn clock_is_read_then(started: Instant, latest: Instant, at: Instant)
    requires
        read_next(started, latest, at),
    ensures
        nanos_between(at, started) >= nanos_between(latest, started),
        exists|reading: Instant| #[trigger]
            is_reading(reading) && nanos_between(at, started) >= nanos_between(reading, started)
                && (nanos_between(reading, started) >= nanos_between(latest, started) ==> at
                == reading),
{
    let reading = choose|reading: Instant| #[trigger]
        is_reading(reading) && at == crate::clock::later_reading(started, reading, latest);
    assert(is_reading(reading));
}

/// A rule sets the rate and the burst of its buckets; where it gives no rate it is 100 requests
/// per second, and where it gives no burst it is the rate.
pub proof fn quota_is_that_of_the_rule(rule: RuleModel)
    ensures
        rule.requests_per_second > 0 ==> rule_quota(rule).per_second == rule.requests_per_second,
        rule.requests_per_second == 0 ==> rule_quota(rule).per_second == 100,
        rule.burst > 0 ==> rule_quota(rule).burst == rule.burst,
        rule.burst == 0 ==> rule_quota(rule).burst == rule_quota(rule).per_second,
{
}

/// A bucket made at a time is stamped with it, is full, has answered nothing and belongs to the
/// rule. A key that has a bucket keeps it as it is, and nothing else of the agent changes but the
/// number of buckets.
pub proof fn bucket_is_made_once(
    agent: AgentModel,
    key: Seq<char>,
    rule: RuleModel,
    now: nat,
    other: Seq<char>,
)
    ensures
        ({
            let after = with_bucket(agent, key, rule, now);
            let bucket = after.buckets[key];
            &&& agent.buckets.contains_key(key) ==> after == agent
            &&& !agent.buckets.contains_key(key) ==> {
                &&& after.buckets.contains_key(key)
                &&& bucket.last_used == now
                &&& bucket.rule_name == rule.name
                &&& bucket.quota == rule_quota(rule)
                &&& bucket.history.len() == 0
                &&& bucket.tokens == rule_quota(rule).burst
                &&& bucket.refills is None
                &&& after.metrics.active_limiters as int == (agent.metrics.active_limiters + 1) % (
                usize::MAX + 1)
            }
            &&& other != key ==> {
                &&& after.buckets.contains_key(other) == agent.buckets.contains_key(other)
                &&& agent.buckets.contains_key(other) ==> after.buckets[other]
                    == agent.buckets[other]
            }
            &&& after.config == agent.config
            &&& after.config_version == agent.config_version
            &&& after.request_count == agent.request_count
            &&& after.limited_count == agent.limited_count
            &&& after.metrics.requests_total == agent.metrics.requests_total
            &&& after.metrics.requests_allowed == agent.metrics.requests_allowed
            &&& after.metrics.requests_limited == agent.metrics.requests_limited
            &&& after.draining == agent.draining
            &&& after.started == agent.started
            &&& after.latest == agent.latest
        }),
{
    if agent.metrics.active_limiters < usize::MAX {
        vstd::arithmetic::div_mod::lemma_small_mod(
            (agent.metrics.active_limiters + 1) as nat,
            (usize::MAX + 1) as nat,
        );
    } else {
        vstd::arithmetic::div_mod::lemma_mod_self_0(usize::MAX + 1);
    }
}

/// A bucket that a call makes is stamped with a reading of the clock that is taken in that call:
/// the stamp is not before any reading before it, and every reading after it is not before the
/// stamp.
pub proof fn new_bucket_is_stamped_with_the_time(
    before: AgentModel,
    key: Seq<char>,
    rule: RuleModel,
    at: Instant,
    after: AgentModel,
    later: Instant,
)
    requires
        create_step(before, key, rule, at, after),
        !before.buckets.contains_key(key),
        read_next(after.started, after.latest, later),
    ensures
        after.buckets[key].last_used >= nanos_between(before.latest, before.started),
        exists|reading: Instant| #[trigger]
            is_reading(reading) && after.buckets[key].last_used >= nanos_between(
                reading,
                before.started,
            ) && (nanos_between(reading, before.started) >= nanos_between(
                before.latest,
                before.started,
            ) ==> after.buckets[key].last_used == nanos_between(reading, before.started)),
        after.buckets[key].last_used <= nanos_between(later, before.started),
        after.started == before.started,
        nanos_between(after.latest, after.started) == after.buckets[key].last_used,
{
    clock_is_read_then(before.started, before.latest, at);
    clock_is_read_then(after.started, after.latest, later);
    let reading = choose|reading: Instant| #[trigger]
        is_reading(reading) && nanos_between(at, before.started) >= nanos_between(
            reading,
            before.started,
        ) && (nanos_between(reading, before.started) >= nanos_between(
            before.latest,
            before.started,
        ) ==> at == reading);
    assert(is_reading(reading));
}

/// The same of a bucket that a request makes: it is stamped with a reading that is taken in the
/// course of the request.
pub proof fn bucket_of_a_request_is_stamped_with_the_time(
    before: AgentModel,
    event: EventModel,
    readings: Readings,
    allowed: bool,
    after: AgentModel,
    answer: ResponseModel,
    later: Instant,
)
    requires
        request_step(before, event, readings, allowed, after, answer),
        !before.buckets.contains_key(key_text(selected_rule(before.config, event).key, event)),
        read_next(after.started, after.latest, later),
    ensures
        ({
            let stamp = after.buckets[key_text(
                selected_rule(before.config, event).key,
                event,
            )].last_used;
            &&& stamp >= nanos_between(before.latest, before.started)
            &&& exists|reading: Instant| #[trigger]
                is_reading(reading) && stamp >= nanos_between(reading, before.started) && (
                nanos_between(reading, before.started) >= nanos_between(
                    before.latest,
                    before.started,
                ) ==> stamp == nanos_between(reading, before.started))
            &&& stamp <= nanos_between(after.latest, after.started)
            &&& stamp <= nanos_between(later, before.started)
        }),
{
    clock_is_read_then(before.started, before.latest, readings.stamp);
    clock_is_read_then(before.started, readings.stamp, readings.asked);
    clock_is_read_then(after.started, after.latest, later);
    let reading = choose|reading: Instant| #[trigger]
        is_reading(reading) && nanos_between(readings.stamp, before.started) >= nanos_between(
            reading,
            before.started,
        ) && (nanos_between(reading, before.started) >= nanos_between(
            before.latest,
            before.started,
        ) ==> readings.stamp == reading);
    assert(is_reading(reading));
}

/// A request moves the latest reading on, to one that is taken in the course of it: when its
/// bucket was asked.
pub proof fn request_moves_the_clock_on(
    before: AgentModel,
    event: EventModel,
    readings: Readings,
    allowed: bool,
    after: AgentModel,
    answer: ResponseModel,
)
    requires
        request_step(before, event, readings, allowed, after, answer),
    ensures
        nanos_between(before.latest, before.started) <= nanos_between(
            readings.stamp,
            before.started,
        ) <= nanos_between(after.latest, after.started),
        after.latest == readings.asked,
        exists|reading: Instant| #[trigger]
            is_reading(reading) && nanos_between(after.latest, after.started) >= nanos_between(
                reading,
                after.started,
            ) && (nanos_between(reading, after.started) >= nanos_between(
                readings.stamp,
                after.started,
            ) ==> after.latest == reading),
{
    clock_is_read_then(before.started, before.latest, readings.stamp);
    clock_is_read_then(before.started, readings.stamp, readings.asked);
}

/// A bucket that is made after a cleanup is as old, at a later cleanup, as the time that has gone
/// by since it was made, and not older than the time between the two cleanups; so it stays if
/// that is no more than the greatest age.
pub proof fn young_bucket_outlives_the_cleanup(
    start: AgentModel,
    first: Instant,
    cleaned: AgentModel,
    key: Seq<char>,
    rule: RuleModel,
    made: Instant,
    with: AgentModel,
    second: Instant,
    end: AgentModel,
    max_age: nat,
)
    requires
        cleanup_step(start, max_age, first, cleaned),
        !cleaned.buckets.contains_key(key),
        create_step(cleaned, key, rule, made, with),
        cleanup_step(with, max_age, second, end),
    ensures
        nanos_between(first, start.started) <= with.buckets[key].last_used <= nanos_between(
            second,
            start.started,
        ),
        end.buckets.contains_key(key) <==> nanos_between(second, start.started) - nanos_between(
            made,
            start.started,
        ) <= max_age,
        nanos_between(second, start.started) - nanos_between(first, start.started) <= max_age
            ==> end.buckets.contains_key(key),
{
    clock_is_read_then(start.started, start.latest, first);
    clock_is_read_then(start.started, first, made);
    clock_is_read_then(start.started, made, second);
}

/// A request asks the bucket of its key once and no other: that bucket keeps its quota, its rule
/// and its stamp, has one answer more, and the answer is that of a bucket with this quota and
/// these answers at that reading. A key without a bucket gets one for the rule, which lets the
/// request through.
pub proof fn request_asks_its_bucket(
    before: AgentModel,
    event: EventModel,
    readings: Readings,
    allowed: bool,
    after: AgentModel,
    answer: ResponseModel,
    other: Seq<char>,
)
    requires
        request_step(before, event, readings, allowed, after, answer),
    ensures
        ({
            let rule = selected_rule(before.config, event);
            let key = key_text(rule.key, event);
            let bucket = after.buckets[key];
            &&& after.buckets.contains_key(key)
            &&& before.buckets.contains_key(key) ==> {
                &&& allowed <==> lets_through(
                    before.buckets[key].quota,
                    before.buckets[key].history,
                    readings.bucket,
                )
                &&& bucket.quota == before.buckets[key].quota
                &&& bucket.rule_name == before.buckets[key].rule_name
                &&& bucket.last_used == before.buckets[key].last_used
                &&& bucket.history == before.buckets[key].history.push((readings.bucket, allowed))
            }
            &&& !before.buckets.contains_key(key) ==> {
                &&& allowed
                &&& bucket.quota == rule_quota(rule)
                &&& bucket.rule_name == rule.name
                &&& bucket.last_used == nanos_between(readings.stamp, before.started)
                &&& bucket.history == seq![(readings.bucket, true)]
            }
            &&& bucket.refills is Some
            &&& bucket.refills->0.answered_at == nanos_between(readings.asked, before.started)
            &&& other != key ==> {
                &&& after.buckets.contains_key(other) == before.buckets.contains_key(other)
                &&& before.buckets.contains_key(other) ==> after.buckets[other]
                    == before.buckets[other]
            }
        }),
{
    let rule = selected_rule(before.config, event);
    let key = key_text(rule.key, event);
    if !before.buckets.contains_key(key) {
        assert(after.buckets[key].history =~= seq![(readings.bucket, true)]);
    }
}

/// A request is counted once, as let through or as limited by the answer of its bucket, and
/// changes nothing else but the buckets and the latest reading; the counters start again at 0
/// when they run over.
pub proof fn request_counts_and_keeps_the_rest(
    before: AgentModel,
    event: EventModel,
    readings: Readings,
    allowed: bool,
    after: AgentModel,
    answer: ResponseModel,
)
    requires
        request_step(before, event, readings, allowed, after, answer),
    ensures
        ({
            let limited: int = if allowed {
                0
            } else {
                1
            };
            let key = key_text(selected_rule(before.config, event).key, event);
            let made: int = if before.buckets.contains_key(key) {
                0
            } else {
                1
            };
            let values = u64::MAX + 1;
            &&& after.request_count as int == (before.request_count + 1) % values
            &&& after.limited_count as int == (before.limited_count + limited) % values
            &&& after.metrics.requests_total as int == (before.metrics.requests_total + 1) % values
            &&& after.metrics.requests_allowed as int == (before.metrics.requests_allowed + 1
                - limited) % values
            &&& after.metrics.requests_limited as int == (before.metrics.requests_limited + limited)
                % values
            &&& after.metrics.active_limiters as int == (before.metrics.active_limiters + made) % (
            usize::MAX + 1)
            &&& after.config == before.config
            &&& after.config_version == before.config_version
            &&& after.draining == before.draining
            &&& after.started == before.started
            &&& after.latest == readings.asked
        }),
{
    let rule = selected_rule(before.config, event);
    let key = key_text(rule.key, event);
    bucket_is_made_once(before, key, rule, nanos_between(readings.stamp, before.started), key);
    if before.buckets.contains_key(key) {
        vstd::arithmetic::div_mod::lemma_small_mod(
            before.metrics.active_limiters as nat,
            (usize::MAX + 1) as nat,
        );
    }
}

/// A refused request is answered with the second that the system clock showed then, plus one.
pub proof fn reset_is_a_second_after_the_refusal(
    before: AgentModel,
    event: EventModel,
    readings: Readings,
    after: AgentModel,
    answer: ResponseModel,
)
    requires
        request_step(before, event, readings, false, after, answer),
        !before.config.dry_run,
    ensures
        is_system_reading(readings.system),
        answer.decision is Block,
        answer.decision->headers is Some,
        answer.decision->headers->0["X-RateLimit-Reset"@] == crate::text::signed_decimal(
            second_of_reading(readings.system) + 1,
        ),
{
    crate::laws::answer_to_a_refused_request(before, event, readings, after, answer);
}

/// A pushed configuration is taken in every part, with its version: rules, default rule and
/// whether the agent only reports. The buckets are gone; the counters of requests, the draining
/// mark and the clock stay.
pub proof fn pushed_configuration_is_taken_whole(
    agent: AgentModel,
    config: ConfigModel,
    version: Option<Seq<char>>,
    key: Seq<char>,
)
    ensures
        ({
            let after = reconfigured(agent, config, version);
            &&& after.config.rules == config.rules
            &&& after.config.default == config.default
            &&& after.config.dry_run == config.dry_run
            &&& after.config_version == version
            &&& !after.buckets.contains_key(key)
            &&& after.metrics.active_limiters == 0
            &&& after.metrics.requests_total == agent.metrics.requests_total
            &&& after.metrics.requests_allowed == agent.metrics.requests_allowed
            &&& after.metrics.requests_limited == agent.metrics.requests_limited
            &&& after.request_count == agent.request_count
            &&& after.limited_count == agent.limited_count
            &&& after.draining == agent.draining
            &&& after.started == agent.started
            &&& after.latest == agent.latest
        }),
{
}

/// After a push, requests go by the pushed configuration and by nothing that the agent had
/// before: of two agents that get the same configuration, both give the same answers, and both
/// refuse a limited request exactly if the pushed configuration does not ask only to report.
pub proof fn pushed_configuration_decides(
    agent: AgentModel,
    other: AgentModel,
    config: ConfigModel,
    version: Option<Seq<char>>,
    event: EventModel,
    allowed: bool,
    second: int,
)
    ensures
        ({
            let answer = request_answer(
                reconfigured(agent, config, version),
                event,
                allowed,
                second,
            );
            &&& answer == request_answer(
                reconfigured(other, config, version),
                event,
                allowed,
                second,
            )
            &&& answer.decision is Block <==> !allowed && !config.dry_run
        }),
{
}

/// The same of the requests that follow, as long as no other configuration is pushed: whatever
/// became of the agent since, a request whose bucket is empty is refused exactly if the pushed
/// configuration does not ask only to report.
pub proof fn pushed_dry_run_holds_for_later_requests(
    agent: AgentModel,
    config: ConfigModel,
    version: Option<Seq<char>>,
    first: EventModel,
    first_readings: Readings,
    first_allowed: bool,
    between: AgentModel,
    first_answer: ResponseModel,
    event: EventModel,
    readings: Readings,
    allowed: bool,
    after: AgentModel,
    answer: ResponseModel,
)
    requires
        request_step(
            reconfigured(agent, config, version),
            first,
            first_readings,
            first_allowed,
            between,
            first_answer,
        ),
        request_step(between, event, readings, allowed, after, answer),
    ensures
        answer.decision is Block <==> !allowed && !config.dry_run,
        between.config == config,
        after.config == config,
{
}

/// A cleanup at a time drops a bucket exactly if it is older than the greatest age then, keeps
/// the others as they are, counts those that stay, and changes nothing else.
pub proof fn cleanup_changes_nothing_else(
    agent: AgentModel,
    now: nat,
    max_age: nat,
    key: Seq<char>,
)
    ensures
        ({
            let after = without_expired(agent, now, max_age);
            &&& after.buckets.contains_key(key) <==> agent.buckets.contains_key(key) && now
                - agent.buckets[key].last_used <= max_age
            &&& after.buckets.contains_key(key) ==> after.buckets[key] == agent.buckets[key]
            &&& after.metrics.active_limiters as int == after.buckets.dom().len() as int % (
            usize::MAX + 1)
            &&& after.metrics.requests_total == agent.metrics.requests_total
            &&& after.metrics.requests_allowed == agent.metrics.requests_allowed
            &&& after.metrics.requests_limited == agent.metrics.requests_limited
            &&& after.request_count == agent.request_count
            &&& after.limited_count == agent.limited_count
            &&& after.config == agent.config
            &&& after.config_version == agent.config_version
            &&& after.draining == agent.draining
            &&& after.started == agent.started
            &&& after.latest == agent.latest
        }),
{
    vstd::arithmetic::div_mod::lemma_mod_bound(
        without_expired(agent, now, max_age).buckets.dom().len() as int,
        usize::MAX + 1,
    );
}

/// A cleanup goes by the reading of the clock that it takes, and keeps that as the latest.
pub proof fn cleanup_goes_by_its_reading(
    before: AgentModel,
    max_age: nat,
    at: Instant,
    after: AgentModel,
    key: Seq<char>,
)
    requires
        cleanup_step(before, max_age, at, after),
    ensures
        read_next(before.started, before.latest, at),
        after.latest == at,
        after.buckets.contains_key(key) <==> before.buckets.contains_key(key) && nanos_between(
            at,
            before.started,
        ) - before.buckets[key].last_used <= max_age,
        after.buckets.contains_key(key) ==> after.buckets[key] == before.buckets[key],
        after.config == before.config,
        after.config_version == before.config_version,
        after.draining == before.draining,
        after.started == before.started,
        after.request_count == before.request_count,
        after.limited_count == before.limited_count,
        after.metrics.requests_total == before.metrics.requests_total,
        after.metrics.requests_allowed == before.metrics.requests_allowed,
        after.metrics.requests_limited == before.metrics.requests_limited,
{
}

/// What every operation keeps says nothing of the clock, the configuration or the draining mark:
/// it holds of an agent whatever these are.
pub proof fn consistency_is_about_buckets_and_counters(
    agent: AgentModel,
    config: ConfigModel,
    version: Option<Seq<char>>,
    draining: bool,
    started: Instant,
    latest: Instant,
)
    ensures
        consistent(agent) == consistent(
            (AgentModel { config, config_version: version, draining, started, latest, ..agent }),
        ),
{
}

/// A bucket that has not answered yet is full at every time, as is one without a refill interval;
/// at the time of its last answer a bucket has what that answer left, up to the burst.
pub proof fn tokens_at_the_answer(bucket: BucketModel, now: nat)
    ensures
        bucket.refills is None ==> current_tokens(bucket, now) == bucket.quota.burst,
        bucket.quota.per_second > 1_000_000_000 ==> current_tokens(bucket, now)
            == bucket.quota.burst,
        bucket.refills is Some && 0 < bucket.quota.per_second <= 1_000_000_000 && now
            == bucket.refills->0.answered_at && bucket.tokens <= bucket.quota.burst
            ==> current_tokens(bucket, now) == bucket.tokens,
{
}

} // verus!
