//! The agent: its state and what it does on each event.
use std::time::{Duration, Instant, SystemTime};

use vstd::prelude::*;

use crate::clock::{time_since, unix_second};
#[allow(unused_imports)]
use crate::clock::{
    duration_nanos, is_system_reading, nanos_between, read_next, second_of_reading,
};
use crate::config::{ConfigModel, RateLimitConfig, RateLimitRule, RuleModel};
use crate::event::{EventModel, RequestHeadersEvent};
#[allow(unused_imports)]
use crate::limiters::{
    answer_keeps_bucket_consistent, answered, asked_at, bucket_consistent, entries, lets_through,
    new_bucket,
};
use crate::limiters::{
    clear, contains, insert, listed, new_map, remove, BucketModel, LimiterMap, LimiterQuota,
    ListedBucket, RateLimiterEntry,
};
use crate::response::{request_response, AgentResponse, ResponseModel};
#[allow(unused_imports)]
use crate::response::response_model;
#[allow(unused_imports)]
use crate::rules::{key_text, selected_rule};
#[allow(unused_imports)]
use crate::text::optional_text;

verus! {

/// Counters, which start again at 0 when they run over.
#[derive(Debug)]
pub struct RateLimitMetrics {
    pub requests_total: u64,
    pub requests_allowed: u64,
    pub requests_limited: u64,
    pub active_limiters: usize,
}

/// The rate limit agent.
pub struct RateLimitAgent {
    pub(crate) config: RateLimitConfig,
    pub(crate) config_version: Option<String>,
    pub(crate) limiters: LimiterMap,
    pub(crate) request_count: u64,
    pub(crate) limited_count: u64,
    pub(crate) metrics: RateLimitMetrics,
    pub(crate) draining: bool,
    pub(crate) started: Instant,
    /// The latest reading of the monotonic clock.
    pub(crate) latest: Instant,
}

/// The content of a [`RateLimitAgent`].
pub struct AgentModel {
    pub config: ConfigModel,
    pub config_version: Option<Seq<char>>,
    pub buckets: Map<Seq<char>, BucketModel>,
    pub request_count: u64,
    pub limited_count: u64,
    pub metrics: RateLimitMetrics,
    pub draining: bool,
    pub started: Instant,
    pub latest: Instant,
}

/// The contents of the buckets of a table.
pub open spec fn bucket_models(table: Map<Seq<char>, RateLimiterEntry>) -> Map<
    Seq<char>,
    BucketModel,
> {
    table.map_values(|entry: RateLimiterEntry| entry@)
}

impl View for RateLimitAgent {
    type V = AgentModel;

    open(crate) spec fn view(&self) -> AgentModel {
        AgentModel {
            config: self.config@,
            config_version: optional_text(self.config_version),
            buckets: bucket_models(entries(self.limiters)),
            request_count: self.request_count,
            limited_count: self.limited_count,
            metrics: self.metrics,
            draining: self.draining,
            started: self.started,
            latest: self.latest,
        }
    }
}

/// How many values a counter of buckets can have.
pub open spec fn usize_values() -> nat {
    (usize::MAX + 1) as nat
}

/// A 64-bit counter after one event more.
pub open spec fn next_u64(n: u64) -> u64 {
    if n == u64::MAX {
        0
    } else {
        (n + 1) as u64
    }
}

/// A counter of buckets after one bucket more.
pub open spec fn next_usize(n: usize) -> usize {
    if n == usize::MAX {
        0
    } else {
        (n + 1) as usize
    }
}

/// Whether every bucket in the table is consistent.
pub open spec fn buckets_consistent(buckets: Map<Seq<char>, BucketModel>) -> bool {
    forall|key: Seq<char>|
        buckets.contains_key(key) ==> bucket_consistent(#[trigger] buckets[key])
}

/// What every operation keeps: the buckets are consistent, the active limiters are the buckets in
/// the table, each request is counted once, and every counted request was either let through or
/// limited. Counters that have run over agree with the counts up to the values they can have.
pub open spec fn consistent(agent: AgentModel) -> bool {
    &&& agent.buckets.dom().finite()
    &&& buckets_consistent(agent.buckets)
    &&& agent.metrics.active_limiters as nat == agent.buckets.dom().len() % usize_values()
    &&& agent.request_count == agent.metrics.requests_total
    &&& agent.limited_count == agent.metrics.requests_limited
    &&& agent.metrics.requests_total as int == (agent.metrics.requests_allowed
        + agent.metrics.requests_limited) % (u64::MAX + 1)
}

/// An agent that was started at a reading of the monotonic clock and has done nothing yet.
pub open spec fn initial_agent(config: ConfigModel, started: Instant) -> AgentModel {
    AgentModel {
        config,
        config_version: None,
        buckets: Map::empty(),
        request_count: 0,
        limited_count: 0,
        metrics: RateLimitMetrics {
            requests_total: 0,
            requests_allowed: 0,
            requests_limited: 0,
            active_limiters: 0,
        },
        draining: false,
        started,
        latest: started,
    }
}

/// The bucket of a key: the one in the table, or else a new one for the rule.
pub open spec fn bucket_for(
    agent: AgentModel,
    key: Seq<char>,
    rule: RuleModel,
    now: nat,
) -> BucketModel {
    if agent.buckets.contains_key(key) {
        agent.buckets[key]
    } else {
        new_bucket(rule, now)
    }
}

/// The agent once the key has a bucket.
pub open spec fn with_bucket(
    agent: AgentModel,
    key: Seq<char>,
    rule: RuleModel,
    now: nat,
) -> AgentModel {
    if agent.buckets.contains_key(key) {
        agent
    } else {
        AgentModel {
            buckets: agent.buckets.insert(key, new_bucket(rule, now)),
            metrics: RateLimitMetrics {
                active_limiters: next_usize(agent.metrics.active_limiters),
                ..agent.metrics
            },
            ..agent
        }
    }
}

/// The agent once the bucket of the key has answered, at a reading of its clock and at a time, in
/// nanoseconds since the agent started.
pub open spec fn with_answer(
    agent: AgentModel,
    key: Seq<char>,
    reading: nat,
    at: nat,
    allowed: bool,
) -> AgentModel {
    AgentModel {
        buckets: agent.buckets.insert(key, answered(agent.buckets[key], reading, at, allowed)),
        ..agent
    }
}

/// The agent once a request with this answer is counted.
pub open spec fn with_count(agent: AgentModel, allowed: bool) -> AgentModel {
    AgentModel {
        request_count: next_u64(agent.request_count),
        limited_count: if allowed {
            agent.limited_count
        } else {
            next_u64(agent.limited_count)
        },
        metrics: RateLimitMetrics {
            requests_total: next_u64(agent.metrics.requests_total),
            requests_allowed: if allowed {
                next_u64(agent.metrics.requests_allowed)
            } else {
                agent.metrics.requests_allowed
            },
            requests_limited: if allowed {
                agent.metrics.requests_limited
            } else {
                next_u64(agent.metrics.requests_limited)
            },
            active_limiters: agent.metrics.active_limiters,
        },
        ..agent
    }
}

/// The agent after a request: a new bucket is made at one time and the bucket is asked at another,
/// in nanoseconds since the agent started, and it gives this answer at a reading of its clock.
pub open spec fn after_request(
    agent: AgentModel,
    event: EventModel,
    now: nat,
    at: nat,
    reading: nat,
    allowed: bool,
) -> AgentModel {
    let rule = selected_rule(agent.config, event);
    let key = key_text(rule.key, event);
    with_count(
        with_answer(with_bucket(agent, key, rule, now), key, reading, at, allowed),
        allowed,
    )
}

/// The answer to a request, given the answer of the bucket and the second of the Unix clock: the
/// limit resets a second later.
pub open spec fn request_answer(
    agent: AgentModel,
    event: EventModel,
    allowed: bool,
    second: int,
) -> ResponseModel {
    let rule = selected_rule(agent.config, event);
    response_model(rule, key_text(rule.key, event), !allowed, agent.config.dry_run, second + 1)
}

/// The bucket that decides about a request.
pub open spec fn deciding_bucket(agent: AgentModel, event: EventModel, now: nat) -> BucketModel {
    let rule = selected_rule(agent.config, event);
    bucket_for(agent, key_text(rule.key, event), rule, now)
}

/// The readings of the clocks in the course of a request.
pub struct Readings {
    /// Of the monotonic clock: when a new bucket is made.
    pub stamp: Instant,
    /// Of the monotonic clock: when the bucket is asked.
    pub asked: Instant,
    /// Of the clock of the bucket, in nanoseconds since the bucket was made: when it answers.
    pub bucket: nat,
    /// Of the system clock: when the request is refused.
    pub system: SystemTime,
}

/// Whether the bucket of a request lets it through at a reading of the bucket's clock.
pub open spec fn request_allowed(agent: AgentModel, event: EventModel, reading: nat) -> bool {
    let bucket = deciding_bucket(agent, event, 0);
    lets_through(bucket.quota, bucket.history, reading)
}

/// What a request does to the agent at these readings of the clocks: the bucket of its key lets
/// it through or not, and the state follows from that.
pub open spec fn request_effect(
    before: AgentModel,
    event: EventModel,
    readings: Readings,
    allowed: bool,
    after: AgentModel,
) -> bool {
    &&& allowed == request_allowed(before, event, readings.bucket)
    &&& after == (AgentModel {
        latest: readings.asked,
        ..after_request(
            before,
            event,
            nanos_between(readings.stamp, before.started),
            nanos_between(readings.asked, before.started),
            readings.bucket,
            allowed,
        )
    })
}

/// What a request comes to at these readings of the clocks, which are taken one after the other:
/// what it does to the agent, and the answer.
pub open spec fn request_step(
    before: AgentModel,
    event: EventModel,
    readings: Readings,
    allowed: bool,
    after: AgentModel,
    answer: ResponseModel,
) -> bool {
    &&& read_next(before.started, before.latest, readings.stamp)
    &&& read_next(before.started, readings.stamp, readings.asked)
    &&& request_effect(before, event, readings, allowed, after)
    &&& !allowed && !before.config.dry_run ==> is_system_reading(readings.system)
    &&& answer == request_answer(before, event, allowed, second_of_reading(readings.system))
}

/// What making a bucket for the key, if it has none, comes to at a reading of the clock.
pub open spec fn create_step(
    before: AgentModel,
    key: Seq<char>,
    rule: RuleModel,
    at: Instant,
    after: AgentModel,
) -> bool {
    &&& read_next(before.started, before.latest, at)
    &&& after == (AgentModel {
        latest: at,
        ..with_bucket(before, key, rule, nanos_between(at, before.started))
    })
}

/// What a cleanup comes to at a reading of the clock.
pub open spec fn cleanup_step(
    before: AgentModel,
    max_age: nat,
    at: Instant,
    after: AgentModel,
) -> bool {
    &&& read_next(before.started, before.latest, at)
    &&& after == (AgentModel {
        latest: at,
        ..without_expired(before, nanos_between(at, before.started), max_age)
    })
}

/// The agent under a new configuration: the buckets are gone, the request counters stay.
pub open spec fn reconfigured(
    agent: AgentModel,
    config: ConfigModel,
    version: Option<Seq<char>>,
) -> AgentModel {
    AgentModel {
        config,
        config_version: version,
        buckets: Map::empty(),
        metrics: RateLimitMetrics { active_limiters: 0, ..agent.metrics },
        ..agent
    }
}

/// Whether a bucket is older than the greatest age.
pub open spec fn expired(bucket: BucketModel, now: nat, max_age: nat) -> bool {
    now - bucket.last_used > max_age
}

/// The agent without the buckets that are too old.
pub open spec fn without_expired(agent: AgentModel, now: nat, max_age: nat) -> AgentModel {
    let kept = Map::new(
        |key: Seq<char>|
            agent.buckets.contains_key(key) && !expired(agent.buckets[key], now, max_age),
        |key: Seq<char>| agent.buckets[key],
    );
    AgentModel {
        buckets: kept,
        metrics: RateLimitMetrics {
            active_limiters: (kept.dom().len() % usize_values()) as usize,
            ..agent.metrics
        },
        ..agent
    }
}

/// The counter of buckets goes up with their number, up to the values it can have.
pub(crate) proof fn count_up(n: nat)
    ensures
        (n + 1) % usize_values() == next_usize((n % usize_values()) as usize),
        n % usize_values() <= usize::MAX,
{
    let m = usize_values() as int;
    vstd::arithmetic::div_mod::lemma_fundamental_div_mod(n as int, m);
    let q = n as int / m;
    let r = n as int % m;
    if r == m - 1 {
        assert(n + 1 == m * (q + 1) + 0) by (nonlinear_arith)
            requires
                n == m * q + r,
                r == m - 1,
        ;
        vstd::arithmetic::div_mod::lemma_fundamental_div_mod_converse(n as int + 1, m, q + 1, 0);
    } else {
        vstd::arithmetic::div_mod::lemma_fundamental_div_mod_converse(n as int + 1, m, q, r + 1);
    }
}

impl RateLimitAgent {
    /// An agent with a configuration, without buckets and with its counters at 0.
    pub fn new(config: RateLimitConfig) -> (agent: Self)
        ensures
            agent@ == initial_agent(config@, agent@.started),
            consistent(agent@),
    {
        let started = Instant::now();
        let agent = RateLimitAgent {
            config,
            config_version: None,
            limiters: new_map(),
            request_count: 0,
            limited_count: 0,
            metrics: RateLimitMetrics {
                requests_total: 0,
                requests_allowed: 0,
                requests_limited: 0,
                active_limiters: 0,
            },
            draining: false,
            started,
            latest: started,
        };
        proof {
            assert(agent@.buckets =~= Map::empty());
            vstd::arithmetic::div_mod::lemma_small_mod(0, usize_values());
        }
        agent
    }

    /// Makes a bucket for the key if it has none, as the rule asks, at the given time since the
    /// agent started. A bucket that is there stays as it is, whatever the rule.
    pub fn get_or_create_limiter_at(&mut self, key: String, rule: &RateLimitRule, now: Duration)
        requires
            consistent(old(self)@),
        ensures
            final(self)@ == with_bucket(old(self)@, key@, rule@, duration_nanos(now)),
            consistent(final(self)@),
    {
        if !contains(&self.limiters, &key) {
            let per_second: u32 = if rule.requests_per_second == 0 {
                100
            } else {
                rule.requests_per_second
            };
            let burst: u32 = if rule.burst == 0 {
                per_second
            } else {
                rule.burst
            };
            let quota = LimiterQuota { per_second, burst };
            let entry = RateLimiterEntry::new(quota, now.as_nanos(), rule.name.clone());
            proof {
                count_up(self@.buckets.dom().len());
                assert(bucket_models(entries(self.limiters).insert(key@, entry))
                    =~= self@.buckets.insert(key@, entry@));
                assert(self@.buckets.insert(key@, entry@).dom() =~= self@.buckets.dom().insert(
                    key@,
                ));
            }
            insert(&mut self.limiters, key, entry);
            self.metrics.active_limiters = self.metrics.active_limiters.wrapping_add(1);
        }
    }

    /// Makes a bucket for the key if it has none, as the rule asks.
    pub fn get_or_create_limiter(&mut self, key: String, rule: &RateLimitRule)
        requires
            consistent(old(self)@),
        ensures
            exists|at: Instant| #[trigger] create_step(old(self)@, key@, rule@, at, final(self)@),
            consistent(final(self)@),
    {
        let ghost before = self@;
        let ghost text = key@;
        let now = self.read_clock();
        self.get_or_create_limiter_at(key, rule, now);
        assert(create_step(before, text, rule@, self@.latest, self@));
    }

    /// Reads the monotonic clock: the time since the agent started.
    fn read_clock(&mut self) -> (now: Duration)
        ensures
            read_next(old(self)@.started, old(self)@.latest, final(self)@.latest),
            final(self)@ == (AgentModel { latest: final(self)@.latest, ..old(self)@ }),
            duration_nanos(now) == nanos_between(final(self)@.latest, old(self)@.started),
    {
        let (now, at) = time_since(&self.started, &self.latest);
        self.latest = at;
        now
    }

    /// Asks the bucket of the key to let a request through, at the given time since the agent
    /// started.
    fn check_limiter(&mut self, key: &String, now: Duration) -> (allowed: bool)
        requires
            consistent(old(self)@),
            old(self)@.buckets.contains_key(key@),
        ensures
            exists|reading: nat|
                allowed == lets_through(
                    old(self)@.buckets[key@].quota,
                    old(self)@.buckets[key@].history,
                    reading,
                ) && final(self)@ == #[trigger] with_answer(
                    old(self)@,
                    key@,
                    reading,
                    duration_nanos(now),
                    allowed,
                ),
            consistent(final(self)@),
    {
        let ghost before = self@;
        let ghost table = entries(self.limiters);
        match remove(&mut self.limiters, key) {
            Some((key, entry)) => {
                let ghost bucket = entry@;
                let (entry, allowed) = entry.ask(now.as_nanos());
                proof {
                    let reading = choose|reading: nat| #[trigger]
                        asked_at(bucket, reading, duration_nanos(now), allowed, entry@);
                    answer_keeps_bucket_consistent(bucket, reading, duration_nanos(now));
                    assert(table.remove(key@).insert(key@, entry) =~= table.insert(key@, entry));
                    assert(bucket_models(table.insert(key@, entry)) =~= bucket_models(
                        table,
                    ).insert(key@, entry@));
                    assert(bucket_models(table).insert(key@, entry@).dom() =~= bucket_models(
                        table,
                    ).dom());
                    assert(with_answer(
                        before,
                        key@,
                        reading,
                        duration_nanos(now),
                        allowed,
                    ).buckets == before.buckets.insert(key@, entry@));
                }
                insert(&mut self.limiters, key, entry);
                allowed
            },
            None => {
                assert(false);
                true
            },
        }
    }

    /// Counts a request with its answer.
    fn count_request(&mut self, allowed: bool)
        requires
            consistent(old(self)@),
        ensures
            final(self)@ == with_count(old(self)@, allowed),
            consistent(final(self)@),
    {
        self.request_count = self.request_count.wrapping_add(1);
        self.metrics.requests_total = self.metrics.requests_total.wrapping_add(1);
        if allowed {
            self.metrics.requests_allowed = self.metrics.requests_allowed.wrapping_add(1);
        } else {
            self.limited_count = self.limited_count.wrapping_add(1);
            self.metrics.requests_limited = self.metrics.requests_limited.wrapping_add(1);
        }
    }

    /// Takes a configuration that was pushed to the agent, or nothing where it could not be
    /// parsed. A new configuration replaces the one before, with its version, and all buckets are
    /// dropped, so that the new rules apply. Without one everything stays as it is.
    pub fn on_configure(&mut self, config: Option<RateLimitConfig>, version: Option<String>) -> (
    applied: bool)
        requires
            consistent(old(self)@),
        ensures
            applied == config is Some,
            match config {
                Some(config) => final(self)@ == reconfigured(
                    old(self)@,
                    config@,
                    optional_text(version),
                ),
                None => final(self)@ == old(self)@,
            },
            config matches Some(config) ==> final(self)@.config == config@,
            consistent(final(self)@),
    {
        match config {
            Some(config) => {
                self.config = config;
                self.config_version = version;
                clear(&mut self.limiters);
                self.metrics.active_limiters = 0;
                proof {
                    assert(self@.buckets =~= Map::empty());
                    vstd::arithmetic::div_mod::lemma_small_mod(0, usize_values());
                }
                true
            },
            None => false,
        }
    }

    /// Marks the agent as draining when it is told to shut down.
    pub fn on_shutdown(&mut self)
        ensures
            final(self)@ == (AgentModel { draining: true, ..old(self)@ }),
    {
        self.draining = true;
    }

    /// Marks the agent as draining when it is told to drain.
    pub fn on_drain(&mut self)
        ensures
            final(self)@ == (AgentModel { draining: true, ..old(self)@ }),
    {
        self.draining = true;
    }

    /// Drops the buckets that are older than the greatest age at the given time, both in
    /// nanoseconds, the time since the agent started. Returns how many there were.
    pub fn remove_expired_limiters(&mut self, now: u128, max_age: u128) -> (removed: usize)
        requires
            consistent(old(self)@),
        ensures
            final(self)@ == without_expired(old(self)@, now as nat, max_age as nat),
            removed == old(self)@.buckets.dom().len() - final(self)@.buckets.dom().len(),
            consistent(final(self)@),
    {
        let list = listed(&self.limiters);
        let ghost before = self@;
        let ghost table = entries(self.limiters);
        let mut removed: usize = 0;
        let mut i: usize = 0;
        proof {
            assert(swept(table, list@, 0, now as nat, max_age as nat) =~= table);
        }
        while i < list.len()
            invariant
                i <= list.len(),
                removed <= i,
                table == entries(old(self).limiters),
                before == old(self)@,
                entries(self.limiters) == swept(
                    table,
                    list@,
                    i as int,
                    now as nat,
                    max_age as nat,
                ),
                self@ == (AgentModel {
                    buckets: bucket_models(entries(self.limiters)),
                    metrics: RateLimitMetrics {
                        active_limiters: self@.metrics.active_limiters,
                        ..before.metrics
                    },
                    ..before
                }),
                consistent(self@),
                removed == before.buckets.dom().len() - self@.buckets.dom().len(),
                forall|k: int|
                    0 <= k < list.len() ==> table.contains_key((#[trigger] list[k]).key@)
                        && table[list[k].key@].last_used == list[k].last_used,
                forall|k: int, l: int|
                    0 <= k < l < list.len() ==> (#[trigger] list[k]).key@ != (#[trigger]
                    list[l]).key@,
            decreases list.len() - i,
        {
            let ghost swept_now = entries(self.limiters);
            let ghost key = list@[i as int].key@;
            let made: u128 = list[i].last_used;
            if now > made && now - made > max_age {
                proof {
                    assert(swept_now.contains_key(key));
                    assert(swept_now.remove(key) =~= swept(
                        table,
                        list@,
                        i + 1,
                        now as nat,
                        max_age as nat,
                    ));
                    assert(bucket_models(swept_now.remove(key)) =~= bucket_models(
                        swept_now,
                    ).remove(key));
                    assert(bucket_models(swept_now).remove(key).dom() =~= bucket_models(
                        swept_now,
                    ).dom().remove(key));
                    count_up((bucket_models(swept_now).dom().len() - 1) as nat);
                }
                remove(&mut self.limiters, &list[i].key);
                self.metrics.active_limiters = self.metrics.active_limiters.wrapping_sub(1);
                removed += 1;
            } else {
                proof {
                    assert(swept_now =~= swept(table, list@, i + 1, now as nat, max_age as nat));
                }
            }
            i += 1;
        }
        proof {
            let kept = without_expired(before, now as nat, max_age as nat).buckets;
            assert(self@.buckets =~= kept);
        }
        removed
    }

    /// Drops the buckets that are older than the greatest age. Returns how many there were.
    pub fn cleanup_expired_limiters(&mut self, max_age: Duration) -> (removed: usize)
        requires
            consistent(old(self)@),
        ensures
            exists|at: Instant| #[trigger]
                cleanup_step(old(self)@, duration_nanos(max_age), at, final(self)@),
            removed == old(self)@.buckets.dom().len() - final(self)@.buckets.dom().len(),
            consistent(final(self)@),
    {
        let ghost before = self@;
        let now: u128 = self.read_clock().as_nanos();
        let age: u128 = max_age.as_nanos();
        let removed: usize = self.remove_expired_limiters(now, age);
        assert(cleanup_step(before, duration_nanos(max_age), self@.latest, self@));
        removed
    }

    /// Answers a request event.
    pub fn on_request_headers(&mut self, event: RequestHeadersEvent) -> (response: AgentResponse)
        requires
            consistent(old(self)@),
        ensures
            exists|readings: Readings, allowed: bool|
                request_step(old(self)@, event@, readings, allowed, final(self)@, response@),
            consistent(final(self)@),
    {
        process_request_headers(self, event)
    }
}

/// The table once the buckets among the first `i` of the list are dropped that are too old.
spec fn swept(
    table: Map<Seq<char>, RateLimiterEntry>,
    list: Seq<ListedBucket>,
    i: int,
    now: nat,
    max_age: nat,
) -> Map<Seq<char>, RateLimiterEntry> {
    Map::new(
        |key: Seq<char>|
            table.contains_key(key) && !(exists|j: int|
                0 <= j < i && (#[trigger] list[j]).key@ == key && now - list[j].last_used
                    > max_age),
        |key: Seq<char>| table[key],
    )
}

/// Answers a request event: finds the rule that applies, asks the bucket of the request's key,
/// counts the request and builds the answer.
pub fn process_request_headers(agent: &mut RateLimitAgent, event: RequestHeadersEvent) -> (response:
    AgentResponse)
    requires
        consistent(old(agent)@),
    ensures
        exists|readings: Readings, allowed: bool|
            request_step(old(agent)@, event@, readings, allowed, final(agent)@, response@),
        consistent(final(agent)@),
{
    let ghost before = agent@;
    let rule = agent.find_matching_rule(&event);
    let key = agent.generate_key(&rule.key, &event);
    agent.get_or_create_limiter(key.clone(), &rule);
    let ghost stamp = choose|at: Instant| #[trigger]
        create_step(before, key@, rule@, at, agent@);
    let now = agent.read_clock();
    let ghost asked = agent@;
    let ghost at = agent@.latest;
    let allowed = agent.check_limiter(&key, now);
    let ghost reading = choose|reading: nat|
        allowed == lets_through(
            asked.buckets[key@].quota,
            asked.buckets[key@].history,
            reading,
        ) && agent@ == #[trigger] with_answer(asked, key@, reading, duration_nanos(now), allowed);
    agent.count_request(allowed);
    let dry_run = agent.config.dry_run;
    // Only the answer to a refused request tells the time.
    if !allowed && !dry_run {
        let time = SystemTime::now();
        let second: i64 = unix_second(time);
        let response = request_response(&rule, &key, true, false, second + 1);
        let ghost readings = Readings { stamp, asked: at, bucket: reading, system: time };
        assert(request_step(before, event@, readings, allowed, agent@, response@));
        response
    } else {
        let response = request_response(&rule, &key, !allowed, dry_run, 0);
        let ghost readings = Readings { stamp, asked: at, bucket: reading, system: arbitrary() };
        assert(request_step(before, event@, readings, allowed, agent@, response@));
        response
    }
}

} // verus!
