//! What the agent tells the proxy about itself.
use std::time::Duration;
#[allow(unused_imports)]
use std::time::{Instant, SystemTime};

use vstd::prelude::*;
use vstd::string::StringExecFns;

use crate::agent::{AgentModel, RateLimitAgent};
#[allow(unused_imports)]
use crate::clock::{
    duration_nanos, is_system_reading, millis_of_reading, nanos_between, read_next,
};
use crate::clock::{now_ms, time_since};
#[allow(unused_imports)]
use crate::limiters::{current_tokens, entries, refills_model, tokens_at};
use crate::limiters::{listed, BucketModel};
use crate::response::PROTOCOL_VERSION_2;
#[allow(unused_imports)]
use crate::text::optional_text;

verus! {

/// The events of the protocol that the agent handles.
#[derive(Debug, Clone, Copy, PartialEq, Eq, Structural)]
pub enum EventType {
    RequestHeaders,
    Configure,
}

/// What the agent can do.
#[derive(Debug, Clone, Copy)]
pub struct AgentFeatures {
    pub streaming_body: bool,
    pub websocket: bool,
    pub guardrails: bool,
    pub config_push: bool,
    pub metrics_export: bool,
    pub concurrent_requests: u32,
    pub cancellation: bool,
    pub flow_control: bool,
    pub health_reporting: bool,
}

/// What the agent asks the proxy to keep to.
#[derive(Debug, Clone, Copy)]
pub struct AgentLimits {
    pub max_body_size: usize,
    pub max_concurrency: u32,
    pub preferred_chunk_size: usize,
    pub max_memory: Option<usize>,
    pub max_processing_time_ms: Option<u64>,
}

/// How the agent reports its health.
#[derive(Debug, Clone, Copy)]
pub struct HealthConfig {
    pub report_interval_ms: u32,
    pub include_load_metrics: bool,
    pub include_resource_metrics: bool,
}

/// What the agent declares in the handshake.
#[derive(Debug)]
pub struct AgentCapabilities {
    pub protocol_version: u32,
    pub agent_id: String,
    pub name: String,
    pub version: String,
    pub supported_events: Vec<EventType>,
    pub features: AgentFeatures,
    pub limits: AgentLimits,
    pub health: HealthConfig,
}

/// The content of an [`AgentCapabilities`].
pub struct CapabilitiesModel {
    pub protocol_version: u32,
    pub agent_id: Seq<char>,
    pub name: Seq<char>,
    pub version: Seq<char>,
    pub supported_events: Seq<EventType>,
    pub features: AgentFeatures,
    pub limits: AgentLimits,
    pub health: HealthConfig,
}

impl View for AgentCapabilities {
    type V = CapabilitiesModel;

    open spec fn view(&self) -> CapabilitiesModel {
        CapabilitiesModel {
            protocol_version: self.protocol_version,
            agent_id: self.agent_id@,
            name: self.name@,
            version: self.version@,
            supported_events: self.supported_events@,
            features: self.features,
            limits: self.limits,
            health: self.health,
        }
    }
}

/// How well the agent is.
#[derive(Debug, Clone, Copy)]
pub enum HealthState {
    Healthy,
    Draining { eta_ms: Option<u64> },
}

/// How much the agent has to do. The latencies are whole milliseconds.
#[derive(Debug, Clone, Copy)]
pub struct LoadMetrics {
    pub in_flight: u32,
    pub queue_depth: u32,
    pub avg_latency_ms: u32,
    pub p50_latency_ms: u32,
    pub p95_latency_ms: u32,
    pub p99_latency_ms: u32,
    pub requests_processed: u64,
    pub requests_rejected: u64,
    pub requests_timed_out: u64,
}

/// A report on the agent's health.
#[derive(Debug)]
pub struct HealthStatus {
    pub agent_id: String,
    pub state: HealthState,
    pub message: Option<String>,
    pub load: Option<LoadMetrics>,
    pub valid_until_ms: Option<u64>,
    pub timestamp_ms: u64,
}

/// The content of a [`HealthStatus`].
pub struct HealthModel {
    pub agent_id: Seq<char>,
    pub state: HealthState,
    pub message: Option<Seq<char>>,
    pub load: Option<LoadMetrics>,
    pub valid_until_ms: Option<u64>,
    pub timestamp_ms: u64,
}

impl View for HealthStatus {
    type V = HealthModel;

    open spec fn view(&self) -> HealthModel {
        HealthModel {
            agent_id: self.agent_id@,
            state: self.state,
            message: optional_text(self.message),
            load: self.load,
            valid_until_ms: self.valid_until_ms,
            timestamp_ms: self.timestamp_ms,
        }
    }
}

/// A number that only grows.
#[derive(Debug)]
pub struct CounterMetric {
    pub name: String,
    pub value: u64,
}

/// A number that goes up and down.
#[derive(Debug)]
pub struct GaugeMetric {
    pub name: String,
    /// The key of the bucket that the number is about, where it is about one.
    pub key: Option<String>,
    pub value: u64,
}

/// The content of a [`GaugeMetric`].
pub struct GaugeModel {
    pub name: Seq<char>,
    pub key: Option<Seq<char>>,
    pub value: u64,
}

impl View for GaugeMetric {
    type V = GaugeModel;

    open spec fn view(&self) -> GaugeModel {
        GaugeModel { name: self.name@, key: optional_text(self.key), value: self.value }
    }
}

/// The numbers that the agent exports.
#[derive(Debug)]
pub struct MetricsReport {
    pub agent_id: String,
    pub timestamp_ms: u64,
    pub interval_ms: u64,
    pub counters: Vec<CounterMetric>,
    pub gauges: Vec<GaugeMetric>,
}

/// The content of a [`MetricsReport`].
pub struct ReportModel {
    pub agent_id: Seq<char>,
    pub timestamp_ms: u64,
    pub interval_ms: u64,
    pub counters: Seq<(Seq<char>, u64)>,
    pub gauges: Seq<GaugeModel>,
}

impl View for MetricsReport {
    type V = ReportModel;

    open spec fn view(&self) -> ReportModel {
        ReportModel {
            agent_id: self.agent_id@,
            timestamp_ms: self.timestamp_ms,
            interval_ms: self.interval_ms,
            counters: self.counters@.map_values(|c: CounterMetric| (c.name@, c.value)),
            gauges: self.gauges@.map_values(|g: GaugeMetric| g@),
        }
    }
}

/// What the agent declares, in the given version of its program.
pub open spec fn capabilities_model(version: Seq<char>) -> CapabilitiesModel {
    CapabilitiesModel {
        protocol_version: 2,
        agent_id: "ratelimit-agent"@,
        name: "Zentinel Rate Limit Agent"@,
        version,
        supported_events: seq![EventType::RequestHeaders, EventType::Configure],
        features: AgentFeatures {
            streaming_body: false,
            websocket: false,
            guardrails: false,
            config_push: true,
            metrics_export: true,
            concurrent_requests: 1000,
            cancellation: true,
            flow_control: true,
            health_reporting: true,
        },
        limits: AgentLimits {
            max_body_size: 0,
            max_concurrency: 1000,
            preferred_chunk_size: 0,
            max_memory: None,
            max_processing_time_ms: Some(100),
        },
        health: HealthConfig {
            report_interval_ms: 10_000,
            include_load_metrics: true,
            include_resource_metrics: false,
        },
    }
}

/// The load of an agent: its requests, and how many of them were limited.
pub open spec fn load_of(agent: AgentModel) -> LoadMetrics {
    LoadMetrics {
        in_flight: 0,
        queue_depth: 0,
        avg_latency_ms: 0,
        p50_latency_ms: 0,
        p95_latency_ms: 0,
        p99_latency_ms: 0,
        requests_processed: agent.metrics.requests_total,
        requests_rejected: agent.metrics.requests_limited,
        requests_timed_out: 0,
    }
}

/// The health of an agent at a time, in milliseconds since the Unix epoch.
pub open spec fn health_of(agent: AgentModel, time_ms: u64) -> HealthModel {
    HealthModel {
        agent_id: "ratelimit-agent"@,
        state: if agent.draining {
            HealthState::Draining { eta_ms: None }
        } else {
            HealthState::Healthy
        },
        message: if agent.draining {
            Some("Agent is draining"@)
        } else {
            None
        },
        load: Some(load_of(agent)),
        valid_until_ms: None,
        timestamp_ms: time_ms,
    }
}

/// The gauge of the tokens in a bucket at a time, in nanoseconds since the agent started.
pub open spec fn token_gauge(key: Seq<char>, bucket: BucketModel, now: nat) -> GaugeModel {
    GaugeModel {
        name: "ratelimit_bucket_tokens"@,
        key: Some(key),
        value: current_tokens(bucket, now) as u64,
    }
}

/// Whether these are the gauges of the tokens in the buckets at a time: one for each bucket, in
/// any order.
pub open spec fn token_gauges(
    buckets: Map<Seq<char>, BucketModel>,
    now: nat,
    gauges: Seq<GaugeModel>,
) -> bool {
    &&& forall|i: int|
        0 <= i < gauges.len() ==> (#[trigger] gauges[i]).key is Some && buckets.contains_key(
            gauges[i].key->0,
        ) && gauges[i] == token_gauge(gauges[i].key->0, buckets[gauges[i].key->0], now)
    &&& forall|i: int, j: int|
        0 <= i < j < gauges.len() ==> (#[trigger] gauges[i]).key != (#[trigger] gauges[j]).key
    &&& forall|key: Seq<char>| #[trigger]
        buckets.contains_key(key) ==> exists|i: int|
            0 <= i < gauges.len() && (#[trigger] gauges[i]).key == Some(key)
}

/// Whether a report tells the metrics of an agent at a time, in nanoseconds since the agent
/// started, with this time stamp, in milliseconds since the Unix epoch: the counters, how many
/// buckets there are, and then the tokens in each of them.
pub open spec fn reports(agent: AgentModel, now: nat, time_ms: u64, report: ReportModel) -> bool {
    &&& report.agent_id == "ratelimit-agent"@
    &&& report.timestamp_ms == time_ms
    &&& report.interval_ms == 10_000
    &&& report.counters == seq![
        ("ratelimit_requests_total"@, agent.metrics.requests_total),
        ("ratelimit_allowed_total"@, agent.metrics.requests_allowed),
        ("ratelimit_limited_total"@, agent.metrics.requests_limited),
    ]
    &&& report.gauges.len() > 0
    &&& report.gauges[0] == (GaugeModel {
        name: "ratelimit_active_limiters"@,
        key: None,
        value: agent.metrics.active_limiters as u64,
    })
    &&& token_gauges(agent.buckets, now, report.gauges.drop_first())
}

impl HealthStatus {
    /// The status of a healthy agent at a time.
    pub fn healthy(agent_id: &str, time_ms: u64) -> (status: Self)
        ensures
            status@ == (HealthModel {
                agent_id: agent_id@,
                state: HealthState::Healthy,
                message: None,
                load: None,
                valid_until_ms: None,
                timestamp_ms: time_ms,
            }),
    {
        HealthStatus {
            agent_id: String::from_str(agent_id),
            state: HealthState::Healthy,
            message: None,
            load: None,
            valid_until_ms: None,
            timestamp_ms: time_ms,
        }
    }

    /// The same status with this load.
    pub fn with_load(self, load: LoadMetrics) -> (status: Self)
        ensures
            status@ == (HealthModel { load: Some(load), ..self@ }),
    {
        let mut status = self;
        status.load = Some(load);
        status
    }
}

impl RateLimitAgent {
    /// What the agent declares in the handshake, given the version of the program.
    pub fn capabilities(&self, version: &str) -> (capabilities: AgentCapabilities)
        ensures
            capabilities@ == capabilities_model(version@),
    {
        let mut supported_events: Vec<EventType> = Vec::new();
        supported_events.push(EventType::RequestHeaders);
        supported_events.push(EventType::Configure);
        assert(supported_events@ =~= seq![EventType::RequestHeaders, EventType::Configure]);
        AgentCapabilities {
            protocol_version: PROTOCOL_VERSION_2,
            agent_id: String::from_str("ratelimit-agent"),
            name: String::from_str("Zentinel Rate Limit Agent"),
            version: String::from_str(version),
            supported_events,
            features: AgentFeatures {
                streaming_body: false,
                websocket: false,
                guardrails: false,
                config_push: true,
                metrics_export: true,
                concurrent_requests: 1000,
                cancellation: true,
                flow_control: true,
                health_reporting: true,
            },
            limits: AgentLimits {
                max_body_size: 0,
                max_concurrency: 1000,
                preferred_chunk_size: 0,
                max_memory: None,
                max_processing_time_ms: Some(100),
            },
            health: HealthConfig {
                report_interval_ms: 10_000,
                include_load_metrics: true,
                include_resource_metrics: false,
            },
        }
    }

    /// The load of the agent: its requests, and how many of them were limited.
    pub fn get_load_metrics(&self) -> (load: LoadMetrics)
        ensures
            load == load_of(self@),
    {
        LoadMetrics {
            in_flight: 0,
            queue_depth: 0,
            avg_latency_ms: 0,
            p50_latency_ms: 0,
            p95_latency_ms: 0,
            p99_latency_ms: 0,
            requests_processed: self.metrics.requests_total,
            requests_rejected: self.metrics.requests_limited,
            requests_timed_out: 0,
        }
    }

    /// The health of the agent at a time, in milliseconds since the Unix epoch.
    pub fn health_status_at(&self, time_ms: u64) -> (status: HealthStatus)
        ensures
            status@ == health_of(self@, time_ms),
            status.state is Draining <==> self@.draining,
            status.message is Some <==> self@.draining,
    {
        if self.draining {
            HealthStatus {
                agent_id: String::from_str("ratelimit-agent"),
                state: HealthState::Draining { eta_ms: None },
                message: Some(String::from_str("Agent is draining")),
                load: Some(self.get_load_metrics()),
                valid_until_ms: None,
                timestamp_ms: time_ms,
            }
        } else {
            HealthStatus::healthy("ratelimit-agent", time_ms).with_load(self.get_load_metrics())
        }
    }

    /// The health of the agent now.
    pub fn health_status(&self) -> (status: HealthStatus)
        ensures
            status@ == health_of(self@, status.timestamp_ms),
            exists|time: SystemTime|
                status.timestamp_ms == #[trigger] millis_of_reading(time) && is_system_reading(
                    time,
                ),
    {
        self.health_status_at(now_ms())
    }

    /// The metrics of the agent at the given time since it started, with this time stamp, in
    /// milliseconds since the Unix epoch.
    pub fn metrics_report_at(&self, now: Duration, time_ms: u64) -> (report: MetricsReport)
        ensures
            reports(self@, duration_nanos(now), time_ms, report@),
    {
        let now: u128 = now.as_nanos();
        let mut counters: Vec<CounterMetric> = Vec::new();
        counters.push(
            CounterMetric {
                name: String::from_str("ratelimit_requests_total"),
                value: self.metrics.requests_total,
            },
        );
        counters.push(
            CounterMetric {
                name: String::from_str("ratelimit_allowed_total"),
                value: self.metrics.requests_allowed,
            },
        );
        counters.push(
            CounterMetric {
                name: String::from_str("ratelimit_limited_total"),
                value: self.metrics.requests_limited,
            },
        );
        let mut gauges: Vec<GaugeMetric> = Vec::new();
        gauges.push(
            GaugeMetric {
                name: String::from_str("ratelimit_active_limiters"),
                key: None,
                value: self.metrics.active_limiters as u64,
            },
        );
        let list = listed(&self.limiters);
        let mut i: usize = 0;
        while i < list.len()
            invariant
                i <= list.len(),
                gauges.len() == i + 1,
                gauges[0]@ == (GaugeModel {
                    name: "ratelimit_active_limiters"@,
                    key: None,
                    value: self.metrics.active_limiters as u64,
                }),
                forall|k: int|
                    0 < k <= i ==> (#[trigger] gauges[k])@ == (GaugeModel {
                        name: "ratelimit_bucket_tokens"@,
                        key: Some(list[k - 1].key@),
                        value: tokens_at(
                            list[k - 1].quota,
                            list[k - 1].tokens as nat,
                            refills_model(list[k - 1].refills),
                            now as nat,
                        ) as u64,
                    }),
            decreases list.len() - i,
        {
            gauges.push(
                GaugeMetric {
                    name: String::from_str("ratelimit_bucket_tokens"),
                    key: Some(list[i].key.clone()),
                    value: list[i].tokens_at(now) as u64,
                },
            );
            i += 1;
        }
        let report = MetricsReport {
            agent_id: String::from_str("ratelimit-agent"),
            timestamp_ms: time_ms,
            interval_ms: 10_000,
            counters,
            gauges,
        };
        proof {
            assert(report@.counters =~= seq![
                ("ratelimit_requests_total"@, self@.metrics.requests_total),
                ("ratelimit_allowed_total"@, self@.metrics.requests_allowed),
                ("ratelimit_limited_total"@, self@.metrics.requests_limited),
            ]);
            let tokens = report@.gauges.drop_first();
            assert forall|k: int| 0 <= k < tokens.len() implies (#[trigger] tokens[k])
                == token_gauge(list[k].key@, self@.buckets[list[k].key@], now as nat) by {
                assert(tokens[k] == gauges[k + 1]@);
                assert(entries(self.limiters).contains_key(list[k].key@));
            }
            assert forall|key: Seq<char>| #[trigger] self@.buckets.contains_key(key) implies exists|
                k: int,
            |
                0 <= k < tokens.len() && (#[trigger] tokens[k]).key == Some(key) by {
                assert(entries(self.limiters).contains_key(key));
                let k = choose|k: int| 0 <= k < list.len() && (#[trigger] list[k]).key@ == key;
                assert(tokens[k].key == Some(key));
            }
        }
        report
    }

    /// The metrics of the agent now.
    pub fn metrics_report(&self) -> (report: Option<MetricsReport>)
        ensures
            report is Some,
            exists|at: Instant|
                reports(
                    self@,
                    #[trigger] nanos_between(at, self@.started),
                    report->0.timestamp_ms,
                    report->0@,
                ) && read_next(self@.started, self@.latest, at),
            exists|time: SystemTime|
                report->0.timestamp_ms == #[trigger] millis_of_reading(time) && is_system_reading(
                    time,
                ),
    {
        let (now, at) = time_since(&self.started, &self.latest);
        let report = self.metrics_report_at(now, now_ms());
        assert(reports(self@, nanos_between(at, self@.started), report.timestamp_ms, report@));
        Some(report)
    }
}

} // verus!
