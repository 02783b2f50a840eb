//! Token bucket rate limiting for a reverse proxy.
//!
//! A [`agent::RateLimitAgent`] takes the events of the proxy: for each request it finds the rule
//! that applies, asks the token bucket of the request's key and builds the answer.

pub mod agent;
pub mod agent_laws;
pub mod answer_laws;
pub mod clock;
pub mod config;
pub mod event;
pub mod laws;
pub mod limiters;
pub mod rates;
pub mod report;
pub mod response;
pub mod rule_laws;
pub mod rules;
pub mod string_map;
pub mod text;
