# ratelimit_agent

Token bucket rate limiting for the Zentinel reverse proxy, verified with Verus.

An agent holds a configuration of rules. For each request it finds the first rule whose conditions
hold, or else the default rule, makes a key of the request as the rule says (client address, header,
path, method, one key for all, or several of these joined by colons) and asks the token bucket of
that key. A request that the bucket refuses is answered with status 429, or with the status and the
message of the rule. In dry-run mode it is let through and only reported.

## Layout

- `src/rules.rs`: which rule applies, and the key of a request
- `src/response.rs`: the answer to a request
- `src/agent.rs`: the state of the agent and what each event does to it
- `src/report.rs`: capabilities, health and metrics
- `src/rates.rs`: what the answers of a bucket add up to: the burst, the rate and the tokens
- `src/laws.rs`: what holds of the agent as a whole
- `src/limiters.rs`, `src/clock.rs`: the buckets (governor), the table of buckets (dashmap) and the
  clocks, with what is assumed of them
- `src/config.rs`, `src/event.rs`, `src/string_map.rs`, `src/text.rs`: the data
- `app/`: the program: arguments, configuration file and connection to the proxy

## Configuration file

A file gives either `rules` and a `default` rule, each with its key, rate, burst and conditions, or
limits by route:

```yaml
defaults:
  requests_per_second: 100
  burst_size: 10
routes:
  "/api/v1/upload":
    requests_per_second: 10
    burst_size: 2
key_extraction:
  type: "header"  # ip, header, or composite with a list of keys
  header: "X-API-Key"
```

## Metrics

| Metric | Type |
|--------|------|
| `ratelimit_requests_total` | Counter |
| `ratelimit_allowed_total` | Counter |
| `ratelimit_limited_total` | Counter |
| `ratelimit_active_limiters` | Gauge |
| `ratelimit_bucket_tokens` | Gauge, one for each key |

The tokens of a bucket are those at the time of the report: what its last answer left in it and what
came back since. Above a thousand million requests per second a bucket stays full.
