//! The token buckets and the table that holds them.
use std::num::NonZeroU32;

use dashmap::DashMap;
use governor::clock::DefaultClock;
use governor::middleware::{StateInformationMiddleware, StateSnapshot};
use governor::{DefaultDirectRateLimiter, Quota, RateLimiter};
use vstd::prelude::*;

#[allow(unused_imports)]
use crate::clock::is_duration;
use crate::config::RuleModel;

verus! {

/// What a limiter allows.
#[derive(Debug, Clone, Copy)]
pub struct LimiterQuota {
    /// How many requests come back to the bucket in a second.
    pub per_second: u32,
    /// How many requests the bucket holds.
    pub burst: u32,
}

/// The nanoseconds after which one request comes back to the bucket, a fraction left out. For
/// more than a thousand million requests per second it is 0, and requests spend nothing.
pub open spec fn refill_interval(quota: LimiterQuota) -> nat {
    1_000_000_000nat / (quota.per_second as nat)
}

/// There is a refill interval up to a thousand million requests per second.
pub proof fn refill_interval_of_rate(quota: LimiterQuota)
    requires
        quota.per_second > 0,
    ensures
        refill_interval(quota) > 0 <==> quota.per_second <= 1_000_000_000,
{
    let rate = quota.per_second as int;
    if rate <= 1_000_000_000 {
        vstd::arithmetic::div_mod::lemma_div_non_zero(1_000_000_000, rate);
    } else {
        vstd::arithmetic::div_mod::lemma_basic_div(1_000_000_000, rate);
    }
}

/// The nanoseconds of refill that the bucket holds.
pub open spec fn capacity(quota: LimiterQuota) -> nat {
    (if refill_interval(quota) == 0 {
        1
    } else {
        refill_interval(quota)
    }) * (quota.burst as nat)
}

/// The reading up to which the refill is spent after the given answers, each with the reading
/// that it was given at; nothing where no request was let through yet. A request that is let
/// through spends one interval more, counted from its own reading at the earliest; a refusal
/// spends nothing.
pub open spec fn spent_until(quota: LimiterQuota, history: Seq<(nat, bool)>) -> Option<nat>
    decreases history.len(),
{
    if history.len() == 0 {
        None
    } else {
        let before = spent_until(quota, history.drop_last());
        let reading = history.last().0;
        if history.last().1 {
            let spent = match before {
                Some(spent) => spent,
                None => reading + refill_interval(quota),
            };
            Some(
                (if spent < reading {
                    reading
                } else {
                    spent
                }) + refill_interval(quota),
            )
        } else {
            before
        }
    }
}

/// Whether a limiter with these answers behind it lets a request through at a reading: no more
/// refill is spent than the bucket holds.
pub open spec fn lets_through(
    quota: LimiterQuota,
    history: Seq<(nat, bool)>,
    reading: nat,
) -> bool {
    match spent_until(quota, history) {
        Some(spent) => spent <= reading + capacity(quota),
        None => true,
    }
}

/// What governor tells of a limiter when it lets a request through, in nanoseconds.
pub struct SnapshotModel {
    pub interval: nat,
    pub capacity: nat,
    pub reading: nat,
    pub spent_until: nat,
}

/// How many requests more could be let through at once: what is left of the refill, in whole
/// intervals.
pub open spec fn snapshot_tokens(snapshot: SnapshotModel) -> nat {
    let filled = snapshot.reading + snapshot.interval + snapshot.capacity;
    let left = if filled < snapshot.spent_until {
        0
    } else {
        (filled - snapshot.spent_until) as nat
    };
    (if left < snapshot.capacity {
        left
    } else {
        snapshot.capacity
    }) / snapshot.interval
}

/// The snapshot of a limiter with this quota whose last answer let a request through.
pub open spec fn last_snapshot(quota: LimiterQuota, history: Seq<(nat, bool)>) -> SnapshotModel {
    SnapshotModel {
        interval: refill_interval(quota),
        capacity: capacity(quota),
        reading: history.last().0,
        spent_until: spent_until(quota, history)->0,
    }
}

/// The tokens that the last answer left in a bucket: all of them where it has not answered yet or
/// is never empty, and none after a refusal.
pub open spec fn tokens_after(quota: LimiterQuota, history: Seq<(nat, bool)>) -> nat {
    if history.len() == 0 {
        quota.burst as nat
    } else if !history.last().1 {
        0
    } else if refill_interval(quota) == 0 {
        quota.burst as nat
    } else {
        snapshot_tokens(last_snapshot(quota, history))
    }
}

/// A token bucket: a `governor::RateLimiter` for one key, in memory, on the default clock, that
/// tells its state when it lets a request through. Verus does not take a declaration of the
/// outside type, whose parameters are bounded by traits of governor, so this type stands for it.
#[verifier::external_body]
pub struct Limiter {
    inner: DefaultDirectRateLimiter<StateInformationMiddleware>,
}

/// What `governor::middleware::StateInformationMiddleware` makes a limiter tell of its state.
#[verifier::external_type_specification]
#[verifier::external_body]
pub struct ExStateSnapshot(StateSnapshot);

/// The quota that a limiter was made with.
pub uninterp spec fn limiter_quota(limiter: Limiter) -> LimiterQuota;

/// The answers that a limiter has given, oldest first: the reading of its clock at each, in
/// nanoseconds since the limiter was made, and whether the request was let through.
pub uninterp spec fn limiter_history(limiter: Limiter) -> Seq<(nat, bool)>;

/// What a snapshot tells.
pub uninterp spec fn snapshot_model(snapshot: StateSnapshot) -> SnapshotModel;

/// Calls `RateLimiter::direct_with_clock` with the default clock and the quota that
/// `Quota::per_second` and `Quota::allow_burst` make of the two numbers, and
/// `RateLimiter::with_middleware`, which has the limiter tell its state. The limiter keeps that
/// quota and has answered nothing yet.
#[verifier::external_body]
pub(crate) fn direct_limiter(per_second: u32, burst: u32) -> (limiter: Limiter)
    requires
        per_second > 0,
        burst > 0,
    ensures
        limiter_quota(limiter) == (LimiterQuota { per_second, burst }),
        limiter_history(limiter) == Seq::<(nat, bool)>::empty(),
{
    let per_second = NonZeroU32::new(per_second).unwrap();
    let burst = NonZeroU32::new(burst).unwrap();
    let quota = Quota::per_second(per_second).allow_burst(burst);
    let limiter = RateLimiter::direct_with_clock(quota, &DefaultClock::default());
    Limiter { inner: limiter.with_middleware::<StateInformationMiddleware>() }
}

/// Whether a limiter that is asked at a reading may come from one history to the other and tell
/// this, or nothing where it refuses.
pub open spec fn answers_at(
    quota: LimiterQuota,
    before: Seq<(nat, bool)>,
    reading: nat,
    after: Seq<(nat, bool)>,
    snapshot: Option<StateSnapshot>,
) -> bool {
    &&& after == before.push((reading, snapshot is Some))
    &&& snapshot is Some == lets_through(quota, before, reading)
    &&& snapshot matches Some(told) ==> snapshot_model(told) == last_snapshot(quota, after)
}

/// Calls `RateLimiter::check`, which asks to let one request through, and hands on the snapshot
/// of a request that is let through. The limiter keeps its quota and has given one answer more,
/// at some reading of its clock: the request is let through exactly if no more refill is spent
/// than the bucket holds. Which reading it is rests on the time and is not stated. governor counts
/// the nanoseconds in 64 bits, which last for centuries.
#[verifier::external_body]
pub(crate) fn check(limiter: &mut Limiter) -> (snapshot: Option<StateSnapshot>)
    ensures
        limiter_quota(*final(limiter)) == limiter_quota(*old(limiter)),
        exists|reading: nat| #[trigger]
            answers_at(
                limiter_quota(*old(limiter)),
                limiter_history(*old(limiter)),
                reading,
                limiter_history(*final(limiter)),
                snapshot,
            ),
{
    limiter.inner.check().ok()
}

/// Calls `StateSnapshot::remaining_burst_capacity`: how many requests more could be let through
/// at once. It divides by the refill interval, so an interval of 0 is left out.
#[verifier::external_body]
pub(crate) fn remaining(snapshot: &StateSnapshot) -> (tokens: u32)
    requires
        snapshot_model(*snapshot).interval > 0,
    ensures
        tokens == snapshot_tokens(snapshot_model(*snapshot)),
{
    snapshot.remaining_burst_capacity()
}

/// When a bucket gave its last answer, and a time at which a token came back to it: from there on
/// one comes back after each refill interval. Both are nanoseconds since the agent started.
#[derive(Debug, Clone, Copy)]
pub struct Refills {
    pub answered_at: u128,
    pub from: u128,
}

/// The content of a [`Refills`].
pub struct RefillsModel {
    pub answered_at: nat,
    pub from: nat,
}

/// The content of optional refills.
pub open spec fn refills_model(refills: Option<Refills>) -> Option<RefillsModel> {
    match refills {
        Some(refills) => Some(
            RefillsModel { answered_at: refills.answered_at as nat, from: refills.from as nat },
        ),
        None => None,
    }
}

/// How many refill intervals are over at a time since another.
pub open spec fn intervals_over(quota: LimiterQuota, from: nat, now: nat) -> nat {
    if now < from {
        0
    } else {
        ((now - from) as nat) / refill_interval(quota)
    }
}

/// The tokens in a bucket at a time: those that its last answer left, and one for each that came
/// back since, up to the burst. A bucket that has not answered yet is full, and so is one without
/// a refill interval.
pub open spec fn tokens_at(
    quota: LimiterQuota,
    tokens: nat,
    refills: Option<RefillsModel>,
    now: nat,
) -> nat {
    match refills {
        Some(refills) if 0 < quota.per_second <= 1_000_000_000 => {
            let over = intervals_over(quota, refills.from, now);
            let counted = intervals_over(quota, refills.from, refills.answered_at);
            let refilled = if over < counted {
                tokens
            } else {
                (tokens + (over - counted)) as nat
            };
            if refilled < quota.burst {
                refilled
            } else {
                quota.burst as nat
            }
        },
        _ => quota.burst as nat,
    }
}

/// A bucket in the table.
pub struct RateLimiterEntry {
    pub(crate) limiter: Limiter,
    /// The quota of the limiter.
    pub(crate) quota: LimiterQuota,
    /// The tokens that the last answer left in the bucket.
    pub(crate) tokens: u32,
    /// How the tokens come back; nothing while the bucket has not answered yet.
    pub(crate) refills: Option<Refills>,
    /// When the bucket was made, in nanoseconds since the agent started.
    pub(crate) last_used: u128,
    /// The rule that the bucket was made for.
    pub(crate) rule_name: String,
}

/// The content of a [`RateLimiterEntry`].
pub struct BucketModel {
    pub quota: LimiterQuota,
    pub history: Seq<(nat, bool)>,
    pub tokens: nat,
    pub refills: Option<RefillsModel>,
    pub last_used: nat,
    pub rule_name: Seq<char>,
}

impl View for RateLimiterEntry {
    type V = BucketModel;

    open(crate) spec fn view(&self) -> BucketModel {
        BucketModel {
            quota: self.quota,
            history: limiter_history(self.limiter),
            tokens: self.tokens as nat,
            refills: refills_model(self.refills),
            last_used: self.last_used as nat,
            rule_name: self.rule_name@,
        }
    }
}

impl RateLimiterEntry {
    #[verifier::type_invariant]
    spec fn well_formed(self) -> bool {
        &&& self.quota == limiter_quota(self.limiter)
        &&& self.quota.per_second > 0
    }

    /// A bucket for a quota, full and without answers.
    pub(crate) fn new(quota: LimiterQuota, last_used: u128, rule_name: String) -> (entry: Self)
        requires
            quota.per_second > 0,
            quota.burst > 0,
        ensures
            entry@ == (BucketModel {
                quota,
                history: Seq::empty(),
                tokens: quota.burst as nat,
                refills: None,
                last_used: last_used as nat,
                rule_name: rule_name@,
            }),
    {
        RateLimiterEntry {
            limiter: direct_limiter(quota.per_second, quota.burst),
            quota,
            tokens: quota.burst,
            refills: None,
            last_used,
            rule_name,
        }
    }

    /// Asks the bucket to let a request through at a time, in nanoseconds since the agent started,
    /// and notes the tokens that are left and when more come back.
    pub(crate) fn ask(self, at: u128) -> (asked: (Self, bool))
        ensures
            exists|reading: nat| #[trigger]
                asked_at(self@, reading, at as nat, asked.1, asked.0@),
    {
        proof {
            use_type_invariant(&self);
        }
        let ghost before = self@;
        let quota = self.quota;
        let mut limiter = self.limiter;
        let snapshot = check(&mut limiter);
        let ghost reading = choose|reading: nat| #[trigger]
            answers_at(
                before.quota,
                before.history,
                reading,
                limiter_history(limiter),
                snapshot,
            );
        assert(limiter_history(limiter).last() == (reading, snapshot is Some));
        proof {
            refill_interval_of_rate(quota);
        }
        let allowed = snapshot.is_some();
        let tokens: u32 = match snapshot {
            Some(told) => {
                // Above a thousand million requests per second there is no refill interval.
                if quota.per_second > 1_000_000_000 {
                    quota.burst
                } else {
                    remaining(&told)
                }
            },
            None => 0,
        };
        let from: u128 = match self.refills {
            // A bucket that is still full after a request was idle before it: from this request
            // on its tokens come back anew.
            Some(refills) => if allowed && tokens == quota.burst {
                at
            } else {
                refills.from
            },
            None => at,
        };
        let entry = RateLimiterEntry {
            limiter,
            quota,
            tokens,
            refills: Some(Refills { answered_at: at, from }),
            last_used: self.last_used,
            rule_name: self.rule_name,
        };
        let asked = (entry, allowed);
        assert(asked_at(self@, reading, at as nat, asked.1, asked.0@));
        asked
    }
}

/// The quota that a rule asks for: 100 requests per second where it gives no rate, and a burst
/// of one second's requests where it gives none.
pub open spec fn rule_quota(rule: RuleModel) -> LimiterQuota {
    let per_second = if rule.requests_per_second == 0 {
        100
    } else {
        rule.requests_per_second
    };
    LimiterQuota {
        per_second,
        burst: if rule.burst == 0 {
            per_second
        } else {
            rule.burst
        },
    }
}

/// The bucket that is made for a rule: full, without answers.
pub open spec fn new_bucket(rule: RuleModel, now: nat) -> BucketModel {
    BucketModel {
        quota: rule_quota(rule),
        history: Seq::empty(),
        tokens: rule_quota(rule).burst as nat,
        refills: None,
        last_used: now,
        rule_name: rule.name,
    }
}

/// A bucket after one answer more, given at a reading of its clock and at a time, in nanoseconds
/// since the agent started. Its tokens come back anew from there if it is the first answer or if
/// the bucket is still full after it.
pub open spec fn answered(
    bucket: BucketModel,
    reading: nat,
    at: nat,
    allowed: bool,
) -> BucketModel {
    let history = bucket.history.push((reading, allowed));
    let tokens = tokens_after(bucket.quota, history);
    BucketModel {
        history,
        tokens,
        refills: Some(
            RefillsModel {
                answered_at: at,
                from: match bucket.refills {
                    Some(refills) => if allowed && tokens == bucket.quota.burst {
                        at
                    } else {
                        refills.from
                    },
                    None => at,
                },
            },
        ),
        ..bucket
    }
}

/// The tokens in a bucket at a time, in nanoseconds since the agent started.
pub open spec fn current_tokens(bucket: BucketModel, now: nat) -> nat {
    tokens_at(bucket.quota, bucket.tokens, bucket.refills, now)
}

/// Whether a bucket that is asked at a reading of its clock and at a time gives this answer and is
/// then this.
pub open spec fn asked_at(
    bucket: BucketModel,
    reading: nat,
    at: nat,
    allowed: bool,
    after: BucketModel,
) -> bool {
    &&& allowed == lets_through(bucket.quota, bucket.history, reading)
    &&& after == answered(bucket, reading, at, allowed)
}

/// Whether each answer is the one that the answers before it and its reading ask for.
pub open spec fn true_history(quota: LimiterQuota, history: Seq<(nat, bool)>) -> bool {
    forall|i: int|
        0 <= i < history.len() ==> (#[trigger] history[i]).1 == lets_through(
            quota,
            history.take(i),
            history[i].0,
        )
}

/// What holds of every bucket in the table.
pub open spec fn bucket_consistent(bucket: BucketModel) -> bool {
    &&& bucket.quota.per_second > 0
    &&& bucket.quota.burst > 0
    &&& true_history(bucket.quota, bucket.history)
    &&& bucket.tokens == tokens_after(bucket.quota, bucket.history)
    &&& bucket.refills is None <==> bucket.history.len() == 0
    &&& is_duration(bucket.last_used)
}

/// A bucket stays consistent when it gives the answer that it is to give.
pub proof fn answer_keeps_bucket_consistent(bucket: BucketModel, reading: nat, at: nat)
    requires
        bucket_consistent(bucket),
    ensures
        bucket_consistent(
            answered(bucket, reading, at, lets_through(bucket.quota, bucket.history, reading)),
        ),
{
    let allowed = lets_through(bucket.quota, bucket.history, reading);
    let history = bucket.history.push((reading, allowed));
    assert forall|i: int| 0 <= i < history.len() implies (#[trigger] history[i]).1 == lets_through(
        bucket.quota,
        history.take(i),
        history[i].0,
    ) by {
        if i < bucket.history.len() {
            assert(history[i] == bucket.history[i]);
            assert(history.take(i) =~= bucket.history.take(i));
        } else {
            assert(history.take(i) =~= bucket.history);
        }
    }
}

/// The concurrent map of dashmap.
#[verifier::external_type_specification]
#[verifier::external_body]
#[verifier::reject_recursive_types(K)]
#[verifier::reject_recursive_types(V)]
#[verifier::reject_recursive_types(S)]
pub struct ExDashMap<K, V, S>(DashMap<K, V, S>);

/// The table of buckets by key.
pub type LimiterMap = DashMap<String, RateLimiterEntry>;

/// The buckets in a table.
pub uninterp spec fn entries(map: LimiterMap) -> Map<Seq<char>, RateLimiterEntry>;

/// A table without buckets.
pub open spec fn no_entries() -> Map<Seq<char>, RateLimiterEntry> {
    Map::empty()
}

/// Calls `DashMap::new`: a table without buckets.
#[verifier::external_body]
pub(crate) fn new_map() -> (map: LimiterMap)
    ensures
        entries(map) == no_entries(),
{
    DashMap::new()
}

/// Calls `DashMap::get`, which finds the bucket of the key if there is one, and tells whether it
/// did.
#[verifier::external_body]
pub(crate) fn contains(map: &LimiterMap, key: &String) -> (found: bool)
    ensures
        found == entries(*map).contains_key(key@),
{
    map.get(key).is_some()
}

/// Calls `DashMap::insert`: the key has the given bucket afterwards, the other keys have what
/// they had, and the bucket that the key had before, if any, is handed back.
#[verifier::external_body]
pub(crate) fn insert(map: &mut LimiterMap, key: String, entry: RateLimiterEntry) -> (previous:
    Option<RateLimiterEntry>)
    ensures
        entries(*final(map)) == entries(*old(map)).insert(key@, entry),
        match previous {
            Some(previous) => entries(*old(map)).contains_key(key@) && previous == entries(
                *old(map),
            )[key@],
            None => !entries(*old(map)).contains_key(key@),
        },
{
    map.insert(key, entry)
}

/// Calls `DashMap::remove`: the key has no bucket afterwards, the other keys have what they had,
/// and the bucket that was there, if any, is handed back with its key.
#[verifier::external_body]
pub(crate) fn remove(map: &mut LimiterMap, key: &String) -> (removed: Option<
    (String, RateLimiterEntry),
>)
    ensures
        entries(*final(map)) == entries(*old(map)).remove(key@),
        match removed {
            Some(pair) => entries(*old(map)).contains_key(key@) && pair.0@ == key@ && pair.1
                == entries(*old(map))[key@],
            None => !entries(*old(map)).contains_key(key@),
        },
{
    map.remove(key)
}

/// Calls `DashMap::clear`: no bucket is left.
#[verifier::external_body]
pub(crate) fn clear(map: &mut LimiterMap)
    ensures
        entries(*final(map)) == no_entries(),
{
    map.clear();
}

/// What the list of a table tells of a bucket.
pub struct ListedBucket {
    pub(crate) key: String,
    pub(crate) quota: LimiterQuota,
    pub(crate) tokens: u32,
    pub(crate) refills: Option<Refills>,
    pub(crate) last_used: u128,
}

/// Whether the list tells this of a bucket, whatever its key.
pub open(crate) spec fn tells_of(listed: ListedBucket, entry: RateLimiterEntry) -> bool {
    &&& listed.quota == entry.quota
    &&& listed.tokens == entry.tokens
    &&& listed.refills == entry.refills
    &&& listed.last_used == entry.last_used
}

/// Calls `DashMap::iter` and takes of each bucket its key, its quota, its tokens with how they
/// come back, and when it was made: each bucket comes once. The order is left open.
#[verifier::external_body]
pub(crate) fn listed(map: &LimiterMap) -> (list: Vec<ListedBucket>)
    ensures
        forall|i: int|
            0 <= i < list.len() ==> entries(*map).contains_key((#[trigger] list[i]).key@)
                && tells_of(list[i], entries(*map)[list[i].key@]),
        forall|i: int, j: int|
            0 <= i < j < list.len() ==> (#[trigger] list[i]).key@ != (#[trigger] list[j]).key@,
        forall|key: Seq<char>| #[trigger]
            entries(*map).contains_key(key) ==> exists|i: int|
                0 <= i < list.len() && (#[trigger] list[i]).key@ == key,
{
    map.iter()
        .map(|entry| ListedBucket {
            key: entry.key().clone(),
            quota: entry.value().quota,
            tokens: entry.value().tokens,
            refills: entry.value().refills,
            last_used: entry.value().last_used,
        })
        .collect()
}

/// How many refill intervals are over at a time since another.
fn count_intervals(interval: u128, from: u128, now: u128) -> (over: u128)
    requires
        interval > 0,
    ensures
        over == (if now < from {
            0
        } else {
            (now - from) / interval as int
        }),
{
    if now < from {
        0
    } else {
        (now - from) / interval
    }
}

impl ListedBucket {
    /// The tokens in the bucket at a time, in nanoseconds since the agent started.
    pub(crate) fn tokens_at(&self, now: u128) -> (tokens: u32)
        ensures
            tokens == tokens_at(
                self.quota,
                self.tokens as nat,
                refills_model(self.refills),
                now as nat,
            ),
    {
        let quota = self.quota;
        match self.refills {
            Some(refills) => {
                if quota.per_second == 0 || quota.per_second > 1_000_000_000 {
                    return quota.burst;
                }
                proof {
                    refill_interval_of_rate(quota);
                }
                let interval: u128 = (1_000_000_000 / quota.per_second) as u128;
                let over: u128 = count_intervals(interval, refills.from, now);
                let counted: u128 = count_intervals(interval, refills.from, refills.answered_at);
                let back: u128 = if over < counted {
                    0
                } else {
                    over - counted
                };
                if self.tokens >= quota.burst || back >= (quota.burst - self.tokens) as u128 {
                    quota.burst
                } else {
                    self.tokens + back as u32
                }
            },
            None => quota.burst,
        }
    }
}

} // verus!
