//! What the answers of a token bucket add up to.
use vstd::prelude::*;

#[allow(unused_imports)]
use crate::limiters::{
    answered, bucket_consistent, capacity, current_tokens, intervals_over, last_snapshot,
    lets_through, refill_interval, refill_interval_of_rate, snapshot_tokens, spent_until,
    tokens_after, true_history,
};
use crate::limiters::{BucketModel, LimiterQuota, SnapshotModel};

verus! {

/// How many requests the answers let through.
pub open spec fn let_through(history: Seq<(nat, bool)>) -> nat
    decreases history.len(),
{
    if history.len() == 0 {
        0
    } else {
        let_through(history.drop_last()) + if history.last().1 {
            1nat
        } else {
            0nat
        }
    }
}

/// How many requests the answers let through at readings up to the given one.
pub open spec fn let_through_by(history: Seq<(nat, bool)>, until: nat) -> nat
    decreases history.len(),
{
    if history.len() == 0 {
        0
    } else {
        let_through_by(history.drop_last(), until) + if history.last().1 && history.last().0
            <= until {
            1nat
        } else {
            0nat
        }
    }
}

/// Whether the readings never go back, that of a next answer included.
pub open spec fn readings_grow(history: Seq<(nat, bool)>, reading: nat) -> bool {
    &&& forall|i: int, j: int|
        0 <= i <= j < history.len() ==> (#[trigger] history[i]).0 <= (#[trigger] history[j]).0
    &&& history.len() > 0 ==> history.last().0 <= reading
}

/// The bucket holds at least one interval of refill.
proof fn capacity_of_burst(quota: LimiterQuota)
    requires
        quota.burst > 0,
    ensures
        refill_interval(quota) <= capacity(quota),
        refill_interval(quota) * (quota.burst as nat) <= capacity(quota),
        refill_interval(quota) > 0 ==> capacity(quota) == refill_interval(quota) * (
        quota.burst as nat),
{
    let interval = refill_interval(quota) as int;
    let burst = quota.burst as int;
    assert(interval <= interval * burst && 0 * burst == 0) by (nonlinear_arith)
        requires
            burst >= 1,
            interval >= 0,
    ;
}

/// The answers before the last are as true as all of them.
proof fn earlier_answers_are_true(quota: LimiterQuota, history: Seq<(nat, bool)>)
    requires
        true_history(quota, history),
        history.len() > 0,
    ensures
        true_history(quota, history.drop_last()),
        history.last().1 == lets_through(quota, history.drop_last(), history.last().0),
{
    let earlier = history.drop_last();
    let last = history.len() - 1;
    assert(history.take(last) =~= earlier);
    assert(history[last] == history.last());
    assert forall|i: int| 0 <= i < earlier.len() implies (#[trigger] earlier[i]).1 == lets_through(
        quota,
        earlier.take(i),
        earlier[i].0,
    ) by {
        assert(earlier[i] == history[i]);
        assert(earlier.take(i) =~= history.take(i));
    }
}

/// No more requests are let through than are asked for.
pub(crate) proof fn let_through_at_most(history: Seq<(nat, bool)>)
    ensures
        let_through(history) <= history.len(),
    decreases history.len(),
{
    if history.len() > 0 {
        let_through_at_most(history.drop_last());
    }
}

/// The requests that are let through up to a reading are among all that are let through.
proof fn some_are_let_through_by(history: Seq<(nat, bool)>, until: nat)
    ensures
        let_through_by(history, until) <= let_through(history),
    decreases history.len(),
{
    if history.len() > 0 {
        some_are_let_through_by(history.drop_last(), until);
    }
}

/// As long as the readings never go back, a bucket lets requests through until their number
/// reaches its burst.
pub proof fn burst_is_let_through(
    quota: LimiterQuota,
    history: Seq<(nat, bool)>,
    reading: nat,
)
    requires
        quota.per_second > 0,
        readings_grow(history, reading),
        let_through(history) < quota.burst,
    ensures
        lets_through(quota, history, reading),
{
    spent_is_bounded_above(quota, history, reading);
    capacity_of_burst(quota);
    let interval = refill_interval(quota);
    let spent = let_through(history) + 1;
    assert(interval * spent <= interval * (quota.burst as nat)) by (nonlinear_arith)
        requires
            spent <= quota.burst as nat,
    ;
}

proof fn spent_is_bounded_above(quota: LimiterQuota, history: Seq<(nat, bool)>, reading: nat)
    requires
        readings_grow(history, reading),
    ensures
        spent_until(quota, history) matches Some(spent) ==> spent <= reading + refill_interval(
            quota,
        ) * (let_through(history) + 1),
    decreases history.len(),
{
    if history.len() > 0 {
        let earlier = history.drop_last();
        let last = history.last().0;
        assert(readings_grow(earlier, last)) by {
            assert(last == history[history.len() - 1].0);
            assert forall|i: int, j: int| 0 <= i <= j < earlier.len() implies (
            #[trigger] earlier[i]).0 <= (#[trigger] earlier[j]).0 by {
                assert(earlier[i] == history[i]);
                assert(earlier[j] == history[j]);
            }
            if earlier.len() > 0 {
                assert(earlier.last() == history[history.len() - 2]);
            }
        }
        spent_is_bounded_above(quota, earlier, last);
        let interval = refill_interval(quota);
        let n = let_through(earlier);
        assert(interval * (n + 2) == interval * (n + 1) + interval && interval * (n + 1) >= interval)
            by (nonlinear_arith);
    }
}

/// The answers from the one at `i` on.
pub open spec fn answers_from(history: Seq<(nat, bool)>, i: int) -> Seq<(nat, bool)> {
    history.subrange(i, history.len() as int)
}

/// What the first request spends beyond its own interval.
spec fn first_extra(i: int) -> nat {
    if i == 0 {
        1
    } else {
        0
    }
}

proof fn spent_is_bounded_below(quota: LimiterQuota, history: Seq<(nat, bool)>, i: int)
    requires
        true_history(quota, history),
        0 <= i < history.len(),
        history[i].1,
    ensures
        spent_until(quota, history) matches Some(spent) && spent >= history[i].0 + refill_interval(
            quota,
        ) * (let_through(answers_from(history, i)) + first_extra(i)),
    decreases history.len(),
{
    let earlier = history.drop_last();
    let from = answers_from(history, i);
    let interval = refill_interval(quota);
    assert(from.last() == history.last());
    assert(from.drop_last() =~= earlier.subrange(i, earlier.len() as int));
    if i < earlier.len() {
        earlier_answers_are_true(quota, history);
        assert(earlier[i] == history[i]);
        spent_is_bounded_below(quota, earlier, i);
        let n = let_through(answers_from(earlier, i)) + first_extra(i);
        assert(interval * (n + 1) == interval * n + interval) by (nonlinear_arith);
    } else {
        assert(let_through(from.drop_last()) == 0);
        assert(let_through(from) == 1);
        if i == 0 {
            assert(spent_until(quota, earlier) is None);
        }
        assert(interval * 2 == interval + interval && interval * 1 == interval);
    }
}

/// Between an answer that let a request through and the end of a window after it, the requests
/// let through do not spend more than the bucket holds and the window brings back. After the
/// first answer of all the bound is one request tighter than after a later one, before which the
/// bucket may have filled up.
pub proof fn window_bounds_what_is_spent(
    quota: LimiterQuota,
    history: Seq<(nat, bool)>,
    i: int,
    window: nat,
)
    requires
        quota.burst > 0,
        true_history(quota, history),
        0 <= i < history.len(),
        history[i].1,
    ensures
        ({
            let n = let_through_by(answers_from(history, i), history[i].0 + window);
            let spent = if i == 0 {
                n as int
            } else {
                n - 1
            };
            refill_interval(quota) * spent <= window + capacity(quota)
        }),
    decreases history.len(),
{
    let earlier = history.drop_last();
    let from = answers_from(history, i);
    let until = history[i].0 + window;
    let interval = refill_interval(quota) as int;
    let last = history.last();
    let n = let_through_by(from, until) as int;
    capacity_of_burst(quota);
    assert(from.last() == last);
    assert(from.drop_last() =~= earlier.subrange(i, earlier.len() as int));
    if i < earlier.len() {
        earlier_answers_are_true(quota, history);
        assert(earlier[i] == history[i]);
        if last.1 && last.0 <= until {
            spent_is_bounded_below(quota, earlier, i);
            some_are_let_through_by(from.drop_last(), until);
            let before = let_through(from.drop_last()) + first_extra(i);
            let spent = if i == 0 {
                n
            } else {
                n - 1
            };
            assert(interval * spent <= interval * before) by (nonlinear_arith)
                requires
                    spent <= before,
                    interval >= 0,
            ;
        } else {
            window_bounds_what_is_spent(quota, earlier, i, window);
        }
    } else {
        assert(let_through_by(from.drop_last(), until) == 0);
        assert(n == 1);
        assert(interval * 1 == interval && interval * 0 == 0);
    }
}

/// Within a window after its first answer, a bucket lets no more requests through than its burst
/// and one for each refill interval in the window.
pub proof fn first_window_is_bounded(
    quota: LimiterQuota,
    history: Seq<(nat, bool)>,
    window: nat,
)
    requires
        quota.per_second > 0,
        quota.burst > 0,
        refill_interval(quota) > 0,
        true_history(quota, history),
        history.len() > 0,
    ensures
        let_through_by(history, history[0].0 + window) <= quota.burst + window / refill_interval(
            quota,
        ),
{
    assert(history[0].1 == lets_through(quota, history.take(0), history[0].0));
    assert(answers_from(history, 0) =~= history);
    window_bounds_what_is_spent(quota, history, 0, window);
    capacity_of_burst(quota);
    divided_bound(
        refill_interval(quota) as int,
        let_through_by(history, history[0].0 + window) as int,
        quota.burst as int,
        window as int,
    );
}

/// Within a window after any answer that let a request through, a bucket lets no more requests
/// through, that one included, than its burst, one more, and one for each refill interval in the
/// window.
pub proof fn every_window_is_bounded(
    quota: LimiterQuota,
    history: Seq<(nat, bool)>,
    i: int,
    window: nat,
)
    requires
        quota.per_second > 0,
        quota.burst > 0,
        refill_interval(quota) > 0,
        true_history(quota, history),
        0 <= i < history.len(),
        history[i].1,
    ensures
        let_through_by(answers_from(history, i), history[i].0 + window) <= quota.burst + 1 + window
            / refill_interval(quota),
{
    window_bounds_what_is_spent(quota, history, i, window);
    capacity_of_burst(quota);
    let n = let_through_by(answers_from(history, i), history[i].0 + window) as int;
    let interval = refill_interval(quota) as int;
    assert(interval * (n - 1) <= interval * n) by (nonlinear_arith)
        requires
            interval >= 0,
    ;
    divided_bound(interval, n - 1, quota.burst as int, window as int);
}

proof fn divided_bound(interval: int, n: int, burst: int, window: int)
    requires
        interval > 0,
        window >= 0,
        interval * n <= window + interval * burst,
    ensures
        n <= burst + window / interval,
{
    vstd::arithmetic::div_mod::lemma_fundamental_div_mod(window, interval);
    let q = window / interval;
    assert(n <= burst + q) by (nonlinear_arith)
        requires
            interval > 0,
            interval * n <= window + interval * burst,
            window == interval * q + window % interval,
            window % interval < interval,
    ;
}

/// Where the rate divides a second evenly, a bucket lets no more requests through within a window
/// after its first answer than its burst and the requests that the rate grants the window.
pub proof fn rate_bounds_the_first_window(
    quota: LimiterQuota,
    history: Seq<(nat, bool)>,
    window: nat,
)
    requires
        quota.per_second > 0,
        quota.burst > 0,
        1_000_000_000nat % (quota.per_second as nat) == 0,
        true_history(quota, history),
        history.len() > 0,
    ensures
        let_through_by(history, history[0].0 + window) <= quota.burst + (quota.per_second * window)
            / 1_000_000_000,
{
    let rate = quota.per_second as int;
    let interval = refill_interval(quota) as int;
    let window = window as int;
    vstd::arithmetic::div_mod::lemma_fundamental_div_mod(1_000_000_000, rate);
    assert(1_000_000_000 == rate * interval);
    assert(interval > 0) by (nonlinear_arith)
        requires
            1_000_000_000 == rate * interval,
            rate > 0,
    ;
    first_window_is_bounded(quota, history, window as nat);
    vstd::arithmetic::div_mod::lemma_div_multiples_vanish_quotient(rate, window, interval);
}

/// The refill interval is the part of a second that the rate gives each request, in whole
/// nanoseconds: as many intervals as the rate tells fit into a second, and longer ones would not.
/// A bucket holds as many of them as its burst.
pub proof fn rate_sets_the_refill(quota: LimiterQuota)
    requires
        quota.per_second > 0,
        quota.burst > 0,
    ensures
        refill_interval(quota) * quota.per_second <= 1_000_000_000 < (refill_interval(quota) + 1)
            * quota.per_second,
        refill_interval(quota) > 0 ==> capacity(quota) == refill_interval(quota) * quota.burst,
        refill_interval(quota) == 0 ==> capacity(quota) == quota.burst,
{
    let rate = quota.per_second as int;
    let interval = refill_interval(quota) as int;
    vstd::arithmetic::div_mod::lemma_fundamental_div_mod(1_000_000_000, rate);
    capacity_of_burst(quota);
    let rest = 1_000_000_000int % rate;
    assert(interval * rate <= 1_000_000_000 < (interval + 1) * rate) by (nonlinear_arith)
        requires
            1_000_000_000 == rate * interval + rest,
            0 <= rest < rate,
    ;
}

/// One request at least comes back to a bucket in a second.
pub proof fn refill_interval_is_at_most_a_second(quota: LimiterQuota)
    requires
        quota.per_second > 0,
    ensures
        refill_interval(quota) <= 1_000_000_000,
{
    let rate = quota.per_second as int;
    vstd::arithmetic::div_mod::lemma_fundamental_div_mod(1_000_000_000, rate);
    let interval = refill_interval(quota) as int;
    assert(interval <= 1_000_000_000) by (nonlinear_arith)
        requires
            1_000_000_000 == rate * interval + 1_000_000_000int % rate,
            1_000_000_000int % rate >= 0,
            rate > 0,
            interval >= 0,
    ;
}

/// A request that is asked for one refill interval after the last answer is let through, as long
/// as the readings never went back.
pub proof fn one_interval_later_is_let_through(
    quota: LimiterQuota,
    history: Seq<(nat, bool)>,
    reading: nat,
)
    requires
        quota.per_second > 0,
        quota.burst > 0,
        true_history(quota, history),
        history.len() > 0,
        readings_grow(history, reading),
        reading >= history.last().0 + refill_interval(quota),
    ensures
        lets_through(quota, history, reading),
{
    spent_stays_near(quota, history);
}

proof fn spent_stays_near(quota: LimiterQuota, history: Seq<(nat, bool)>)
    requires
        quota.burst > 0,
        true_history(quota, history),
        history.len() > 0,
        readings_grow(history, history.last().0),
    ensures
        spent_until(quota, history) matches Some(spent) ==> spent <= history.last().0 + capacity(
            quota,
        ) + refill_interval(quota),
    decreases history.len(),
{
    let earlier = history.drop_last();
    capacity_of_burst(quota);
    earlier_answers_are_true(quota, history);
    if earlier.len() > 0 {
        assert forall|i: int, j: int| 0 <= i <= j < earlier.len() implies (#[trigger] earlier[i]).0
            <= (#[trigger] earlier[j]).0 by {
            assert(earlier[i] == history[i]);
            assert(earlier[j] == history[j]);
        }
        assert(earlier.last() == history[history.len() - 2]);
        assert(history.last() == history[history.len() - 1]);
        spent_stays_near(quota, earlier);
    }
}

/// Whether a limiter with these answers behind it lets a request through at every reading from
/// the given one on.
pub open spec fn lets_through_from(
    quota: LimiterQuota,
    history: Seq<(nat, bool)>,
    from: nat,
) -> bool {
    forall|reading: nat| from <= reading ==> #[trigger] lets_through(quota, history, reading)
}

/// A bucket is never empty for good: from some reading on it lets requests through.
pub proof fn bucket_fills_up_again(quota: LimiterQuota, history: Seq<(nat, bool)>)
    ensures
        exists|from: nat| #[trigger] lets_through_from(quota, history, from),
{
    let from = match spent_until(quota, history) {
        Some(spent) => spent,
        None => 0,
    };
    assert forall|reading: nat| from <= reading implies #[trigger] lets_through(
        quota,
        history,
        reading,
    ) by {}
    assert(lets_through_from(quota, history, from));
}

/// The last answer leaves no more tokens in a bucket than its burst, and some exactly if another
/// request at the reading of that answer would be let through.
pub proof fn tokens_tell_what_is_left(bucket: BucketModel)
    requires
        bucket_consistent(bucket),
    ensures
        bucket.tokens <= bucket.quota.burst,
        bucket.history.len() == 0 ==> bucket.tokens == bucket.quota.burst,
        bucket.history.len() > 0 ==> (bucket.tokens > 0 <==> lets_through(
            bucket.quota,
            bucket.history,
            bucket.history.last().0,
        )),
{
    let quota = bucket.quota;
    let history = bucket.history;
    let interval = refill_interval(quota) as int;
    let burst = quota.burst as int;
    capacity_of_burst(quota);
    refill_interval_of_rate(quota);
    if history.len() > 0 {
        earlier_answers_are_true(quota, history);
        if history.last().1 && interval > 0 {
            let snapshot = last_snapshot(quota, history);
            let filled = snapshot.reading + interval + snapshot.capacity;
            let left = if filled < snapshot.spent_until {
                0
            } else {
                filled - snapshot.spent_until
            };
            let held = if left < snapshot.capacity {
                left
            } else {
                snapshot.capacity as int
            };
            assert(bucket.tokens == held / interval);
            vstd::arithmetic::div_mod::lemma_fundamental_div_mod(held, interval);
            let tokens = held / interval;
            let rest = held % interval;
            assert(tokens <= burst && (tokens > 0 <==> held >= interval)) by (nonlinear_arith)
                requires
                    interval > 0,
                    held == interval * tokens + rest,
                    0 <= rest < interval,
                    held <= interval * burst,
                    held >= 0,
            ;
        }
    }
}

/// The tokens in a bucket at a reading of its clock, by its answers.
pub open spec fn available(
    quota: LimiterQuota,
    history: Seq<(nat, bool)>,
    reading: nat,
) -> nat {
    match spent_until(quota, history) {
        Some(spent) => snapshot_tokens(
            SnapshotModel {
                interval: refill_interval(quota),
                capacity: capacity(quota),
                reading,
                spent_until: spent,
            },
        ),
        None => quota.burst as nat,
    }
}

/// The answers with as many more that let a request through at a reading.
pub open spec fn and_more(
    history: Seq<(nat, bool)>,
    reading: nat,
    more: nat,
) -> Seq<(nat, bool)> {
    history + Seq::new(more, |i: int| (reading, true))
}

proof fn spent_by_more(
    quota: LimiterQuota,
    history: Seq<(nat, bool)>,
    reading: nat,
    more: nat,
)
    requires
        more > 0,
    ensures
        spent_until(quota, and_more(history, reading, more)) == Some(
            match spent_until(quota, history) {
                Some(spent) => (if spent < reading {
                    reading
                } else {
                    spent
                }) + refill_interval(quota) * more,
                None => reading + refill_interval(quota) * (more + 1),
            },
        ),
    decreases more,
{
    let all = and_more(history, reading, more);
    let fewer = (more - 1) as nat;
    let interval = refill_interval(quota);
    assert(all.drop_last() =~= and_more(history, reading, fewer));
    assert(all.last() == (reading, true));
    assert(interval * more == interval * fewer + interval && interval * (more + 1) == interval * (
    fewer + 1) + interval && interval * 1 == interval && interval * more >= 0) by (nonlinear_arith)
        requires
            more == fewer + 1,
    ;
    if fewer > 0 {
        spent_by_more(quota, history, reading, fewer);
        assert(interval * fewer >= 0 && interval * (fewer + 1) >= 0) by (nonlinear_arith);
    } else {
        assert(and_more(history, reading, 0) =~= history);
    }
}

/// The tokens in a bucket are requests that it lets through: at a reading it lets as many through
/// at once as it has tokens, and no more unless it is full.
pub proof fn tokens_are_requests_let_through(
    quota: LimiterQuota,
    history: Seq<(nat, bool)>,
    reading: nat,
    more: nat,
)
    requires
        0 < quota.per_second <= 1_000_000_000,
        quota.burst > 0,
    ensures
        available(quota, history, reading) <= quota.burst,
        more < available(quota, history, reading) ==> lets_through(
            quota,
            and_more(history, reading, more),
            reading,
        ),
        available(quota, history, reading) < quota.burst ==> (lets_through(
            quota,
            and_more(history, reading, more),
            reading,
        ) <==> more < available(quota, history, reading)),
{
    capacity_of_burst(quota);
    refill_interval_of_rate(quota);
    let interval = refill_interval(quota) as int;
    let burst = quota.burst as int;
    let all = and_more(history, reading, more);
    let k = more as int;
    if more > 0 {
        spent_by_more(quota, history, reading, more);
    } else {
        assert(all =~= history);
    }
    match spent_until(quota, history) {
        Some(spent) => {
            let filled = reading + interval + capacity(quota);
            let left = if filled < spent {
                0
            } else {
                filled - spent
            };
            let held = if left < capacity(quota) {
                left
            } else {
                capacity(quota) as int
            };
            let tokens = available(quota, history, reading) as int;
            assert(tokens == held / interval);
            vstd::arithmetic::div_mod::lemma_fundamental_div_mod(held, interval);
            let rest = held % interval;
            let taken = interval * k;
            assert(tokens <= burst && (k < tokens <==> taken + interval <= held) && (tokens < burst
                <==> held < interval * burst) && (k == 0 ==> taken == 0)) by (nonlinear_arith)
                requires
                    interval > 0,
                    held == interval * tokens + rest,
                    0 <= rest < interval,
                    0 <= held <= interval * burst,
                    taken == interval * k,
            ;
        },
        None => {
            if k < burst {
                assert(interval * (k + 1) <= interval * burst) by (nonlinear_arith)
                    requires
                        interval > 0,
                        k < burst,
                ;
            }
        },
    }
}

/// Whether the time at which the tokens of a bucket come back is the right one, where the clock
/// of the agent is ahead of that of the bucket by an offset.
pub open spec fn refills_known(bucket: BucketModel, offset: nat) -> bool {
    match bucket.refills {
        Some(refills) => {
            &&& bucket.history.len() > 0
            &&& refills.answered_at == bucket.history.last().0 + offset
            &&& offset <= refills.from <= refills.answered_at
            &&& spent_until(bucket.quota, bucket.history) matches Some(spent)
            &&& spent + offset >= refills.from
            &&& (spent + offset - refills.from) % (refill_interval(bucket.quota) as int) == 0
        },
        None => bucket.history.len() == 0,
    }
}

/// A bucket goes on knowing when its tokens come back, whatever it answers, as long as the two
/// clocks keep their offset and the readings never go back.
pub proof fn answers_keep_the_refills_known(
    bucket: BucketModel,
    offset: nat,
    reading: nat,
    allowed: bool,
)
    requires
        0 < bucket.quota.per_second <= 1_000_000_000,
        bucket.quota.burst > 0,
        refills_known(bucket, offset),
        bucket.history.len() > 0 ==> bucket.history.last().0 <= reading,
        bucket.history.len() == 0 ==> allowed,
    ensures
        refills_known(answered(bucket, reading, reading + offset, allowed), offset),
{
    let quota = bucket.quota;
    let interval = refill_interval(quota) as int;
    let after = answered(bucket, reading, reading + offset, allowed);
    assert(after.history.drop_last() =~= bucket.history);
    assert(after.history.last() == (reading, allowed));
    refill_interval_of_rate(quota);
    match bucket.refills {
        Some(refills) => if allowed {
            let spent = spent_until(quota, bucket.history)->0;
            full_after_idleness(quota, spent, reading);
            if spent <= reading {
                vstd::arithmetic::div_mod::lemma_mod_self_0(interval);
            } else {
                vstd::arithmetic::div_mod::lemma_mod_add_multiples_vanish(
                    spent + offset - refills.from,
                    interval,
                );
            }
        },
        None => {
            vstd::arithmetic::div_mod::lemma_mod_multiples_basic(2, interval);
        },
    }
}

/// A request leaves a bucket full exactly if the bucket was idle before.
proof fn full_after_idleness(quota: LimiterQuota, spent: nat, reading: nat)
    requires
        0 < quota.per_second <= 1_000_000_000,
        quota.burst > 0,
    ensures
        snapshot_tokens(
            SnapshotModel {
                interval: refill_interval(quota),
                capacity: capacity(quota),
                reading,
                spent_until: (if spent < reading {
                    reading
                } else {
                    spent
                }) + refill_interval(quota),
            },
        ) == quota.burst <==> spent <= reading,
{
    refill_interval_of_rate(quota);
    capacity_of_burst(quota);
    let interval = refill_interval(quota) as int;
    let burst = quota.burst as int;
    if spent <= reading {
        vstd::arithmetic::div_mod::lemma_div_multiples_vanish(burst, interval);
    } else {
        let left = interval * burst - (spent - reading);
        let held = if left < 0 {
            0
        } else {
            left
        };
        vstd::arithmetic::div_mod::lemma_fundamental_div_mod(held, interval);
        let tokens = held / interval;
        let rest = held % interval;
        assert(0 < interval * burst) by (nonlinear_arith)
            requires
                interval > 0,
                burst > 0,
        ;
        assert(tokens < burst) by (nonlinear_arith)
            requires
                interval > 0,
                held == interval * tokens + rest,
                0 <= rest,
                held < interval * burst,
        ;
    }
}

/// A bucket that knows when its tokens come back tells those that it has: the tokens at a time of
/// the agent's clock are those at the reading of the bucket's clock, as long as the readings never
/// went back.
pub proof fn tokens_are_told_exactly(bucket: BucketModel, offset: nat, reading: nat)
    requires
        bucket_consistent(bucket),
        bucket.quota.per_second <= 1_000_000_000,
        refills_known(bucket, offset),
        readings_grow(bucket.history, reading),
    ensures
        current_tokens(bucket, reading + offset) == available(
            bucket.quota,
            bucket.history,
            reading,
        ),
{
    let quota = bucket.quota;
    let history = bucket.history;
    if bucket.refills is Some {
        let burst = quota.burst as int;
        let from = bucket.refills->0.from - offset;
        let last = history.last().0;
        let spent = spent_until(quota, history)->0;
        refill_interval_of_rate(quota);
        capacity_of_burst(quota);
        earlier_answers_are_true(quota, history);
        spent_stays_near(quota, history);
        on_the_beat(quota, from, spent, last);
        on_the_beat(quota, from, spent, reading);
        vstd::arithmetic::div_mod::lemma_div_is_ordered(
            last - from,
            reading - from,
            refill_interval(quota) as int,
        );
        assert(bucket.tokens == beat_tokens(quota, from, spent, last));
    }
}

/// The tokens at a reading, counted in refill intervals from a time at which one came back, as if
/// there were neither a burst nor an end to them.
spec fn beat_tokens(quota: LimiterQuota, from: int, spent: nat, reading: nat) -> int {
    let interval = refill_interval(quota) as int;
    (reading - from) / interval + 1 + quota.burst - (spent - from) / interval
}

proof fn on_the_beat(quota: LimiterQuota, from: int, spent: nat, reading: nat)
    requires
        0 < quota.per_second <= 1_000_000_000,
        quota.burst > 0,
        (spent - from) % (refill_interval(quota) as int) == 0,
    ensures
        ({
            let interval = refill_interval(quota);
            let tokens = beat_tokens(quota, from, spent, reading);
            let left = reading + interval + capacity(quota) - spent;
            &&& left >= 0 ==> tokens >= 0
            &&& left < interval ==> tokens <= 0
            &&& left <= capacity(quota) ==> tokens <= quota.burst
            &&& snapshot_tokens(
                SnapshotModel {
                    interval,
                    capacity: capacity(quota),
                    reading,
                    spent_until: spent,
                },
            ) == (if tokens < 0 {
                0
            } else if tokens < quota.burst {
                tokens
            } else {
                quota.burst as int
            })
        }),
{
    refill_interval_of_rate(quota);
    capacity_of_burst(quota);
    let interval = refill_interval(quota) as int;
    let burst = quota.burst as int;
    let over = (reading - from) / interval;
    let rest = (reading - from) % interval;
    let beats = (spent - from) / interval;
    let tokens = over + 1 + burst - beats;
    let left = reading + interval + interval * burst - spent;
    vstd::arithmetic::div_mod::lemma_fundamental_div_mod(reading - from, interval);
    vstd::arithmetic::div_mod::lemma_fundamental_div_mod(spent - from, interval);
    vstd::arithmetic::div_mod::lemma_div_multiples_vanish(burst, interval);
    assert(left == interval * tokens + rest) by (nonlinear_arith)
        requires
            left == reading + interval + interval * burst - spent,
            reading - from == interval * over + rest,
            spent - from == interval * beats,
            tokens == over + 1 + burst - beats,
    ;
    vstd::arithmetic::div_mod::lemma_fundamental_div_mod_converse(left, interval, tokens, rest);
    assert((left < 0 <==> tokens < 0) && (left < interval ==> tokens <= 0) && (left < interval
        * burst <==> tokens < burst) && (left <= interval * burst ==> tokens <= burst))
        by (nonlinear_arith)
        requires
            left == interval * tokens + rest,
            0 <= rest < interval,
    ;
    if left < 0 {
        vstd::arithmetic::div_mod::lemma_basic_div(0, interval);
    }
}

/// The tokens in a bucket never exceed its burst and never go down without a request.
pub proof fn tokens_only_come_back(bucket: BucketModel, now: nat, later: nat)
    requires
        now <= later,
    ensures
        current_tokens(bucket, now) <= current_tokens(bucket, later) <= bucket.quota.burst,
{
    if bucket.refills is Some && 0 < bucket.quota.per_second <= 1_000_000_000 {
        let from = bucket.refills->0.from;
        refill_interval_of_rate(bucket.quota);
        let interval = refill_interval(bucket.quota) as int;
        if from <= now {
            vstd::arithmetic::div_mod::lemma_div_is_ordered(now - from, later - from, interval);
        } else if from <= later {
            vstd::arithmetic::div_mod::lemma_div_pos_is_pos(later - from, interval);
        }
    }
}

/// A token comes back in each refill interval: at a time after the last answer of a bucket there
/// are those that it left and one for each interval since, or one more, up to the burst.
pub proof fn tokens_come_back_at_the_rate(bucket: BucketModel, now: nat)
    requires
        0 < bucket.quota.per_second <= 1_000_000_000,
        bucket.refills is Some,
        bucket.refills->0.from <= bucket.refills->0.answered_at <= now,
    ensures
        ({
            let burst = bucket.quota.burst as int;
            let elapsed = now - bucket.refills->0.answered_at;
            let least = bucket.tokens + elapsed / refill_interval(bucket.quota) as int;
            &&& current_tokens(bucket, now) >= (if least < burst {
                least
            } else {
                burst
            })
            &&& current_tokens(bucket, now) <= least + 1
        }),
{
    refill_interval_of_rate(bucket.quota);
    let interval = refill_interval(bucket.quota) as int;
    let from = bucket.refills->0.from as int;
    let at = bucket.refills->0.answered_at as int;
    vstd::arithmetic::div_mod::lemma_fundamental_div_mod(now - from, interval);
    vstd::arithmetic::div_mod::lemma_fundamental_div_mod(at - from, interval);
    vstd::arithmetic::div_mod::lemma_fundamental_div_mod(now - at, interval);
    let over = (now - from) / interval;
    let counted = (at - from) / interval;
    let elapsed = (now - at) / interval;
    let r1 = (now - from) % interval;
    let r2 = (at - from) % interval;
    let r3 = (now - at) % interval;
    assert(elapsed <= over - counted <= elapsed + 1) by (nonlinear_arith)
        requires
            interval > 0,
            now - from == interval * over + r1,
            at - from == interval * counted + r2,
            now - at == interval * elapsed + r3,
            0 <= r1 < interval,
            0 <= r2 < interval,
            0 <= r3 < interval,
    ;
    assert(elapsed >= 0) by (nonlinear_arith)
        requires
            interval > 0,
            now - at == interval * elapsed + r3,
            now >= at,
            r3 < interval,
    ;
}

} // verus!
