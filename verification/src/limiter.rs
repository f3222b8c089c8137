//! The token bucket that bounds how often the supervisor may (re)start
//! its processes.
use vstd::prelude::*;
use std::time::Duration;
use std::time::Instant;
use crate::decimal::Decimal;

verus! {

#[verifier::external_type_specification]
#[verifier::external_body]
pub struct ExInstant(std::time::Instant);

/// Calls `std::time::Instant::now`, a reading of the monotonic clock.
/// Nothing is promised of the reading.
#[verifier::external_body]
fn instant_now() -> Instant {
    Instant::now()
}

/// Calls `std::time::Instant::duration_since`: the time from `earlier` to
/// `later`, zero where `earlier` is the later one. Nothing is promised of
/// the result, which rests on clock readings.
#[verifier::external_body]
fn duration_since(later: &Instant, earlier: &Instant) -> Duration {
    later.duration_since(*earlier)
}

/// Calls `std::time::Duration::as_millis`: the whole milliseconds in `d`.
/// `Duration` is opaque here, so nothing is promised of the number.
#[verifier::external_body]
fn duration_millis(d: &Duration) -> u128 {
    d.as_millis()
}

/// Billionths of a token in one token: the unit in which the bucket counts.
pub const NANOS_PER_TOKEN: u128 = 1_000_000_000u128;

/// The largest capacity a bucket can have, in billionths of a token, in
/// either direction.
pub open spec fn max_capacity() -> int {
    (i64::MAX as int) * 1000 + 1000
}

/// The lowest count the bucket can hold, in billionths of a token: -2^126.
/// With a negative rate the count falls without end; at any rate a
/// supervisor can have, reaching this bound takes longer than the age of
/// the universe, and the count stays there.
pub open spec fn token_floor() -> int {
    -0x4000_0000_0000_0000_0000_0000_0000_0000
}

/// A token bucket: it holds at most `capacity` tokens, gains
/// `tokens_per_sec` tokens each second, and each granted request takes one.
///
/// Amounts are held in billionths of a token and the rate in millionths of
/// a token per second, which is billionths per millisecond, so that refills
/// are exact. A pool below one token grants nothing; with a negative rate
/// the capacity is zero and the count falls below zero.
pub struct RateLimiter {
    capacity: i128,
    tokens: i128,
    tokens_per_sec: i64,
    last_add: Instant,
}

/// The counts of a bucket: capacity and tokens in billionths of a token,
/// rate in billionths of a token per millisecond.
pub struct RateLimiterView {
    pub capacity: int,
    pub tokens: int,
    pub rate: int,
}

impl View for RateLimiter {
    type V = RateLimiterView;

    closed spec fn view(&self) -> RateLimiterView {
        RateLimiterView {
            capacity: self.capacity as int,
            tokens: self.tokens as int,
            rate: self.tokens_per_sec as int,
        }
    }
}

/// The capacity, in billionths of a token, of a bucket asked for with
/// `capacity` tokens and a rate of `tokens_per_sec`: none at all where the
/// rate is negative.
pub open spec fn bucket_capacity(capacity: Decimal, tokens_per_sec: Decimal) -> int {
    if tokens_per_sec.micros < 0 {
        0
    } else {
        capacity.micros * 1000
    }
}

/// The tokens after `millis` milliseconds of refilling: at most the
/// capacity (and no lower than the floor of the representation).
pub open spec fn refilled(v: RateLimiterView, millis: int) -> int {
    let x = v.tokens + millis * v.rate;
    if x > v.capacity {
        v.capacity
    } else if x < token_floor() {
        token_floor()
    } else {
        x
    }
}

/// A request made `millis` milliseconds after the previous refill: the
/// bucket is refilled, and the request is granted, taking one token, where
/// at least one whole token is there.
pub open spec fn take_outcome(v: RateLimiterView, millis: int) -> (RateLimiterView, bool) {
    let t = refilled(v, millis);
    if t < NANOS_PER_TOKEN {
        (RateLimiterView { tokens: t, ..v }, false)
    } else {
        (RateLimiterView { tokens: t - NANOS_PER_TOKEN, ..v }, true)
    }
}

impl RateLimiterView {
    /// The counts stay within the bucket.
    pub open spec fn wf(self) -> bool {
        &&& token_floor() <= self.tokens <= self.capacity
        &&& -max_capacity() <= self.capacity <= max_capacity()
        &&& i64::MIN <= self.rate <= i64::MAX
    }
}

impl RateLimiter {
    #[verifier::type_invariant]
    closed spec fn inv(self) -> bool {
        self@.wf()
    }

    /// A full bucket of `capacity` tokens that gains `tokens_per_sec` tokens
    /// a second; a negative rate leaves it empty.
    pub fn new(capacity: Decimal, tokens_per_sec: Decimal) -> (r: Self)
        ensures
            r@ == (RateLimiterView {
                capacity: bucket_capacity(capacity, tokens_per_sec),
                tokens: bucket_capacity(capacity, tokens_per_sec),
                rate: tokens_per_sec.micros as int,
            }),
            r@.wf(),
    {
        let cap: i128 = if tokens_per_sec.micros < 0 {
            0
        } else {
            (capacity.micros as i128) * 1000
        };
        RateLimiter {
            capacity: cap,
            tokens: cap,
            tokens_per_sec: tokens_per_sec.micros,
            last_add: instant_now(),
        }
    }

    fn refill(&mut self, millis: u128)
        ensures
            final(self)@ == (RateLimiterView { tokens: refilled(old(self)@, millis as int), ..old(self)@ }),
    {
        proof {
            use_type_invariant(&*self);
        }
        let floor: i128 = -0x4000_0000_0000_0000_0000_0000_0000_0000;
        if self.tokens_per_sec >= 0 {
            let rate = self.tokens_per_sec as u128;
            let room = (self.capacity - self.tokens) as u128;
            match millis.checked_mul(rate) {
                Some(gain) => {
                    if gain >= room {
                        self.tokens = self.capacity;
                    } else {
                        self.tokens = self.tokens + gain as i128;
                    }
                },
                None => {
                    proof {
                        assert(millis as int * rate as int > u128::MAX);
                    }
                    self.tokens = self.capacity;
                },
            }
        } else {
            let rate: u128 = if self.tokens_per_sec == i64::MIN {
                0x8000_0000_0000_0000u128
            } else {
                (-self.tokens_per_sec) as u128
            };
            proof {
                assert(millis as int * (self.tokens_per_sec as int) == -(millis as int * rate as int))
                    by (nonlinear_arith)
                    requires
                        rate as int == -(self.tokens_per_sec as int),
                ;
            }
            let room = (self.tokens - floor) as u128;
            match millis.checked_mul(rate) {
                Some(loss) => {
                    if loss >= room {
                        self.tokens = floor;
                    } else {
                        self.tokens = self.tokens - loss as i128;
                    }
                },
                None => {
                    proof {
                        assert(millis as int * rate as int > u128::MAX);
                    }
                    self.tokens = floor;
                },
            }
        }
    }

    /// A request made `elapsed_millis` milliseconds after the previous
    /// refill: see [`take_outcome`].
    pub fn take_after(&mut self, elapsed_millis: u128) -> (granted: bool)
        ensures
            (final(self)@, granted) == take_outcome(old(self)@, elapsed_millis as int),
            old(self)@.wf(),
            final(self)@.wf(),
    {
        proof {
            use_type_invariant(&*self);
        }
        self.refill(elapsed_millis);
        if self.tokens < NANOS_PER_TOKEN as i128 {
            false
        } else {
            self.tokens = self.tokens - NANOS_PER_TOKEN as i128;
            true
        }
    }

    /// A request now: the bucket is refilled for the time since its last
    /// refill, which the clock gives, and the request is granted where a
    /// whole token is there.
    pub fn take(&mut self) -> (granted: bool)
        ensures
            exists|millis: u128| (final(self)@, granted) == take_outcome(old(self)@, millis as int),
            old(self)@.wf(),
            final(self)@.wf(),
    {
        proof {
            use_type_invariant(&*self);
        }
        let now = instant_now();
        let elapsed = duration_since(&now, &self.last_add);
        let millis = duration_millis(&elapsed);
        self.last_add = now;
        let granted = self.take_after(millis);
        assert((self@, granted) == take_outcome(old(self)@, millis as int));
        granted
    }
}

/// A request `millis` milliseconds after the last refill, at a rate that is
/// not negative: whatever the bucket holds, it first gains `millis` times the
/// rate (billionths of a token per millisecond), up to its capacity; the
/// request is granted exactly where a whole token is then there, and takes
/// exactly one. Capacity and rate stay as they are.
pub proof fn law_refill(v: RateLimiterView, millis: int)
    requires
        v.wf(),
        v.rate >= 0,
        millis >= 0,
    ensures
        ({
            let full = v.tokens + millis * v.rate;
            let held = if full > v.capacity { v.capacity } else { full };
            let (v2, granted) = take_outcome(v, millis);
            &&& granted <==> held >= 1_000_000_000
            &&& v2.tokens == (if granted { held - 1_000_000_000 } else { held })
            &&& v2.capacity == v.capacity
            &&& v2.rate == v.rate
        }),
{
    assert(millis * v.rate >= 0) by (nonlinear_arith)
        requires
            millis >= 0,
            v.rate >= 0,
    ;
}

/// Refilling for `a` milliseconds and then for `b` more gives the bucket
/// that refilling once for `a + b` milliseconds gives: no elapsed time is
/// lost or counted twice, whatever the bucket holds.
pub proof fn law_refill_additive(v: RateLimiterView, a: int, b: int)
    requires
        v.wf(),
        a >= 0,
        b >= 0,
    ensures
        refilled(RateLimiterView { tokens: refilled(v, a), ..v }, b) == refilled(v, a + b),
{
    assert((a + b) * v.rate == a * v.rate + b * v.rate) by (nonlinear_arith);
    if v.rate >= 0 {
        assert(a * v.rate >= 0 && b * v.rate >= 0) by (nonlinear_arith)
            requires
                a >= 0,
                b >= 0,
                v.rate >= 0,
        ;
    } else {
        assert(a * v.rate <= 0 && b * v.rate <= 0) by (nonlinear_arith)
            requires
                a >= 0,
                b >= 0,
                v.rate < 0,
        ;
    }
}

/// The number of requests granted, out of requests made at the given
/// elapsed times, one after the other.
pub open spec fn grants(v: RateLimiterView, elapsed: Seq<int>) -> nat
    decreases elapsed.len(),
{
    if elapsed.len() == 0 {
        0
    } else {
        let (v2, granted) = take_outcome(v, elapsed[0]);
        (if granted { 1nat } else { 0nat }) + grants(v2, elapsed.drop_first())
    }
}

/// A request keeps the bucket well formed: its count stays between zero and
/// its capacity, and neither capacity nor rate change. A request is granted
/// exactly where the refilled bucket holds a whole token, and then takes
/// exactly one.
pub proof fn law_take_keeps_bucket(v: RateLimiterView, millis: int)
    requires
        v.wf(),
        millis >= 0,
    ensures
        take_outcome(v, millis).0.wf(),
        take_outcome(v, millis).0.capacity == v.capacity,
        take_outcome(v, millis).0.rate == v.rate,
        take_outcome(v, millis).1 <==> refilled(v, millis) >= NANOS_PER_TOKEN,
        take_outcome(v, millis).1 ==> take_outcome(v, millis).0.tokens == refilled(v, millis) - NANOS_PER_TOKEN,
        !take_outcome(v, millis).1 ==> take_outcome(v, millis).0.tokens == refilled(v, millis),
{
}

/// The sum of a sequence of elapsed times.
pub open spec fn total(elapsed: Seq<int>) -> int
    decreases elapsed.len(),
{
    if elapsed.len() == 0 {
        0
    } else {
        elapsed[0] + total(elapsed.drop_first())
    }
}

/// A new bucket grants its first request exactly where it holds at least
/// one token: a pool of at least one and a rate that is not negative. A
/// pool below one cannot pay for the first start.
pub proof fn law_first_take(capacity: Decimal, tokens_per_sec: Decimal, millis: int)
    requires
        millis >= 0,
    ensures
        take_outcome(
            RateLimiterView {
                capacity: bucket_capacity(capacity, tokens_per_sec),
                tokens: bucket_capacity(capacity, tokens_per_sec),
                rate: tokens_per_sec.micros as int,
            },
            millis,
        ).1 <==> (tokens_per_sec.micros >= 0 && capacity.micros >= 1_000_000),
{
    if tokens_per_sec.micros >= 0 {
        assert(millis * tokens_per_sec.micros >= 0) by (nonlinear_arith)
            requires
                millis >= 0,
                tokens_per_sec.micros >= 0,
        ;
    }
}

/// With a negative rate the bucket is empty and no request is ever granted.
pub proof fn law_negative_rate(capacity: Decimal, tokens_per_sec: Decimal, elapsed: Seq<int>)
    requires
        tokens_per_sec.micros < 0,
    ensures
        grants(
            RateLimiterView {
                capacity: bucket_capacity(capacity, tokens_per_sec),
                tokens: bucket_capacity(capacity, tokens_per_sec),
                rate: tokens_per_sec.micros as int,
            },
            elapsed,
        ) == 0,
{
    lemma_small_bucket(
        RateLimiterView {
            capacity: 0,
            tokens: 0,
            rate: tokens_per_sec.micros as int,
        },
        elapsed,
    );
}

/// A bucket whose capacity is below one token grants nothing.
proof fn lemma_small_bucket(v: RateLimiterView, elapsed: Seq<int>)
    requires
        v.capacity < NANOS_PER_TOKEN,
    ensures
        grants(v, elapsed) == 0,
    decreases elapsed.len(),
{
    if elapsed.len() > 0 {
        lemma_small_bucket(take_outcome(v, elapsed[0]).0, elapsed.drop_first());
    }
}

proof fn lemma_grant_bound(v: RateLimiterView, elapsed: Seq<int>)
    requires
        v.wf(),
        v.rate >= 0,
        v.tokens >= 0,
        forall|i: int| 0 <= i < elapsed.len() ==> elapsed[i] >= 0,
    ensures
        grants(v, elapsed) * NANOS_PER_TOKEN <= v.tokens + v.rate * total(elapsed),
    decreases elapsed.len(),
{
    if elapsed.len() > 0 {
        let ms = elapsed[0];
        let rest = elapsed.drop_first();
        let (v2, granted) = take_outcome(v, ms);
        assert(ms * v.rate >= 0) by (nonlinear_arith)
            requires
                ms >= 0,
                v.rate >= 0,
        ;
        assert forall|i: int| 0 <= i < rest.len() implies rest[i] >= 0 by {
            assert(rest[i] == elapsed[i + 1]);
        }
        lemma_grant_bound(v2, rest);
        assert(v.rate * total(elapsed) == v.rate * ms + v.rate * total(rest)) by (nonlinear_arith)
            requires
                total(elapsed) == ms + total(rest),
        ;
        assert(v.rate * ms == ms * v.rate) by (nonlinear_arith);
    }
}

/// Tokens come only from the pool and the refill: out of requests made at
/// elapsed times (in milliseconds after the previous request, the first
/// after the bucket was made) that add up to `total(elapsed)`, a new bucket
/// with a rate that is not negative grants at most its capacity plus the
/// rate times the total time, in whole tokens.
pub proof fn law_grant_bound(capacity: Decimal, tokens_per_sec: Decimal, elapsed: Seq<int>)
    requires
        tokens_per_sec.micros >= 0,
        forall|i: int| 0 <= i < elapsed.len() ==> elapsed[i] >= 0,
    ensures
        grants(
            RateLimiterView {
                capacity: bucket_capacity(capacity, tokens_per_sec),
                tokens: bucket_capacity(capacity, tokens_per_sec),
                rate: tokens_per_sec.micros as int,
            },
            elapsed,
        ) * NANOS_PER_TOKEN <= (if capacity.micros > 0 { capacity.micros * 1000 } else { 0 })
            + tokens_per_sec.micros * total(elapsed),
{
    let v = RateLimiterView {
        capacity: bucket_capacity(capacity, tokens_per_sec),
        tokens: bucket_capacity(capacity, tokens_per_sec),
        rate: tokens_per_sec.micros as int,
    };
    lemma_total_nonneg(elapsed);
    assert(tokens_per_sec.micros * total(elapsed) >= 0) by (nonlinear_arith)
        requires
            tokens_per_sec.micros >= 0,
            total(elapsed) >= 0,
    ;
    if capacity.micros > 0 {
        lemma_grant_bound(v, elapsed);
    } else {
        lemma_small_bucket(v, elapsed);
    }
}

proof fn lemma_total_nonneg(elapsed: Seq<int>)
    requires
        forall|i: int| 0 <= i < elapsed.len() ==> elapsed[i] >= 0,
    ensures
        total(elapsed) >= 0,
    decreases elapsed.len(),
{
    if elapsed.len() > 0 {
        let rest = elapsed.drop_first();
        assert forall|i: int| 0 <= i < rest.len() implies rest[i] >= 0 by {
            assert(rest[i] == elapsed[i + 1]);
        }
        lemma_total_nonneg(rest);
    }
}

/// Without refills (a rate of zero), a bucket holding `t` tokens grants
/// exactly as many requests in a row as it holds whole tokens: the first
/// `floor(t)`, and none after.
pub proof fn law_zero_rate_grants(v: RateLimiterView, elapsed: Seq<int>)
    requires
        v.wf(),
        v.rate == 0,
        v.tokens >= 0,
        forall|i: int| 0 <= i < elapsed.len() ==> elapsed[i] >= 0,
    ensures
        grants(v, elapsed) == if elapsed.len() < v.tokens / (NANOS_PER_TOKEN as int) {
            elapsed.len()
        } else {
            (v.tokens / (NANOS_PER_TOKEN as int)) as nat
        },
    decreases elapsed.len(),
{
    if elapsed.len() > 0 {
        let (v2, granted) = take_outcome(v, elapsed[0]);
        assert(elapsed[0] * v.rate == 0);
        assert(refilled(v, elapsed[0]) == v.tokens);
        assert forall|i: int| 0 <= i < elapsed.drop_first().len() implies elapsed.drop_first()[i] >= 0 by {
            assert(elapsed.drop_first()[i] == elapsed[i + 1]);
        }
        law_zero_rate_grants(v2, elapsed.drop_first());
        if granted {
            assert(v2.tokens / (NANOS_PER_TOKEN as int) == v.tokens / (NANOS_PER_TOKEN as int) - 1);
        } else {
            assert(v.tokens / (NANOS_PER_TOKEN as int) == 0);
        }
    }
}

} // verus!
