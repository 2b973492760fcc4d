//! Rate limits: a bucket of tokens for each key, refilled as time passes. A request spends one
//! token, and a key whose bucket holds less than one is over its limit.
//!
//! Tokens are counted in parts so small that a nanosecond's refill is a whole number of them, and
//! time in nanoseconds since the limiter's clock started.
//! The count is exact: a key has just what the rate gives for the time that has passed.

use vstd::hash_map::StringHashMap;
use vstd::prelude::*;
use crate::number::{hex, hex_is_injective, hex_text, parse_trimmed_u32, trimmed_value};
use crate::text::str_of;

verus! {

/// The rate where none is set.
pub const DEFAULT_PER_MINUTE: u32 = 600;

/// The parts of a token: as many as there are nanoseconds in a minute, so that in one nanosecond
/// a bucket gains one part for each token it gains in a minute.
pub const TOKEN: u128 = 60_000_000_000;

/// The tokens of one key: how many parts of them there were, and when that was.
#[derive(Debug, Clone, Copy)]
pub struct Bucket {
    tokens: u128,
    last: u64,
}

/// What a [`Bucket`] holds.
pub struct BucketView {
    pub tokens: int,
    pub last: int,
}

impl View for Bucket {
    type V = BucketView;

    closed spec fn view(&self) -> BucketView {
        BucketView { tokens: self.tokens as int, last: self.last as int }
    }
}

impl Bucket {
    #[verifier::type_invariant]
    spec fn is_bounded(self) -> bool {
        self.tokens <= u32::MAX * TOKEN
    }
}

/// What a full bucket holds: the tokens of one minute.
pub open spec fn capacity(per_minute: u32) -> int {
    per_minute * TOKEN
}

/// The tokens in a bucket at a later time: what there was and what came in since, but no more
/// than it can hold.
pub open spec fn refilled(per_minute: u32, bucket: BucketView, now: int) -> int {
    let elapsed = if now > bucket.last {
        now - bucket.last
    } else {
        0
    };
    let tokens = bucket.tokens + elapsed * per_minute;
    if tokens < capacity(per_minute) {
        tokens
    } else {
        capacity(per_minute)
    }
}

/// The tokens a key has at a time; a key seen for the first time has a full bucket.
pub open spec fn available(per_minute: u32, bucket: Option<BucketView>, now: int) -> int {
    match bucket {
        Some(b) => refilled(per_minute, b, now),
        None => capacity(per_minute),
    }
}

/// A request at this time is let through.
pub open spec fn lets_through(per_minute: u32, bucket: Option<BucketView>, now: int) -> bool {
    per_minute == 0 || available(per_minute, bucket, now) >= TOKEN
}

/// The bucket after a request at this time. Without a limit none is kept.
pub open spec fn next_bucket(per_minute: u32, bucket: Option<BucketView>, now: int) -> Option<
    BucketView,
> {
    if per_minute == 0 {
        bucket
    } else {
        let tokens = available(per_minute, bucket, now);
        Some(
            BucketView {
                tokens: if tokens >= TOKEN {
                    tokens - TOKEN
                } else {
                    tokens
                },
                last: now,
            },
        )
    }
}

/// A limiter for any number of keys.
pub struct RateLimiter {
    per_minute: u32,
    buckets: StringHashMap<Bucket>,
}

impl RateLimiter {
    /// How many requests a key may make in a minute; zero for any number.
    pub closed spec fn rate(&self) -> u32 {
        self.per_minute
    }

    /// The bucket of a key, where it has one.
    pub closed spec fn bucket(&self, key: Seq<u8>) -> Option<BucketView> {
        if self.buckets@.contains_key(hex(key)) {
            Some(self.buckets@[hex(key)]@)
        } else {
            None
        }
    }

    /// A limiter that lets `per_minute` requests through in a minute, all at once if they come
    /// so. Zero sets no limit.
    pub fn per_minute(per_minute: u32) -> (r: RateLimiter)
        ensures
            r.rate() == per_minute,
            forall|key: Seq<u8>| r.bucket(key) is None,
    {
        RateLimiter { per_minute, buckets: StringHashMap::new() }
    }

    /// A limiter that lets every request through.
    pub fn disabled() -> (r: RateLimiter)
        ensures
            r.rate() == 0,
            forall|key: Seq<u8>| r.bucket(key) is None,
    {
        RateLimiter::per_minute(0)
    }

    /// The limiter for a configured rate; the default rate where none, or no number, is set.
    pub fn from_env(raw: Option<&str>) -> (r: RateLimiter)
        ensures
            r.rate() == match trimmed_value(str_of(raw), u32::MAX as nat) {
                Some(n) => n as u32,
                None => DEFAULT_PER_MINUTE,
            },
            raw is None ==> r.rate() == 600,
            forall|key: Seq<u8>| r.bucket(key) is None,
    {
        let per_minute: u32 = match parse_trimmed_u32(raw) {
            Some(n) => n,
            None => DEFAULT_PER_MINUTE,
        };
        RateLimiter::per_minute(per_minute)
    }

    /// Spends a token of the key, where it has one, and says whether it had.
    pub fn allow(&mut self, key: &[u8], now: u64) -> (r: bool)
        ensures
            r == lets_through(old(self).rate(), old(self).bucket(key@), now as int),
            final(self).rate() == old(self).rate(),
            final(self).bucket(key@) == next_bucket(
                old(self).rate(),
                old(self).bucket(key@),
                now as int,
            ),
            forall|other: Seq<u8>|
                other != key@ ==> #[trigger] final(self).bucket(other) == old(self).bucket(other),
    {
        if self.per_minute == 0 {
            return true;
        }
        let name: String = hex_text(key);
        let per_minute: u32 = self.per_minute;
        let full: u128 = per_minute as u128 * TOKEN;
        let tokens: u128 = match self.buckets.get(name.as_str()) {
            Some(bucket) => {
                proof {
                    use_type_invariant(bucket);
                }
                let elapsed: u64 = if now > bucket.last {
                    now - bucket.last
                } else {
                    0
                };
                assert(elapsed * per_minute <= u64::MAX * u32::MAX) by (nonlinear_arith)
                    requires
                        0 <= elapsed <= u64::MAX,
                        0 <= per_minute <= u32::MAX,
                ;
                let total: u128 = bucket.tokens + elapsed as u128 * per_minute as u128;
                if total < full {
                    total
                } else {
                    full
                }
            },
            None => full,
        };
        let allowed: bool = tokens >= TOKEN;
        let left: u128 = if allowed {
            tokens - TOKEN
        } else {
            tokens
        };
        self.buckets.insert(name, Bucket { tokens: left, last: now });
        proof {
            assert forall|other: Seq<u8>| other != key@ implies #[trigger] self.bucket(other)
                == old(self).bucket(other) by {
                if hex(other) == hex(key@) {
                    hex_is_injective(other, key@);
                }
            }
        }
        allowed
    }
}

// ---------------------------------------------------------------------------------------------
// Laws
// ---------------------------------------------------------------------------------------------

/// A key's bucket after requests at the given times, the first of which is the key's first.
pub open spec fn bucket_after(per_minute: u32, times: Seq<int>) -> Option<BucketView>
    decreases times.len(),
{
    if times.len() == 0 {
        None
    } else {
        next_bucket(per_minute, bucket_after(per_minute, times.drop_last()), times.last())
    }
}

/// How many of a key's requests at the given times are let through.
pub open spec fn passed(per_minute: u32, times: Seq<int>) -> nat
    decreases times.len(),
{
    if times.len() == 0 {
        0
    } else {
        passed(per_minute, times.drop_last()) + if lets_through(
            per_minute,
            bucket_after(per_minute, times.drop_last()),
            times.last(),
        ) {
            1nat
        } else {
            0nat
        }
    }
}

/// No request comes before the one in front of it.
pub open spec fn in_order(times: Seq<int>) -> bool {
    forall|i: int, j: int| 0 <= i <= j < times.len() ==> #[trigger] times[i] <= #[trigger] times[j]
}

/// A bucket never holds more than a minute's tokens, nor less than none.
pub proof fn bucket_stays_within_capacity(per_minute: u32, times: Seq<int>)
    requires
        per_minute > 0,
        times.len() > 0,
    ensures
        bucket_after(per_minute, times) matches Some(b) && 0 <= b.tokens <= capacity(per_minute)
            && b.last == times.last(),
    decreases times.len(),
{
    assert(capacity(per_minute) >= TOKEN) by (nonlinear_arith)
        requires
            capacity(per_minute) == per_minute * TOKEN,
            per_minute >= 1,
            TOKEN > 0,
    ;
    if times.len() > 1 {
        let before = times.drop_last();
        bucket_stays_within_capacity(per_minute, before);
        let b = bucket_after(per_minute, before)->0;
        let elapsed = if times.last() > b.last {
            times.last() - b.last
        } else {
            0
        };
        assert(elapsed * per_minute >= 0) by (nonlinear_arith)
            requires
                elapsed >= 0,
                per_minute >= 0,
        ;
    } else {
        assert(times.drop_last() =~= Seq::empty());
        reveal_with_fuel(bucket_after, 2);
    }
}

proof fn tokens_account_for_requests(per_minute: u32, times: Seq<int>)
    requires
        per_minute > 0,
        times.len() > 0,
        in_order(times),
    ensures
        bucket_after(per_minute, times) is Some,
        TOKEN * passed(per_minute, times) + bucket_after(per_minute, times)->0.tokens <= capacity(
            per_minute,
        ) + (times.last() - times[0]) * per_minute,
    decreases times.len(),
{
    bucket_stays_within_capacity(per_minute, times);
    if times.len() > 1 {
        let before = times.drop_last();
        assert forall|i: int, j: int| 0 <= i <= j < before.len() implies #[trigger] before[i]
            <= #[trigger] before[j] by {
            assert(times[i] <= times[j]);
        }
        tokens_account_for_requests(per_minute, before);
        bucket_stays_within_capacity(per_minute, before);
        let b = bucket_after(per_minute, before)->0;
        assert(times[times.len() - 2] <= times[times.len() - 1]);
        let elapsed = times.last() - b.last;
        assert((times.last() - times[0]) * per_minute == (before.last() - times[0]) * per_minute
            + elapsed * per_minute) by (nonlinear_arith)
            requires
                elapsed == times.last() - before.last(),
        ;
        let extra = passed(per_minute, times) - passed(per_minute, before);
        assert(TOKEN * passed(per_minute, times) == TOKEN * passed(per_minute, before) + TOKEN
            * extra) by (nonlinear_arith)
            requires
                extra == passed(per_minute, times) - passed(per_minute, before),
        ;
    } else {
        assert(times.drop_last() =~= Seq::empty());
        reveal_with_fuel(bucket_after, 2);
        reveal_with_fuel(passed, 2);
        assert((times.last() - times[0]) * per_minute == 0) by (nonlinear_arith)
            requires
                times.last() == times[0],
        ;
    }
}

/// However a key's requests come, no more are let through than a minute's worth and what the
/// rate allows for the time that has passed.
pub proof fn rate_is_kept(per_minute: u32, times: Seq<int>)
    requires
        per_minute > 0,
        times.len() > 0,
        in_order(times),
    ensures
        TOKEN * passed(per_minute, times) <= capacity(per_minute) + (times.last() - times[0])
            * per_minute,
{
    tokens_account_for_requests(per_minute, times);
    bucket_stays_within_capacity(per_minute, times);
}

proof fn burst_leaves_the_rest(per_minute: u32, times: Seq<int>)
    requires
        0 < times.len() <= per_minute,
    ensures
        passed(per_minute, times) == times.len(),
        bucket_after(per_minute, times) matches Some(b) && b.tokens >= capacity(per_minute)
            - times.len() * TOKEN,
    decreases times.len(),
{
    let n = times.len() as int;
    assert(capacity(per_minute) - (n - 1) * TOKEN >= TOKEN) by (nonlinear_arith)
        requires
            capacity(per_minute) == per_minute * TOKEN,
            n <= per_minute,
            TOKEN > 0,
    ;
    assert(n * TOKEN == (n - 1) * TOKEN + TOKEN) by (nonlinear_arith);
    assert((n - 1) * TOKEN >= 0) by (nonlinear_arith)
        requires
            n >= 1,
            TOKEN > 0,
    ;
    if times.len() > 1 {
        let before = times.drop_last();
        burst_leaves_the_rest(per_minute, before);
        let b = bucket_after(per_minute, before)->0;
        let elapsed = if times.last() > b.last {
            times.last() - b.last
        } else {
            0
        };
        assert(elapsed * per_minute >= 0) by (nonlinear_arith)
            requires
                elapsed >= 0,
                per_minute >= 0,
        ;
    } else {
        assert(times.drop_last() =~= Seq::empty());
        reveal_with_fuel(bucket_after, 2);
        reveal_with_fuel(passed, 2);
    }
}

/// A key's first requests, up to a minute's worth of them, are all let through, at once or not.
pub proof fn bursts_pass(per_minute: u32, times: Seq<int>)
    requires
        times.len() <= per_minute,
    ensures
        passed(per_minute, times) == times.len(),
{
    if times.len() > 0 {
        burst_leaves_the_rest(per_minute, times);
    }
}

/// Where no limit is set, every request is let through and no bucket is ever kept.
pub proof fn no_limit_lets_everything_through(times: Seq<int>)
    ensures
        passed(0, times) == times.len(),
        bucket_after(0, times) is None,
    decreases times.len(),
{
    if times.len() > 0 {
        no_limit_lets_everything_through(times.drop_last());
    }
}

/// A minute after its last request, a key has a full bucket again.
pub proof fn bucket_is_full_after_a_minute(per_minute: u32, bucket: BucketView, now: int)
    requires
        bucket.tokens >= 0,
        now >= bucket.last + TOKEN,
    ensures
        available(per_minute, Some(bucket), now) == capacity(per_minute),
{
    let elapsed = now - bucket.last;
    assert(elapsed * per_minute >= per_minute * TOKEN) by (nonlinear_arith)
        requires
            elapsed >= TOKEN,
            per_minute >= 0,
    ;
}

/// A request that is let through spends one token, and no more.
pub proof fn a_request_let_through_costs_one_token(
    per_minute: u32,
    bucket: Option<BucketView>,
    now: int,
)
    requires
        per_minute > 0,
        lets_through(per_minute, bucket, now),
    ensures
        next_bucket(per_minute, bucket, now) matches Some(b) && b.last == now && b.tokens
            == available(per_minute, bucket, now) - 60_000_000_000,
        available(per_minute, next_bucket(per_minute, bucket, now), now) == available(
            per_minute,
            bucket,
            now,
        ) - 60_000_000_000,
{
    let b = next_bucket(per_minute, bucket, now)->0;
    assert(0int * (per_minute as int) == 0);
    assert(available(per_minute, bucket, now) <= capacity(per_minute));
    assert(b.tokens < capacity(per_minute));
    assert(refilled(per_minute, b, now) == b.tokens);
}

/// A request that is refused costs nothing: at any later time the key has what it would have had
/// without it.
pub proof fn a_refused_request_costs_nothing(
    per_minute: u32,
    bucket: BucketView,
    now: int,
    later: int,
)
    requires
        bucket.last <= now <= later,
        !lets_through(per_minute, Some(bucket), now),
    ensures
        available(per_minute, next_bucket(per_minute, Some(bucket), now), later) == available(
            per_minute,
            Some(bucket),
            later,
        ),
{
    assert(capacity(per_minute) >= TOKEN) by (nonlinear_arith)
        requires
            capacity(per_minute) == per_minute * TOKEN,
            per_minute >= 1,
            TOKEN > 0,
    ;
    let first = now - bucket.last;
    let second = later - now;
    assert((later - bucket.last) * per_minute == first * per_minute + second * per_minute)
        by (nonlinear_arith)
        requires
            first == now - bucket.last,
            second == later - now,
    ;
}

/// As time passes, tokens come in at the rate: in each nanosecond as many parts as there are
/// tokens in a minute, until the bucket is full. None come in where the clock stands still or goes
/// back.
pub proof fn tokens_come_in_at_the_rate(per_minute: u32, bucket: BucketView, elapsed: int)
    requires
        elapsed >= 0,
    ensures
        ({
            let later = available(per_minute, Some(bucket), bucket.last + elapsed);
            let full = per_minute * 60_000_000_000;
            &&& bucket.tokens + elapsed * per_minute <= full ==> later == bucket.tokens + elapsed
                * per_minute
            &&& bucket.tokens + elapsed * per_minute >= full ==> later == full
        }),
        bucket.tokens <= per_minute * 60_000_000_000 ==> available(
            per_minute,
            Some(bucket),
            bucket.last - elapsed,
        ) == bucket.tokens,
        available(per_minute, None, elapsed) == per_minute * 60_000_000_000,
{
    assert(0int * (per_minute as int) == 0);
}

/// A key that has a whole token is let through, and one that has less is not.
pub proof fn a_whole_token_is_needed(per_minute: u32, bucket: Option<BucketView>, now: int)
    requires
        per_minute > 0,
    ensures
        lets_through(per_minute, bucket, now) <==> available(per_minute, bucket, now)
            >= 60_000_000_000,
        lets_through(per_minute, None, now),
{
    assert(capacity(per_minute) >= TOKEN) by (nonlinear_arith)
        requires
            capacity(per_minute) == per_minute * TOKEN,
            per_minute >= 1,
            TOKEN > 0,
    ;
}

proof fn passed_grows(per_minute: u32, times: Seq<int>, n: int)
    requires
        0 <= n <= times.len(),
    ensures
        passed(per_minute, times.take(n)) <= passed(per_minute, times),
    decreases times.len() - n,
{
    if n < times.len() {
        passed_grows(per_minute, times, n + 1);
        assert(times.take(n + 1).drop_last() =~= times.take(n));
    } else {
        assert(times.take(n) =~= times);
    }
}

/// Of a key's first requests, all at once, exactly a minute's worth are let through.
pub proof fn at_once_exactly_the_rate_passes(per_minute: u32, now: int, times: Seq<int>)
    requires
        per_minute > 0,
        forall|i: int| 0 <= i < times.len() ==> #[trigger] times[i] == now,
    ensures
        passed(per_minute, times) == if times.len() < per_minute {
            times.len() as int
        } else {
            per_minute as int
        },
{
    if times.len() <= per_minute {
        bursts_pass(per_minute, times);
    } else {
        let first = times.take(per_minute as int);
        bursts_pass(per_minute, first);
        passed_grows(per_minute, times, per_minute as int);
        rate_is_kept(per_minute, times);
        let count = passed(per_minute, times);
        assert(times.last() == times[0]);
        assert((times.last() - times[0]) * per_minute == 0) by (nonlinear_arith)
            requires
                times.last() == times[0],
        ;
        assert(count <= per_minute) by (nonlinear_arith)
            requires
                TOKEN * count <= per_minute * TOKEN,
                TOKEN > 0,
        ;
    }
}

} // verus!
