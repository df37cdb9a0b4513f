//! Throttles: the per-connection token bucket for incoming OneBot messages
//! (100 per second), each user's sliding window of commands (at most five
//! in three seconds), and the reconnect back-off.

use vstd::prelude::*;
use std::time::Instant;
use crate::clock::{duration_nanos, elapsed_since, instant_now};

verus! {

/// Tokens the message bucket holds at most, and refills per second.
pub const MAX_MESSAGES_PER_SECOND: u32 = 100;

/// Nanoseconds per refilled token (a hundredth of a second).
pub const NANOS_PER_TOKEN: u128 = 10_000_000;

/// Time from `earlier` to `now`, zero when `now` is not later (as
/// `Instant::duration_since` saturates).
pub open spec fn since(earlier: u128, now: u128) -> int {
    if now >= earlier {
        now - earlier
    } else {
        0
    }
}

/// The bucket's state as numbers: its tokens and the time of the last refill.
pub open spec fn bucket_step(tokens: u32, last_refill: u128, now: u128) -> (bool, u32, u128) {
    let refill = since(last_refill, now) / (NANOS_PER_TOKEN as int);
    let (t, last) = if refill > 0 {
        (if tokens + refill > 100 { 100int } else { tokens + refill }, now)
    } else {
        (tokens as int, last_refill)
    };
    if t == 0 {
        (false, t as u32, last)
    } else {
        (true, (t - 1) as u32, last)
    }
}

/// A token bucket of incoming messages.
pub struct RateLimiter {
    tokens: u32,
    last_refill: u128,
    origin: Instant,
}

impl RateLimiter {
    #[verifier::type_invariant]
    spec fn bucket_invariant(&self) -> bool {
        self.tokens <= MAX_MESSAGES_PER_SECOND
    }

    /// Tokens left.
    pub closed spec fn tokens(&self) -> u32 {
        self.tokens
    }

    /// When the bucket was last refilled, in nanoseconds since it was made.
    pub closed spec fn last_refill(&self) -> u128 {
        self.last_refill
    }

    /// A full bucket.
    pub fn new() -> (r: Self)
        ensures
            r.tokens() == MAX_MESSAGES_PER_SECOND,
            r.last_refill() == 0,
    {
        RateLimiter { tokens: MAX_MESSAGES_PER_SECOND, last_refill: 0, origin: instant_now() }
    }

    /// Takes a token at time `now` (nanoseconds since the bucket was made):
    /// first one token comes back per hundredth of a second since the last
    /// refill, up to a full bucket; then a message passes if a token is left.
    pub fn try_acquire_at(&mut self, now: u128) -> (r: bool)
        ensures
            (r, final(self).tokens(), final(self).last_refill()) == bucket_step(old(self).tokens(), old(self).last_refill(), now),
            final(self).tokens() <= MAX_MESSAGES_PER_SECOND,
    {
        proof {
            use_type_invariant(&*self);
        }
        let tokens = self.tokens;
        let last = self.last_refill;
        let elapsed: u128 = if now >= last {
            now - last
        } else {
            0
        };
        let refill: u128 = elapsed / NANOS_PER_TOKEN;
        let (t, l) = if refill > 0 {
            let room: u128 = (MAX_MESSAGES_PER_SECOND - tokens) as u128;
            let t: u32 = if refill >= room {
                MAX_MESSAGES_PER_SECOND
            } else {
                tokens + refill as u32
            };
            (t, now)
        } else {
            (tokens, last)
        };
        if t == 0 {
            self.tokens = t;
            self.last_refill = l;
            false
        } else {
            self.tokens = t - 1;
            self.last_refill = l;
            true
        }
    }

    /// Takes a token now (see [`RateLimiter::try_acquire_at`]): one step of
    /// the bucket at the clock's current reading. A bucket with a token left
    /// always lets the message through.
    pub fn try_acquire(&mut self) -> (r: bool)
        ensures
            final(self).tokens() <= MAX_MESSAGES_PER_SECOND,
            old(self).tokens() > 0 ==> r,
            exists|now: u128|
                (r, final(self).tokens(), final(self).last_refill()) == #[trigger] bucket_step(
                    old(self).tokens(),
                    old(self).last_refill(),
                    now,
                ),
    {
        let now = duration_nanos(&elapsed_since(&self.origin));
        let r = self.try_acquire_at(now);
        proof {
            assert((r, self.tokens(), self.last_refill()) == bucket_step(old(self).tokens(), old(self).last_refill(), now));
        }
        r
    }
}

/// `k` messages at one instant, starting from a bucket with `tokens`.
pub open spec fn burst(tokens: u32, last: u128, now: u128, k: nat) -> (Seq<bool>, u32, u128)
    decreases k,
{
    if k == 0 {
        (Seq::empty(), tokens, last)
    } else {
        let (prev, t, l) = burst(tokens, last, now, (k - 1) as nat);
        let (ok, t2, l2) = bucket_step(t, l, now);
        (prev.push(ok), t2, l2)
    }
}

proof fn lemma_burst_from_full(last: u128, k: nat)
    requires
        k <= 100,
    ensures
        burst(100, last, last, k).1 == 100 - k,
        burst(100, last, last, k).2 == last,
        burst(100, last, last, k).0.len() == k,
        forall|i: int| 0 <= i < k ==> #[trigger] burst(100, last, last, k).0[i],
    decreases k,
{
    if k > 0 {
        lemma_burst_from_full(last, (k - 1) as nat);
        let (prev, t, l) = burst(100, last, last, (k - 1) as nat);
        assert forall|i: int| 0 <= i < k implies #[trigger] burst(100, last, last, k).0[i] by {
            if i < k - 1 {
                assert(burst(100, last, last, k).0[i] == prev[i]);
            }
        }
    }
}

/// A full bucket lets a burst of a hundred messages through at one
/// instant and refuses the next one.
pub proof fn law_burst_then_block(last: u128)
    ensures
        forall|i: int| 0 <= i < 100 ==> #[trigger] burst(100, last, last, 100).0[i],
        !burst(100, last, last, 101).0[100],
{
    lemma_burst_from_full(last, 100);
}

/// Messages offered at each of `times` in turn, from a bucket with `tokens`
/// last refilled at `last`: how many pass, and the bucket afterwards.
pub open spec fn bucket_run(tokens: u32, last: u128, times: Seq<u128>) -> (nat, u32, u128)
    decreases times.len(),
{
    if times.len() == 0 {
        (0, tokens, last)
    } else {
        let (passed, t, l) = bucket_run(tokens, last, times.drop_last());
        let (ok, t2, l2) = bucket_step(t, l, times.last());
        (if ok { passed + 1 } else { passed }, t2, l2)
    }
}

proof fn lemma_bucket_run(tokens: u32, last: u128, times: Seq<u128>, end: u128)
    requires
        tokens <= 100,
        last <= end,
        forall|i: int| 0 <= i < times.len() ==> #[trigger] times[i] <= end,
    ensures
        bucket_run(tokens, last, times).1 <= 100,
        last <= bucket_run(tokens, last, times).2 <= end,
        (bucket_run(tokens, last, times).0 + bucket_run(tokens, last, times).1) * NANOS_PER_TOKEN
            <= tokens * NANOS_PER_TOKEN + (bucket_run(tokens, last, times).2 - last),
    decreases times.len(),
{
    if times.len() > 0 {
        let rest = times.drop_last();
        assert forall|i: int| 0 <= i < rest.len() implies #[trigger] rest[i] <= end by {
            assert(rest[i] == times[i]);
        }
        lemma_bucket_run(tokens, last, rest, end);
        let (p, t, l) = bucket_run(tokens, last, rest);
        let now = times.last();
        assert(now == times[times.len() - 1]);
        let gap = since(l, now);
        let refill = gap / (NANOS_PER_TOKEN as int);
        assert(refill * (NANOS_PER_TOKEN as int) <= gap) by (nonlinear_arith)
            requires
                gap >= 0,
                refill == gap / (NANOS_PER_TOKEN as int),
                NANOS_PER_TOKEN as int > 0,
        ;
    }
}

/// Over any span of time, the bucket lets at most a hundred messages through
/// plus one per hundredth of a second that has passed since its last refill:
/// a hundred and a hundred per second.
pub proof fn law_bucket_rate(tokens: u32, last: u128, times: Seq<u128>, end: u128)
    requires
        tokens <= 100,
        last <= end,
        forall|i: int| 0 <= i < times.len() ==> #[trigger] times[i] <= end,
    ensures
        bucket_run(tokens, last, times).0 * NANOS_PER_TOKEN <= 100 * NANOS_PER_TOKEN + (end - last),
{
    lemma_bucket_run(tokens, last, times, end);
}

/// The bucket never holds more than a hundred tokens.
pub proof fn law_bucket_bounded(tokens: u32, last: u128, now: u128)
    requires
        tokens <= 100,
    ensures
        bucket_step(tokens, last, now).1 <= 100,
{
}

} // verus!

verus! {

/// The window of a user's commands, in nanoseconds (three seconds).
pub const WINDOW_NANOS: u128 = 3_000_000_000;

/// A user idle this long is dropped from the table (thirty seconds).
pub const IDLE_NANOS: u128 = 30_000_000_000;

/// How often idle users are dropped (sixty seconds).
pub const CLEANUP_NANOS: u128 = 60_000_000_000;

/// One user's recent commands, as times on a monotonic clock in nanoseconds.
#[derive(Debug, Clone)]
pub struct UserRateLimit {
    pub last_command: u128,
    pub command_timestamps: Vec<u128>,
}

/// The times of `ts` less than the window before `now`, in order.
pub open spec fn in_window(ts: Seq<u128>, now: u128) -> Seq<u128>
    decreases ts.len(),
{
    if ts.len() == 0 {
        Seq::empty()
    } else {
        in_window(ts.drop_last(), now) + if since(ts.last(), now) < WINDOW_NANOS as int {
            seq![ts.last()]
        } else {
            Seq::empty()
        }
    }
}

impl UserRateLimit {
    /// A user with no command yet, seen at `now`.
    pub fn new(now: u128) -> (r: Self)
        ensures
            r.last_command == now,
            r.command_timestamps@.len() == 0,
    {
        UserRateLimit { last_command: now, command_timestamps: Vec::new() }
    }

    /// Records a command at `now` and says whether the user is throttled:
    /// times older than the window are forgotten, `now` is added, and more
    /// than five commands in the window throttle the user.
    pub fn record(&mut self, now: u128) -> (limited: bool)
        ensures
            final(self).command_timestamps@ == in_window(old(self).command_timestamps@, now).push(now),
            final(self).last_command == now,
            limited == (final(self).command_timestamps@.len() > 5),
    {
        let ghost old_ts = self.command_timestamps@;
        let mut kept: Vec<u128> = Vec::new();
        let mut i: usize = 0;
        while i < self.command_timestamps.len()
            invariant
                i <= old_ts.len(),
                self.command_timestamps@ == old_ts,
                kept@ == in_window(old_ts.take(i as int), now),
            decreases self.command_timestamps.len() - i,
        {
            let t = self.command_timestamps[i];
            proof {
                assert(old_ts.take(i as int + 1).drop_last() =~= old_ts.take(i as int));
                assert(old_ts.take(i as int + 1).last() == t);
            }
            let age: u128 = if now >= t {
                now - t
            } else {
                0
            };
            if age < WINDOW_NANOS {
                kept.push(t);
            }
            i = i + 1;
        }
        proof {
            assert(old_ts.take(old_ts.len() as int) =~= old_ts);
        }
        kept.push(now);
        self.command_timestamps = kept;
        self.last_command = now;
        self.command_timestamps.len() > 5
    }
}

/// A command is throttled exactly when at least five earlier commands of
/// the same user fall within the three seconds before it.
pub proof fn law_five_per_window(ts: Seq<u128>, now: u128)
    ensures
        (in_window(ts, now).push(now).len() > 5) == (in_window(ts, now).len() >= 5),
{
}

/// Times that never go back.
pub open spec fn nondecreasing(times: Seq<u128>) -> bool {
    forall|i: int, j: int| 0 <= i <= j < times.len() ==> times[i] <= times[j]
}

/// What [`UserRateLimit::record`] answers at each of `times`, starting from a
/// user with no command, and the times it holds after the last one.
pub open spec fn user_run(times: Seq<u128>) -> (Seq<bool>, Seq<u128>)
    decreases times.len(),
{
    if times.len() == 0 {
        (Seq::empty(), Seq::empty())
    } else {
        let (flags, held) = user_run(times.drop_last());
        let now = times.last();
        let next = in_window(held, now).push(now);
        (flags.push(next.len() > 5), next)
    }
}

proof fn lemma_window_of_window(s: Seq<u128>, t: u128, now: u128)
    requires
        t <= now,
    ensures
        in_window(in_window(s, t), now) == in_window(s, now),
    decreases s.len(),
{
    if s.len() > 0 {
        lemma_window_of_window(s.drop_last(), t, now);
        let x = s.last();
        let inner = in_window(s.drop_last(), t);
        if since(x, t) < WINDOW_NANOS as int {
            let w = inner + seq![x];
            assert(w.drop_last() =~= inner);
            assert(w.last() == x);
        } else {
            assert(in_window(s, t) =~= inner);
        }
    }
}

proof fn lemma_window_take(s: Seq<u128>, j: int, now: u128)
    requires
        0 <= j < s.len(),
    ensures
        in_window(s.take(j + 1), now) == in_window(s.take(j), now) + if since(s[j], now) < WINDOW_NANOS as int {
            seq![s[j]]
        } else {
            Seq::empty()
        },
{
    assert(s.take(j + 1).drop_last() =~= s.take(j));
    assert(s.take(j + 1).last() == s[j]);
}

proof fn lemma_window_take_grows(s: Seq<u128>, i: int, j: int, now: u128)
    requires
        0 <= i <= j <= s.len(),
    ensures
        in_window(s.take(i), now).len() <= in_window(s.take(j), now).len(),
    decreases j - i,
{
    if i < j {
        lemma_window_take_grows(s, i, j - 1, now);
        lemma_window_take(s, j - 1, now);
    }
}

proof fn lemma_held_window(times: Seq<u128>, now: u128)
    requires
        nondecreasing(times),
        times.len() == 0 || times.last() <= now,
    ensures
        in_window(user_run(times).1, now) == in_window(times, now),
    decreases times.len(),
{
    if times.len() > 0 {
        let rest = times.drop_last();
        let t = times.last();
        lemma_held_window(rest, t);
        lemma_held_window(rest, now);
        let held = user_run(rest).1;
        lemma_window_of_window(held, t, now);
        let next = in_window(held, t).push(t);
        assert(next.drop_last() =~= in_window(held, t));
        assert(next.last() == t);
    }
}

/// Across calls of [`UserRateLimit::record`] at times that never go back, from
/// a new user: a command passes exactly when fewer than five earlier commands
/// of the user, throttled ones included, fall within the three seconds before it.
pub proof fn law_user_limit_counts_earlier(times: Seq<u128>)
    requires
        nondecreasing(times),
    ensures
        user_run(times).0.len() == times.len(),
        forall|k: int|
            0 <= k < times.len() ==> #[trigger] user_run(times).0[k] == (in_window(times.take(k), times[k]).len() >= 5),
    decreases times.len(),
{
    if times.len() > 0 {
        let rest = times.drop_last();
        let n = times.len() - 1;
        law_user_limit_counts_earlier(rest);
        lemma_held_window(rest, times[n]);
        assert(rest =~= times.take(n));
        assert forall|k: int| 0 <= k < times.len() implies #[trigger] user_run(times).0[k] == (in_window(times.take(k), times[k]).len() >= 5) by {
            if k < n {
                assert(user_run(times).0[k] == user_run(rest).0[k]);
                assert(rest.take(k) =~= times.take(k));
            }
        }
    }
}

/// Across calls of [`UserRateLimit::record`] at times that never go back, from
/// a new user: of six commands within three seconds, at least one is throttled,
/// so at most five commands of a user pass in any three seconds.
pub proof fn law_at_most_five_pass(times: Seq<u128>, a: int, b: int, c: int, d: int, e: int, f: int)
    requires
        nondecreasing(times),
        0 <= a < b < c < d < e < f < times.len(),
        times[f] - times[a] < WINDOW_NANOS as int,
    ensures
        user_run(times).0[a] || user_run(times).0[b] || user_run(times).0[c]
            || user_run(times).0[d] || user_run(times).0[e] || user_run(times).0[f],
{
    law_user_limit_counts_earlier(times);
    let now = times[f];
    assert(user_run(times).0[f] == (in_window(times.take(f), now).len() >= 5));
    lemma_window_take(times, a, now);
    lemma_window_take_grows(times, a + 1, b, now);
    lemma_window_take(times, b, now);
    lemma_window_take_grows(times, b + 1, c, now);
    lemma_window_take(times, c, now);
    lemma_window_take_grows(times, c + 1, d, now);
    lemma_window_take(times, d, now);
    lemma_window_take_grows(times, d + 1, e, now);
    lemma_window_take(times, e, now);
    lemma_window_take_grows(times, e + 1, f, now);
}

/// Whether the idle users are due to be dropped at `now`.
pub fn cleanup_due(last_cleanup: u128, now: u128) -> (r: bool)
    ensures
        r == (since(last_cleanup, now) >= CLEANUP_NANOS as int),
{
    let elapsed: u128 = if now >= last_cleanup {
        now - last_cleanup
    } else {
        0
    };
    elapsed >= CLEANUP_NANOS
}

/// Whether a user is kept at a cleanup: a command within the last thirty seconds.
pub fn still_active(user: &UserRateLimit, now: u128) -> (r: bool)
    ensures
        r == (since(user.last_command, now) < IDLE_NANOS as int),
{
    let elapsed: u128 = if now >= user.last_command {
        now - user.last_command
    } else {
        0
    };
    elapsed < IDLE_NANOS
}

/// The reconnect delay after a failed attempt: doubled, at most a minute.
pub fn next_reconnect_delay(delay: u64) -> (r: u64)
    ensures
        r == (if 2 * delay < 60 { 2 * delay } else { 60 }),
{
    if delay < 30 {
        delay * 2
    } else {
        60
    }
}

/// The reconnect delay stays within a minute and, from one second, never drops below it.
pub proof fn law_reconnect_delay_bounded(delay: u64)
    requires
        1 <= delay <= 60,
    ensures
        1 <= (if 2 * delay < 60 { 2 * delay } else { 60 }) <= 60,
{
}

} // verus!
