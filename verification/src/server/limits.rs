use vstd::prelude::*;
use crate::text::to_owned_string;

verus! {

/// The integer rate limits of the connection limiter.
#[derive(Debug, Clone, Copy, PartialEq, Eq, Structural)]
pub struct RateLimits {
    pub max_connections_per_second: u32,
    pub max_connections_per_minute: u32,
    pub burst_allowance: u32,
    /// How long a client misbehaving is banned, in milliseconds.
    pub ban_duration_ms: u64,
}

impl Default for RateLimits {
    /// 10 connections a second, 100 a minute, bursts of 20, one-minute bans.
    fn default() -> (r: Self)
        ensures
            r == (RateLimits {
                max_connections_per_second: 10,
                max_connections_per_minute: 100,
                burst_allowance: 20,
                ban_duration_ms: 60_000,
            }),
    {
        RateLimits { max_connections_per_second: 10, max_connections_per_minute: 100, burst_allowance: 20, ban_duration_ms: 60_000 }
    }
}

/// Connection counters and the two token buckets of the rate limiter.
#[derive(Debug, Clone, Copy, PartialEq, Eq, Structural)]
pub struct ConnectionStats {
    pub total_attempts: u64,
    pub successful_connections: u64,
    pub rejected_connections: u64,
    pub active_connections: u32,
    pub tokens_per_second: u32,
    pub tokens_per_minute: u32,
    /// When the buckets were last refilled, in milliseconds.
    pub last_token_refill_ms: u64,
    pub backpressure_active: bool,
}

/// Why a connection was not admitted.
#[derive(Debug, Clone, PartialEq, Eq)]
pub enum RateLimitError {
    ConnectionLimitExceeded { current: usize, max: usize },
    RateLimitExceeded { rate: u32, window: String },
    /// Banned until this time, in milliseconds.
    ClientBanned { until_ms: u64 },
    BackpressureActive,
    ConnectionRejected { reason: String },
}

/// What is known of one client's connection attempts.
#[derive(Debug, Clone)]
pub struct ClientTracker {
    pub client_id: String,
    pub connections_this_second: u32,
    pub connections_this_minute: u32,
    pub last_connection_ms: u64,
    pub banned_until_ms: Option<u64>,
    pub total_connections: u64,
}

/// The smaller of two numbers.
pub open spec fn min_int(a: int, b: int) -> int {
    if a <= b { a } else { b }
}

/// Whole seconds from `last` to `now` (none when `now` is earlier).
pub open spec fn whole_seconds(now: u64, last: u64) -> int {
    if now >= last { (now - last) / 1000 } else { 0 }
}

/// The token buckets after refilling at `now`: one token a second for the
/// per-second bucket, a minute's share for each whole minute for the
/// per-minute bucket, each capped at its limit; the refill time moves on
/// when a second or more has passed.
pub open spec fn spec_refill(s: ConnectionStats, l: RateLimits, now: u64) -> ConnectionStats {
    let secs = whole_seconds(now, s.last_token_refill_ms);
    let mins = secs / 60;
    let tps = if secs > 0 {
        min_int(s.tokens_per_second + min_int(secs, l.max_connections_per_second as int), l.max_connections_per_second as int)
    } else {
        s.tokens_per_second as int
    };
    let tpm = if mins > 0 {
        min_int(s.tokens_per_minute + min_int(mins * l.max_connections_per_minute / 60, l.max_connections_per_minute as int), l.max_connections_per_minute as int)
    } else {
        s.tokens_per_minute as int
    };
    ConnectionStats {
        tokens_per_second: tps as u32,
        tokens_per_minute: tpm as u32,
        last_token_refill_ms: if secs > 0 { now } else { s.last_token_refill_ms },
        ..s
    }
}

/// Whether neither token bucket holds more than its limit.
pub open spec fn within_limits(s: ConnectionStats, l: RateLimits) -> bool {
    &&& s.tokens_per_second <= l.max_connections_per_second
    &&& s.tokens_per_minute <= l.max_connections_per_minute
}

/// Refilling never fills a bucket past its limit.
pub proof fn lemma_refill_within_limits(s: ConnectionStats, l: RateLimits, now: u64)
    requires
        within_limits(s, l),
    ensures
        within_limits(spec_refill(s, l, now), l),
{
}

/// The per-second bucket earns one token for each whole second that has
/// passed, up to its limit: refilling never takes tokens away nor fills
/// past the limit, adds at most one token a second, and adds one for every
/// whole second unless the bucket is then full; a bucket left for as many
/// seconds as its limit is full, and within the same second nothing
/// changes.
pub proof fn lemma_refill_one_token_a_second(s: ConnectionStats, l: RateLimits, now: u64)
    requires
        s.tokens_per_second <= l.max_connections_per_second,
    ensures
        ({
            let secs = whole_seconds(now, s.last_token_refill_ms);
            let before = s.tokens_per_second as int;
            let after = spec_refill(s, l, now).tokens_per_second as int;
            let max = l.max_connections_per_second as int;
            &&& before <= after <= max
            &&& after - before <= secs
            &&& (after == max || after - before == secs)
            &&& secs >= max ==> after == max
            &&& secs == 0 ==> after == before && spec_refill(s, l, now) == s
        }),
{
}

/// Whether refilling at `now` stays within the machine's integers.
pub open spec fn refill_fits(s: ConnectionStats, l: RateLimits, now: u64) -> bool {
    let secs = whole_seconds(now, s.last_token_refill_ms);
    let mins = secs / 60;
    &&& s.tokens_per_second + min_int(secs, l.max_connections_per_second as int) <= u32::MAX
    &&& mins * l.max_connections_per_minute <= u64::MAX
    &&& s.tokens_per_minute + min_int(mins * l.max_connections_per_minute / 60, l.max_connections_per_minute as int) <= u32::MAX
}

/// Refills the token buckets at `now_ms`.
pub fn refill_tokens(stats: &mut ConnectionStats, limits: &RateLimits, now_ms: u64)
    requires
        refill_fits(*old(stats), *limits, now_ms),
    ensures
        *final(stats) == spec_refill(*old(stats), *limits, now_ms),
{
    let elapsed_ms: u64 = if now_ms >= stats.last_token_refill_ms { now_ms - stats.last_token_refill_ms } else { 0 };
    let seconds_elapsed = elapsed_ms / 1000;
    if seconds_elapsed > 0 {
        let cap = limits.max_connections_per_second as u64;
        let tokens_to_add: u32 = if seconds_elapsed <= cap { seconds_elapsed as u32 } else { cap as u32 };
        let sum = stats.tokens_per_second + tokens_to_add;
        stats.tokens_per_second = if sum <= limits.max_connections_per_second { sum } else { limits.max_connections_per_second };
    }
    let minutes_elapsed = seconds_elapsed / 60;
    if minutes_elapsed > 0 {
        let share = minutes_elapsed * (limits.max_connections_per_minute as u64) / 60;
        let cap = limits.max_connections_per_minute as u64;
        let tokens_to_add: u32 = if share <= cap { share as u32 } else { cap as u32 };
        let sum = stats.tokens_per_minute + tokens_to_add;
        stats.tokens_per_minute = if sum <= limits.max_connections_per_minute { sum } else { limits.max_connections_per_minute };
    }
    if elapsed_ms >= 1000 {
        stats.last_token_refill_ms = now_ms;
    }
}

/// Admits connections within the connection limit and the rate limits.
#[derive(Debug)]
pub struct ConnectionLimiter {
    pub max_connections: usize,
    pub limits: RateLimits,
    pub stats: ConnectionStats,
}

impl ConnectionLimiter {
    /// A limiter for `max_connections` connections with full buckets at
    /// `now_ms`.
    pub fn new(max_connections: usize, limits: RateLimits, now_ms: u64) -> (r: Self)
        ensures
            r.max_connections == max_connections,
            r.limits == limits,
            r.stats == (ConnectionStats {
                total_attempts: 0,
                successful_connections: 0,
                rejected_connections: 0,
                active_connections: 0,
                tokens_per_second: limits.max_connections_per_second,
                tokens_per_minute: limits.max_connections_per_minute,
                last_token_refill_ms: now_ms,
                backpressure_active: false,
            }),
    {
        ConnectionLimiter {
            max_connections,
            limits,
            stats: ConnectionStats {
                total_attempts: 0,
                successful_connections: 0,
                rejected_connections: 0,
                active_connections: 0,
                tokens_per_second: limits.max_connections_per_second,
                tokens_per_minute: limits.max_connections_per_minute,
                last_token_refill_ms: now_ms,
                backpressure_active: false,
            },
        }
    }

    /// Refills the buckets at `now_ms` and takes a token from each; refused
    /// when either is empty (the per-second one is looked at first).
    pub fn check_rate_limits(&mut self, now_ms: u64) -> (r: Result<(), RateLimitError>)
        requires
            refill_fits(old(self).stats, old(self).limits, now_ms),
        ensures
            final(self).max_connections == old(self).max_connections,
            final(self).limits == old(self).limits,
            within_limits(old(self).stats, old(self).limits) ==> within_limits(final(self).stats, final(self).limits),
            ({
                let s = spec_refill(old(self).stats, old(self).limits, now_ms);
                if s.tokens_per_second == 0 {
                    (r matches Err(RateLimitError::RateLimitExceeded { rate, window })
                        && rate == old(self).limits.max_connections_per_second && window@ == "second"@)
                        && final(self).stats == s
                } else if s.tokens_per_minute == 0 {
                    (r matches Err(RateLimitError::RateLimitExceeded { rate, window })
                        && rate == old(self).limits.max_connections_per_minute && window@ == "minute"@)
                        && final(self).stats == s
                } else {
                    r is Ok && final(self).stats == (ConnectionStats {
                        tokens_per_second: (s.tokens_per_second - 1) as u32,
                        tokens_per_minute: (s.tokens_per_minute - 1) as u32,
                        ..s
                    })
                }
            }),
    {
        proof {
            if within_limits(self.stats, self.limits) {
                lemma_refill_within_limits(self.stats, self.limits, now_ms);
            }
        }
        refill_tokens(&mut self.stats, &self.limits, now_ms);
        if self.stats.tokens_per_second == 0 {
            return Err(RateLimitError::RateLimitExceeded {
                rate: self.limits.max_connections_per_second,
                window: to_owned_string("second"),
            });
        }
        if self.stats.tokens_per_minute == 0 {
            return Err(RateLimitError::RateLimitExceeded {
                rate: self.limits.max_connections_per_minute,
                window: to_owned_string("minute"),
            });
        }
        self.stats.tokens_per_second = self.stats.tokens_per_second - 1;
        self.stats.tokens_per_minute = self.stats.tokens_per_minute - 1;
        Ok(())
    }

    /// Admits a connection at `now_ms`: counted as an attempt, then the
    /// rate limits, the backpressure verdict (`overloaded`) and the
    /// connection limit decide; an admitted connection is active until
    /// `release`.
    pub fn try_acquire(&mut self, now_ms: u64, overloaded: bool) -> (r: Result<(), RateLimitError>)
        requires
            old(self).stats.total_attempts < u64::MAX,
            old(self).stats.successful_connections < u64::MAX,
            old(self).stats.active_connections < u32::MAX,
            refill_fits(old(self).stats, old(self).limits, now_ms),
        ensures
            final(self).max_connections == old(self).max_connections,
            final(self).limits == old(self).limits,
            final(self).stats.total_attempts == old(self).stats.total_attempts + 1,
            final(self).stats.rejected_connections == old(self).stats.rejected_connections,
            within_limits(old(self).stats, old(self).limits) ==> within_limits(final(self).stats, final(self).limits),
            old(self).stats.active_connections <= old(self).max_connections ==> final(self).stats.active_connections <= final(self).max_connections,
            ({
                let s = spec_refill(old(self).stats, old(self).limits, now_ms);
                if s.tokens_per_second == 0 || s.tokens_per_minute == 0 {
                    r matches Err(RateLimitError::RateLimitExceeded { .. })
                        && final(self).stats.active_connections == old(self).stats.active_connections
                } else if overloaded {
                    r == Err::<(), RateLimitError>(RateLimitError::BackpressureActive)
                        && final(self).stats.active_connections == old(self).stats.active_connections
                } else if old(self).stats.active_connections >= old(self).max_connections {
                    r == Err::<(), RateLimitError>(RateLimitError::ConnectionLimitExceeded {
                        current: old(self).stats.active_connections as usize,
                        max: old(self).max_connections,
                    }) && final(self).stats.active_connections == old(self).stats.active_connections
                } else {
                    &&& r is Ok
                    &&& final(self).stats.active_connections == old(self).stats.active_connections + 1
                    &&& final(self).stats.successful_connections == old(self).stats.successful_connections + 1
                    &&& final(self).stats.tokens_per_second == s.tokens_per_second - 1
                    &&& final(self).stats.tokens_per_minute == s.tokens_per_minute - 1
                }
            }),
    {
        self.stats.total_attempts = self.stats.total_attempts + 1;
        match self.check_rate_limits(now_ms) {
            Ok(()) => {},
            Err(e) => return Err(e),
        }
        if overloaded {
            return Err(RateLimitError::BackpressureActive);
        }
        if self.stats.active_connections as usize >= self.max_connections {
            return Err(RateLimitError::ConnectionLimitExceeded {
                current: self.stats.active_connections as usize,
                max: self.max_connections,
            });
        }
        self.stats.successful_connections = self.stats.successful_connections + 1;
        self.stats.active_connections = self.stats.active_connections + 1;
        Ok(())
    }

    /// An admitted connection ended.
    pub fn release(&mut self)
        ensures
            final(self).stats == (ConnectionStats {
                active_connections: if old(self).stats.active_connections > 0 { (old(self).stats.active_connections - 1) as u32 } else { 0 },
                ..old(self).stats
            }),
            final(self).max_connections == old(self).max_connections,
            final(self).limits == old(self).limits,
    {
        self.stats.active_connections = self.stats.active_connections.saturating_sub(1);
    }

    /// Connections that may still be admitted.
    pub fn available_permits(&self) -> (r: usize)
        ensures
            r == (if self.stats.active_connections <= self.max_connections { self.max_connections - self.stats.active_connections } else { 0 }),
    {
        let active = self.stats.active_connections as usize;
        if active <= self.max_connections { self.max_connections - active } else { 0 }
    }

    /// Drops `count` connections when any are held, none otherwise, and
    /// says how many.
    pub fn emergency_close(&mut self, count: usize) -> (r: usize)
        ensures
            r == (if old(self).available_permits_spec() < old(self).max_connections { count } else { 0 }),
            final(self).stats == (ConnectionStats {
                active_connections: if old(self).stats.active_connections >= (r as u32) {
                    (old(self).stats.active_connections - (r as u32)) as u32
                } else {
                    0
                },
                ..old(self).stats
            }),
            final(self).max_connections == old(self).max_connections,
            final(self).limits == old(self).limits,
    {
        let available = self.available_permits();
        let closed = if available < self.max_connections { count } else { 0 };
        self.stats.active_connections = self.stats.active_connections.saturating_sub(#[verifier::truncate] (closed as u32));
        closed
    }

    /// Connections that may still be admitted.
    pub open spec fn available_permits_spec(&self) -> int {
        if self.stats.active_connections <= self.max_connections { self.max_connections - self.stats.active_connections } else { 0 }
    }
}

} // verus!
