//! Token bucket rate limiting for tool call categories.
//!
//! Each category has its own bucket with a burst size and a refill rate.
//! Tokens are refilled continuously by the time that has passed since the last
//! check. Levels are exact: they are counted in shares of a token that one
//! call per minute refills in one nanosecond.

use crate::config::RateLimitConfig;
use crate::mcp::error::{invalid_request, ErrorKind, ToolError};
use crate::number::{decimal, decimal_of};
use crate::text::{cat5, same};
use vstd::prelude::*;
use vstd::string::*;

verus! {

/// How many shares make a token: the nanoseconds of a minute.
pub const SHARES: u128 = 60_000_000_000;

/// Workspace creations and forks.
pub const CATEGORY_CREATE: &'static str = "create";

/// Command executions.
pub const CATEGORY_EXEC: &'static str = "exec";

/// All other calls.
pub const CATEGORY_DEFAULT: &'static str = "default";

/// Team messages.
pub const CATEGORY_TEAM_MESSAGE: &'static str = "team_message";

/// A bucket of tokens.
#[derive(Clone, Copy, Debug, PartialEq, Eq, Structural)]
pub struct TokenBucket {
    /// Shares of tokens that are left.
    pub level: u128,
    /// The most tokens that the bucket holds.
    pub burst: u32,
    /// Tokens refilled per minute.
    pub per_minute: u32,
    /// When the bucket was last refilled, in nanoseconds.
    pub last_refill: u64,
}

/// A full bucket.
pub open spec fn full(burst: u32, per_minute: u32, now: u64) -> TokenBucket {
    TokenBucket { level: (burst * SHARES) as u128, burst, per_minute, last_refill: now }
}

/// The time since the last refill; a clock that went back counts as no time.
pub open spec fn elapsed(b: TokenBucket, now: u64) -> int {
    if now >= b.last_refill {
        now - b.last_refill
    } else {
        0
    }
}

/// The level after the refill for the time that has passed, at most full.
pub open spec fn refilled(b: TokenBucket, now: u64) -> int {
    let level = b.level + elapsed(b, now) * b.per_minute;
    if level <= b.burst * SHARES {
        level
    } else {
        b.burst * SHARES
    }
}

/// The bucket has a token at this time.
pub open spec fn admits(b: TokenBucket, now: u64) -> bool {
    refilled(b, now) >= SHARES
}

/// The bucket after a call at this time, which takes a token if there is one.
pub open spec fn after_call(b: TokenBucket, now: u64) -> TokenBucket {
    TokenBucket {
        level: (if admits(b, now) {
            refilled(b, now) - SHARES
        } else {
            refilled(b, now)
        }) as u128,
        last_refill: now,
        ..b
    }
}

impl TokenBucket {
    /// The bucket holds at most its burst.
    pub open spec fn wf(self) -> bool {
        self.level <= self.burst * SHARES
    }

    /// A full bucket.
    pub fn new(burst: u32, per_minute: u32, now: u64) -> (b: TokenBucket)
        ensures
            b == full(burst, per_minute, now),
            b.wf(),
    {
        TokenBucket { level: burst as u128 * SHARES, burst, per_minute, last_refill: now }
    }

    /// Refill tokens for the time that has passed and try to take one. Returns
    /// whether there was one.
    pub fn try_acquire(&mut self, now: u64) -> (r: bool)
        requires
            old(self).wf(),
        ensures
            r == admits(*old(self), now),
            *final(self) == after_call(*old(self), now),
            final(self).wf(),
    {
        let passed: u64 = if now >= self.last_refill {
            now - self.last_refill
        } else {
            0
        };
        proof {
            assert(0 <= passed * self.per_minute <= 0xffff_ffff_ffff_ffff * 0xffff_ffff)
                by (nonlinear_arith)
                requires
                    0 <= passed <= 0xffff_ffff_ffff_ffff,
                    0 <= self.per_minute <= 0xffff_ffff,
            ;
        }
        let capacity: u128 = self.burst as u128 * SHARES;
        let grown: u128 = self.level + passed as u128 * self.per_minute as u128;
        let level: u128 = if grown <= capacity {
            grown
        } else {
            capacity
        };
        self.last_refill = now;
        if level >= SHARES {
            self.level = level - SHARES;
            true
        } else {
            self.level = level;
            false
        }
    }
}

/// The buckets of a limiter.
#[derive(Clone, Copy, Debug, PartialEq, Eq, Structural)]
pub enum Slot {
    Create,
    Exec,
    Default,
    TeamMessage,
}

/// The bucket that a category draws from; an unknown one draws from the
/// default bucket.
pub open spec fn slot_of(category: Seq<char>) -> Slot {
    if category == "create"@ {
        Slot::Create
    } else if category == "exec"@ {
        Slot::Exec
    } else if category == "team_message"@ {
        Slot::TeamMessage
    } else {
        Slot::Default
    }
}

/// The answer to a call that comes too soon.
pub open spec fn limit_text(category: Seq<char>, per_minute: u32) -> Seq<char> {
    "Rate limit exceeded for "@ + category + " operations. Maximum "@ + decimal(per_minute as nat)
        + " calls per minute. Please wait and retry."@
}

/// The category that draws from a bucket.
pub open spec fn slot_name(slot: Slot) -> Seq<char> {
    match slot {
        Slot::Create => "create"@,
        Slot::Exec => "exec"@,
        Slot::Default => "default"@,
        Slot::TeamMessage => "team_message"@,
    }
}

/// What a limiter answers to a call that comes too soon.
pub open spec fn too_soon(l: RateLimiter, slot: Slot, now: u64) -> Option<(ErrorKind, Seq<char>)> {
    let b = l.bucket(slot);
    if l.limits() && !admits(b, now) {
        Some((ErrorKind::InvalidRequest, limit_text(slot_name(slot), b.per_minute)))
    } else {
        None
    }
}

/// A call drew on one bucket of a limiter, if the limiter limits at all, and on
/// nothing else.
pub open spec fn draws(before: RateLimiter, after: RateLimiter, slot: Slot, now: u64) -> bool {
    if before.limits() {
        &&& after.limits()
        &&& after.bucket(slot) == after_call(before.bucket(slot), now)
        &&& forall|other: Slot|
            other != slot ==> #[trigger] after.bucket(other) == before.bucket(other)
    } else {
        after == before
    }
}

/// Rate limiter for tool calls.
#[derive(Debug)]
pub struct RateLimiter {
    enabled: bool,
    create_bucket: TokenBucket,
    exec_bucket: TokenBucket,
    default_bucket: TokenBucket,
    team_message_bucket: TokenBucket,
}

impl RateLimiter {
    /// Whether calls are limited at all.
    pub closed spec fn limits(&self) -> bool {
        self.enabled
    }

    /// The bucket of a slot.
    pub closed spec fn bucket(&self, slot: Slot) -> TokenBucket {
        match slot {
            Slot::Create => self.create_bucket,
            Slot::Exec => self.exec_bucket,
            Slot::Default => self.default_bucket,
            Slot::TeamMessage => self.team_message_bucket,
        }
    }

    /// Every bucket holds at most its burst.
    pub open spec fn wf(&self) -> bool {
        forall|slot: Slot| (#[trigger] self.bucket(slot)).wf()
    }

    /// A limiter with full buckets: bursts of 3 creations, 10 executions, 20
    /// other calls and 50 team messages.
    pub fn new(config: &RateLimitConfig, now: u64) -> (l: RateLimiter)
        ensures
            l.wf(),
            l.limits() == config.enabled,
            l.bucket(Slot::Create) == full(3, config.create_per_minute, now),
            l.bucket(Slot::Exec) == full(10, config.exec_per_minute, now),
            l.bucket(Slot::Default) == full(20, config.default_per_minute, now),
            l.bucket(Slot::TeamMessage) == full(50, config.team_message_per_minute, now),
    {
        RateLimiter {
            enabled: config.enabled,
            create_bucket: TokenBucket::new(3, config.create_per_minute, now),
            exec_bucket: TokenBucket::new(10, config.exec_per_minute, now),
            default_bucket: TokenBucket::new(20, config.default_per_minute, now),
            team_message_bucket: TokenBucket::new(50, config.team_message_per_minute, now),
        }
    }

    /// Try to take a token for a call of the given category at the given time.
    ///
    /// Returns `Ok(())` if the call is allowed, or the message to answer with.
    /// When rate limiting is disabled, every call is allowed.
    pub fn check(&mut self, category: &str, now: u64) -> (r: Result<(), String>)
        requires
            old(self).wf(),
        ensures
            final(self).wf(),
            final(self).limits() == old(self).limits(),
            !old(self).limits() ==> r is Ok && *final(self) == *old(self),
            old(self).limits() ==> {
                let slot = slot_of(category@);
                let b = old(self).bucket(slot);
                &&& final(self).bucket(slot) == after_call(b, now)
                &&& forall|other: Slot|
                    other != slot ==> #[trigger] final(self).bucket(other) == old(self).bucket(
                        other,
                    )
                &&& r is Ok <==> admits(b, now)
                &&& r is Err ==> r->Err_0@ == limit_text(category@, b.per_minute)
            },
    {
        if !self.enabled {
            return Ok(());
        }
        proof {
            assert(self.bucket(Slot::Create).wf());
            assert(self.bucket(Slot::Exec).wf());
            assert(self.bucket(Slot::Default).wf());
            assert(self.bucket(Slot::TeamMessage).wf());
        }
        let mut allowed: bool = false;
        let mut limit: u32 = 0;
        if same(category, CATEGORY_CREATE) {
            limit = self.create_bucket.per_minute;
            allowed = self.create_bucket.try_acquire(now);
        } else if same(category, CATEGORY_EXEC) {
            limit = self.exec_bucket.per_minute;
            allowed = self.exec_bucket.try_acquire(now);
        } else if same(category, CATEGORY_TEAM_MESSAGE) {
            limit = self.team_message_bucket.per_minute;
            allowed = self.team_message_bucket.try_acquire(now);
        } else {
            limit = self.default_bucket.per_minute;
            allowed = self.default_bucket.try_acquire(now);
        }
        if allowed {
            Ok(())
        } else {
            let n: String = decimal_of(limit as u64);
            Err(
                cat5(
                    "Rate limit exceeded for ",
                    category,
                    " operations. Maximum ",
                    n.as_str(),
                    " calls per minute. Please wait and retry.",
                ),
            )
        }
    }

    /// Check the rate limit before a tool call of the given category.
    pub fn require(&mut self, category: &str, now: u64) -> (r: Result<(), ToolError>)
        requires
            old(self).wf(),
        ensures
            final(self).wf(),
            final(self).limits() == old(self).limits(),
            !old(self).limits() ==> r is Ok && *final(self) == *old(self),
            old(self).limits() ==> {
                let slot = slot_of(category@);
                let b = old(self).bucket(slot);
                &&& final(self).bucket(slot) == after_call(b, now)
                &&& forall|other: Slot|
                    other != slot ==> #[trigger] final(self).bucket(other) == old(self).bucket(
                        other,
                    )
                &&& r is Ok <==> admits(b, now)
                &&& r is Err ==> r->Err_0@ == (
                    ErrorKind::InvalidRequest,
                    limit_text(category@, b.per_minute),
                )
            },
    {
        match self.check(category, now) {
            Ok(()) => Ok(()),
            Err(message) => Err(invalid_request(message)),
        }
    }

    /// Check the rate limit before a tool call that draws on a bucket. A call
    /// that comes too soon draws on nothing but that bucket either.
    pub fn draw(&mut self, slot: Slot, now: u64) -> (r: Result<(), ToolError>)
        requires
            old(self).wf(),
        ensures
            final(self).wf(),
            draws(*old(self), *final(self), slot, now),
            match too_soon(*old(self), slot, now) {
                Some(e) => r is Err && r->Err_0@ == e,
                None => r is Ok,
            },
    {
        proof {
            reveal_strlit("create");
            reveal_strlit("exec");
            reveal_strlit("default");
            reveal_strlit("team_message");
            assert("create"@.len() == 6);
            assert("exec"@.len() == 4);
            assert("default"@.len() == 7);
            assert("team_message"@.len() == 12);
        }
        let category: &str = match slot {
            Slot::Create => CATEGORY_CREATE,
            Slot::Exec => CATEGORY_EXEC,
            Slot::Default => CATEGORY_DEFAULT,
            Slot::TeamMessage => CATEGORY_TEAM_MESSAGE,
        };
        self.require(category, now)
    }
}

// ---------------------------------------------------------------------------
// Laws
// ---------------------------------------------------------------------------

/// The bucket after calls at these times, in order.
pub open spec fn after_calls(b: TokenBucket, times: Seq<u64>) -> TokenBucket
    decreases times.len(),
{
    if times.len() == 0 {
        b
    } else {
        after_call(after_calls(b, times.drop_last()), times.last())
    }
}

/// How many of the calls at these times are allowed.
pub open spec fn allowed(b: TokenBucket, times: Seq<u64>) -> nat
    decreases times.len(),
{
    if times.len() == 0 {
        0
    } else {
        allowed(b, times.drop_last()) + if admits(
            after_calls(b, times.drop_last()),
            times.last(),
        ) {
            1nat
        } else {
            0nat
        }
    }
}

/// The times do not go back, and begin after the last refill.
pub open spec fn ordered(b: TokenBucket, times: Seq<u64>) -> bool {
    &&& times.len() > 0 ==> b.last_refill <= times[0]
    &&& forall|i: int, j: int| 0 <= i <= j < times.len() ==> times[i] <= times[j]
}

/// A bucket allows no more than its burst and what was refilled meanwhile: in
/// any span of time, at most `burst` calls and another `per_minute` for each
/// minute of the span.
pub proof fn law_rate_is_bounded(b: TokenBucket, times: Seq<u64>)
    requires
        b.wf(),
        times.len() > 0,
        ordered(b, times),
    ensures
        allowed(b, times) * SHARES <= b.burst * SHARES + (times.last() - b.last_refill)
            * b.per_minute,
{
    lemma_budget(b, times);
}

/// What calls took, and what is left, was in the bucket or refilled.
proof fn lemma_budget(b: TokenBucket, times: Seq<u64>)
    requires
        b.wf(),
        ordered(b, times),
    ensures
        ({
            let after = after_calls(b, times);
            let span = if times.len() == 0 {
                0
            } else {
                times.last() - b.last_refill
            };
            &&& after.wf()
            &&& after.burst == b.burst
            &&& after.per_minute == b.per_minute
            &&& after.last_refill == b.last_refill + span
            &&& 0 <= span
            &&& after.level + allowed(b, times) * SHARES <= b.level + span * b.per_minute
        }),
    decreases times.len(),
{
    if times.len() > 0 {
        let init = times.drop_last();
        assert(ordered(b, init)) by {
            if init.len() > 0 {
                assert(init[0] == times[0]);
            }
            assert forall|i: int, j: int| 0 <= i <= j < init.len() implies init[i] <= init[j] by {
                assert(times[i] <= times[j]);
            }
        }
        lemma_budget(b, init);
        let mid = after_calls(b, init);
        let now = times.last();
        let span = now - b.last_refill;
        let before = if init.len() == 0 {
            0
        } else {
            init.last() - b.last_refill
        };
        if init.len() > 0 {
            assert(init.last() == times[times.len() - 2]);
            assert(times[times.len() - 2] <= times[times.len() - 1]);
        } else {
            assert(times[0] == now);
        }
        let passed = now - mid.last_refill;
        assert(elapsed(mid, now) == passed);
        assert(before * b.per_minute + passed * b.per_minute == span * b.per_minute)
            by (nonlinear_arith)
            requires
                before + passed == span,
        ;
        assert(0 <= passed * b.per_minute) by (nonlinear_arith)
            requires
                0 <= passed,
                0 <= b.per_minute,
        ;
        let n = allowed(b, init);
        assert((n + 1) * SHARES == n * SHARES + SHARES) by (nonlinear_arith);
    }
}

/// A full bucket allows its burst at once: of any number of calls at one time,
/// exactly the first `burst` are allowed.
pub proof fn law_burst_is_exact(burst: u32, per_minute: u32, now: u64, calls: nat)
    ensures
        ({
            let times = Seq::new(calls, |i: int| now);
            allowed(full(burst, per_minute, now), times) == if calls <= burst {
                calls
            } else {
                burst as nat
            }
        }),
{
    lemma_burst(burst, per_minute, now, calls);
}

proof fn lemma_burst(burst: u32, per_minute: u32, now: u64, calls: nat)
    ensures
        ({
            let times = Seq::new(calls, |i: int| now);
            let b = full(burst, per_minute, now);
            let taken = if calls <= burst {
                calls
            } else {
                burst as nat
            };
            &&& allowed(b, times) == taken
            &&& after_calls(b, times) == (TokenBucket {
                level: ((burst - taken) * SHARES) as u128,
                ..b
            })
        }),
    decreases calls,
{
    let times = Seq::new(calls, |i: int| now);
    let b = full(burst, per_minute, now);
    if calls > 0 {
        let less = (calls - 1) as nat;
        lemma_burst(burst, per_minute, now, less);
        assert(times.drop_last() =~= Seq::new(less, |i: int| now));
        let taken = if less <= burst {
            less
        } else {
            burst as nat
        };
        let mid = after_calls(b, times.drop_last());
        assert(elapsed(mid, now) * mid.per_minute == 0) by (nonlinear_arith)
            requires
                elapsed(mid, now) == 0,
        ;
        assert((burst - taken) * SHARES <= burst * SHARES);
        assert(refilled(mid, now) == mid.level);
    }
}

/// A call is allowed if the bucket had the time to refill one token since it
/// was last asked, and it can hold one.
pub proof fn law_waiting_helps(b: TokenBucket, now: u64)
    requires
        b.wf(),
        b.burst >= 1,
        now >= b.last_refill,
        (now - b.last_refill) * b.per_minute >= SHARES,
    ensures
        admits(b, now),
{
    assert(b.burst * SHARES >= SHARES) by (nonlinear_arith)
        requires
            b.burst >= 1,
    ;
}

} // verus!
