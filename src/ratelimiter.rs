//! The token bucket that bounds the rate of writes, and the admission gate
//! around it.
use crate::constants::{DEFAULT_CAPACITY, DEFAULT_FILL_RATE};
use crate::settings::{default_rate_limit, RateLimit};
use std::sync::{Arc, Mutex};
use std::time::{Duration, Instant};
use vstd::prelude::*;

verus! {

/// A point in time of the monotonic clock.
#[verifier::external_type_specification]
#[verifier::external_body]
pub struct ExInstant(Instant);

/// A lock around a value shared between requests.
#[verifier::external_type_specification]
#[verifier::external_body]
#[verifier::reject_recursive_types(T)]
pub struct ExMutex<T: ?Sized>(Mutex<T>);

/// Relies on Instant::now: the current reading of the monotonic clock.
pub assume_specification[ Instant::now ]() -> Instant;

/// Relies on Instant::duration_since: the time from `earlier` to `self`, zero
/// where `earlier` is later.
pub assume_specification[ Instant::duration_since ](this: &Instant, earlier: Instant) -> Duration;

/// Relies on Duration::as_secs: the whole seconds of a duration.
pub assume_specification[ Duration::as_secs ](this: &Duration) -> u64;

/// Tokens after `seconds` whole seconds of refill at `rate` per second,
/// starting from `tokens`, never above `capacity`.
pub open spec fn refilled(tokens: nat, capacity: nat, rate: nat, seconds: nat) -> nat {
    if tokens + rate * seconds <= capacity {
        tokens + rate * seconds
    } else {
        capacity
    }
}

/// Taking `n` from a bucket of `t` tokens succeeds (`ok`) exactly when
/// `n <= t`, and leaves `after` tokens.
pub open spec fn take_outcome(t: nat, n: nat, ok: bool, after: nat) -> bool {
    &&& ok == (n <= t)
    &&& after == if ok {
        (t - n) as nat
    } else {
        t
    }
}

/// A token bucket: up to `capacity` tokens, `fill_rate` more each whole second.
pub struct RateLimiter {
    pub capacity: usize,
    pub tokens: usize,
    pub fill_rate: usize,
    pub last_update: Instant,
}

impl RateLimiter {
    /// The bucket never holds more tokens than its capacity.
    pub open spec fn inv(&self) -> bool {
        self.tokens <= self.capacity
    }

    /// A full bucket with the given settings, or with the default ones.
    pub fn new(rate_limit_options: Option<RateLimit>) -> (r: RateLimiter)
        ensures
            r.inv(),
            rate_limit_options matches Some(o) ==> r.capacity == o.capacity && r.fill_rate
                == o.fill_rate,
            rate_limit_options is None ==> r.capacity == DEFAULT_CAPACITY && r.fill_rate
                == DEFAULT_FILL_RATE,
            r.tokens == r.capacity,
    {
        let options = match rate_limit_options {
            Some(rate_limit) => rate_limit,
            None => default_rate_limit(),
        };
        RateLimiter {
            capacity: options.capacity,
            tokens: options.capacity,
            fill_rate: options.fill_rate,
            last_update: Instant::now(),
        }
    }

    /// Adds the tokens of `elapsed_secs` whole seconds, up to the capacity;
    /// where a second or more has passed, `now` becomes the time of the last refill.
    pub fn refill(&mut self, elapsed_secs: u64, now: Instant)
        requires
            old(self).inv(),
        ensures
            final(self).inv(),
            final(self).capacity == old(self).capacity,
            final(self).fill_rate == old(self).fill_rate,
            final(self).tokens == refilled(
                old(self).tokens as nat,
                old(self).capacity as nat,
                old(self).fill_rate as nat,
                elapsed_secs as nat,
            ),
            elapsed_secs > 0 ==> final(self).last_update == now,
            elapsed_secs == 0 ==> final(self).last_update == old(self).last_update,
    {
        if elapsed_secs > 0 {
            let room = self.capacity - self.tokens;
            assert((self.fill_rate as u128) * (elapsed_secs as u128) <= u128::MAX) by (nonlinear_arith)
                requires
                    self.fill_rate <= u64::MAX,
                    elapsed_secs <= u64::MAX,
            ;
            let new_tokens: u128 = (self.fill_rate as u128) * (elapsed_secs as u128);
            if new_tokens <= room as u128 {
                self.tokens = self.tokens + new_tokens as usize;
            } else {
                self.tokens = self.capacity;
            }
            self.last_update = now;
        }
    }

    /// Takes `tokens` tokens if the bucket holds that many.
    pub fn take(&mut self, tokens: usize) -> (r: bool)
        requires
            old(self).inv(),
        ensures
            final(self).inv(),
            r == (tokens <= old(self).tokens),
            final(self).tokens == if r {
                old(self).tokens - tokens
            } else {
                old(self).tokens as int
            },
            final(self).capacity == old(self).capacity,
            final(self).fill_rate == old(self).fill_rate,
            final(self).last_update == old(self).last_update,
    {
        if self.tokens >= tokens {
            self.tokens = self.tokens - tokens;
            true
        } else {
            false
        }
    }

    /// Refills for `elapsed_secs` whole seconds, then takes `tokens` tokens if
    /// the bucket holds that many.
    pub fn consume_after(&mut self, tokens: usize, elapsed_secs: u64, now: Instant) -> (r: bool)
        requires
            old(self).inv(),
        ensures
            final(self).inv(),
            ({
                let t = refilled(
                    old(self).tokens as nat,
                    old(self).capacity as nat,
                    old(self).fill_rate as nat,
                    elapsed_secs as nat,
                );
                &&& r == (tokens <= t)
                &&& final(self).tokens == if r {
                    t - tokens
                } else {
                    t as int
                }
            }),
            final(self).capacity == old(self).capacity,
            final(self).fill_rate == old(self).fill_rate,
    {
        self.refill(elapsed_secs, now);
        self.take(tokens)
    }

    /// Refills for the whole seconds since the last refill.
    pub fn update_tokens(&mut self)
        requires
            old(self).inv(),
        ensures
            final(self).inv(),
            final(self).capacity == old(self).capacity,
            final(self).fill_rate == old(self).fill_rate,
            exists|s: nat|
                final(self).tokens == refilled(
                    old(self).tokens as nat,
                    old(self).capacity as nat,
                    old(self).fill_rate as nat,
                    s,
                ),
    {
        let now = Instant::now();
        let elapsed = now.duration_since(self.last_update);
        let seconds = elapsed.as_secs();
        self.refill(seconds, now);
    }

    /// Refills for the whole seconds since the last refill, then takes
    /// `tokens` tokens if the bucket holds that many.
    pub fn consume(&mut self, tokens: usize) -> (r: bool)
        requires
            old(self).inv(),
        ensures
            final(self).inv(),
            final(self).capacity == old(self).capacity,
            final(self).fill_rate == old(self).fill_rate,
            exists|s: nat| #[trigger]
                take_outcome(
                    refilled(
                        old(self).tokens as nat,
                        old(self).capacity as nat,
                        old(self).fill_rate as nat,
                        s,
                    ),
                    tokens as nat,
                    r,
                    final(self).tokens as nat,
                ),
    {
        let now = Instant::now();
        let elapsed = now.duration_since(self.last_update);
        let seconds = elapsed.as_secs();
        let r = self.consume_after(tokens, seconds, now);
        assert(take_outcome(
            refilled(
                old(self).tokens as nat,
                old(self).capacity as nat,
                old(self).fill_rate as nat,
                seconds as nat,
            ),
            tokens as nat,
            r,
            self.tokens as nat,
        ));
        r
    }
}

/// Refill for a number of whole seconds matches the closed form: the tokens
/// before plus the rate times the seconds, capped at the capacity.
pub proof fn lemma_refill_closed_form(tokens: nat, capacity: nat, rate: nat, seconds: nat)
    requires
        tokens <= capacity,
    ensures
        refilled(tokens, capacity, rate, seconds) == vstd::math::min(
            capacity as int,
            (tokens + rate * seconds) as int,
        ),
        refilled(tokens, capacity, rate, seconds) <= capacity,
        refilled(tokens, capacity, rate, seconds) >= tokens,
{
}

/// A write that the admission gate turned away.
#[derive(Debug, Clone, Copy, PartialEq, Eq, Structural)]
pub enum UserError {
    TooManyRequests,
}

impl UserError {
    /// The HTTP status that reports the error.
    pub fn status_code(&self) -> (r: u16)
        ensures
            r == 429,
    {
        match self {
            UserError::TooManyRequests => 429,
        }
    }

    /// The text that explains the error.
    pub fn message(&self) -> (r: &'static str)
        ensures
            r@ == "You have sent too many requests in a given amount of time. Please try again later."@,
    {
        match self {
            UserError::TooManyRequests => "You have sent too many requests in a given amount of time. Please try again later.",
        }
    }
}

/// The admission decision for one write `elapsed_secs` whole seconds after
/// the last refill: it passes when a token is left after the refill.
pub fn check_admission_after(limiter: &mut RateLimiter, elapsed_secs: u64, now: Instant) -> (r: Result<(), UserError>)
    requires
        old(limiter).inv(),
    ensures
        final(limiter).inv(),
        ({
            let t = refilled(
                old(limiter).tokens as nat,
                old(limiter).capacity as nat,
                old(limiter).fill_rate as nat,
                elapsed_secs as nat,
            );
            &&& r is Ok <==> t >= 1
            &&& r matches Err(e) ==> e == UserError::TooManyRequests
            &&& final(limiter).tokens == if t >= 1 {
                t - 1
            } else {
                t as int
            }
        }),
        final(limiter).capacity == old(limiter).capacity,
        final(limiter).fill_rate == old(limiter).fill_rate,
{
    if limiter.consume_after(1, elapsed_secs, now) {
        Ok(())
    } else {
        Err(UserError::TooManyRequests)
    }
}

/// The admission decision for one write now.
pub fn check_admission(limiter: &mut RateLimiter) -> (r: Result<(), UserError>)
    requires
        old(limiter).inv(),
    ensures
        final(limiter).inv(),
        r matches Err(e) ==> e == UserError::TooManyRequests,
        exists|s: nat| #[trigger]
            take_outcome(
                refilled(
                    old(limiter).tokens as nat,
                    old(limiter).capacity as nat,
                    old(limiter).fill_rate as nat,
                    s,
                ),
                1,
                r is Ok,
                final(limiter).tokens as nat,
            ),
        final(limiter).capacity == old(limiter).capacity,
        final(limiter).fill_rate == old(limiter).fill_rate,
{
    let ok = limiter.consume(1);
    let r = if ok {
        Ok(())
    } else {
        Err(UserError::TooManyRequests)
    };
    proof {
        let s = choose|s: nat|
            #[trigger] take_outcome(
                refilled(
                    old(limiter).tokens as nat,
                    old(limiter).capacity as nat,
                    old(limiter).fill_rate as nat,
                    s,
                ),
                1,
                ok,
                limiter.tokens as nat,
            );
        assert(take_outcome(
            refilled(
                old(limiter).tokens as nat,
                old(limiter).capacity as nat,
                old(limiter).fill_rate as nat,
                s,
            ),
            1,
            r is Ok,
            limiter.tokens as nat,
        ));
    }
    r
}

/// The admission gate in front of a service: one bucket, shared by all requests.
pub struct RateLimiterMiddlewareService<S> {
    pub service: S,
    pub rate_limiter: Arc<Mutex<RateLimiter>>,
}

impl<S> RateLimiterMiddlewareService<S> {
    pub fn new(service: S, rate_limiter: Arc<Mutex<RateLimiter>>) -> (r: Self)
        ensures
            r.service == service,
            r.rate_limiter == rate_limiter,
    {
        RateLimiterMiddlewareService { service, rate_limiter }
    }
}

} // verus!
