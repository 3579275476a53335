use std::time::Instant;

use rust_short_url::ratelimiter::{check_admission, check_admission_after, RateLimiter, UserError};
use rust_short_url::settings::RateLimit;

fn setup_ratelimit_settings() -> RateLimit {
    RateLimit { capacity: 10, fill_rate: 2 }
}

#[test]
fn test_ratelimiter() {
    let ratelimit_options = setup_ratelimit_settings();

    let mut rate_limiter = RateLimiter::new(Some(ratelimit_options));

    assert!(rate_limiter.consume(5));
    assert_eq!(rate_limiter.tokens, 5);

    assert!(!rate_limiter.consume(10));
    assert_eq!(rate_limiter.tokens, 5);

    // Three whole seconds pass before the next request.
    let later = Instant::now();
    assert!(rate_limiter.consume_after(10, 3, later));
    assert_eq!(rate_limiter.tokens, 0);
}

#[test]
fn default_settings_when_unconfigured() {
    let limiter = RateLimiter::new(None);
    assert_eq!(limiter.capacity, 10);
    assert_eq!(limiter.fill_rate, 2);
    assert_eq!(limiter.tokens, 10);
}

#[test]
fn refill_adds_rate_times_seconds() {
    let mut limiter = RateLimiter::new(Some(RateLimit { capacity: 10, fill_rate: 2 }));
    assert!(limiter.take(7));
    assert_eq!(limiter.tokens, 3);
    let now = Instant::now();
    limiter.refill(2, now);
    assert_eq!(limiter.tokens, 7);
    assert_eq!(limiter.last_update, now);
}

#[test]
fn refill_is_capped_at_capacity() {
    let mut limiter = RateLimiter::new(Some(RateLimit { capacity: 10, fill_rate: 2 }));
    assert!(limiter.take(9));
    limiter.refill(100, Instant::now());
    assert_eq!(limiter.tokens, 10);
    limiter.refill(u64::MAX, Instant::now());
    assert_eq!(limiter.tokens, 10);
}

#[test]
fn refill_without_a_whole_second_changes_nothing() {
    let mut limiter = RateLimiter::new(Some(RateLimit { capacity: 10, fill_rate: 2 }));
    assert!(limiter.take(4));
    let before = limiter.last_update;
    limiter.refill(0, Instant::now());
    assert_eq!(limiter.tokens, 6);
    assert_eq!(limiter.last_update, before);
}

#[test]
fn consume_more_than_available_leaves_tokens() {
    let mut limiter = RateLimiter::new(Some(RateLimit { capacity: 3, fill_rate: 1 }));
    assert!(!limiter.consume_after(4, 0, Instant::now()));
    assert_eq!(limiter.tokens, 3);
    assert!(limiter.consume_after(3, 0, Instant::now()));
    assert_eq!(limiter.tokens, 0);
    assert!(!limiter.consume_after(1, 0, Instant::now()));
    assert_eq!(limiter.tokens, 0);
}

#[test]
fn admission_gate_scenario() {
    let mut limiter = RateLimiter::new(Some(RateLimit { capacity: 2, fill_rate: 2 }));
    assert_eq!(check_admission_after(&mut limiter, 0, Instant::now()), Ok(()));
    assert_eq!(check_admission_after(&mut limiter, 0, Instant::now()), Ok(()));
    assert_eq!(
        check_admission_after(&mut limiter, 0, Instant::now()),
        Err(UserError::TooManyRequests)
    );
    assert_eq!(check_admission_after(&mut limiter, 1, Instant::now()), Ok(()));
}

#[test]
fn admission_with_the_clock() {
    let mut limiter = RateLimiter::new(Some(RateLimit { capacity: 1, fill_rate: 0 }));
    assert_eq!(check_admission(&mut limiter), Ok(()));
    assert_eq!(check_admission(&mut limiter), Err(UserError::TooManyRequests));
}

#[test]
fn too_many_requests_reports_429() {
    let e = UserError::TooManyRequests;
    assert_eq!(e.status_code(), 429);
    assert_eq!(
        e.message(),
        "You have sent too many requests in a given amount of time. Please try again later."
    );
}
