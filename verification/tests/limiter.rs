use rusty_rivens::rate_limiter::{RateLimiter, MICRO};

const SECOND: u64 = MICRO;

#[test]
fn first_acquire_is_immediate_second_waits_a_period() {
    // rate 1.0, period 1 s, starting tokens 1.0
    let mut l = RateLimiter::new(MICRO, SECOND, 0);
    assert!(l.can_make_request(0));
    assert!(!l.can_make_request(0));
    // a refused caller is told to wait the full period
    assert_eq!(l.time_to_wait(0), SECOND);
    // after one period the bucket has refilled exactly one token
    assert!(l.can_make_request(SECOND));
    assert!(!l.can_make_request(SECOND));
}

#[test]
fn tokens_never_exceed_capacity() {
    let mut l = RateLimiter::new(MICRO, SECOND, 0);
    // after a long idle stretch, only one token is there: the capacity
    assert!(l.can_make_request(10 * SECOND));
    assert!(!l.can_make_request(10 * SECOND));
}

#[test]
fn added_delay_throttles_next_acquire() {
    // all else equal, the limiter with the delay refuses where the one
    // without it admits
    let mut plain = RateLimiter::new(MICRO, SECOND, 0);
    let mut delayed = RateLimiter::new(MICRO, SECOND, 0);
    assert!(plain.can_make_request(0));
    assert!(delayed.can_make_request(0));
    delayed.add_delay(SECOND);
    assert!(plain.can_make_request(SECOND));
    assert!(!delayed.can_make_request(SECOND));
    // the delay was consumed by that refill: afterwards both agree again
    assert!(delayed.can_make_request(3 * SECOND));
}

#[test]
fn delays_accumulate() {
    let mut l = RateLimiter::new(MICRO, SECOND, 0);
    assert!(l.can_make_request(0));
    l.add_delay(SECOND);
    l.add_delay(SECOND);
    // two periods of refill are eaten by the two queued delays
    assert!(!l.can_make_request(2 * SECOND));
    assert!(l.can_make_request(4 * SECOND));
}

#[test]
fn fractional_rate_slows_admission() {
    // rate 0.5: one token every two seconds, capacity half a token over 1.0
    // means a single admission needs two periods of refill
    let mut l = RateLimiter::new(MICRO / 2, SECOND, 0);
    assert!(!l.can_make_request(0));
    // refill formula: elapsed / (per * rate) doubles the refill speed of a
    // half-rate bucket, but the capacity clamp holds it at half a token
    assert!(!l.can_make_request(SECOND));
}

#[test]
fn wait_hint_counts_down_elapsed_time() {
    let mut l = RateLimiter::new(MICRO, SECOND, 0);
    assert!(l.can_make_request(0));
    assert_eq!(l.time_to_wait(SECOND / 4), SECOND - SECOND / 4);
    assert_eq!(l.time_to_wait(2 * SECOND), 0);
}

#[test]
fn acquire_step_admits_or_hints_the_wait() {
    let mut l = RateLimiter::new(MICRO, SECOND, 0);
    assert_eq!(l.acquire_step(0), None);
    assert_eq!(l.acquire_step(0), Some(SECOND));
    assert_eq!(l.acquire_step(SECOND), None);
}
