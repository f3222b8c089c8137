use orderly::decimal::Decimal;
use orderly::limiter::RateLimiter;

fn tokens(micros: i64) -> Decimal {
    Decimal { micros }
}

#[test]
fn zero_rate_grants_whole_tokens_only() {
    let mut l = RateLimiter::new(tokens(2_500_000), tokens(0));
    assert!(l.take());
    assert!(l.take());
    assert!(!l.take());
    assert!(!l.take_after(1_000_000));
}

#[test]
fn capacity_below_one_refuses_the_first_take() {
    let mut l = RateLimiter::new(tokens(200_000), tokens(0));
    assert!(!l.take());
    let mut l = RateLimiter::new(tokens(0), tokens(0));
    assert!(!l.take());
    let mut l = RateLimiter::new(tokens(-3_000_000), tokens(0));
    assert!(!l.take());
    assert!(!l.take_after(1_000_000));
}

#[test]
fn negative_capacity_never_grants() {
    // The bucket holds at most its capacity, which is below one token.
    let mut l = RateLimiter::new(tokens(-2_000_000), tokens(1_000_000));
    assert!(!l.take_after(3_000));
    assert!(!l.take_after(u128::MAX));
}

#[test]
fn negative_rate_never_grants() {
    let mut l = RateLimiter::new(tokens(5_000_000), tokens(-1));
    assert!(!l.take());
    assert!(!l.take_after(10_000));
    assert!(!l.take_after(u128::MAX));
}

#[test]
fn refill_is_exact_per_millisecond() {
    // One token per second: a token every thousand milliseconds.
    let mut l = RateLimiter::new(tokens(1_000_000), tokens(1_000_000));
    assert!(l.take_after(0));
    assert!(!l.take_after(999));
    assert!(l.take_after(1));
    assert!(!l.take_after(0));
}

#[test]
fn refill_stops_at_capacity() {
    let mut l = RateLimiter::new(tokens(2_000_000), tokens(100_000));
    assert!(l.take_after(0));
    assert!(l.take_after(0));
    assert!(!l.take_after(0));
    // A very long wait fills the bucket to its capacity of two, no more.
    assert!(l.take_after(u128::MAX));
    assert!(l.take_after(0));
    assert!(!l.take_after(0));
    // A tenth of a token per second: ten seconds give one token.
    assert!(!l.take_after(9_999));
    assert!(l.take_after(1));
}

#[test]
fn grants_stay_within_pool_and_refill() {
    // One token to start with and one a second: over 2500 milliseconds at
    // most 1 + 2.5 requests can be paid for.
    let mut l = RateLimiter::new(tokens(1_000_000), tokens(1_000_000));
    let waits = [0u128, 500, 500, 1000, 500, 0];
    let granted: Vec<bool> = waits.iter().map(|w| l.take_after(*w)).collect();
    assert_eq!(granted, vec![true, false, true, true, false, false]);
    assert_eq!(granted.iter().filter(|g| **g).count(), 3);
}
