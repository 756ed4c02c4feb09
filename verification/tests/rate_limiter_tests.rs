use neonmachines::rate_limiter::RateLimiter;
use std::time::{Duration, Instant};

#[test]
fn test_rate_limiting() {
    let mut limiter = RateLimiter::new_with_limit(5);

    // Should allow first 5 requests
    for _i in 0..5 {
        assert!(limiter.check_rate_limit("test", 5, Duration::from_secs(1)));
    }

    // Should deny 6th request
    assert!(!limiter.check_rate_limit("test", 5, Duration::from_secs(1)));

    // Should allow after window resets
    let waited = Instant::now();
    while waited.elapsed() < Duration::from_millis(1100) {}
    assert!(limiter.check_rate_limit("test", 5, Duration::from_secs(1)));
}

#[test]
fn each_key_gets_its_own_window() {
    let mut l = RateLimiter::new();
    assert!(l.check_rate_limit_at("a", 2, 1000, 0));
    assert!(l.check_rate_limit_at("a", 2, 1000, 10));
    assert!(!l.check_rate_limit_at("a", 2, 1000, 20));
    assert!(l.check_rate_limit_at("b", 1, 1000, 20));
    assert!(!l.check_rate_limit_at("b", 1, 1000, 30));
    assert_eq!(l.get_remaining("a"), 0);
    assert_eq!(l.get_remaining("b"), 0);
    assert_eq!(l.get_remaining("c"), 0);
}

#[test]
fn window_ends_after_its_length() {
    let mut l = RateLimiter::new();
    assert!(l.check_rate_limit_at("k", 1, 100, 0));
    assert!(!l.check_rate_limit_at("k", 1, 100, 100));
    assert!(l.check_rate_limit_at("k", 1, 100, 101));
    assert!(!l.check_rate_limit_at("k", 1, 100, 150));
}

#[test]
fn remaining_counts_down() {
    let mut l = RateLimiter::new();
    l.check_rate_limit_at("k", 3, 100, 0);
    assert_eq!(l.get_remaining("k"), 2);
    l.check_rate_limit_at("k", 3, 100, 1);
    assert_eq!(l.get_remaining("k"), 1);
}

#[test]
fn the_first_limit_of_a_key_stays() {
    let mut l = RateLimiter::new();
    assert!(l.check_rate_limit_at("k", 1, 100, 0));
    assert!(!l.check_rate_limit_at("k", 10, 100, 5));
}
