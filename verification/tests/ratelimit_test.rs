use calligraphy::ratelimit::{OpClass, RateLimiter};

#[test]
fn test_fresh_window_permits_then_rejects() {
    let mut limiter = RateLimiter::new(60, 1);
    assert!(limiter.permit(1, OpClass::Write, 100));
    assert!(!limiter.permit(1, OpClass::Write, 130));
    assert!(!limiter.permit(1, OpClass::Write, 159));
}

#[test]
fn test_expired_window_resets() {
    let mut limiter = RateLimiter::new(60, 1);
    assert!(limiter.permit(1, OpClass::Write, 100));
    assert!(!limiter.permit(1, OpClass::Write, 130));
    // The window started at 100, so it has expired by 160.
    assert!(limiter.permit(1, OpClass::Write, 160));
    assert!(!limiter.permit(1, OpClass::Write, 161));
}

#[test]
fn test_distinct_addresses_do_not_interact() {
    let mut limiter = RateLimiter::new(60, 1);
    assert!(limiter.permit(1, OpClass::Write, 100));
    assert!(limiter.permit(2, OpClass::Write, 100));
    assert!(!limiter.permit(1, OpClass::Write, 101));
    assert!(!limiter.permit(2, OpClass::Write, 101));
}

#[test]
fn test_classes_do_not_interact() {
    let mut limiter = RateLimiter::new(60, 1);
    assert!(limiter.permit(1, OpClass::Write, 100));
    assert!(limiter.permit(1, OpClass::Read, 100));
    assert!(!limiter.permit(1, OpClass::Write, 101));
    assert!(!limiter.permit(1, OpClass::Read, 101));
}

#[test]
fn test_higher_limit_permits_that_many() {
    let mut limiter = RateLimiter::new(60, 3);
    assert!(limiter.permit(9, OpClass::Read, 10));
    assert!(limiter.permit(9, OpClass::Read, 11));
    assert!(limiter.permit(9, OpClass::Read, 12));
    assert!(!limiter.permit(9, OpClass::Read, 13));
    assert!(!limiter.permit(9, OpClass::Read, 14));
}
