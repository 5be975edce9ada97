use keyflow::errors::AppError;
use keyflow::net::IpAddress;
use keyflow::rate_limit::RateLimiter;

const WINDOW_MS: u64 = 60_000;

#[test]
fn admits_up_to_cap_then_rejects() {
    let mut limiter = RateLimiter::new(5, 3);
    let addr = IpAddress::V4(0x0A000001);
    for i in 0..5 {
        assert_eq!(limiter.check(addr, 1000 + i), Ok(()));
    }
    assert_eq!(limiter.check(addr, 1006), Err(AppError::TooManyRequests));
}

#[test]
fn burst_number_raises_cap() {
    let mut limiter = RateLimiter::new(2, 4);
    let addr = IpAddress::V4(1);
    for i in 0..4 {
        assert_eq!(limiter.check(addr, 10 + i), Ok(()));
    }
    assert_eq!(limiter.check(addr, 15), Err(AppError::TooManyRequests));
}

#[test]
fn zero_configuration_still_admits_one() {
    let mut limiter = RateLimiter::new(0, 0);
    let addr = IpAddress::V6(7);
    assert_eq!(limiter.check(addr, 5), Ok(()));
    assert_eq!(limiter.check(addr, 6), Err(AppError::TooManyRequests));
}

#[test]
fn old_timestamps_are_evicted() {
    let mut limiter = RateLimiter::new(1, 2);
    let addr = IpAddress::V4(9);
    assert_eq!(limiter.check(addr, 0), Ok(()));
    assert_eq!(limiter.check(addr, 1), Ok(()));
    assert_eq!(limiter.check(addr, 2), Err(AppError::TooManyRequests));
    // one window later the first two stamps are outside the trailing window
    assert_eq!(limiter.check(addr, 1 + WINDOW_MS + 1), Ok(()));
}

#[test]
fn addresses_are_throttled_independently() {
    let mut limiter = RateLimiter::new(1, 1);
    let a = IpAddress::V4(1);
    let b = IpAddress::V4(2);
    assert_eq!(limiter.check(a, 100), Ok(()));
    assert_eq!(limiter.check(b, 101), Ok(()));
    assert_eq!(limiter.check(a, 102), Err(AppError::TooManyRequests));
    assert_eq!(limiter.check(b, 103), Err(AppError::TooManyRequests));
}

#[test]
fn boundary_timestamp_still_counts() {
    let mut limiter = RateLimiter::new(1, 1);
    let addr = IpAddress::V4(3);
    assert_eq!(limiter.check(addr, 0), Ok(()));
    // exactly at the eviction threshold the old stamp is still in the window
    assert_eq!(limiter.check(addr, WINDOW_MS), Err(AppError::TooManyRequests));
    assert_eq!(limiter.check(addr, WINDOW_MS + 1), Ok(()));
}
