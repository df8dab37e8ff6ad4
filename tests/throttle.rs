use ac_garden::throttle::{RateLimiter, PAGE_INTERVAL_MS};

#[test]
fn first_request_waits_full_interval_from_start() {
    let l = RateLimiter::started_at(PAGE_INTERVAL_MS, 1000);
    assert_eq!(l.wait_ms(1000), 1500);
    assert_eq!(l.wait_ms(1600), 900);
    assert_eq!(l.wait_ms(2500), 0);
    assert_eq!(l.wait_ms(9000), 0);
}

#[test]
fn fresh_limiter_does_not_wait() {
    let l = RateLimiter::new(PAGE_INTERVAL_MS);
    assert_eq!(l.wait_ms(0), 0);
}

#[test]
fn mark_restarts_the_clock() {
    let mut l = RateLimiter::new(PAGE_INTERVAL_MS);
    l.mark(5000);
    assert_eq!(l.last_ms, Some(5000));
    assert_eq!(l.wait_ms(5200), 1300);
}

#[test]
fn clock_behind_mark_waits_longer() {
    let l = RateLimiter::started_at(1500, 1000);
    assert_eq!(l.wait_ms(400), 2100);
    let far = RateLimiter::started_at(10, u64::MAX);
    assert_eq!(far.wait_ms(0), u64::MAX);
}

#[test]
fn consecutive_requests_span_the_floor() {
    // Simulated clock: each request takes 200 ms, and work between
    // requests takes 100 ms.
    let mut l = RateLimiter::started_at(PAGE_INTERVAL_MS, 0);
    let mut now: u64 = 0;
    let mut starts = Vec::new();
    for _ in 0..5 {
        now += 100;
        now += l.wait_ms(now);
        starts.push(now);
        now += 200;
        l.mark(now);
    }
    assert_eq!(starts, vec![1500, 3200, 4900, 6600, 8300]);
    assert!(starts[4] - starts[0] >= 1500 * 4);
}
