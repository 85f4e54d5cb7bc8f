use deetbeam::proxy::rate_limit::{RateLimiter, WINDOW_NANOS};

const SECOND: u128 = 1_000_000_000;

#[test]
fn the_window_is_a_minute() {
    assert_eq!(WINDOW_NANOS, 60 * SECOND);
}

#[test]
fn a_limit_of_zero_is_no_limit() {
    let mut limiter = RateLimiter::new();
    for _ in 0..1000 {
        assert!(!limiter.is_rate_limited(0, "1.2.3.4", 0));
    }
    // Nothing went on record.
    assert!(!limiter.is_rate_limited(1, "1.2.3.4", 0));
    assert!(limiter.is_rate_limited(1, "1.2.3.4", 0));
}

#[test]
fn the_limit_holds_within_a_minute() {
    let mut limiter = RateLimiter::new();
    assert!(!limiter.is_rate_limited(3, "c", 0));
    assert!(!limiter.is_rate_limited(3, "c", SECOND));
    assert!(!limiter.is_rate_limited(3, "c", 2 * SECOND));
    assert!(limiter.is_rate_limited(3, "c", 3 * SECOND));
    assert!(limiter.is_rate_limited(3, "c", 60 * SECOND));
    assert!(!limiter.is_rate_limited(3, "c", 60 * SECOND + 1));
    assert!(limiter.is_rate_limited(3, "c", 60 * SECOND + 2));
    assert!(!limiter.is_rate_limited(3, "c", 61 * SECOND + 1));
}

#[test]
fn a_refused_request_does_not_count() {
    let mut limiter = RateLimiter::new();
    assert!(!limiter.is_rate_limited(1, "c", 0));
    for second in 1..=60 {
        assert!(limiter.is_rate_limited(1, "c", second * SECOND));
    }
    assert!(!limiter.is_rate_limited(1, "c", 61 * SECOND));
}

#[test]
fn clients_are_counted_apart() {
    let mut limiter = RateLimiter::new();
    assert!(!limiter.is_rate_limited(1, "a", 0));
    assert!(!limiter.is_rate_limited(1, "b", 0));
    assert!(limiter.is_rate_limited(1, "a", 1));
    assert!(limiter.is_rate_limited(1, "b", 1));
}

#[test]
fn only_expired_requests_at_the_front_are_dropped() {
    let mut limiter = RateLimiter::new();
    // A clock that went back leaves a young request before an old one.
    assert!(!limiter.is_rate_limited(2, "c", 70 * SECOND));
    assert!(!limiter.is_rate_limited(2, "c", 5 * SECOND));
    assert!(limiter.is_rate_limited(2, "c", 100 * SECOND));
    assert!(!limiter.is_rate_limited(2, "c", 131 * SECOND));
}

#[test]
fn at_most_the_limit_passes_in_any_minute() {
    let max = 4;
    let mut limiter = RateLimiter::new();
    let mut passed = Vec::new();
    let mut now: u128 = 0;
    for step in 0..2000u128 {
        now += (step * step * 7919) % (9 * SECOND);
        let full = passed.len() >= max && now - passed[passed.len() - max] <= WINDOW_NANOS;
        let limited = limiter.is_rate_limited(max, "c", now);
        assert_eq!(limited, full);
        if !limited {
            passed.push(now);
        }
    }
    assert!(passed.len() > 2 * max);
    for i in max..passed.len() {
        assert!(passed[i] - passed[i - max] > WINDOW_NANOS);
    }
}

#[test]
fn leaving_out_refused_requests_changes_no_later_answer() {
    let max = 3;
    let mut all = RateLimiter::new();
    let mut fewer = RateLimiter::new();
    let mut now: u128 = 0;
    let mut refused = 0;
    for step in 0..1500u128 {
        now += (step * step * 104729) % (11 * SECOND);
        if all.is_rate_limited(max, "c", now) {
            refused += 1;
            // Some of the refused requests are never made to the other limiter.
            if refused % 3 == 0 {
                assert!(fewer.is_rate_limited(max, "c", now));
            }
        } else {
            assert!(!fewer.is_rate_limited(max, "c", now));
        }
    }
    assert!(refused > 100);
}
