use mnestic::auth::{authenticate_request, bearer_token, require_token, KeyRow};
use mnestic::error::ApiError;
use mnestic::RateLimiter;

const SECOND: u64 = 1_000_000_000;

#[test]
fn allows_up_to_capacity_then_rejects() {
    let mut limiter = RateLimiter::per_minute(3);
    let key = b"k";
    // Burst of 3 succeeds; the 4th (with no time to refill) is rejected.
    assert!(limiter.allow(key, 0));
    assert!(limiter.allow(key, 0));
    assert!(limiter.allow(key, 0));
    assert!(!limiter.allow(key, 0), "over capacity");
    // A different key has its own budget.
    assert!(limiter.allow(b"other", 0));
}

#[test]
fn disabled_always_allows() {
    let mut limiter = RateLimiter::disabled();
    for _ in 0..1000 {
        assert!(limiter.allow(b"k", 0));
    }
}

#[test]
fn tokens_come_back_at_the_rate() {
    let mut limiter = RateLimiter::per_minute(3);
    for _ in 0..3 {
        assert!(limiter.allow(b"k", 0));
    }
    // Three a minute is one in twenty seconds, to the nanosecond.
    assert!(!limiter.allow(b"k", 20 * SECOND - 1));
    assert!(limiter.allow(b"k", 20 * SECOND));
    assert!(!limiter.allow(b"k", 20 * SECOND));
    // A minute fills the bucket, and no more than a minute counts.
    for _ in 0..3 {
        assert!(limiter.allow(b"k", 200 * SECOND));
    }
    assert!(!limiter.allow(b"k", 200 * SECOND));
}

#[test]
fn no_more_pass_than_the_rate_allows() {
    let mut limiter = RateLimiter::per_minute(60);
    let mut passed: u64 = 0;
    for tenth in 0..1000u64 {
        if limiter.allow(b"k", tenth * SECOND / 10) {
            passed += 1;
        }
    }
    assert_eq!(passed, 60 + 99);
}

#[test]
fn a_clock_that_steps_back_gains_nothing() {
    let mut limiter = RateLimiter::per_minute(1);
    assert!(limiter.allow(b"k", 100 * SECOND));
    assert!(!limiter.allow(b"k", 50 * SECOND));
}

#[test]
fn rate_from_the_environment() {
    // A rate of one shows where the limit stands; zero shows none.
    let mut one = RateLimiter::from_env(Some(" 1 "));
    assert!(one.allow(b"k", 0));
    assert!(!one.allow(b"k", 0));
    let mut none = RateLimiter::from_env(Some("0"));
    for raw in [None, Some("many"), Some("-1")] {
        let mut default = RateLimiter::from_env(raw);
        for _ in 0..600 {
            assert!(default.allow(b"k", 0));
            assert!(none.allow(b"k", 0));
        }
        assert!(!default.allow(b"k", 0));
    }
}

fn row(digest: &[u8]) -> Option<KeyRow> {
    Some(KeyRow { tenant_id: 7, token_sha256: digest.to_vec() })
}

#[test]
fn third_request_of_two_is_refused() {
    let mut limiter = RateLimiter::per_minute(2);
    assert!(matches!(authenticate_request(&mut limiter, row(b"a"), 0), Ok(7)));
    // An unknown key is refused for what it is and uses nothing up.
    assert!(matches!(authenticate_request(&mut limiter, None, 0), Err(ApiError::Unauthorized)));
    assert!(matches!(authenticate_request(&mut limiter, row(b"a"), 0), Ok(7)));
    assert!(matches!(authenticate_request(&mut limiter, row(b"a"), 0), Err(ApiError::TooManyRequests)));
    assert!(matches!(authenticate_request(&mut limiter, row(b"b"), 0), Ok(7)));
}

#[test]
fn bearer_tokens() {
    let token = |h: &str| bearer_token(Some(h));
    assert_eq!(token("Bearer sm_1"), Some("sm_1".to_string()));
    assert_eq!(token("bEARER   sm_1  "), Some("sm_1".to_string()));
    assert_eq!(token("Bearer a b"), Some("a b".to_string()));
    assert_eq!(token("Basic sm_1"), None);
    assert_eq!(token("Bearer "), None);
    assert_eq!(token("Bearer"), None);
    assert_eq!(token(" Bearer x"), None);
    assert_eq!(bearer_token(None), None);
    assert!(matches!(require_token(None), Err(ApiError::Unauthorized)));
    assert!(matches!(require_token(Some("Bearer t")), Ok(t) if t == "t"));
}
