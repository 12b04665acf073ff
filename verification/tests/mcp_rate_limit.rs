//! Rate limits.

use agentiso::config::RateLimitConfig;
use agentiso::mcp::rate_limit::{
    RateLimiter, CATEGORY_CREATE, CATEGORY_DEFAULT, CATEGORY_EXEC, CATEGORY_TEAM_MESSAGE,
};

/// All calls of a test come at this time, in nanoseconds, unless it says otherwise.
const NOW: u64 = 0;

#[test]
fn allows_requests_within_burst_limit() {
    let config = RateLimitConfig {
        enabled: true,
        create_per_minute: 5,
        exec_per_minute: 60,
        default_per_minute: 120,
        ..Default::default()
    };
    let mut limiter = RateLimiter::new(&config, 0);

    // Create category has burst of 3 -- first 3 should succeed.
    assert!(limiter.check(CATEGORY_CREATE, NOW).is_ok());
    assert!(limiter.check(CATEGORY_CREATE, NOW).is_ok());
    assert!(limiter.check(CATEGORY_CREATE, NOW).is_ok());
}

#[test]
fn blocks_requests_exceeding_burst() {
    let config = RateLimitConfig {
        enabled: true,
        create_per_minute: 5,
        exec_per_minute: 60,
        default_per_minute: 120,
        ..Default::default()
    };
    let mut limiter = RateLimiter::new(&config, 0);

    // Exhaust burst of 3 for create category.
    for _ in 0..3 {
        assert!(limiter.check(CATEGORY_CREATE, NOW).is_ok());
    }

    // 4th request should be blocked.
    let result = limiter.check(CATEGORY_CREATE, NOW);
    assert!(result.is_err());
    let err = result.unwrap_err();
    assert!(err.contains("Rate limit exceeded for create operations"));
    assert!(err.contains("Maximum 5 calls per minute"));
}

#[test]
fn refills_tokens_over_time() {
    let config = RateLimitConfig {
        enabled: true,
        // 60/min = 1/sec, so after 1 second we get 1 token back
        create_per_minute: 60,
        exec_per_minute: 60,
        default_per_minute: 120,
        ..Default::default()
    };
    let mut limiter = RateLimiter::new(&config, 0);

    // Create category has burst 3 at 60/min = 1/sec refill.
    // Exhaust all 3 tokens.
    for _ in 0..3 {
        assert!(limiter.check(CATEGORY_CREATE, NOW).is_ok());
    }
    assert!(limiter.check(CATEGORY_CREATE, NOW).is_err());

    // Just over 1 second later

    // Should have ~1 token now.
    assert!(limiter.check(CATEGORY_CREATE, 1_100_000_000).is_ok());
}

#[test]
fn disabled_limiter_allows_everything() {
    let config = RateLimitConfig {
        enabled: false,
        create_per_minute: 1,
        exec_per_minute: 1,
        default_per_minute: 1,
        ..Default::default()
    };
    let mut limiter = RateLimiter::new(&config, 0);

    // Even with limits of 1/min, disabled limiter should allow unlimited calls.
    for _ in 0..100 {
        assert!(limiter.check(CATEGORY_CREATE, NOW).is_ok());
        assert!(limiter.check(CATEGORY_EXEC, NOW).is_ok());
        assert!(limiter.check(CATEGORY_DEFAULT, NOW).is_ok());
    }
}

#[test]
fn exec_category_allows_higher_burst() {
    let config = RateLimitConfig::default();
    let mut limiter = RateLimiter::new(&config, 0);

    // Exec has burst of 10.
    for _ in 0..10 {
        assert!(limiter.check(CATEGORY_EXEC, NOW).is_ok());
    }
    assert!(limiter.check(CATEGORY_EXEC, NOW).is_err());
}

#[test]
fn default_category_allows_highest_burst() {
    let config = RateLimitConfig::default();
    let mut limiter = RateLimiter::new(&config, 0);

    // Default has burst of 20.
    for _ in 0..20 {
        assert!(limiter.check(CATEGORY_DEFAULT, NOW).is_ok());
    }
    assert!(limiter.check(CATEGORY_DEFAULT, NOW).is_err());
}

#[test]
fn unknown_category_falls_back_to_default() {
    let config = RateLimitConfig::default();
    let mut limiter = RateLimiter::new(&config, 0);

    // Unknown category uses the default bucket.
    for _ in 0..20 {
        assert!(limiter.check("unknown_category", NOW).is_ok());
    }
    assert!(limiter.check("unknown_category", NOW).is_err());
}

#[test]
fn categories_are_independent() {
    let config = RateLimitConfig::default();
    let mut limiter = RateLimiter::new(&config, 0);

    // Exhaust create bucket (burst 3).
    for _ in 0..3 {
        assert!(limiter.check(CATEGORY_CREATE, NOW).is_ok());
    }
    assert!(limiter.check(CATEGORY_CREATE, NOW).is_err());

    // Exec and default should still work.
    assert!(limiter.check(CATEGORY_EXEC, NOW).is_ok());
    assert!(limiter.check(CATEGORY_DEFAULT, NOW).is_ok());
}

#[test]
fn error_message_format() {
    let config = RateLimitConfig {
        enabled: true,
        create_per_minute: 10,
        exec_per_minute: 60,
        default_per_minute: 120,
        ..Default::default()
    };
    let mut limiter = RateLimiter::new(&config, 0);

    // Exhaust create burst (3).
    for _ in 0..3 {
        let _ = limiter.check(CATEGORY_CREATE, NOW);
    }

    let err = limiter.check(CATEGORY_CREATE, NOW).unwrap_err();
    assert_eq!(
        err,
        "Rate limit exceeded for create operations. Maximum 10 calls per minute. Please wait and retry."
    );
}

#[test]
fn config_defaults() {
    let config = RateLimitConfig::default();
    assert!(config.enabled);
    assert_eq!(config.create_per_minute, 5);
    assert_eq!(config.exec_per_minute, 60);
    assert_eq!(config.default_per_minute, 120);
    assert_eq!(config.team_message_per_minute, 300);
}

#[test]
fn team_message_category_burst_limit() {
    let config = RateLimitConfig {
        enabled: true,
        team_message_per_minute: 300,
        ..Default::default()
    };
    let mut limiter = RateLimiter::new(&config, 0);

    // Team message has burst of 50
    for _ in 0..50 {
        assert!(limiter.check(CATEGORY_TEAM_MESSAGE, NOW).is_ok());
    }
    // 51st should be blocked
    assert!(limiter.check(CATEGORY_TEAM_MESSAGE, NOW).is_err());
}

#[test]
fn team_message_category_error_message() {
    let config = RateLimitConfig {
        enabled: true,
        team_message_per_minute: 300,
        ..Default::default()
    };
    let mut limiter = RateLimiter::new(&config, 0);

    // Exhaust burst of 50
    for _ in 0..50 {
        let _ = limiter.check(CATEGORY_TEAM_MESSAGE, NOW);
    }

    let err = limiter.check(CATEGORY_TEAM_MESSAGE, NOW).unwrap_err();
    assert!(err.contains("team_message"));
    assert!(err.contains("300"));
}

#[test]
fn team_message_category_independent_from_others() {
    let config = RateLimitConfig::default();
    let mut limiter = RateLimiter::new(&config, 0);

    // Exhaust team_message burst (50)
    for _ in 0..50 {
        assert!(limiter.check(CATEGORY_TEAM_MESSAGE, NOW).is_ok());
    }
    assert!(limiter.check(CATEGORY_TEAM_MESSAGE, NOW).is_err());

    // Other categories should still work
    assert!(limiter.check(CATEGORY_CREATE, NOW).is_ok());
    assert!(limiter.check(CATEGORY_EXEC, NOW).is_ok());
    assert!(limiter.check(CATEGORY_DEFAULT, NOW).is_ok());
}
