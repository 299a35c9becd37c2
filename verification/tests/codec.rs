//! Decimal and retry-header parsing, rendered numerals, and the retry
//! policy's decisions.

use dem_core::numbers::{parse_u64_dec, str_eq, u64_to_dec};
use dem_core::retry_middleware::{
    parse_reset_after, DiscordRateLimitMiddleware, Retry, RetryAction, MAXIMUM_NUMBER_OF_RETRIES,
};

#[test]
fn renders_decimal_numerals() {
    assert_eq!(u64_to_dec(0), "0");
    assert_eq!(u64_to_dec(7), "7");
    assert_eq!(u64_to_dec(1024), "1024");
    assert_eq!(u64_to_dec(u64::MAX), "18446744073709551615");
}

#[test]
fn parses_decimal_numerals() {
    assert_eq!(parse_u64_dec("0"), Some(0));
    assert_eq!(parse_u64_dec("123"), Some(123));
    assert_eq!(parse_u64_dec("18446744073709551615"), Some(u64::MAX));
    assert_eq!(parse_u64_dec("18446744073709551616"), None);
    assert_eq!(parse_u64_dec(""), None);
    assert_eq!(parse_u64_dec("12a"), None);
    assert_eq!(parse_u64_dec("-3"), None);
}

#[test]
fn compares_text() {
    assert!(str_eq("READY", "READY"));
    assert!(!str_eq("READY", "READ"));
    assert!(!str_eq("READY", "ready"));
    assert!(str_eq("", ""));
}

#[test]
fn parses_reset_after_header() {
    assert_eq!(parse_reset_after("0.5"), Some(500));
    assert_eq!(parse_reset_after("2"), Some(2000));
    assert_eq!(parse_reset_after("0"), Some(0));
    assert_eq!(parse_reset_after("1.25"), Some(1250));
    assert_eq!(parse_reset_after("0.0001"), Some(0));
    assert_eq!(parse_reset_after("1."), Some(1000));
    assert_eq!(parse_reset_after("abc"), None);
    assert_eq!(parse_reset_after("-1"), None);
    assert_eq!(parse_reset_after("1.5.2"), None);
    assert_eq!(parse_reset_after(""), None);
}

#[test]
fn retries_only_on_signalled_backpressure() {
    assert_eq!(
        DiscordRateLimitMiddleware::should_retry(true, Some("0.5")),
        Retry::No
    );
    assert_eq!(DiscordRateLimitMiddleware::should_retry(false, None), Retry::No);
    assert_eq!(
        DiscordRateLimitMiddleware::should_retry(false, Some("0.5")),
        Retry::After(500)
    );
    assert_eq!(
        DiscordRateLimitMiddleware::should_retry(false, Some("0")),
        Retry::No
    );
    assert_eq!(
        DiscordRateLimitMiddleware::should_retry(false, Some("garbage")),
        Retry::No
    );
}

#[test]
fn retry_cap_is_ten_attempts() {
    assert_eq!(MAXIMUM_NUMBER_OF_RETRIES, 10);
    for n in 0..MAXIMUM_NUMBER_OF_RETRIES {
        assert_eq!(
            DiscordRateLimitMiddleware::retry_decision(n, false, Some("0.5")),
            RetryAction::SleepAndRetry(500)
        );
    }
    assert_eq!(
        DiscordRateLimitMiddleware::retry_decision(MAXIMUM_NUMBER_OF_RETRIES, false, Some("0.5")),
        RetryAction::Finish
    );
    assert_eq!(
        DiscordRateLimitMiddleware::retry_decision(0, false, None),
        RetryAction::Finish
    );
    assert_eq!(
        DiscordRateLimitMiddleware::retry_decision(0, true, Some("0.5")),
        RetryAction::Finish
    );
}
