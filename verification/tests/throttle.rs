use osubot::rate_limit::{
    cleanup_due, next_reconnect_delay, still_active, RateLimiter, UserRateLimit,
    MAX_MESSAGES_PER_SECOND,
};

#[test]
fn rate_limiter_burst_then_block() {
    let mut l = RateLimiter::new();
    for _ in 0..MAX_MESSAGES_PER_SECOND {
        assert!(l.try_acquire_at(0));
    }
    assert!(!l.try_acquire_at(0), "should be exhausted");
}

#[test]
fn rate_limiter_refills_over_time() {
    let mut l = RateLimiter::new();
    for _ in 0..MAX_MESSAGES_PER_SECOND {
        assert!(l.try_acquire_at(0));
    }
    assert!(!l.try_acquire_at(5_000_000));
    assert!(l.try_acquire_at(20_000_000), "should refill after sleep");
    assert!(l.try_acquire_at(20_000_000));
    assert!(!l.try_acquire_at(20_000_000));
}

#[test]
fn rate_limiter_live_clock_burst() {
    let mut l = RateLimiter::new();
    let mut passed = 0;
    for _ in 0..MAX_MESSAGES_PER_SECOND {
        if l.try_acquire() {
            passed += 1;
        }
    }
    assert_eq!(passed, MAX_MESSAGES_PER_SECOND);
}

#[test]
fn user_throttled_on_sixth_command_in_three_seconds() {
    let second: u128 = 1_000_000_000;
    let mut u = UserRateLimit::new(0);
    for k in 0..5u128 {
        assert!(!u.record(k * 100), "command {k} passes");
    }
    assert!(u.record(500));
    // Only the command at 0 has left the window: five remain before this one.
    assert!(u.record(3 * second + 50));
    assert_eq!(u.command_timestamps.len(), 6);
    assert!(!u.record(7 * second));
    assert_eq!(u.command_timestamps, vec![7 * second]);
    assert_eq!(u.last_command, 7 * second);
}

#[test]
fn idle_users_and_cleanup_schedule() {
    let second: u128 = 1_000_000_000;
    let u = UserRateLimit::new(0);
    assert!(still_active(&u, 29 * second));
    assert!(!still_active(&u, 30 * second));
    assert!(!cleanup_due(0, 59 * second));
    assert!(cleanup_due(0, 60 * second));
}

#[test]
fn reconnect_delay_doubles_up_to_a_minute() {
    assert_eq!(next_reconnect_delay(1), 2);
    assert_eq!(next_reconnect_delay(16), 32);
    assert_eq!(next_reconnect_delay(32), 60);
    assert_eq!(next_reconnect_delay(60), 60);
}

#[test]
fn drain_flag_starts_false() {
    let drain = std::sync::Arc::new(std::sync::atomic::AtomicBool::new(false));
    assert!(!drain.load(std::sync::atomic::Ordering::SeqCst));
}

#[test]
fn throttled_commands_still_fill_the_window() {
    let half_second: u128 = 500_000_000;
    let mut u = UserRateLimit::new(0);
    let mut passed = 0;
    for k in 0..20u128 {
        if !u.record(k * half_second) {
            passed += 1;
        }
    }
    assert_eq!(passed, 5);
}

#[test]
fn bucket_passes_at_most_a_hundred_plus_a_hundred_per_second() {
    let millisecond: u128 = 1_000_000;
    let mut l = RateLimiter::new();
    let mut passed: u128 = 0;
    for k in 0..1000u128 {
        if l.try_acquire_at(k * millisecond) {
            passed += 1;
        }
    }
    assert!(passed <= 200);
    assert!(passed >= 100);
}
