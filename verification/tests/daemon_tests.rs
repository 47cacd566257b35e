use recurl::daemon::browser_state::{BrowserState, BrowserStateTracker};
use recurl::daemon::lifecycle::active_requests;
use recurl::daemon::pool::{PoolConfig, PoolStats};
use std::time::Duration;

#[test]
fn browser_state_test_state_transitions() {
    let mut tracker = BrowserStateTracker::new();
    assert_eq!(tracker.state(), BrowserState::Creating);

    tracker.mark_ready();
    assert_eq!(tracker.state(), BrowserState::Ready);
    assert!(tracker.state().is_reusable());
    assert!(!tracker.state().should_destroy());

    tracker.mark_in_use();
    assert_eq!(tracker.state(), BrowserState::InUse);
    assert_eq!(tracker.use_count(), 1);
    assert!(!tracker.state().is_reusable());

    tracker.mark_ready_after_use();
    assert_eq!(tracker.state(), BrowserState::Ready);

    tracker.mark_unhealthy();
    assert_eq!(tracker.state(), BrowserState::Unhealthy);
    assert!(!tracker.state().is_reusable());
    assert!(tracker.state().should_destroy());
}

#[test]
fn test_idle_expiry() {
    let mut tracker = BrowserStateTracker::new();
    tracker.mark_ready();

    // Should not be expired immediately
    assert!(!tracker.is_idle_expired(Duration::from_secs(60)));

    // Manually mark expired
    tracker.mark_expired();
    assert!(tracker.state().should_destroy());
}

#[test]
fn test_pool_config_default() {
    let config = PoolConfig::default();
    assert_eq!(config.min_size, 1);
    assert_eq!(config.max_size, 3);
}

#[test]
fn test_pool_stats() {
    let mut stats = PoolStats::new();
    assert_eq!(stats.requests_served, 0);

    stats.increment_served();
    assert_eq!(stats.requests_served, 1);

    stats.increment_active();
    assert_eq!(stats.active_requests, 1);

    stats.decrement_active();
    assert_eq!(stats.active_requests, 0);
}

#[test]
fn active_requests_count_taken_permits() {
    assert_eq!(active_requests(10, 7), 3);
    assert_eq!(active_requests(10, 10), 0);
    assert_eq!(active_requests(2, 5), 0);
}
