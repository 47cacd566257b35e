use recurl::daemon::browser_state::{BrowserState, BrowserStateTracker};
use recurl::daemon::lifecycle::{check_idle, daemon_settings, parse_command, DaemonCommand, DaemonState};
use recurl::daemon::pool::{expired_among, BrowserSlots, DomainCookieCache, PooledBrowser};
use recurl::daemon::protocol::{get_pipe_name, preflight_request, user_name, DaemonRequest};
use recurl::js_preflight::{Cookie, ExtractedCookies};

fn ready(id: u32) -> PooledBrowser<u32> {
    let mut tracker = BrowserStateTracker::new();
    tracker.mark_ready();
    PooledBrowser { browser: id, tracker }
}

#[test]
fn warmed_browsers_are_taken_first() {
    let mut slots: BrowserSlots<u32> = BrowserSlots::new();
    slots.push_new(1);
    slots.push_new(2);
    assert_eq!(slots.len(), 2);
    let p = slots.take_ready().expect("a warm browser");
    assert_eq!(p.browser, 1);
    assert_eq!(p.tracker.state(), BrowserState::InUse);
    assert_eq!(p.tracker.use_count(), 1);
    assert_eq!(slots.len(), 1);
}

#[test]
fn released_browser_comes_back_ready_and_is_taken() {
    let mut slots: BrowserSlots<u32> = BrowserSlots::new();
    slots.release(ready(7), true, &[], 3);
    assert_eq!(slots.len(), 1);
    let p = slots.take_ready().expect("a ready browser");
    assert_eq!(p.browser, 7);
    assert_eq!(p.tracker.state(), BrowserState::InUse);
    assert_eq!(p.tracker.use_count(), 1);
    assert_eq!(slots.len(), 0);
}

#[test]
fn unhealthy_browser_is_not_returned() {
    let mut slots: BrowserSlots<u32> = BrowserSlots::new();
    slots.push_new(1);
    slots.release(ready(7), false, &[true], 3);
    // The pool is left as it was: not even the expired browser leaves.
    assert_eq!(slots.len(), 1);
    assert_eq!(slots.take_ready().map(|p| p.browser), Some(1));
    assert!(slots.take_ready().is_none());
}

#[test]
fn pool_never_exceeds_max_size() {
    let mut slots: BrowserSlots<u32> = BrowserSlots::new();
    slots.release(ready(1), true, &[], 2);
    slots.release(ready(2), true, &[false], 2);
    slots.release(ready(3), true, &[false, false], 2);
    assert_eq!(slots.len(), 2);
    // Expired browsers leave, making room.
    slots.release(ready(4), true, &[true, false], 2);
    assert_eq!(slots.len(), 2);
    let first = slots.take_ready().expect("ready");
    assert_eq!(first.browser, 2);
}

#[test]
fn cleanup_removes_expired_and_reports_missing() {
    let mut slots: BrowserSlots<u32> = BrowserSlots::new();
    slots.release(ready(1), true, &[], 5);
    slots.release(ready(2), true, &[false], 5);
    let missing = slots.cleanup(&[true, false], 3);
    assert_eq!(slots.len(), 1);
    assert_eq!(missing, 2);
    let missing = slots.cleanup(&[false], 1);
    assert_eq!(missing, 0);
}

#[test]
fn cache_stores_per_domain() {
    let mut cache = DomainCookieCache::new();
    let jar = ExtractedCookies::from_cookies(vec![Cookie::new("s".to_string(), "1".to_string())]);
    cache.record_preflight("https://sub.example.com/path?q=1", &jar);
    let got = cache.get("sub.example.com").expect("cached");
    assert_eq!(got.count(), 1);
    assert!(got.has("s"));
    assert!(cache.get("example.com").is_none());

    // An IP address has no domain: nothing is cached for it.
    cache.record_preflight("https://127.0.0.1/", &jar);
    assert!(cache.get("127.0.0.1").is_none());

    // Storing again replaces.
    cache.insert("sub.example.com".to_string(), ExtractedCookies::empty());
    assert_eq!(cache.get("sub.example.com").map(|c| c.count()), Some(0));
}

#[test]
fn idle_checks() {
    assert_eq!(check_idle(DaemonState::Running, true), (DaemonState::Idle, true));
    assert_eq!(check_idle(DaemonState::Running, false), (DaemonState::Running, false));
    assert_eq!(check_idle(DaemonState::Idle, true), (DaemonState::Idle, true));
    assert_eq!(check_idle(DaemonState::Starting, true), (DaemonState::Starting, false));
    assert_eq!(check_idle(DaemonState::ShuttingDown, true), (DaemonState::ShuttingDown, false));
}

#[test]
fn state_names() {
    assert_eq!(DaemonState::ShuttingDown.to_string(), "shutting_down");
    assert_eq!(BrowserState::InUse.to_string(), "in_use");
}

#[test]
fn daemon_commands() {
    assert_eq!(parse_command(None), DaemonCommand::Start);
    assert_eq!(parse_command(Some("status")), DaemonCommand::Status);
    assert_eq!(parse_command(Some("stop")), DaemonCommand::Stop);
    assert_eq!(parse_command(Some("-h")), DaemonCommand::Help);
    assert_eq!(parse_command(Some("-V")), DaemonCommand::Version);
    assert_eq!(parse_command(Some("restart")), DaemonCommand::Unknown);
}

#[test]
fn daemon_settings_defaults_and_values() {
    let s = daemon_settings(None, None, None);
    assert_eq!((s.idle_timeout_ms, s.pool_min, s.pool_max), (60000, 1, 3));
    let s = daemon_settings(Some("1500".to_string()), Some("x".to_string()), Some("+5".to_string()));
    assert_eq!((s.idle_timeout_ms, s.pool_min, s.pool_max), (1500, 1, 5));
}

#[test]
fn names_of_the_daemon() {
    assert_eq!(user_name(Some("ann".to_string()), Some("bob".to_string())), "ann");
    assert_eq!(user_name(None, Some("bob".to_string())), "bob");
    assert_eq!(user_name(None, None), "unknown");
    assert_eq!(get_pipe_name("ann"), r"\\.\pipe\recurl-ann");
    match preflight_request("https://x.com", Some(5), None, true) {
        DaemonRequest::JsPreflight { url, timeout_ms, wait_selector, return_html } => {
            assert_eq!(url, "https://x.com");
            assert_eq!(timeout_ms, Some(5));
            assert!(wait_selector.is_none());
            assert!(return_html);
        }
        other => panic!("unexpected request {:?}", other),
    }
}

#[test]
fn expired_among_compares_each_reading() {
    assert_eq!(expired_among(&[5, 10, 11], 10), vec![false, false, true]);
    assert!(expired_among(&[], 0).is_empty());
}
