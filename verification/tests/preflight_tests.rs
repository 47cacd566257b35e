use recurl::js_preflight::browser::BrowserConfig;
use recurl::js_preflight::preflight_state::{PreflightState, PreflightStateMachine};
use recurl::js_preflight::stealth::{get_all_patches, PATCH_PLUGINS, PATCH_WEBDRIVER};
use recurl::js_preflight::{Cookie, ExtractedCookies, PreflightOptions, PreflightResult};
use std::time::Duration;

#[test]
fn test_cookie_new() {
    let cookie = Cookie::new("session".to_string(), "abc123".to_string());
    assert_eq!(cookie.name, "session");
    assert_eq!(cookie.value, "abc123");
    assert!(!cookie.secure);
}

#[test]
fn test_extracted_cookies_empty() {
    let cookies = ExtractedCookies::empty();
    assert!(cookies.is_empty());
    assert_eq!(cookies.count(), 0);
}

#[test]
fn test_extracted_cookies_add() {
    let mut cookies = ExtractedCookies::empty();
    cookies.add(Cookie::new("a".to_string(), "1".to_string()));
    cookies.add(Cookie::new("b".to_string(), "2".to_string()));
    assert_eq!(cookies.count(), 2);
    assert!(cookies.has("a"));
    assert!(cookies.has("b"));
}

#[test]
fn test_to_curl_format() {
    let cookies = ExtractedCookies::from_cookies(vec![
        Cookie::new("a".to_string(), "1".to_string()),
        Cookie::new("b".to_string(), "2".to_string()),
    ]);
    let format = cookies.to_curl_format();
    assert!(format.contains("a=1"));
    assert!(format.contains("b=2"));
    assert!(format.contains("; "));
}

#[test]
fn test_to_curl_args() {
    let cookies =
        ExtractedCookies::from_cookies(vec![Cookie::new("session".to_string(), "xyz".to_string())]);
    let args = cookies.to_curl_args();
    assert_eq!(args.len(), 2);
    assert_eq!(args[0], "-b");
    assert_eq!(args[1], "session=xyz");
}

#[test]
fn test_to_curl_args_empty() {
    let cookies = ExtractedCookies::empty();
    let args = cookies.to_curl_args();
    assert!(args.is_empty());
}

#[test]
fn test_has_antibot_cookies() {
    let mut cookies = ExtractedCookies::empty();
    assert!(!cookies.has_antibot_cookies());

    cookies.add(Cookie::new("cf_clearance".to_string(), "abc".to_string()));
    assert!(cookies.has_antibot_cookies());
}

#[test]
fn test_has_antibot_cookies_akamai() {
    let mut cookies = ExtractedCookies::empty();
    cookies.add(Cookie::new("_abck".to_string(), "xyz".to_string()));
    assert!(cookies.has_antibot_cookies());
}

#[test]
fn test_preflight_options_default() {
    let opts = PreflightOptions::default();
    assert_eq!(opts.timeout, Duration::from_secs(30));
    assert!(opts.wait_selector.is_none());
    assert!(!opts.return_html);
}

#[test]
fn test_preflight_options_from_config() {
    let opts = PreflightOptions::from_config(Some(5000), Some(".content".to_string()), true, false);
    assert_eq!(opts.timeout, Duration::from_millis(5000));
    assert_eq!(opts.wait_selector, Some(".content".to_string()));
    assert!(opts.return_html);
}

#[test]
fn test_preflight_result_success() {
    let cookies = ExtractedCookies::empty();
    let result = PreflightResult::success(cookies, "https://example.com".to_string());
    assert!(result.success);
    assert!(result.error.is_none());
}

#[test]
fn test_preflight_result_failed() {
    let result = PreflightResult::failed("Browser crashed".to_string());
    assert!(!result.success);
    assert_eq!(result.error, Some("Browser crashed".to_string()));
}

#[test]
fn test_browser_config_default() {
    let config = BrowserConfig::default();
    assert!(config.headless);
    assert_eq!(config.width, 1920);
    assert_eq!(config.height, 1080);
}

#[test]
fn test_patches_not_empty() {
    assert!(!PATCH_WEBDRIVER.is_empty());
    assert!(!PATCH_PLUGINS.is_empty());
    assert!(!get_all_patches().is_empty());
}

#[test]
fn test_all_patches_combined() {
    let combined = get_all_patches();
    assert!(combined.contains("navigator"));
    assert!(combined.contains("webdriver"));
    assert!(combined.contains("plugins"));
}

#[test]
fn preflight_state_test_state_transitions() {
    let mut sm = PreflightStateMachine::new("https://example.com".to_string());
    assert_eq!(sm.state(), PreflightState::Initializing);
    assert_eq!(sm.url(), "https://example.com");

    sm.transition(PreflightState::Navigating);
    assert_eq!(sm.state(), PreflightState::Navigating);

    sm.transition(PreflightState::WaitingForChallenge);
    assert_eq!(sm.state(), PreflightState::WaitingForChallenge);

    sm.mark_complete();
    assert_eq!(sm.state(), PreflightState::Complete);
    assert!(sm.error().is_none());
}

#[test]
fn test_failed_state() {
    let mut sm = PreflightStateMachine::new("https://example.com".to_string());
    sm.mark_failed("navigation timeout".to_string());
    assert_eq!(sm.state(), PreflightState::Failed);
    assert_eq!(sm.error(), Some("navigation timeout"));
}

#[test]
fn test_timeout_check() {
    let sm = PreflightStateMachine::new("https://example.com".to_string());
    assert!(!sm.is_timeout(Duration::from_secs(60)));
    // Zero timeout should immediately be considered timed out
    assert!(sm.is_timeout(Duration::from_millis(0)));
}
