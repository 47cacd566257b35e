use recurl::clock::{exceeds, whole_seconds};
use recurl::config::RecurlConfig;
use recurl::detection::status::is_suspicious_status;
use recurl::detection::{detect_antibot_patterns, AntibotService, DetectionResult};
use recurl::js_preflight::browser::{challenge_pending, final_url_of, stealth_browser_args};
use recurl::js_preflight::chromium::{chromium_binary_names, install_instructions, is_unsupported_platform};
use recurl::js_preflight::preflight_state::{PreflightState, PreflightStateMachine};
use recurl::js_preflight::stealth::{
    get_all_patches, PATCH_BROKEN_IMAGE, PATCH_CHROME_RUNTIME, PATCH_CONSOLE, PATCH_IFRAME, PATCH_LANGUAGES,
    PATCH_PERMISSIONS, PATCH_PLUGINS, PATCH_WEBDRIVER, PATCH_WEBGL,
};
use recurl::js_preflight::{Cookie, ExtractedCookies};

#[test]
fn env_switches() {
    let c = RecurlConfig::from_env_values(Some("TRUE".to_string()), Some("0".to_string()));
    assert!(c.strict);
    assert!(!c.debug);
    let c = RecurlConfig::from_env_values(None, Some("1".to_string()));
    assert!(!c.strict);
    assert!(c.debug);
}

#[test]
fn unknown_recurl_flag_passes_through_and_values_are_consumed() {
    let args: Vec<String> =
        vec!["--recurl-nope".into(), "--recurl-js-timeout".into(), "abc".into(), "--recurl-js-wait".into()];
    let (c, rest) = RecurlConfig::parse(&args, RecurlConfig::default());
    assert_eq!(rest, vec!["--recurl-nope".to_string()]);
    assert_eq!(c.js_timeout, None);
    assert_eq!(c.js_wait, None);
}

#[test]
fn summaries() {
    assert_eq!(DetectionResult::analyze(Some(429), b"slow down").summary, "Blocked: HTTP 429");
    assert_eq!(DetectionResult::analyze(None, b"x-kpsdk-ct").summary, "Blocked: Kasada (status: unknown)");
    assert_eq!(DetectionResult::analyze(Some(200), b"fine").summary, "No blocking detected");
}

#[test]
fn invalid_utf8_does_not_hide_a_signature() {
    let mut body = vec![0xC3, 0x28, 0xFF];
    body.extend_from_slice(b"DataDome blocked");
    let r = DetectionResult::analyze(None, &body);
    assert!(r.should_escalate);
    assert!(r.antibot_service.is_some());
}

#[test]
fn known_good_status_is_no_false_positive() {
    let r = DetectionResult::analyze(Some(200), b"<title>Just a moment...</title>");
    assert!(!r.should_escalate);
    assert!(!r.status_blocked);
    assert_eq!(r.antibot_service, Some(AntibotService::Cloudflare));
    let r = DetectionResult::analyze(Some(403), b"Access Denied");
    assert!(r.should_escalate);
    assert_eq!(r.summary, "Blocked: HTTP 403");
}

#[test]
fn cookies_replace_by_name() {
    let mut jar = ExtractedCookies::empty();
    jar.add(Cookie::new("a".to_string(), "1".to_string()));
    jar.add(Cookie::new("a".to_string(), "2".to_string()));
    assert_eq!(jar.count(), 1);
    assert_eq!(jar.get("a").map(|c| c.value.clone()), Some("2".to_string()));
    assert_eq!(jar.to_curl_format(), "a=2");
}

#[test]
fn browser_checks() {
    assert!(challenge_pending("<title>Just a moment...</title>"));
    assert!(challenge_pending("/cdn-cgi/challenge-platform/h/b"));
    assert!(!challenge_pending("<html>welcome</html>"));
    assert_eq!(final_url_of(Some("https://b.com/".to_string()), "https://a.com"), "https://b.com/");
    assert_eq!(final_url_of(None, "https://a.com"), "https://a.com");
    let args = stealth_browser_args();
    assert_eq!(args.len(), 30);
    assert_eq!(args[0], "--headless=new");
}

#[test]
fn chromium_platforms() {
    assert_eq!(chromium_binary_names("windows"), vec!["chrome.exe", "chromium.exe"]);
    assert_eq!(chromium_binary_names("linux"), vec!["chrome", "chromium"]);
    assert!(is_unsupported_platform("linux", "aarch64"));
    assert!(!is_unsupported_platform("macos", "aarch64"));
    assert_eq!(install_instructions("macos", "x86_64"), "Install Chromium: brew install --cask chromium");
    assert!(install_instructions("linux", "aarch64").contains("\nsudo pacman -S chromium\n"));
}

#[test]
fn preflight_steps_are_recorded() {
    let mut sm = PreflightStateMachine::new("https://example.com".to_string());
    sm.transition(PreflightState::Navigating);
    sm.mark_failed("boom".to_string());
    let states: Vec<PreflightState> = sm.steps().iter().map(|(s, _)| *s).collect();
    assert_eq!(states, vec![PreflightState::Initializing, PreflightState::Navigating]);
    assert_eq!(sm.state(), PreflightState::Failed);
    assert_eq!(PreflightState::WaitingForChallenge.to_string(), "waiting_for_challenge");
}

#[test]
fn patches_are_joined_with_newlines() {
    let expected = [
        PATCH_WEBDRIVER,
        PATCH_PLUGINS,
        PATCH_LANGUAGES,
        PATCH_CHROME_RUNTIME,
        PATCH_PERMISSIONS,
        PATCH_IFRAME,
        PATCH_WEBGL,
        PATCH_CONSOLE,
        PATCH_BROKEN_IMAGE,
    ]
    .join("\n");
    assert_eq!(get_all_patches(), expected);
    assert!(get_all_patches().contains(PATCH_IFRAME));
}

#[test]
fn suspicious_codes_include_challenge_hints() {
    assert!(is_suspicious_status(202));
    assert!(is_suspicious_status(307));
    assert!(is_suspicious_status(451));
    assert!(!is_suspicious_status(429));
}

#[test]
fn strict_mode_env_accepts_yes() {
    let c = RecurlConfig::from_env_values(Some("yes".to_string()), Some("YES".to_string()));
    assert!(c.strict);
    assert!(c.debug);
    let c = RecurlConfig::from_env_values(Some("no".to_string()), None);
    assert!(!c.strict);
}

#[test]
fn imperva_cookie_families_count_as_antibot() {
    let jar = ExtractedCookies::from_cookies(vec![Cookie::new("incap_ses_123_456".to_string(), "abc".to_string())]);
    assert!(jar.has_antibot_cookies());
    let jar = ExtractedCookies::from_cookies(vec![Cookie::new("visid_incap_99".to_string(), "abc".to_string())]);
    assert!(jar.has_antibot_cookies());
    let jar = ExtractedCookies::from_cookies(vec![Cookie::new("my_incap_ses".to_string(), "abc".to_string())]);
    assert!(!jar.has_antibot_cookies());
    let jar = ExtractedCookies::from_cookies(vec![Cookie::new("incap_sesX".to_string(), "abc".to_string())]);
    assert!(!jar.has_antibot_cookies());
    let jar = ExtractedCookies::from_cookies(vec![Cookie::new("visid_incapX".to_string(), "abc".to_string())]);
    assert!(!jar.has_antibot_cookies());
    let jar = ExtractedCookies::from_cookies(vec![Cookie::new("incap_ses".to_string(), "abc".to_string())]);
    assert!(jar.has_antibot_cookies());
    let jar = ExtractedCookies::from_cookies(vec![Cookie::new("visid_incap".to_string(), "abc".to_string())]);
    assert!(jar.has_antibot_cookies());
}

#[test]
fn clock_readings_are_compared_in_nanoseconds() {
    assert!(exceeds(2_000_000_001, 2_000_000_000));
    assert!(!exceeds(2_000_000_000, 2_000_000_000));
    assert_eq!(whole_seconds(2_999_999_999), 2);
    assert_eq!(whole_seconds(0), 0);
}

#[test]
fn detection_ignores_ascii_case() {
    let lower = detect_antibot_patterns(b"x-amzn-waf-action: captcha");
    let upper = detect_antibot_patterns(b"X-AMZN-WAF-ACTION: CAPTCHA");
    assert_eq!(lower, upper);
    assert!(lower.is_some());
}
