use recurl::config::RecurlConfig;
use recurl::daemon::protocol::DaemonResponse;
use recurl::escalation::{
    build_replay_args, find_subslice, preflight_from_response, preflight_outcome, preflight_route, run_mode,
    EscalationEngine, EscalationState, PreflightOutcome, PreflightRoute, RunMode, Transition,
};
use recurl::impersonation::{ImpersonationProfile, ImpersonationResult, ProcessOutput};
use recurl::js_preflight::{Cookie, ExtractedCookies, PreflightResult};

fn strings(v: &[&str]) -> Vec<String> {
    v.iter().map(|s| s.to_string()).collect()
}

fn engine(args: &[&str]) -> EscalationEngine {
    EscalationEngine::new(&strings(args), &RecurlConfig::default())
}

#[test]
fn enhanced_args_append_status_marker() {
    let e = engine(&["-s", "https://example.com"]);
    assert_eq!(
        e.curl_args().to_vec(),
        strings(&["-s", "https://example.com", "-w", "\n__RECURL_STATUS__:%{http_code}"])
    );
}

#[test]
fn enhanced_args_keep_user_write_out() {
    let e = engine(&["-w", "%{http_code}", "https://example.com"]);
    assert_eq!(e.curl_args().to_vec(), strings(&["-w", "%{http_code}", "https://example.com"]));
    let e = engine(&["--write-out=%{size_download}", "https://example.com"]);
    assert_eq!(e.curl_args().len(), 2);
}

#[test]
fn unblocked_response_passes_through() {
    let e = engine(&["https://example.com"]);
    let step = e.step_start(b"hello\n__RECURL_STATUS__:200", Some(0));
    assert_eq!(step.output, Some(b"hello".to_vec()));
    assert!(matches!(step.state, EscalationState::Done(0)));
}

#[test]
fn blocked_response_escalates() {
    let e = engine(&["https://example.com"]);
    let step = e.step_start(b"Access Denied\n__RECURL_STATUS__:403", Some(0));
    assert!(step.output.is_none());
    match step.state {
        EscalationState::AfterCurl { stdout, exit_code, status } => {
            assert_eq!(stdout, b"Access Denied".to_vec());
            assert_eq!(exit_code, 0);
            assert_eq!(status, Some(403));
        }
        other => panic!("unexpected state {:?}", other),
    }
}

#[test]
fn antibot_body_with_200_passes_through() {
    let e = engine(&["https://example.com"]);
    let step = e.step_start(b"<title>Just a moment...</title>\n__RECURL_STATUS__:200", Some(0));
    assert!(matches!(step.state, EscalationState::Done(0)));
    assert_eq!(step.output, Some(b"<title>Just a moment...</title>".to_vec()));
}

#[test]
fn antibot_body_with_403_escalates() {
    let e = engine(&["https://example.com"]);
    let step = e.step_start(b"<title>Just a moment...</title>\n__RECURL_STATUS__:403", None);
    assert!(matches!(step.state, EscalationState::AfterCurl { exit_code: 1, .. }));
    assert!(step.output.is_none());
}

#[test]
fn antibot_body_without_status_escalates() {
    let e = engine(&["-w", "%{http_code}", "https://example.com"]);
    let step = e.step_start(b"<title>Just a moment...</title>", Some(0));
    assert!(matches!(step.state, EscalationState::AfterCurl { exit_code: 0, status: None, .. }));
    assert!(step.output.is_none());
}

#[test]
fn user_write_out_is_left_in_the_body() {
    let e = engine(&["-w", "%{http_code}", "https://example.com"]);
    let step = e.step_start(b"fine200", Some(0));
    assert_eq!(step.output, Some(b"fine200".to_vec()));
}

#[test]
fn missing_impersonation_keeps_curl_response() {
    let e = engine(&["https://example.com"]);
    let step = e.step_after_curl(b"blocked".to_vec(), 0, Some(403), None);
    assert!(step.output.is_none());
    match step.state {
        EscalationState::AfterImpersonation { stdout, exit_code, status } => {
            assert_eq!(stdout, b"blocked".to_vec());
            assert_eq!(exit_code, 0);
            assert_eq!(status, Some(403));
        }
        other => panic!("unexpected state {:?}", other),
    }
    let unavailable = ImpersonationResult::unavailable(ImpersonationProfile::Chrome);
    let step = e.step_after_curl(b"blocked".to_vec(), 0, Some(403), Some(unavailable));
    assert!(matches!(step.state, EscalationState::AfterImpersonation { .. }));
}

#[test]
fn successful_impersonation_ends_the_flow() {
    let e = engine(&["https://example.com"]);
    let attempt = ImpersonationResult::success(
        ImpersonationProfile::Firefox,
        ProcessOutput { stdout: b"page\n__RECURL_STATUS__:200".to_vec(), code: Some(0) },
    );
    let step = e.step_after_curl(b"blocked".to_vec(), 0, Some(403), Some(attempt));
    assert_eq!(step.output, Some(b"page".to_vec()));
    assert!(matches!(step.state, EscalationState::Done(0)));
}

#[test]
fn no_url_skips_the_preflight() {
    let e = engine(&["-V"]);
    match e.step_after_impersonation(b"x".to_vec(), 7, None) {
        Transition::Finished(step) => {
            assert!(step.output.is_none());
            assert!(matches!(step.state, EscalationState::AfterJsPreflight { exit_code: 7, .. }));
        }
        Transition::Replay(_) => panic!("no replay expected"),
    }
}

#[test]
fn failed_preflight_keeps_response() {
    let e = engine(&["https://example.com"]);
    let failed = PreflightResult::failed("boom".to_string());
    match e.step_after_impersonation(b"x".to_vec(), 3, Some(failed)) {
        Transition::Finished(step) => {
            assert!(matches!(step.state, EscalationState::AfterJsPreflight { exit_code: 3, .. }))
        }
        Transition::Replay(_) => panic!("no replay expected"),
    }
}

#[test]
fn rendered_page_ends_the_flow() {
    let mut config = RecurlConfig::default();
    config.js_rendered = true;
    let e = EscalationEngine::new(&strings(&["https://example.com"]), &config);
    let result = PreflightResult::success_with_html(
        ExtractedCookies::empty(),
        "https://example.com".to_string(),
        "<html>ok</html>".to_string(),
    );
    match e.step_after_impersonation(b"x".to_vec(), 3, Some(result)) {
        Transition::Finished(step) => {
            assert_eq!(step.output, Some(b"<html>ok</html>".to_vec()));
            assert!(matches!(step.state, EscalationState::Done(0)));
        }
        Transition::Replay(_) => panic!("no replay expected"),
    }
}

#[test]
fn successful_preflight_replays_with_cookies_and_final_url() {
    let e = engine(&["-s", "https://example.com"]);
    let cookies = ExtractedCookies::from_cookies(vec![Cookie::new("cf_clearance".to_string(), "tok".to_string())]);
    let result = PreflightResult::success(cookies, "https://example.com/landing".to_string());
    match e.step_after_impersonation(b"x".to_vec(), 3, Some(result)) {
        Transition::Replay(args) => assert_eq!(
            args,
            strings(&[
                "-s",
                "https://example.com/landing",
                "-w",
                "\n__RECURL_STATUS__:%{http_code}",
                "-b",
                "cf_clearance=tok",
            ])
        ),
        Transition::Finished(_) => panic!("replay expected"),
    }
}

#[test]
fn replay_and_last_step() {
    let e = engine(&["https://example.com"]);
    let step = e.step_after_replay(b"still blocked\n__RECURL_STATUS__:429", Some(22));
    assert!(matches!(step.state, EscalationState::AfterJsPreflight { exit_code: 22, .. }));
    let step = e.step_after_replay(b"ok\n__RECURL_STATUS__:200", Some(0));
    assert_eq!(step.output, Some(b"ok".to_vec()));
    let step = e.step_after_js_preflight(b"last".to_vec(), 22);
    assert_eq!(step.output, Some(b"last".to_vec()));
    assert!(matches!(step.state, EscalationState::Done(22)));
}

#[test]
fn replay_args_replace_only_first_url() {
    let args = strings(&["https://a.com", "-e", "https://a.com"]);
    let r = build_replay_args(&args, &ExtractedCookies::empty(), "https://a.com", "https://b.com");
    assert_eq!(r, strings(&["https://b.com", "-e", "https://a.com"]));
    let r = build_replay_args(&args, &ExtractedCookies::empty(), "https://a.com", "");
    assert_eq!(r, args);
}

#[test]
fn preflight_outcome_for_js_only_mode() {
    let args = strings(&["https://example.com"]);
    let ok = PreflightResult::success(ExtractedCookies::empty(), "https://example.com".to_string());
    assert!(matches!(preflight_outcome(&ok, false, &args, "https://example.com"), PreflightOutcome::Replay(a) if a == args));
    let failed = PreflightResult::failed("x".to_string());
    assert!(matches!(preflight_outcome(&failed, true, &args, "https://example.com"), PreflightOutcome::Failed));
}

#[test]
fn marker_round_trip_takes_last_marker() {
    let e = engine(&["https://example.com"]);
    let (body, status) = e.read_output(b"a__RECURL_STATUS__:1\n__RECURL_STATUS__:404");
    assert_eq!(body, b"a__RECURL_STATUS__:1".to_vec());
    assert_eq!(status, Some(404));
    let (body, status) = e.read_output(b"x\n__RECURL_STATUS__:");
    assert_eq!(body, b"x".to_vec());
    assert_eq!(status, None);
    let (_, status) = e.read_output(b"x\n__RECURL_STATUS__:99999");
    assert_eq!(status, None);
}

#[test]
fn find_subslice_finds_first() {
    assert_eq!(find_subslice(b"abcabc", b"bc"), Some(1));
    assert_eq!(find_subslice(b"abc", b""), Some(0));
    assert_eq!(find_subslice(b"ab", b"abc"), None);
    assert_eq!(find_subslice(b"abc", b"x"), None);
}

#[test]
fn modes_and_routes() {
    let mut c = RecurlConfig::default();
    assert_eq!(run_mode(&c), RunMode::Escalate);
    c.js = true;
    assert_eq!(run_mode(&c), RunMode::JsOnly);
    c.strict = true;
    assert_eq!(run_mode(&c), RunMode::Passthrough);

    assert_eq!(preflight_route(Some(true), false), PreflightRoute::Daemon { start_first: true });
    assert_eq!(preflight_route(Some(false), true), PreflightRoute::Direct);
    assert_eq!(preflight_route(None, true), PreflightRoute::Daemon { start_first: false });
    assert_eq!(preflight_route(None, false), PreflightRoute::Direct);
}

#[test]
fn daemon_responses_become_preflight_results() {
    let r = preflight_from_response(DaemonResponse::PreflightSuccess {
        cookies: vec![("a".to_string(), "1".to_string()), ("a".to_string(), "2".to_string())],
        final_url: "https://x.com".to_string(),
        html: Some("<p>".to_string()),
    });
    assert!(r.success);
    assert_eq!(r.cookies.count(), 1);
    assert_eq!(r.cookies.get("a").map(|c| c.value.clone()), Some("2".to_string()));
    assert_eq!(r.rendered_html, Some("<p>".to_string()));

    let r = preflight_from_response(DaemonResponse::PreflightError { error: "bad".to_string() });
    assert!(!r.success);
    assert_eq!(r.error, Some("bad".to_string()));

    let r = preflight_from_response(DaemonResponse::Pong);
    assert_eq!(r.error, Some("unexpected daemon response".to_string()));
}

#[test]
fn preferred_profile_and_url() {
    let mut c = RecurlConfig::default();
    c.impersonate = Some("FF".to_string());
    let e = EscalationEngine::new(&strings(&["example.com"]), &c);
    assert_eq!(e.preferred_profile(), Some(ImpersonationProfile::Firefox));
    assert_eq!(e.preflight_url(), Some("example.com".to_string()));
}
