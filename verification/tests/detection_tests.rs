use recurl::detection::status::{
    is_blocking_status, is_success_status, is_suspicious_status, parse_status_from_headers,
    parse_status_from_write_out,
};
use recurl::detection::{detect_antibot_patterns, AntibotService, DetectionResult};

#[test]
fn test_detection_result_ok() {
    let result = DetectionResult::ok();
    assert!(!result.should_escalate);
    assert!(result.antibot_service.is_none());
}

#[test]
fn test_detection_result_403() {
    let result = DetectionResult::analyze(Some(403), b"Access Denied");
    assert!(result.status_blocked);
    assert!(result.should_escalate);
}

#[test]
fn test_detection_result_cloudflare() {
    let body = b"<title>Just a moment...</title>";
    let result = DetectionResult::analyze(Some(403), body);
    assert!(result.should_escalate);
    assert!(matches!(result.antibot_service, Some(AntibotService::Cloudflare)));
}

#[test]
fn test_detection_result_success() {
    let result = DetectionResult::analyze(Some(200), b"OK");
    assert!(!result.should_escalate);
    assert!(result.antibot_service.is_none());
}

#[test]
fn test_cloudflare_detection() {
    let bodies = [
        b"<title>Just a moment...</title>".as_slice(),
        b"cf-browser-verification something",
        b"Please enable JavaScript and cookies to continue",
    ];

    for body in bodies {
        assert_eq!(
            detect_antibot_patterns(body),
            Some(AntibotService::Cloudflare),
            "Failed to detect Cloudflare in: {}",
            String::from_utf8_lossy(body)
        );
    }
}

#[test]
fn test_akamai_detection() {
    let body = b"<script src=\"/akam/13/something.js\"></script>";
    assert_eq!(detect_antibot_patterns(body), Some(AntibotService::Akamai));
}

#[test]
fn test_perimeterx_detection() {
    let body = b"Cookie: _px3=abc123";
    assert_eq!(detect_antibot_patterns(body), Some(AntibotService::PerimeterX));
}

#[test]
fn test_datadome_detection() {
    let body = b"datadome=xyz; path=/";
    assert_eq!(detect_antibot_patterns(body), Some(AntibotService::DataDome));
}

#[test]
fn test_imperva_detection() {
    let body = b"incap_ses_123=abc";
    assert_eq!(detect_antibot_patterns(body), Some(AntibotService::Imperva));
}

#[test]
fn test_hcaptcha_detection() {
    let body = b"<script src=\"https://hcaptcha.com/1/api.js\"></script>";
    assert_eq!(detect_antibot_patterns(body), Some(AntibotService::HCaptcha));
}

#[test]
fn test_recaptcha_detection() {
    let body = b"<div class=\"g-recaptcha\" data-sitekey=\"abc\"></div>";
    assert_eq!(detect_antibot_patterns(body), Some(AntibotService::ReCaptcha));
}

#[test]
fn test_js_challenge_detection() {
    let body = b"<noscript>Please enable JavaScript to continue</noscript>";
    assert_eq!(detect_antibot_patterns(body), Some(AntibotService::JsChallenge));
}

#[test]
fn test_no_detection() {
    let body = b"<html><body>Hello, World!</body></html>";
    assert_eq!(detect_antibot_patterns(body), None);
}

#[test]
fn test_case_insensitive() {
    let body = b"CF-RAY: 1234567890-LAX";
    assert_eq!(detect_antibot_patterns(body), Some(AntibotService::Cloudflare));
}

#[test]
fn test_kasada_detection() {
    let body = b"x-kpsdk-ct: some-token";
    assert_eq!(detect_antibot_patterns(body), Some(AntibotService::Kasada));
}

#[test]
fn test_shape_detection() {
    let body = b"<script src=\"https://shape.com/bot.js\"></script>";
    assert_eq!(detect_antibot_patterns(body), Some(AntibotService::Shape));
}

#[test]
fn test_arkose_detection() {
    let body = b"<script src=\"https://enforcement.arkoselabs.com/fc/api\"></script>";
    assert_eq!(detect_antibot_patterns(body), Some(AntibotService::Arkose));
}

#[test]
fn test_aws_waf_detection() {
    let body = b"x-amzn-waf-action: captcha";
    assert_eq!(detect_antibot_patterns(body), Some(AntibotService::AwsWaf));
}

#[test]
fn test_geetest_detection() {
    let body = b"initGeetest({ gt: 'abc123' })";
    assert_eq!(detect_antibot_patterns(body), Some(AntibotService::GeeTest));
}

#[test]
fn test_antibot_service_display() {
    assert_eq!(AntibotService::Cloudflare.to_string(), "Cloudflare");
    assert_eq!(AntibotService::Akamai.to_string(), "Akamai");
    assert_eq!(AntibotService::Kasada.to_string(), "Kasada");
    assert_eq!(AntibotService::Shape.to_string(), "Shape/F5");
    assert_eq!(AntibotService::Arkose.to_string(), "Arkose Labs");
    assert_eq!(AntibotService::AwsWaf.to_string(), "AWS WAF");
    assert_eq!(AntibotService::GeeTest.to_string(), "GeeTest");
    assert_eq!(AntibotService::HCaptcha.to_string(), "hCaptcha");
}

#[test]
fn test_blocking_status_codes() {
    assert!(is_blocking_status(403));
    assert!(is_blocking_status(429));
    assert!(is_blocking_status(503));
    assert!(!is_blocking_status(200));
    assert!(!is_blocking_status(404));
    assert!(!is_blocking_status(500));
}

#[test]
fn test_suspicious_status_codes() {
    assert!(is_suspicious_status(401));
    assert!(is_suspicious_status(407));
    assert!(!is_suspicious_status(403));
    assert!(!is_suspicious_status(200));
}

#[test]
fn test_success_status() {
    assert!(is_success_status(200));
    assert!(is_success_status(201));
    assert!(is_success_status(204));
    assert!(!is_success_status(301));
    assert!(!is_success_status(403));
}

#[test]
fn test_parse_status_from_headers_http11() {
    let response = b"HTTP/1.1 403 Forbidden\r\nContent-Type: text/html\r\n\r\nBlocked";
    assert_eq!(parse_status_from_headers(response), Some(403));
}

#[test]
fn test_parse_status_from_headers_http2() {
    let response = b"HTTP/2 200 \r\ncontent-type: application/json\r\n\r\n{}";
    assert_eq!(parse_status_from_headers(response), Some(200));
}

#[test]
fn test_parse_status_from_headers_no_status() {
    let response = b"Just some text without HTTP headers";
    assert_eq!(parse_status_from_headers(response), None);
}

#[test]
fn test_parse_status_from_write_out() {
    assert_eq!(parse_status_from_write_out("200"), Some(200));
    assert_eq!(parse_status_from_write_out("403\n"), Some(403));
    assert_eq!(parse_status_from_write_out("invalid"), None);
}
