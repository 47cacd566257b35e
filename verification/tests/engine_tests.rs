use recurl::engine::{engine_binary_name, EngineType};
use recurl::impersonation::{exit_code_of, ImpersonationProfile, ImpersonationResult};

#[test]
fn test_engine_type_binary_name() {
    assert_eq!(EngineType::Curl.binary_name(), "curl_engine");
    assert_eq!(EngineType::Chrome.binary_name(), "curl_chrome");
    assert_eq!(EngineType::Firefox.binary_name(), "curl_ff");
    assert_eq!(EngineType::Safari.binary_name(), "curl_safari");
}

#[test]
fn test_engine_type_from_profile() {
    assert_eq!(EngineType::from_profile("chrome"), Some(EngineType::Chrome));
    assert_eq!(EngineType::from_profile("Chrome"), Some(EngineType::Chrome));
    assert_eq!(EngineType::from_profile("firefox"), Some(EngineType::Firefox));
    assert_eq!(EngineType::from_profile("ff"), Some(EngineType::Firefox));
    assert_eq!(EngineType::from_profile("safari"), Some(EngineType::Safari));
    assert_eq!(EngineType::from_profile("unknown"), None);
}

#[test]
fn test_engine_binary_name_windows() {
    // Both platforms are checked: the platform is an argument here.
    let name = engine_binary_name("curl_engine", true);
    assert_eq!(name, "curl_engine.exe");
    let name = engine_binary_name("curl_engine", false);
    assert_eq!(name, "curl_engine");
}

#[test]
fn test_profile_default() {
    assert_eq!(ImpersonationProfile::default(), ImpersonationProfile::Chrome);
}

#[test]
fn test_profile_from_str() {
    assert_eq!(ImpersonationProfile::from_str("chrome"), Some(ImpersonationProfile::Chrome));
    assert_eq!(ImpersonationProfile::from_str("Chrome"), Some(ImpersonationProfile::Chrome));
    assert_eq!(ImpersonationProfile::from_str("firefox"), Some(ImpersonationProfile::Firefox));
    assert_eq!(ImpersonationProfile::from_str("ff"), Some(ImpersonationProfile::Firefox));
    assert_eq!(ImpersonationProfile::from_str("safari"), Some(ImpersonationProfile::Safari));
    assert_eq!(ImpersonationProfile::from_str("unknown"), None);
}

#[test]
fn test_profile_name() {
    assert_eq!(ImpersonationProfile::Chrome.name(), "chrome");
    assert_eq!(ImpersonationProfile::Firefox.name(), "firefox");
    assert_eq!(ImpersonationProfile::Safari.name(), "safari");
}

#[test]
fn test_profile_engine_type() {
    assert_eq!(ImpersonationProfile::Chrome.engine_type(), EngineType::Chrome);
    assert_eq!(ImpersonationProfile::Firefox.engine_type(), EngineType::Firefox);
    assert_eq!(ImpersonationProfile::Safari.engine_type(), EngineType::Safari);
}

#[test]
fn test_escalation_order() {
    let order = ImpersonationProfile::escalation_order();
    assert_eq!(order.len(), 3);
    assert_eq!(order[0], ImpersonationProfile::Chrome);
}

#[test]
fn test_impersonation_result_unavailable() {
    let result = ImpersonationResult::unavailable(ImpersonationProfile::Chrome);
    assert!(!result.available);
    assert!(result.error.is_some());
    assert!(!result.is_success());
}

#[test]
fn edge_profile_uses_curl_edge() {
    assert_eq!(ImpersonationProfile::from_str("edge"), Some(ImpersonationProfile::Edge));
    assert_eq!(ImpersonationProfile::from_str("Edge"), Some(ImpersonationProfile::Edge));
    assert_eq!(ImpersonationProfile::Edge.engine_type(), EngineType::Edge);
    assert_eq!(ImpersonationProfile::Edge.name(), "edge");
    assert_eq!(EngineType::Edge.binary_name(), "curl_edge");
    assert_eq!(EngineType::from_profile("edge"), Some(EngineType::Edge));
    // Edge is used only when asked for.
    assert!(!ImpersonationProfile::escalation_order().contains(&ImpersonationProfile::Edge));
}

#[test]
fn exit_codes_are_truncated_to_a_byte() {
    assert_eq!(recurl_exit(Some(0)), 0);
    assert_eq!(recurl_exit(Some(22)), 22);
    assert_eq!(recurl_exit(Some(256)), 0);
    assert_eq!(recurl_exit(None), 1);
}

fn recurl_exit(code: Option<i32>) -> u8 {
    exit_code_of(code)
}
