use recurl::escalation::{extract_status_code, extract_url_from_args};

#[test]
fn test_extract_url_from_args() {
    // Simple URL at end
    let args = vec!["-s".to_string(), "https://example.com".to_string()];
    assert_eq!(extract_url_from_args(&args), Some("https://example.com".to_string()));

    // URL with flags before and after
    let args = vec![
        "-X".to_string(),
        "POST".to_string(),
        "-H".to_string(),
        "Content-Type: application/json".to_string(),
        "https://api.example.com/endpoint".to_string(),
    ];
    assert_eq!(extract_url_from_args(&args), Some("https://api.example.com/endpoint".to_string()));

    // HTTP URL (not HTTPS)
    let args = vec!["-s".to_string(), "http://localhost:8080".to_string()];
    assert_eq!(extract_url_from_args(&args), Some("http://localhost:8080".to_string()));

    // No URL
    let args = vec!["-V".to_string()];
    assert_eq!(extract_url_from_args(&args), None);

    // Multiple URLs - should get last one
    let args = vec!["https://first.com".to_string(), "https://second.com".to_string()];
    assert_eq!(extract_url_from_args(&args), Some("https://second.com".to_string()));
}

#[test]
fn test_extract_status_code() {
    let marker = "\n__RECURL_STATUS__:%{http_code}";

    // Test with marker present
    let output = b"Hello World\n__RECURL_STATUS__:200";
    let (content, code) = extract_status_code(output, marker);
    assert_eq!(content, b"Hello World");
    assert_eq!(code, Some(200));

    // Test with 403
    let output = b"Access Denied\n__RECURL_STATUS__:403";
    let (content, code) = extract_status_code(output, marker);
    assert_eq!(content, b"Access Denied");
    assert_eq!(code, Some(403));

    // Test without marker
    let output = b"Just regular output";
    let (content, code) = extract_status_code(output, marker);
    assert_eq!(content, b"Just regular output");
    assert_eq!(code, None);

    // Test with invalid UTF-8 before the marker (byte indices must not shift)
    let mut output = vec![0xFF, 0xFF];
    output.extend_from_slice(b"\n__RECURL_STATUS__:503");
    let (content, code) = extract_status_code(&output, marker);
    assert_eq!(content, &[0xFF, 0xFF]);
    assert_eq!(code, Some(503));
}
