use recurl::config::RecurlConfig;

fn parse(args: &[String]) -> (RecurlConfig, Vec<String>) {
    RecurlConfig::parse(args, RecurlConfig::default())
}

#[test]
fn test_parse_no_recurl_flags() {
    let args: Vec<String> = vec!["-X".into(), "GET".into(), "https://example.com".into()];
    let (config, curl_args) = parse(&args);

    assert!(!config.strict);
    assert!(!config.debug);
    assert_eq!(curl_args, args);
}

#[test]
fn test_parse_strict_flag() {
    let args: Vec<String> = vec!["--recurl-strict".into(), "https://example.com".into()];
    let (config, curl_args) = parse(&args);

    assert!(config.strict);
    assert_eq!(curl_args, vec!["https://example.com".to_string()]);
}

#[test]
fn test_parse_debug_flag() {
    let args: Vec<String> = vec!["--recurl-debug".into(), "-v".into(), "https://example.com".into()];
    let (config, curl_args) = parse(&args);

    assert!(config.debug);
    assert_eq!(curl_args, vec!["-v".to_string(), "https://example.com".to_string()]);
}

#[test]
fn test_parse_impersonate_flag() {
    let args: Vec<String> =
        vec!["--recurl-impersonate".into(), "chrome".into(), "https://example.com".into()];
    let (config, curl_args) = parse(&args);

    assert_eq!(config.impersonate, Some("chrome".to_string()));
    assert_eq!(curl_args, vec!["https://example.com".to_string()]);
}

#[test]
fn test_parse_mixed_flags() {
    let args: Vec<String> = vec![
        "-X".into(),
        "POST".into(),
        "--recurl-debug".into(),
        "-d".into(),
        "data".into(),
        "--recurl-strict".into(),
        "https://example.com".into(),
    ];
    let (config, curl_args) = parse(&args);

    assert!(config.strict);
    assert!(config.debug);
    assert_eq!(
        curl_args,
        vec![
            "-X".to_string(),
            "POST".to_string(),
            "-d".to_string(),
            "data".to_string(),
            "https://example.com".to_string(),
        ]
    );
}

#[test]
fn test_parse_daemon_flag() {
    let args: Vec<String> = vec!["--recurl-daemon".into(), "off".into(), "https://example.com".into()];
    let (config, curl_args) = parse(&args);

    assert_eq!(config.daemon, Some(false));
    assert_eq!(curl_args, vec!["https://example.com".to_string()]);
}
