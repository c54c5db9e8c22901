use apns_client::Endpoint;
use apns_client::PushOption;
use apns_client::endpoint::build_headers;

#[test]
fn test_presets_and_urls() {
    assert_eq!(
        "https://api.push.apple.com:443",
        Endpoint::production().to_url()
    );
    assert_eq!(
        "https://api.push.apple.com:2197",
        Endpoint::production_alter().to_url()
    );
    assert_eq!(
        "https://api.sandbox.push.apple.com:443",
        Endpoint::development().to_url()
    );
    assert_eq!(
        "https://api.sandbox.push.apple.com:2197",
        Endpoint::development_alter().to_url()
    );
    assert_eq!(
        "https://api.push.apple.com:443",
        Endpoint::default().to_url()
    );
}

#[test]
fn test_endpoint_parse_round_trip() {
    let e = Endpoint::try_from("example.com:8443").unwrap();
    assert_eq!("https://example.com:8443", e.to_url());
}

#[test]
fn test_endpoint_parse_rejects_bad_text() {
    assert!(Endpoint::try_from("no-colon-here").is_err());
    assert!(Endpoint::try_from("a:b:c").is_err());
    assert!(Endpoint::try_from("host:").is_err());
    assert!(Endpoint::try_from("host:notaport").is_err());
    assert!(Endpoint::try_from("host:65536").is_err());
    assert!(Endpoint::try_from("host:65535").is_ok());
    assert!(Endpoint::try_from("host:+80").is_ok());
}

#[test]
fn test_headers_full_set() {
    let option = PushOption {
        push_type: Some("alert".to_string()),
        id: Some("8DEAD87F-7AB6-4B3B-9C43-E2E78DBCBE44".to_string()),
        expiration: Some(0),
        priority: Some(10),
        topic: "com.example.app".to_string(),
        collapse_id: Some("game-update".to_string()),
    };
    let headers = build_headers(&option).unwrap();
    let got: Vec<(String, String)> = headers;
    assert_eq!(
        vec![
            ("apns-push-type".to_string(), "alert".to_string()),
            (
                "apns-id".to_string(),
                "8DEAD87F-7AB6-4B3B-9C43-E2E78DBCBE44".to_string()
            ),
            ("apns-expiration".to_string(), "0".to_string()),
            ("apns-priority".to_string(), "10".to_string()),
            ("apns-collapse-id".to_string(), "game-update".to_string()),
            ("apns-topic".to_string(), "com.example.app".to_string()),
        ],
        got
    );
}

#[test]
fn test_headers_topic_only() {
    let option = PushOption {
        topic: "com.example.app".to_string(),
        ..PushOption::default()
    };
    let headers = build_headers(&option).unwrap();
    assert_eq!(
        vec![("apns-topic".to_string(), "com.example.app".to_string())],
        headers
    );
}

#[test]
fn test_headers_reject_invalid_value() {
    let option = PushOption {
        push_type: Some("bad\nvalue".to_string()),
        topic: "com.example.app".to_string(),
        ..PushOption::default()
    };
    assert!(build_headers(&option).is_err());

    let option2 = PushOption {
        topic: "bad\u{7f}topic".to_string(),
        ..PushOption::default()
    };
    assert!(build_headers(&option2).is_err());
}

#[test]
fn test_expiration_renders_large_values() {
    let option = PushOption {
        expiration: Some(340282366920938463463374607431768211455),
        topic: "t".to_string(),
        ..PushOption::default()
    };
    let headers = build_headers(&option).unwrap();
    assert_eq!(
        ("apns-expiration".to_string(), "340282366920938463463374607431768211455".to_string()),
        headers[0]
    );
}
