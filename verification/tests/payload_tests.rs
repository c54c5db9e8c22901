use apns_client::Alert;
use apns_client::InterruptionLevel;
use apns_client::JsonValue;
use apns_client::Notification;
use apns_client::Payload;
use apns_client::Sound;
use apns_client::Subtitle;
use apns_client::Title;

#[test]
fn test_empty() {
    let aps = Notification::default();
    let json = aps.to_json_string();
    assert_eq!("{}", json);
}

#[test]
fn test_filled() {
    let attr = JsonValue::Obj(vec![("attr".to_string(), JsonValue::Str("foo".to_string()))]);

    let aps = Notification {
        alert: Some(Alert::Full {
            title: Some(Title::Normal("Title".to_string())),
            subtitle: Some(Subtitle::Localized {
                key: "SUBTITLE_KEY".to_string(),
                args: None,
            }),
            body: None,
            launch_image: None,
        }),
        sound: Some(Sound::Critical {
            critical: Some(true),
            name: None,
        }),
        mutable_content: Some(true),
        interruption_level: Some(InterruptionLevel::TimeSensitive),
        ..Notification::default()
    }
    .with_attributes(attr)
    .unwrap();
    let json = aps.to_json_string();
    assert_eq!(
        "{\"alert\":{\"title\":\"Title\",\"subtitle-loc-key\":\"SUBTITLE_KEY\"},\"sound\":{\"critical\":1},\"mutable-content\":1,\"interruption-level\":\"time-sensitive\",\"attributes\":{\"attr\":\"foo\"}}",
        json
    )
}

#[test]
fn test_custom_payload() {
    let custom = JsonValue::Obj(vec![(
        "payload".to_string(),
        JsonValue::Str(String::from("payload")),
    )]);
    let notification = Payload {
        ..Payload::default()
    }
    .with_custom(custom)
    .unwrap();
    let json = notification.to_json_string();
    assert_eq!("{\"aps\":{},\"payload\":\"payload\"}", json)
}

#[test]
fn test_flag_union_and_level_encoding() {
    let aps = Notification {
        alert: Some(Alert::Full {
            title: Some(Title::Normal("Title".to_string())),
            subtitle: Some(Subtitle::Localized {
                key: "SUBTITLE_KEY".to_string(),
                args: None,
            }),
            body: None,
            launch_image: None,
        }),
        sound: Some(Sound::Critical {
            critical: Some(true),
            name: None,
        }),
        mutable_content: Some(true),
        interruption_level: Some(InterruptionLevel::TimeSensitive),
        ..Notification::default()
    };
    let json = aps.to_json_string();
    assert_eq!(
        "{\"alert\":{\"title\":\"Title\",\"subtitle-loc-key\":\"SUBTITLE_KEY\"},\"sound\":{\"critical\":1},\"mutable-content\":1,\"interruption-level\":\"time-sensitive\"}",
        json
    );
}

#[test]
fn test_false_flag_is_omitted() {
    let aps = Notification {
        content_available: Some(false),
        mutable_content: Some(false),
        ..Notification::default()
    };
    assert_eq!("{}", aps.to_json_string());
    let set = Notification {
        content_available: Some(true),
        ..Notification::default()
    };
    assert_eq!("{\"content-available\":1}", set.to_json_string());
}

#[test]
fn test_alert_plain_body_is_a_string() {
    let aps = Notification {
        alert: Some(Alert::Body("hello".to_string())),
        ..Notification::default()
    };
    assert_eq!("{\"alert\":\"hello\"}", aps.to_json_string());
}

#[test]
fn test_localized_title_with_args() {
    let aps = Notification {
        alert: Some(Alert::Full {
            title: Some(Title::Localized {
                key: "T_KEY".to_string(),
                args: Some(vec!["a".to_string(), "b".to_string()]),
            }),
            subtitle: None,
            body: None,
            launch_image: None,
        }),
        ..Notification::default()
    };
    assert_eq!(
        "{\"alert\":{\"title-loc-key\":\"T_KEY\",\"title-loc-args\":[\"a\",\"b\"]}}",
        aps.to_json_string()
    );
}

#[test]
fn test_empty_full_alert_is_empty_object() {
    let aps = Notification {
        alert: Some(Alert::Full {
            title: None,
            subtitle: None,
            body: None,
            launch_image: None,
        }),
        ..Notification::default()
    };
    assert_eq!("{\"alert\":{}}", aps.to_json_string());
}

#[test]
fn test_string_escaping() {
    let aps = Notification {
        alert: Some(Alert::Body("a\"b\\c\nd\te\u{1}".to_string())),
        ..Notification::default()
    };
    assert_eq!(
        "{\"alert\":\"a\\\"b\\\\c\\nd\\te\\u0001\"}",
        aps.to_json_string()
    );
}

#[test]
fn test_numbers_and_sound_name() {
    let aps = Notification {
        badge: Some(7),
        sound: Some(Sound::Regular("ding".to_string())),
        stale_date: Some(0),
        timestamp: Some(18446744073709551615),
        ..Notification::default()
    };
    assert_eq!(
        "{\"badge\":7,\"sound\":\"ding\",\"stale-date\":0,\"timestamp\":18446744073709551615}",
        aps.to_json_string()
    );
}

#[test]
fn test_custom_value_kinds() {
    let custom = JsonValue::Obj(vec![
        ("n".to_string(), JsonValue::Null),
        ("t".to_string(), JsonValue::Bool(true)),
        ("f".to_string(), JsonValue::Bool(false)),
        ("u".to_string(), JsonValue::UInt(42)),
        ("i".to_string(), JsonValue::Int(-7)),
        (
            "a".to_string(),
            JsonValue::Arr(vec![JsonValue::UInt(1), JsonValue::Str("x".to_string())]),
        ),
        ("o".to_string(), JsonValue::Obj(vec![])),
    ]);
    let p = Payload::default().with_custom(custom).unwrap();
    assert_eq!(
        "{\"aps\":{},\"n\":null,\"t\":true,\"f\":false,\"u\":42,\"i\":-7,\"a\":[1,\"x\"],\"o\":{}}",
        p.to_json_string()
    );
}

#[test]
fn test_custom_signed_integer_extremes() {
    let custom = JsonValue::Obj(vec![
        ("min".to_string(), JsonValue::Int(-9223372036854775808)),
        ("max".to_string(), JsonValue::Int(9223372036854775807)),
        ("zero".to_string(), JsonValue::Int(0)),
        ("neg_one".to_string(), JsonValue::Int(-1)),
    ]);
    let p = Payload::default().with_custom(custom).unwrap();
    assert_eq!(
        "{\"aps\":{},\"min\":-9223372036854775808,\"max\":9223372036854775807,\"zero\":0,\"neg_one\":-1}",
        p.to_json_string()
    );
}

#[test]
fn test_with_custom_rejects_non_object() {
    let r = Payload::default().with_custom(JsonValue::Str("x".to_string()));
    assert!(matches!(
        r,
        Err(apns_client::BuildError::ConvertJsonObjectError {
            source: apns_client::JsonObjectError::NotAnObjectError
        })
    ));
    let r2 = Notification::default().with_content_state(JsonValue::UInt(1));
    assert!(r2.is_err());
    let r3 = Notification::default().with_attributes(JsonValue::Arr(vec![]));
    assert!(r3.is_err());
}

#[test]
fn test_content_state_accepts_object() {
    let state = JsonValue::Obj(vec![("k".to_string(), JsonValue::UInt(1))]);
    let aps = Notification::default().with_content_state(state).unwrap();
    assert_eq!("{\"content-state\":{\"k\":1}}", aps.to_json_string());
}

#[test]
fn test_output_is_well_formed_json() {
    let aps = Notification {
        alert: Some(Alert::Full {
            title: Some(Title::Normal("a\"b\\c".to_string())),
            subtitle: None,
            body: None,
            launch_image: Some("img".to_string()),
        }),
        badge: Some(3),
        content_available: Some(true),
        ..Notification::default()
    };
    let text = aps.to_json_string();
    let parsed: serde_json::Value = serde_json::from_str(&text).unwrap();
    assert_eq!(
        parsed["alert"]["title"],
        serde_json::Value::String("a\"b\\c".to_string())
    );
    assert_eq!(parsed["alert"]["launch-image"], serde_json::Value::String("img".to_string()));
    assert_eq!(parsed["badge"], serde_json::Value::from(3u64));
    assert_eq!(parsed["content-available"], serde_json::Value::from(1u64));
}
