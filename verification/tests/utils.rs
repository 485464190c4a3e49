use ringer::models::{Check, CheckMeta, MetaValue};
use ringer::utils::{alert_on_error_code, hook_endpoint, process_pass};

fn check(last_end: Option<i64>, http_status: Option<i32>) -> Check {
    Check {
        id: 12,
        url: String::from("https://example.com/"),
        rate: 60,
        last_start: None,
        last_end,
        http_status,
        meta: Some(MetaValue::Decoded(CheckMeta::default())),
        user_id: 1,
    }
}

#[test]
fn passwords_are_hashed_twice() {
    let h = process_pass("hunter2").unwrap();
    assert_eq!(h.len(), 60);
    assert!(h.starts_with("$2b$10$"));
    assert_ne!(h, "hunter2");
    let again = process_pass("hunter2").unwrap();
    assert_ne!(h, again);
    // The bcrypt layer is taken over the SHA-512 crypt hash, not over the
    // password itself.
    assert!(!pwhash::bcrypt::verify("hunter2", &h));
}

#[test]
fn errors_raise_alerts() {
    let a = alert_on_error_code(&check(Some(1_496_318_400_000_000), Some(503))).unwrap();
    assert_eq!(a.url, "https://example.com/");
    assert_eq!(a.fallback, "https://example.com/, \"2017-06-01T12:00:00\" - 503");
    assert_eq!(a.text, "\"2017-06-01T12:00:00\" - code: 503");
    let unknown = alert_on_error_code(&check(None, None)).unwrap();
    assert_eq!(unknown.text, "\"No timestamp for last check end, id: 12\" - code: 418");
    assert!(alert_on_error_code(&check(None, Some(200))).is_none());
    assert!(alert_on_error_code(&check(None, Some(400))).is_none());
    assert!(alert_on_error_code(&check(None, Some(401))).is_some());
}

#[test]
fn alerts_make_one_attachment() {
    let a = alert_on_error_code(&check(None, Some(500))).unwrap();
    let m = a.message();
    assert_eq!(m.attachments.len(), 1);
    let at = &m.attachments[0];
    assert_eq!(at.fallback, a.fallback);
    assert_eq!(at.text, a.text);
    assert_eq!(at.title, "https://example.com/");
    assert_eq!(at.title_link, "https://example.com/");
    assert_eq!(at.color, "#DC143C");
    assert_eq!(at.pretext, "");
    assert_eq!(at.image_url, "");
    assert!(at.fields.is_empty());
}

#[test]
fn webhook_urls() {
    assert_eq!(hook_endpoint("https://chat.example", "abc123"), "https://chat.example/hooks/abc123");
}
