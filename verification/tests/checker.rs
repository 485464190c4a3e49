use ringer::checker::{idle_plan, min_rate, publish_endpoint, Checker};
use ringer::models::Check;

fn with_rate(rate: i32) -> Check {
    Check {
        id: 1,
        url: String::from("http://example.com/"),
        rate,
        last_start: None,
        last_end: None,
        http_status: None,
        meta: None,
        user_id: 1,
    }
}

#[test]
fn smallest_rate_is_at_most_sixty() {
    assert_eq!(min_rate(&[]), 60);
    assert_eq!(min_rate(&[with_rate(300), with_rate(120)]), 60);
    assert_eq!(min_rate(&[with_rate(300), with_rate(30), with_rate(45)]), 30);
    assert_eq!(min_rate(&[with_rate(-1)]), u64::MAX);
}

#[test]
fn known_checkers() {
    assert_eq!(Checker::from_name("alert_on_error_code"), Some(Checker::AlertOnErrorCode));
    assert_eq!(Checker::from_name("alert_on_error"), None);
    assert_eq!(Checker::from_name(""), None);
}

#[test]
fn publish_urls() {
    assert_eq!(
        publish_endpoint("http://api", "v0", "k", 17),
        "http://api/v0/check:publish?key=k?user_id=17"
    );
    assert_eq!(publish_endpoint("", "", "", -1), "//check:publish?key=?user_id=-1");
}

#[test]
fn idling_shortens_after_quick_rounds() {
    let p = idle_plan(0, 3_500_000);
    assert_eq!((p.ticks, p.interval_secs), (6, 7));
    let p = idle_plan(0, 12_000_000);
    assert_eq!((p.ticks, p.interval_secs), (6, 10));
    let p = idle_plan(0, 0);
    assert_eq!((p.ticks, p.interval_secs), (6, 10));
    let p = idle_plan(5_000_000, 0);
    assert_eq!((p.ticks, p.interval_secs), (6, 10));
}
