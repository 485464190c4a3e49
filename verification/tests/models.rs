use ringer::models::{
    Check, CheckMeta, MetaValue, NewCheck, NewCheckRun, NewSession, RunError, SerdeCheck,
    Session,
};
use ringer::time::MICROS_PER_HOUR;

const NOON: i64 = 1_496_318_400_000_000; // 2017-06-01 12:00:00 UTC

fn check(last_start: Option<i64>, last_end: Option<i64>, http_status: Option<i32>) -> Check {
    Check {
        id: 7,
        url: String::from("https://www.rust-lang.org/"),
        rate: 60,
        last_start,
        last_end,
        http_status,
        meta: Some(MetaValue::Decoded(CheckMeta::default())),
        user_id: 3,
    }
}

#[test]
fn sessions_last_one_hour() {
    let fresh = NewSession::new(NOON, "abc");
    assert_eq!(fresh.ext_id, "xabc");
    assert_eq!(fresh.valid_until, NOON + MICROS_PER_HOUR);
    let stored = Session { id: 1, ext_id: fresh.ext_id.clone(), valid_until: fresh.valid_until };
    assert!(stored.is_valid(NOON));
    assert!(stored.is_valid(NOON + MICROS_PER_HOUR - 1));
    assert!(!stored.is_valid(NOON + MICROS_PER_HOUR));
}

#[test]
fn new_checks_start_blank() {
    let c = Check::from(NewCheck { url: String::from("google.com"), rate: 60, user_id: 5 });
    assert_eq!(c.id, 0);
    assert_eq!(c.url, "google.com");
    assert_eq!(c.rate, 60);
    assert_eq!(c.user_id, 5);
    assert_eq!(c.last_start, None);
    assert_eq!(c.last_end, None);
    assert_eq!(c.http_status, None);
    let meta = c.decoded_meta().unwrap();
    assert_eq!(meta.checkers, vec![String::from("alert_on_error_code")]);
    assert_eq!(meta.state, None);
    assert!(c.conditional_perform(NOON));
}

#[test]
fn validity_follows_option_order() {
    assert!(!check(None, None, None).valid());
    assert!(check(None, Some(NOON), None).valid());
    assert!(!check(Some(NOON), None, None).valid());
    assert!(check(Some(NOON), Some(NOON + 1), None).valid());
    assert!(!check(Some(NOON), Some(NOON), None).valid());
    assert!(!check(Some(NOON + 1), Some(NOON), None).valid());
}

#[test]
fn due_checks_follow_their_rate() {
    let c = check(Some(NOON - 1_000_000), Some(NOON), Some(200));
    assert_eq!(c.duration_since_last_end(NOON + 59_999_999), 59);
    assert!(!c.conditional_perform(NOON + 59_999_999));
    assert!(c.conditional_perform(NOON + 60_000_000));
    assert_eq!(c.duration_since_last_end(NOON - 1_500_000), -1);
    assert_eq!(check(None, None, None).duration_since_last_end(NOON), i32::MAX);
}

#[test]
fn setters_touch_one_field() {
    let mut c = check(None, None, None);
    c.u_last_start(NOON);
    c.u_last_end(NOON + 250_000);
    c.u_http_status(404);
    assert_eq!(c.last_start, Some(NOON));
    assert_eq!(c.last_end, Some(NOON + 250_000));
    assert_eq!(c.http_status, Some(404));
    c.u_http_status(u32::MAX);
    assert_eq!(c.http_status, Some(-1));
    let mut meta = CheckMeta::default();
    meta.state = Some(String::from("body"));
    c.u_meta(meta.clone());
    assert_eq!(c.meta, Some(MetaValue::Decoded(meta)));
}

#[test]
fn metadata_must_decode() {
    let mut c = check(None, None, None);
    c.meta = None;
    assert_eq!(c.decoded_meta(), Err(RunError::MetaUndecodable));
    c.meta = Some(MetaValue::Undecodable);
    assert_eq!(c.decoded_meta(), Err(RunError::MetaUndecodable));
}

#[test]
fn response_bodies_must_be_utf8() {
    let mut meta = CheckMeta::default();
    assert_eq!(meta.set_state_from_body(b"<html>ok</html>".to_vec()), Ok(()));
    assert_eq!(meta.state, Some(String::from("<html>ok</html>")));
    assert_eq!(meta.set_state_from_body(vec![0xff, 0xfe]), Err(RunError::BodyNotUtf8));
    assert_eq!(meta.state, Some(String::from("<html>ok</html>")));
    assert_eq!(meta.checkers, vec![String::from("alert_on_error_code")]);
}

#[test]
fn runs_measure_latency() {
    let c = check(Some(NOON), Some(NOON + 1_234_567), Some(200));
    let run = NewCheckRun::from(&c);
    assert_eq!(run.check_id, 7);
    assert_eq!(run.starttime, NOON);
    assert_eq!(run.endtime, NOON + 1_234_567);
    assert_eq!(run.http_status, 200);
    assert_eq!(run.latency, 1234);
    let backwards = check(Some(NOON + 1_500), Some(NOON), Some(500));
    assert_eq!(NewCheckRun::from(&backwards).latency, -1);
}

#[test]
fn checks_for_clients() {
    let c = check(Some(NOON - 1_500_000), Some(NOON), Some(200));
    let s = SerdeCheck::from(&c, NOON + 2 * 24 * MICROS_PER_HOUR);
    assert_eq!(s.id, 7);
    assert_eq!(s.url, "https://www.rust-lang.org/");
    assert_eq!(s.rate, 60);
    assert_eq!(s.last_start, Some(String::from("2017-06-01 11:59:58.500")));
    assert_eq!(s.last_end, Some(String::from("2017-06-01 12:00:00")));
    assert_eq!(s.http_status, Some(200));
    assert_eq!(s.humanized_end, Some(String::from("2 days ago")));
    let blank = SerdeCheck::from(&check(None, None, None), NOON);
    assert_eq!((blank.last_start, blank.last_end, blank.humanized_end), (None, None, None));
    let all = Check::for_serde(vec![c.clone(), check(None, None, None)], NOON);
    assert_eq!(all.len(), 2);
    assert_eq!(all[0].last_end, Some(String::from("2017-06-01 12:00:00")));
    assert_eq!(all[1].last_end, None);
}

#[test]
fn searches_in_lower_case() {
    assert_eq!(Check::search_pattern("%Rust-Lang%"), "%rust-lang%");
    assert_eq!(Check::search_pattern("ÄB"), "äb");
}

#[test]
fn session_seeds_use_whole_seconds() {
    assert_eq!(NewSession::seed(NOON + 999_999, "pepper"), "1496318400pepper");
    assert_eq!(NewSession::seed(0, ""), "0");
    assert_eq!(NewSession::seed(-1, "p"), "-1p");
    assert_eq!(NewSession::seed(-1_000_000, ""), "-1");
    assert_eq!(NewSession::seed(-1_000_001, ""), "-2");
}

#[test]
fn runs_are_recorded_step_by_step() {
    let mut c = check(None, None, None);
    let run = c.record_run(NOON, NOON + 250_000, b"up".to_vec(), Some(200)).unwrap();
    assert_eq!(
        run,
        NewCheckRun { check_id: 7, starttime: NOON, endtime: NOON + 250_000, http_status: 200, latency: 250 }
    );
    assert_eq!(c.last_start, Some(NOON));
    assert_eq!(c.last_end, Some(NOON + 250_000));
    assert_eq!(c.http_status, Some(200));
    match &c.meta {
        Some(MetaValue::Decoded(m)) => {
            assert_eq!(m.checkers, vec![String::from("alert_on_error_code")]);
            assert_eq!(m.state, Some(String::from("up")));
        }
        other => panic!("unexpected metadata {:?}", other),
    }
    assert_eq!(c.url, "https://www.rust-lang.org/");
    assert_eq!(c.id, 7);
}

#[test]
fn failed_runs_keep_the_steps_before_the_failure() {
    let mut undecodable = check(None, None, Some(503));
    undecodable.meta = Some(MetaValue::Undecodable);
    assert_eq!(undecodable.record_run(NOON, NOON + 1, b"x".to_vec(), Some(200)), Err(RunError::MetaUndecodable));
    assert_eq!(undecodable.last_start, Some(NOON));
    assert_eq!(undecodable.last_end, None);
    assert_eq!(undecodable.http_status, Some(503));
    assert_eq!(undecodable.meta, Some(MetaValue::Undecodable));

    let mut missing = check(None, None, None);
    missing.meta = None;
    assert_eq!(missing.record_run(NOON, NOON + 1, b"x".to_vec(), Some(200)), Err(RunError::MetaUndecodable));
    assert_eq!(missing.meta, None);

    let mut binary = check(None, None, Some(503));
    assert_eq!(binary.record_run(NOON, NOON + 1, vec![0xff, 0xfe], Some(200)), Err(RunError::BodyNotUtf8));
    assert_eq!(binary.last_start, Some(NOON));
    assert_eq!(binary.last_end, Some(NOON + 1));
    assert_eq!(binary.http_status, Some(503));
    assert_eq!(binary.meta, Some(MetaValue::Decoded(CheckMeta::default())));

    let mut silent = check(None, None, Some(503));
    assert_eq!(silent.record_run(NOON, NOON + 1, b"ok".to_vec(), None), Err(RunError::NoStatus));
    assert_eq!(silent.last_end, Some(NOON + 1));
    assert_eq!(silent.http_status, Some(503));
    match &silent.meta {
        Some(MetaValue::Decoded(m)) => assert_eq!(m.state, Some(String::from("ok"))),
        other => panic!("unexpected metadata {:?}", other),
    }
}
