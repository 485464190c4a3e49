use ringer::api::HttpError;
use ringer::models::{NewUser, Session};
use ringer::user::{
    binary_search, generate_invite_codes, login_gate, redeem_invite_code, register_gate, session_gate,
    SessionGate,
};

fn codes(xs: &[&str]) -> Vec<String> {
    xs.iter().map(|x| x.to_string()).collect()
}

#[test]
fn sessions_pass_until_expiry() {
    let s = Session { id: 1, ext_id: String::from("x1"), valid_until: 100 };
    assert_eq!(session_gate(Some(&s), 99), SessionGate::Admit);
    assert_eq!(session_gate(Some(&s), 100), SessionGate::Expired);
    assert_eq!(session_gate(None, 0), SessionGate::Unknown);
}

#[test]
fn invite_codes_are_ten_alphanumerics() {
    let mut v = codes(&["keep"]);
    generate_invite_codes(&mut v, 5);
    assert_eq!(v.len(), 6);
    assert_eq!(v[0], "keep");
    for c in &v[1..] {
        assert_eq!(c.len(), 10);
        assert!(c.chars().all(|ch| ch.is_ascii_alphanumeric()));
    }
    generate_invite_codes(&mut v, 0);
    assert_eq!(v.len(), 6);
}

#[test]
fn search_finds_sorted_codes() {
    let v = codes(&["AAA", "BBB", "CCC", "DDD"]);
    assert_eq!(binary_search(&v, "AAA"), Some(0));
    assert_eq!(binary_search(&v, "CCC"), Some(2));
    assert_eq!(binary_search(&v, "DDD"), Some(3));
    assert_eq!(binary_search(&v, "BBA"), None);
    assert_eq!(binary_search(&Vec::new(), "AAA"), None);
}

#[test]
fn redeeming_uses_a_code_up() {
    let mut v = codes(&["AAA", "BBB", "CCC", "DDD"]);
    assert!(redeem_invite_code(&mut v, "BBB"));
    assert_eq!(v, codes(&["AAA", "DDD", "CCC"]));
    assert!(!redeem_invite_code(&mut v, "ZZZ"));
    assert_eq!(v, codes(&["AAA", "DDD", "CCC"]));
}

#[test]
fn registration_gates() {
    let mut v = codes(&["AAA", "BBB"]);
    assert_eq!(register_gate(true, Some("AAA"), &mut v), Err(HttpError::Conflict));
    assert_eq!(v.len(), 2);
    assert_eq!(register_gate(false, None, &mut v), Ok(()));
    assert_eq!(v.len(), 2);
    assert_eq!(register_gate(false, Some("CCC"), &mut v), Err(HttpError::Forbidden));
    assert_eq!(register_gate(false, Some("AAA"), &mut v), Ok(()));
    assert_eq!(v, codes(&["BBB"]));
}

#[test]
fn new_users_store_a_hash() {
    let mut u = NewUser { email: String::from("a@b.c"), pass: String::from("pw"), created: 5 };
    assert_eq!(u.hash_password(), Ok(()));
    assert_eq!(u.email, "a@b.c");
    assert_eq!(u.created, 5);
    assert!(u.pass.starts_with("$2b$10$"));
    assert_eq!(u.pass.len(), 60);
}

#[test]
fn logins_need_a_user_and_its_password() {
    assert_eq!(login_gate(false, false), Err(HttpError::Unauthorized));
    assert_eq!(login_gate(false, true), Err(HttpError::Unauthorized));
    assert_eq!(login_gate(true, false), Err(HttpError::Forbidden));
    assert_eq!(login_gate(true, true), Ok(()));
}
