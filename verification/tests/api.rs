use ringer::api::{
    format_sse, key_auth, newcheck_from_request, newuser_from_request, parse_id, validate_rate,
    validate_url, HttpError, JsonBody, JsonField, RequestError,
};
use ringer::text::IntError;

fn body(members: &[(&str, JsonField)]) -> JsonBody {
    JsonBody::Object(members.iter().map(|(k, v)| (k.to_string(), v.clone())).collect())
}

fn s(x: &str) -> JsonField {
    JsonField::Str(x.to_string())
}

#[test]
fn server_sent_events_end_with_a_newline() {
    assert_eq!(format_sse("[1,2]"), "event: message\ndata: [1,2]\n");
    assert_eq!(format_sse(""), "event: message\ndata: \n");
}

#[test]
fn rates_start_at_sixty() {
    assert_eq!(validate_rate(60), Ok(60));
    assert_eq!(validate_rate(3600), Ok(3600));
    assert_eq!(validate_rate(59), Err(RequestError::RateTooLow));
    assert_eq!(validate_rate(-5), Err(RequestError::RateTooLow));
    assert_eq!(validate_rate(4_294_967_356), Ok(60));
}

#[test]
fn urls_must_parse() {
    assert_eq!(validate_url("https://www.rust-lang.org/"), Ok(String::from("https://www.rust-lang.org/")));
    assert_eq!(validate_url("google.com"), Err(RequestError::InvalidUrl));
    assert_eq!(validate_url(""), Err(RequestError::InvalidUrl));
}

#[test]
fn check_requests_are_read_url_first() {
    let ok = body(&[("rate", s("120")), ("url", s("http://example.com/"))]);
    let c = newcheck_from_request(&ok, 4).unwrap();
    assert_eq!((c.url.as_str(), c.rate, c.user_id), ("http://example.com/", 120, 4));
    assert_eq!(newcheck_from_request(&JsonBody::Absent, 4).err(), Some(RequestError::NoJson));
    assert_eq!(newcheck_from_request(&JsonBody::NotObject, 4).err(), Some(RequestError::NotObject));
    assert_eq!(newcheck_from_request(&body(&[]), 4).err(), Some(RequestError::UrlMissing));
    assert_eq!(
        newcheck_from_request(&body(&[("url", JsonField::Other)]), 4).err(),
        Some(RequestError::UrlNotString)
    );
    assert_eq!(
        newcheck_from_request(&body(&[("url", s("nope")), ("rate", JsonField::Other)]), 4).err(),
        Some(RequestError::InvalidUrl)
    );
    let url = ("url", s("http://example.com/"));
    assert_eq!(newcheck_from_request(&body(&[url.clone()]), 4).err(), Some(RequestError::RateMissing));
    assert_eq!(
        newcheck_from_request(&body(&[url.clone(), ("rate", JsonField::Other)]), 4).err(),
        Some(RequestError::RateNotString)
    );
    assert_eq!(
        newcheck_from_request(&body(&[url.clone(), ("rate", s("sixty"))]), 4).err(),
        Some(RequestError::RateNotInteger(IntError::InvalidDigit))
    );
    assert_eq!(
        newcheck_from_request(&body(&[url.clone(), ("rate", s(""))]), 4).err(),
        Some(RequestError::RateNotInteger(IntError::Empty))
    );
    assert_eq!(
        newcheck_from_request(&body(&[url.clone(), ("rate", s("30"))]), 4).err(),
        Some(RequestError::RateTooLow)
    );
    let first = body(&[("url", s("http://a.example/")), ("url", s("http://b.example/")), ("rate", s("60"))]);
    assert_eq!(newcheck_from_request(&first, 1).unwrap().url, "http://a.example/");
}

#[test]
fn refusals_explain_themselves() {
    assert_eq!(RequestError::NoJson.message(), "no json data found");
    assert_eq!(RequestError::RateTooLow.message(), "rate must be greater than 60 seconds");
    assert_eq!(
        RequestError::RateNotInteger(IntError::InvalidDigit).message(),
        "abc".parse::<i64>().unwrap_err().to_string()
    );
    assert_eq!(
        RequestError::RateNotInteger(IntError::Empty).message(),
        "".parse::<i64>().unwrap_err().to_string()
    );
    assert_eq!(
        RequestError::RateNotInteger(IntError::PosOverflow).message(),
        "99999999999999999999".parse::<i64>().unwrap_err().to_string()
    );
    assert_eq!(
        RequestError::RateNotInteger(IntError::NegOverflow).message(),
        "-99999999999999999999".parse::<i64>().unwrap_err().to_string()
    );
}

#[test]
fn user_requests() {
    let u = newuser_from_request(&body(&[("email", s("a@b.c")), ("pass", s("pw"))]), 99).unwrap();
    assert_eq!((u.email.as_str(), u.pass.as_str(), u.created), ("a@b.c", "pw", 99));
    assert_eq!(newuser_from_request(&JsonBody::Absent, 0).err(), Some(RequestError::NoJson));
    assert_eq!(newuser_from_request(&body(&[("pass", s("pw"))]), 0).err(), Some(RequestError::EmailMissing));
    assert_eq!(
        newuser_from_request(&body(&[("email", JsonField::Other)]), 0).err(),
        Some(RequestError::EmailNotString)
    );
    assert_eq!(newuser_from_request(&body(&[("email", s("a"))]), 0).err(), Some(RequestError::PassMissing));
    assert_eq!(
        newuser_from_request(&body(&[("email", s("a")), ("pass", JsonField::Other)]), 0).err(),
        Some(RequestError::PassNotString)
    );
}

#[test]
fn ids_default_to_minus_one() {
    assert_eq!(parse_id("42"), 42);
    assert_eq!(parse_id("-3"), -3);
    assert_eq!(parse_id("forty-two"), -1);
    assert_eq!(parse_id(""), -1);
    assert_eq!(parse_id("2147483648"), -1);
}

#[test]
fn only_the_master_key_passes() {
    assert_eq!(key_auth(Some("secret"), "secret"), None);
    assert_eq!(key_auth(Some("guess"), "secret"), Some(HttpError::Unauthorized));
    assert_eq!(key_auth(None, "secret"), Some(HttpError::Unauthorized));
}

#[test]
fn accepted_rates_are_cut_to_32_bits() {
    let url = ("url", s("http://example.com/"));
    let ok = newcheck_from_request(&body(&[url.clone(), ("rate", s("120"))]), 2).unwrap();
    assert!(ok.rate >= 60);
    let huge = newcheck_from_request(&body(&[url.clone(), ("rate", s("4294967306"))]), 2).unwrap();
    assert_eq!(huge.rate, 10);
}
