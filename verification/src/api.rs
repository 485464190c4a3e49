//! What the HTTP API decides: server-sent events, the validation of the
//! JSON bodies and query arguments of requests, and key authentication.

use vstd::prelude::*;
use crate::models::{NewCheck, NewUser};
use crate::text::{parse_i64_spec, parse_i32_spec, parse_i64, parse_i32, str_eq, IntError};

verus! {

/// An event of a server-sent event stream that carries `payload`. The
/// trailing newline keeps the data line parsable as JSON.
pub fn format_sse(payload: &str) -> (r: String)
    ensures
        r@ == "event: message\ndata: "@ + payload@ + "\n"@,
{
    let mut r = String::from_str("event: message\ndata: ");
    r.append(payload);
    r.append("\n");
    r
}

/// Why a request was refused.
#[derive(Debug, Clone, Copy, PartialEq, Eq)]
pub enum RequestError {
    NoJson,
    NotObject,
    UrlMissing,
    UrlNotString,
    InvalidUrl,
    RateMissing,
    RateNotString,
    RateNotInteger(IntError),
    RateTooLow,
    EmailMissing,
    EmailNotString,
    PassMissing,
    PassNotString,
}

impl RequestError {
    /// The message that explains the refusal.
    pub fn message(&self) -> (m: &'static str)
        ensures
            m@ == spec_request_message(*self),
    {
        match self {
            RequestError::NoJson => "no json data found",
            RequestError::NotObject => "data must be wrapped in a JSON object",
            RequestError::UrlMissing => "url is mandatory!",
            RequestError::UrlNotString => "url needs to be a JSON string!",
            RequestError::InvalidUrl => "invalid url",
            RequestError::RateMissing => "rate is mandatory!",
            RequestError::RateNotString => "rate needs to be an integer!",
            RequestError::RateNotInteger(IntError::Empty) => "cannot parse integer from empty string",
            RequestError::RateNotInteger(IntError::InvalidDigit) => "invalid digit found in string",
            RequestError::RateNotInteger(IntError::PosOverflow) => "number too large to fit in target type",
            RequestError::RateNotInteger(IntError::NegOverflow) => "number too small to fit in target type",
            RequestError::RateTooLow => "rate must be greater than 60 seconds",
            RequestError::EmailMissing => "email is mandatory!",
            RequestError::EmailNotString => "invalid email",
            RequestError::PassMissing => "password is mandatory!",
            RequestError::PassNotString => "invalid password",
        }
    }
}

/// The message of each refusal.
pub open spec fn spec_request_message(e: RequestError) -> Seq<char> {
    match e {
        RequestError::NoJson => "no json data found"@,
        RequestError::NotObject => "data must be wrapped in a JSON object"@,
        RequestError::UrlMissing => "url is mandatory!"@,
        RequestError::UrlNotString => "url needs to be a JSON string!"@,
        RequestError::InvalidUrl => "invalid url"@,
        RequestError::RateMissing => "rate is mandatory!"@,
        RequestError::RateNotString => "rate needs to be an integer!"@,
        RequestError::RateNotInteger(IntError::Empty) => "cannot parse integer from empty string"@,
        RequestError::RateNotInteger(IntError::InvalidDigit) => "invalid digit found in string"@,
        RequestError::RateNotInteger(IntError::PosOverflow) => "number too large to fit in target type"@,
        RequestError::RateNotInteger(IntError::NegOverflow) => "number too small to fit in target type"@,
        RequestError::RateTooLow => "rate must be greater than 60 seconds"@,
        RequestError::EmailMissing => "email is mandatory!"@,
        RequestError::EmailNotString => "invalid email"@,
        RequestError::PassMissing => "password is mandatory!"@,
        RequestError::PassNotString => "invalid password"@,
    }
}

/// A rate in seconds is accepted from 60 on; it is then cut to `i32` as
/// `rate as i32` does.
pub fn validate_rate(rate: i64) -> (r: Result<i32, RequestError>)
    ensures
        rate >= 60 ==> r == Ok::<i32, RequestError>(rate as i32),
        rate < 60 ==> r == Err::<i32, RequestError>(RequestError::RateTooLow),
{
    if rate >= 60 {
        Ok(rate as i32)
    } else {
        Err(RequestError::RateTooLow)
    }
}

#[verifier::external_type_specification]
#[verifier::external_body]
pub struct ExUrl(url::Url);

#[verifier::external_type_specification]
#[verifier::external_body]
pub struct ExUrlParseError(url::ParseError);

/// Whether `url::Url::parse` accepts `s` as an absolute URL.
pub uninterp spec fn url_parses(s: Seq<char>) -> bool;

/// Calls `url::Url::parse`. Claims that it succeeds exactly when
/// `url_parses(s@)`, a function of `s` alone.
#[verifier::external_body]
fn parse_url(s: &str) -> (r: Result<url::Url, url::ParseError>)
    ensures
        r is Ok <==> url_parses(s@),
{
    url::Url::parse(s)
}

/// A URL is accepted when `url::Url::parse` accepts it; it is kept as given.
pub fn validate_url(url: &str) -> (r: Result<String, RequestError>)
    ensures
        url_parses(url@) ==> (r matches Ok(s) && s@ == url@),
        !url_parses(url@) ==> r == Err::<String, RequestError>(RequestError::InvalidUrl),
{
    match parse_url(url) {
        Ok(_) => Ok(String::from_str(url)),
        Err(_) => Err(RequestError::InvalidUrl),
    }
}

/// The value of one member of a JSON object, as far as the API reads it.
#[derive(Debug, Clone, PartialEq)]
pub enum JsonField {
    /// A JSON string.
    Str(String),
    /// Any other JSON value.
    Other,
}

/// The JSON body of a request, as far as the API reads it.
#[derive(Debug, Clone, PartialEq)]
pub enum JsonBody {
    /// The request has no JSON body.
    Absent,
    /// The body is JSON, but not an object.
    NotObject,
    /// The body is an object with these members.
    Object(Vec<(String, JsonField)>),
}

/// The value of the member named `key`: the first member with that name.
pub open spec fn field_of(members: Seq<(String, JsonField)>, key: Seq<char>) -> Option<JsonField>
    decreases members.len(),
{
    if members.len() == 0 {
        None
    } else if members[0].0@ == key {
        Some(members[0].1)
    } else {
        field_of(members.drop_first(), key)
    }
}

/// A member is read from its first occurrence: when the member at `i` is
/// named `key` and none before it is, the value read for `key` is that
/// member's value.
pub proof fn lemma_first_member_is_read(members: Seq<(String, JsonField)>, key: Seq<char>, i: int)
    requires
        0 <= i < members.len(),
        members[i].0@ == key,
        forall|j: int| 0 <= j < i ==> (#[trigger] members[j]).0@ != key,
    ensures
        field_of(members, key) == Some(members[i].1),
    decreases i,
{
    if i > 0 {
        let rest = members.drop_first();
        assert forall|j: int| 0 <= j < i - 1 implies (#[trigger] rest[j]).0@ != key by {
            assert(rest[j] == members[j + 1]);
        }
        assert(members[0].0@ != key);
        lemma_first_member_is_read(rest, key, i - 1);
    }
}

/// A key that no member has is read as absent.
pub proof fn lemma_absent_member_is_none(members: Seq<(String, JsonField)>, key: Seq<char>)
    requires
        forall|j: int| 0 <= j < members.len() ==> (#[trigger] members[j]).0@ != key,
    ensures
        field_of(members, key) is None,
    decreases members.len(),
{
    if members.len() > 0 {
        let rest = members.drop_first();
        assert forall|j: int| 0 <= j < rest.len() implies (#[trigger] rest[j]).0@ != key by {
            assert(rest[j] == members[j + 1]);
        }
        assert(members[0].0@ != key);
        lemma_absent_member_is_none(rest, key);
    }
}

/// The index of the first member named `key`.
fn find_member(members: &Vec<(String, JsonField)>, key: &str) -> (r: Option<usize>)
    ensures
        r is None <==> field_of(members@, key@) is None,
        r matches Some(i) ==> i < members@.len() && field_of(members@, key@) == Some(members@[i as int].1),
{
    let mut i: usize = 0;
    assert(members@.subrange(0, members@.len() as int) =~= members@);
    while i < members.len()
        invariant
            i <= members@.len(),
            field_of(members@, key@) == field_of(members@.subrange(i as int, members@.len() as int), key@),
        decreases members@.len() - i,
    {
        let ghost rest = members@.subrange(i as int, members@.len() as int);
        assert(rest[0] == members@[i as int]);
        assert(rest.drop_first() =~= members@.subrange(i + 1, members@.len() as int));
        if str_eq(members[i].0.as_str(), key) {
            return Some(i);
        }
        i = i + 1;
    }
    None
}

/// The URL that a body asks for, or why it is refused.
pub open spec fn url_outcome(body: JsonBody) -> Result<Seq<char>, RequestError> {
    match body {
        JsonBody::Absent => Err(RequestError::NoJson),
        JsonBody::NotObject => Err(RequestError::NotObject),
        JsonBody::Object(members) => match field_of(members@, "url"@) {
            None => Err(RequestError::UrlMissing),
            Some(JsonField::Other) => Err(RequestError::UrlNotString),
            Some(JsonField::Str(s)) => if url_parses(s@) { Ok(s@) } else { Err(RequestError::InvalidUrl) },
        },
    }
}

/// The rate that an object body asks for, or why it is refused: the member
/// must be a JSON string that reads as an `i64` of at least 60.
pub open spec fn rate_outcome(body: JsonBody) -> Result<i32, RequestError> {
    match body {
        JsonBody::Object(members) => match field_of(members@, "rate"@) {
            None => Err(RequestError::RateMissing),
            Some(JsonField::Other) => Err(RequestError::RateNotString),
            Some(JsonField::Str(s)) => match parse_i64_spec(s@) {
                Err(e) => Err(RequestError::RateNotInteger(e)),
                Ok(v) => if v >= 60 { Ok(v as i32) } else { Err(RequestError::RateTooLow) },
            },
        },
        _ => Err(RequestError::NotObject),
    }
}

/// A check request is read as its members say. An object body whose `url`
/// member is a string that `url::Url::parse` accepts asks for exactly that
/// URL; one whose `rate` member is a string that reads as the integer `v`
/// asks for the rate `v` (cut to `i32`) when `v` is at least 60, and is
/// refused as too low otherwise; so every rate from 60 to `i32::MAX` is
/// accepted unchanged.
pub proof fn lemma_check_request_reads_members(members: Vec<(String, JsonField)>, url: String, rate: String, v: i64)
    requires
        field_of(members@, "url"@) == Some(JsonField::Str(url)),
        url_parses(url@),
        field_of(members@, "rate"@) == Some(JsonField::Str(rate)),
        parse_i64_spec(rate@) == Ok::<i64, IntError>(v),
    ensures
        url_outcome(JsonBody::Object(members)) == Ok::<Seq<char>, RequestError>(url@),
        60 <= v ==> rate_outcome(JsonBody::Object(members)) == Ok::<i32, RequestError>(v as i32),
        60 <= v <= i32::MAX ==> rate_outcome(JsonBody::Object(members)) == Ok::<i32, RequestError>(v as i32)
            && (v as i32) == v,
        v < 60 ==> rate_outcome(JsonBody::Object(members)) == Err::<i32, RequestError>(RequestError::RateTooLow),
{
}

/// Each refusal of a check request names what is wrong with it: no JSON,
/// no object, a missing, non-string or unparsable `url` (looked at first),
/// then a missing or non-string `rate`, or one that reads as no `i64`, with
/// the reason the number was refused.
pub proof fn lemma_check_request_refusals(body: JsonBody)
    ensures
        body is Absent ==> url_outcome(body) == Err::<Seq<char>, RequestError>(RequestError::NoJson),
        body is NotObject ==> url_outcome(body) == Err::<Seq<char>, RequestError>(RequestError::NotObject),
        body matches JsonBody::Object(m) ==> {
            &&& field_of(m@, "url"@) is None ==> url_outcome(body) == Err::<Seq<char>, RequestError>(RequestError::UrlMissing)
            &&& field_of(m@, "url"@) == Some(JsonField::Other) ==> url_outcome(body) == Err::<Seq<char>, RequestError>(RequestError::UrlNotString)
            &&& match field_of(m@, "url"@) {
                Some(JsonField::Str(u)) => !url_parses(u@) ==> url_outcome(body) == Err::<Seq<char>, RequestError>(RequestError::InvalidUrl),
                _ => true,
            }
            &&& field_of(m@, "rate"@) is None ==> rate_outcome(body) == Err::<i32, RequestError>(RequestError::RateMissing)
            &&& field_of(m@, "rate"@) == Some(JsonField::Other) ==> rate_outcome(body) == Err::<i32, RequestError>(RequestError::RateNotString)
            &&& match field_of(m@, "rate"@) {
                Some(JsonField::Str(t)) => match parse_i64_spec(t@) {
                    Err(e) => rate_outcome(body) == Err::<i32, RequestError>(RequestError::RateNotInteger(e)),
                    Ok(_) => true,
                },
                _ => true,
            }
        },
{
}

/// The check that a request body asks for, owned by `user_id`. The URL is
/// read first: a body with a bad URL is refused for its URL.
pub fn newcheck_from_request(body: &JsonBody, user_id: i32) -> (r: Result<NewCheck, RequestError>)
    ensures
        match url_outcome(*body) {
            Err(e) => r == Err::<NewCheck, RequestError>(e),
            Ok(u) => match rate_outcome(*body) {
                Err(e) => r == Err::<NewCheck, RequestError>(e),
                Ok(rate) => r matches Ok(c) && c.url@ == u && c.rate == rate && c.user_id == user_id,
            },
        },
        match *body {
            JsonBody::Object(members) => match (field_of(members@, "url"@), field_of(members@, "rate"@)) {
                (Some(JsonField::Str(u)), Some(JsonField::Str(rt))) => url_parses(u@) ==> match parse_i64_spec(rt@) {
                    Ok(v) => 60 <= v ==> (r matches Ok(c) && c.url@ == u@ && c.rate == v as i32 && c.user_id == user_id),
                    Err(e) => r == Err::<NewCheck, RequestError>(RequestError::RateNotInteger(e)),
                },
                _ => true,
            },
            _ => r is Err,
        },
{
    let members = match body {
        JsonBody::Absent => return Err(RequestError::NoJson),
        JsonBody::NotObject => return Err(RequestError::NotObject),
        JsonBody::Object(members) => members,
    };
    proof { reveal_strlit("url"); reveal_strlit("rate"); }
    let url = match find_member(members, "url") {
        None => return Err(RequestError::UrlMissing),
        Some(i) => match &members[i].1 {
            JsonField::Str(s) => validate_url(s.as_str())?,
            JsonField::Other => return Err(RequestError::UrlNotString),
        },
    };
    let rate = match find_member(members, "rate") {
        None => return Err(RequestError::RateMissing),
        Some(i) => match &members[i].1 {
            JsonField::Str(s) => match parse_i64(s.as_str()) {
                Ok(v) => validate_rate(v)?,
                Err(e) => return Err(RequestError::RateNotInteger(e)),
            },
            JsonField::Other => return Err(RequestError::RateNotString),
        },
    };
    Ok(NewCheck { url, rate, user_id })
}

/// What an accepted check request guarantees: its URL is one that
/// `url::Url::parse` accepts, and its rate, when the requested number of
/// seconds fits in an `i32`, is at least 60. (A larger request is cut to 32
/// bits, so "4294967306" gives a rate of 10.)
pub proof fn lemma_accepted_check_requests(body: JsonBody)
    requires
        url_outcome(body) is Ok,
        rate_outcome(body) is Ok,
    ensures
        url_parses(url_outcome(body)->Ok_0),
        ({
            let members = body->Object_0;
            let requested = parse_i64_spec(field_of(members@, "rate"@)->Some_0->Str_0@)->Ok_0;
            requested <= i32::MAX ==> rate_outcome(body)->Ok_0 >= 60
        }),
{
}

/// A string member `key` of an object body, or the refusals for a missing
/// member and for one that is no string.
pub open spec fn string_member(members: Seq<(String, JsonField)>, key: Seq<char>, missing: RequestError, not_string: RequestError) -> Result<Seq<char>, RequestError> {
    match field_of(members, key) {
        None => Err(missing),
        Some(JsonField::Other) => Err(not_string),
        Some(JsonField::Str(s)) => Ok(s@),
    }
}

/// A string member is taken verbatim: whatever the member named `key` holds
/// as a JSON string is what is read, with no character changed, dropped or
/// added; a missing member and one that is no string give their refusals.
pub proof fn lemma_string_member_is_verbatim(members: Seq<(String, JsonField)>, key: Seq<char>, missing: RequestError, not_string: RequestError)
    ensures
        field_of(members, key) matches Some(JsonField::Str(s)) ==> string_member(members, key, missing, not_string) == Ok::<Seq<char>, RequestError>(s@),
        field_of(members, key) is None ==> string_member(members, key, missing, not_string) == Err::<Seq<char>, RequestError>(missing),
        field_of(members, key) == Some(JsonField::Other) ==> string_member(members, key, missing, not_string) == Err::<Seq<char>, RequestError>(not_string),
{
}

/// Copies the string member at index `i`, or refuses it.
fn take_string_member(members: &Vec<(String, JsonField)>, at: Option<usize>, missing: RequestError, not_string: RequestError) -> (r: Result<String, RequestError>)
    requires
        at matches Some(i) ==> i < members@.len(),
    ensures
        match at {
            None => r == Err::<String, RequestError>(missing),
            Some(i) => match members@[i as int].1 {
                JsonField::Other => r == Err::<String, RequestError>(not_string),
                JsonField::Str(s) => r matches Ok(x) && x@ == s@,
            },
        },
{
    match at {
        None => Err(missing),
        Some(i) => match &members[i].1 {
            JsonField::Str(s) => Ok(s.clone()),
            JsonField::Other => Err(not_string),
        },
    }
}

/// The user that a request body describes, created at `now`. The email is
/// read first, then the password.
pub fn newuser_from_request(body: &JsonBody, now: i64) -> (r: Result<NewUser, RequestError>)
    ensures
        match *body {
            JsonBody::Absent => r == Err::<NewUser, RequestError>(RequestError::NoJson),
            JsonBody::NotObject => r == Err::<NewUser, RequestError>(RequestError::NotObject),
            JsonBody::Object(members) => match string_member(members@, "email"@, RequestError::EmailMissing, RequestError::EmailNotString) {
                Err(e) => r == Err::<NewUser, RequestError>(e),
                Ok(email) => match string_member(members@, "pass"@, RequestError::PassMissing, RequestError::PassNotString) {
                    Err(e) => r == Err::<NewUser, RequestError>(e),
                    Ok(pass) => r matches Ok(u) && u.email@ == email && u.pass@ == pass && u.created == now,
                },
            },
        },
        match *body {
            JsonBody::Object(members) => match (field_of(members@, "email"@), field_of(members@, "pass"@)) {
                (Some(JsonField::Str(e)), Some(JsonField::Str(p))) =>
                    r matches Ok(u) && u.email@ == e@ && u.pass@ == p@ && u.created == now,
                _ => r is Err,
            },
            _ => r is Err,
        },
{
    let members = match body {
        JsonBody::Absent => return Err(RequestError::NoJson),
        JsonBody::NotObject => return Err(RequestError::NotObject),
        JsonBody::Object(members) => members,
    };
    proof { reveal_strlit("email"); reveal_strlit("pass"); }
    let email = take_string_member(members, find_member(members, "email"), RequestError::EmailMissing, RequestError::EmailNotString)?;
    let pass = take_string_member(members, find_member(members, "pass"), RequestError::PassMissing, RequestError::PassNotString)?;
    Ok(NewUser { email, pass, created: now })
}

/// The check id named by a query argument: the argument read as an `i32`,
/// or -1 when it is no `i32`.
pub fn parse_id(arg: &str) -> (id: i32)
    ensures
        id == match parse_i32_spec(arg@) {
            Ok(v) => v,
            Err(_) => -1i32,
        },
{
    match parse_i32(arg) {
        Ok(v) => v,
        Err(_) => -1,
    }
}

/// The HTTP errors with which the API refuses a request.
#[derive(Debug, Clone, Copy, PartialEq, Eq)]
pub enum HttpError {
    BadRequest,
    Unauthorized,
    Forbidden,
    Conflict,
    UnprocessableEntity,
    InternalServerError,
}

/// Admits a request whose `key` argument is the master key; refuses any
/// other as unauthorized.
pub fn key_auth(key: Option<&str>, master: &str) -> (r: Option<HttpError>)
    ensures
        r is None <==> (key matches Some(k) && k@ == master@),
        r is Some ==> r == Some(HttpError::Unauthorized),
{
    match key {
        Some(k) => if str_eq(k, master) { None } else { Some(HttpError::Unauthorized) },
        None => Some(HttpError::Unauthorized),
    }
}

} // verus!
