//! The records of the checker: users, sessions, checks and the runs of a
//! check, with the rules that tie them together. Instants are microseconds
//! after the Unix epoch (see `time`); storing and loading them is the
//! caller's part.

use vstd::prelude::*;
use vstd::utf8::{valid_utf8, decode_utf8};
use crate::text::{int_decimal, i64_to_string};
use crate::time::{
    in_calendar, whole_seconds, whole_millis, naive_display, humanized_span,
    seconds_between, millis_between, display_timestamp, humanize_span, MICROS_PER_HOUR,
};

verus! {

/// A registered user.
#[derive(Debug, Clone, PartialEq)]
pub struct User {
    pub id: i32,
    pub email: String,
    pub pass: String,
    pub created: i64,
    pub updated: Option<i64>,
}

/// A user before it is stored; `pass` is the password as given until
/// `hash_password` replaces it by its hash.
#[derive(Debug, Clone, PartialEq)]
pub struct NewUser {
    pub email: String,
    pub pass: String,
    pub created: i64,
}

/// A login session, valid until `valid_until`.
#[derive(Debug, Clone, PartialEq)]
pub struct Session {
    pub id: i32,
    pub ext_id: String,
    pub valid_until: i64,
}

impl Session {
    /// A session is valid strictly before its `valid_until` instant.
    pub fn is_valid(&self, now: i64) -> (r: bool)
        ensures
            r == session_admits(self.valid_until, now),
    {
        now < self.valid_until
    }
}

/// A session that lasts until `valid_until` admits the instant `now`.
pub open spec fn session_admits(valid_until: i64, now: i64) -> bool {
    now < valid_until
}

/// When a session opened at `now` expires: one hour later.
pub open spec fn fresh_session_expiry(now: i64) -> i64 {
    (now + MICROS_PER_HOUR) as i64
}

/// A session opened at `now` admits exactly the instants before one hour
/// later: every instant from its opening for an hour, none after.
pub proof fn lemma_fresh_session_lasts_an_hour(now: i64, t: i64)
    requires
        now <= i64::MAX - MICROS_PER_HOUR,
    ensures
        session_admits(fresh_session_expiry(now), now),
        now <= t ==> (session_admits(fresh_session_expiry(now), t) <==> t - now < MICROS_PER_HOUR),
{
}

/// A session before it is stored.
#[derive(Debug, Clone, PartialEq)]
pub struct NewSession {
    pub ext_id: String,
    pub valid_until: i64,
}

impl NewSession {
    /// The text from which a session's external id is hashed: the opening
    /// instant in whole seconds since the epoch (rounded down, as
    /// `timestamp()` gives it), in decimal, followed by the pepper.
    pub fn seed(now: i64, pepper: &str) -> (s: String)
        ensures
            s@ == int_decimal(now as int / 1_000_000) + pepper@,
    {
        let secs: i64 = if now >= 0 {
            now / 1_000_000
        } else {
            let q = (-(now as i128) - 1) / 1_000_000;
            assert(q * 1_000_000 <= -(now as int) - 1 < q * 1_000_000 + 1_000_000);
            (-q - 1) as i64
        };
        assert(secs == now as int / 1_000_000);
        let mut s = i64_to_string(secs);
        s.append(pepper);
        s
    }

    /// A session opened at `now` whose external id is `x` followed by
    /// `digest`; it stays valid for one hour.
    pub fn new(now: i64, digest: &str) -> (s: NewSession)
        requires
            now <= i64::MAX - MICROS_PER_HOUR,
        ensures
            s.ext_id@ == seq!['x'] + digest@,
            s.valid_until == fresh_session_expiry(now),
    {
        proof { reveal_strlit("x"); }
        let mut ext_id = String::from_str("x");
        ext_id.append(digest);
        NewSession { ext_id, valid_until: now + MICROS_PER_HOUR }
    }
}

/// One stored run of a check: when it started and ended, the HTTP status it
/// got and its latency in milliseconds.
#[derive(Debug, Clone, PartialEq)]
pub struct CheckRun {
    pub id: i32,
    pub check_id: i32,
    pub starttime: i64,
    pub endtime: i64,
    pub http_status: i32,
    pub latency: i32,
}

/// A run of a check before it is stored.
#[derive(Debug, Clone, PartialEq)]
pub struct NewCheckRun {
    pub check_id: i32,
    pub starttime: i64,
    pub endtime: i64,
    pub http_status: i32,
    pub latency: i32,
}

/// The metadata stored with a check: the names of the checkers to run after
/// it, and the body of its last response.
#[derive(Debug, Clone, PartialEq)]
pub struct CheckMeta {
    pub checkers: Vec<String>,
    pub state: Option<String>,
}

/// The stored metadata of a check as the checker reads it: either a value
/// that decodes as `CheckMeta`, or another JSON value.
#[derive(Debug, Clone, PartialEq)]
pub enum MetaValue {
    Decoded(CheckMeta),
    Undecodable,
}

/// A URL that is fetched every `rate` seconds.
#[derive(Debug, Clone, PartialEq)]
pub struct Check {
    pub id: i32,
    pub url: String,
    pub rate: i32,
    pub last_start: Option<i64>,
    pub last_end: Option<i64>,
    pub http_status: Option<i32>,
    pub meta: Option<MetaValue>,
    pub user_id: i32,
}

/// A check as it is handed out to clients, with its instants as text.
#[derive(Debug, Clone, PartialEq)]
pub struct SerdeCheck {
    pub id: i32,
    pub url: String,
    pub rate: i32,
    pub last_start: Option<String>,
    pub last_end: Option<String>,
    pub http_status: Option<i32>,
    pub humanized_end: Option<String>,
}

/// A check before it is stored.
#[derive(Debug, Clone, PartialEq)]
pub struct NewCheck {
    pub url: String,
    pub rate: i32,
    pub user_id: i32,
}

/// Why a run of a check could not be recorded.
#[derive(Debug, Clone, PartialEq)]
pub enum RunError {
    /// The stored metadata is missing or is not a `CheckMeta`.
    MetaUndecodable,
    /// The response body is not UTF-8.
    BodyNotUtf8,
    /// The transfer reported no response code.
    NoStatus,
}

/// The name of the one checker that the library knows.
pub open spec fn alert_checker_name() -> Seq<char> {
    seq!['a', 'l', 'e', 'r', 't', '_', 'o', 'n', '_', 'e', 'r', 'r', 'o', 'r', '_', 'c', 'o', 'd', 'e']
}

/// The checker that the library knows is named `alert_on_error_code`, and a
/// name is known exactly when it is that text.
pub proof fn lemma_known_checker_is_alert_on_error_code(name: Seq<char>)
    ensures
        alert_checker_name() == "alert_on_error_code"@,
        known_checker(name) <==> name == "alert_on_error_code"@,
{
    reveal_strlit("alert_on_error_code");
    assert(alert_checker_name() =~= "alert_on_error_code"@);
}

/// Calls `String::from_utf8`. Claims what its documentation states: it
/// succeeds exactly on valid UTF-8, and the string holds the decoded
/// characters.
#[verifier::external_body]
fn string_from_utf8(bytes: Vec<u8>) -> (r: Option<String>)
    ensures
        r is Some <==> valid_utf8(bytes@),
        r matches Some(s) ==> s@ == decode_utf8(bytes@),
{
    String::from_utf8(bytes).ok()
}

/// The names that the checker knows: only `alert_on_error_code`.
pub open spec fn known_checker(name: Seq<char>) -> bool {
    name == alert_checker_name()
}

/// The metadata of a new check: the one checker `alert_on_error_code`, no state.
pub open spec fn is_default_meta(m: CheckMeta) -> bool {
    &&& m.checkers@.len() == 1
    &&& m.checkers@[0]@ == alert_checker_name()
    &&& m.state is None
}

/// The text that `str::to_lowercase` gives for `s`.
pub uninterp spec fn lowercase(s: Seq<char>) -> Seq<char>;

/// Calls `str::to_lowercase`. Claims that the result is `lowercase(s@)`, a
/// function of `s` alone.
#[verifier::external_body]
fn to_lowercase(s: &str) -> (r: String)
    ensures
        r@ == lowercase(s@),
{
    s.to_lowercase()
}

/// Copies a list of strings, keeping every string.
fn copy_strings(v: &Vec<String>) -> (r: Vec<String>)
    ensures
        r@ == v@,
{
    let mut r: Vec<String> = Vec::new();
    let mut i: usize = 0;
    while i < v.len()
        invariant
            i <= v.len(),
            r@ == v@.subrange(0, i as int),
        decreases v.len() - i,
    {
        r.push(v[i].clone());
        i = i + 1;
        assert(r@ =~= v@.subrange(0, i as int));
    }
    assert(v@.subrange(0, v.len() as int) =~= v@);
    r
}

/// Copies an optional string.
fn copy_opt_string(s: &Option<String>) -> (r: Option<String>)
    ensures
        r == *s,
{
    match s {
        Some(x) => Some(x.clone()),
        None => None,
    }
}

impl CheckMeta {
    /// Same checkers in the same order, and the same state.
    pub open spec fn same_as(self, other: CheckMeta) -> bool {
        self.checkers@ == other.checkers@ && self.state == other.state
    }

    /// The metadata of a new check: the checker `alert_on_error_code`, no state.
    pub fn default() -> (m: CheckMeta)
        ensures
            is_default_meta(m),
            m.checkers@.len() == 1,
            m.checkers@[0]@ == "alert_on_error_code"@,
            m.state is None,
    {
        proof { reveal_strlit("alert_on_error_code"); }
        let mut checkers: Vec<String> = Vec::new();
        checkers.push(String::from_str("alert_on_error_code"));
        assert("alert_on_error_code"@ =~= alert_checker_name());
        CheckMeta { checkers, state: None }
    }

    /// Stores the body of a response as the state: it must be UTF-8; on
    /// failure the metadata is left as it was.
    pub fn set_state_from_body(&mut self, body: Vec<u8>) -> (r: Result<(), RunError>)
        ensures
            final(self).checkers@ == old(self).checkers@,
            r is Ok <==> valid_utf8(body@),
            r is Ok ==> (final(self).state matches Some(s) && s@ == decode_utf8(body@)),
            r is Err ==> r == Err::<(), RunError>(RunError::BodyNotUtf8) && final(self).state == old(self).state,
    {
        match string_from_utf8(body) {
            Some(s) => {
                self.state = Some(s);
                Ok(())
            },
            None => Err(RunError::BodyNotUtf8),
        }
    }

    /// A copy that keeps every field.
    pub fn copy(&self) -> (m: CheckMeta)
        ensures
            m.same_as(*self),
            m.checkers@ == self.checkers@,
            m.state == self.state,
    {
        let checkers = copy_strings(&self.checkers);
        proof {
            assert(checkers@ == self.checkers@);
        }
        CheckMeta { checkers, state: copy_opt_string(&self.state) }
    }
}

/// Option order as `PartialOrd` defines it: `None` comes before every `Some`.
pub open spec fn option_before(a: Option<i64>, b: Option<i64>) -> bool {
    match (a, b) {
        (_, None) => false,
        (None, Some(_)) => true,
        (Some(x), Some(y)) => x < y,
    }
}

/// The seconds since a check's last end that the scheduler compares with its
/// rate: the whole seconds from `last_end` to `now`, cut to 32 bits, and
/// `i32::MAX` for a check that never ended.
pub open spec fn spec_duration_since_last_end(last_end: Option<i64>, now: i64) -> i32 {
    match last_end {
        Some(x) => whole_seconds(now, x) as i32,
        None => i32::MAX,
    }
}

/// The instants of a check lie where `chrono` has a date for them.
pub open spec fn instants_in_calendar(c: Check) -> bool {
    &&& c.last_start matches Some(t) ==> in_calendar(t)
    &&& c.last_end matches Some(t) ==> in_calendar(t)
}

/// A check that never ended is due at every instant: its seconds since the
/// last end count as `i32::MAX`, which no rate exceeds. In particular every
/// check fresh from `Check::from` runs at its first round.
pub proof fn lemma_never_ended_check_is_due(c: Check, now: i64)
    requires
        c.last_end is None,
    ensures
        c.rate <= spec_duration_since_last_end(c.last_end, now),
{
}

/// A check that last ended at `x` is due at `now` exactly when at least its
/// rate in seconds has passed since `x`: when `now` is not before `x` and
/// the span in whole seconds fits in an `i32`, the check is due if and only
/// if `rate * 1_000_000 <= now - x`. A daily check that ended a day ago is
/// due; one that ended a second less than a day ago is not.
pub proof fn lemma_due_exactly_after_rate(c: Check, x: i64, now: i64)
    requires
        c.last_end == Some(x),
        x <= now,
        now - x < 2_147_483_648_000_000,
    ensures
        (c.rate <= spec_duration_since_last_end(c.last_end, now)) <==> c.rate * 1_000_000 <= now - x,
        spec_duration_since_last_end(c.last_end, now) * 1_000_000 <= now - x,
        now - x < (spec_duration_since_last_end(c.last_end, now) + 1) * 1_000_000,
{
    crate::time::lemma_whole_spans_cut_toward_zero(now, x);
    let w = whole_seconds(now, x);
    assert(0 <= w <= i32::MAX);
    assert(spec_duration_since_last_end(c.last_end, now) == w);
}

/// A check whose last end lies after `now` (a clock that went back) counts
/// no positive number of seconds since it ended: the seconds are the span
/// cut toward zero, so at most 0, and a check with a positive rate is not
/// due.
pub proof fn lemma_future_end_is_not_due(c: Check, x: i64, now: i64)
    requires
        c.last_end == Some(x),
        now < x,
        x - now < 2_147_483_648_000_000,
    ensures
        spec_duration_since_last_end(c.last_end, now) <= 0,
        0 <= spec_duration_since_last_end(c.last_end, now) * 1_000_000 - (now - x) < 1_000_000,
        c.rate > 0 ==> !(c.rate <= spec_duration_since_last_end(c.last_end, now)),
{
    crate::time::lemma_whole_spans_cut_toward_zero(now, x);
    let w = whole_seconds(now, x);
    assert(i32::MIN <= w <= 0);
    assert(spec_duration_since_last_end(c.last_end, now) == w);
}

/// The metadata of a new check names only checkers that the checker knows
/// (`Checker::from_name` accepts each of its names), and holds no state.
pub proof fn lemma_default_checkers_are_known(m: CheckMeta)
    requires
        is_default_meta(m),
    ensures
        forall|i: int| 0 <= i < m.checkers@.len() ==> known_checker(#[trigger] m.checkers@[i]@),
        m.state is None,
{
}

impl Check {
    /// A new check from its request: no id yet (0), never run, with the
    /// default metadata.
    pub fn from(newcheck: NewCheck) -> (c: Check)
        ensures
            c.id == 0,
            c.url == newcheck.url,
            c.rate == newcheck.rate,
            c.user_id == newcheck.user_id,
            c.last_start is None,
            c.last_end is None,
            c.http_status is None,
            c.meta matches Some(MetaValue::Decoded(m)) && is_default_meta(m),
    {
        Check {
            id: 0,
            url: newcheck.url,
            rate: newcheck.rate,
            meta: Some(MetaValue::Decoded(CheckMeta::default())),
            http_status: None,
            last_start: None,
            last_end: None,
            user_id: newcheck.user_id,
        }
    }

    /// Whether the last run started before it ended (`last_start < last_end`
    /// in `Option`'s order).
    pub fn valid(&self) -> (r: bool)
        ensures
            r == option_before(self.last_start, self.last_end),
            self.last_end is None ==> !r,
            self.last_start is None && self.last_end is Some ==> r,
            self.last_start matches Some(s) ==> (self.last_end matches Some(e) ==> (r <==> s < e)),
    {
        match (self.last_start, self.last_end) {
            (_, None) => false,
            (None, Some(_)) => true,
            (Some(s), Some(e)) => s < e,
        }
    }

    /// Whole seconds since the last end of the check, cut to `i32`;
    /// `i32::MAX` if it never ended.
    pub fn duration_since_last_end(&self, now: i64) -> (r: i32)
        requires
            in_calendar(now),
            self.last_end matches Some(t) ==> in_calendar(t),
        ensures
            r == spec_duration_since_last_end(self.last_end, now),
            self.last_end is None ==> r == i32::MAX,
            match self.last_end {
                Some(x) => x <= now && now - x < 2_147_483_648_000_000
                    ==> r * 1_000_000 <= now - x < (r + 1) * 1_000_000,
                None => r == i32::MAX,
            },
    {
        proof {
            if let Some(x) = self.last_end {
                if x <= now && now - x < 2_147_483_648_000_000 {
                    lemma_due_exactly_after_rate(*self, x, now);
                }
            }
        }
        match self.last_end {
            Some(x) => {
                let s = seconds_between(now, x);
                s as i32
            },
            None => i32::MAX,
        }
    }

    /// Whether the check is due at `now`: its rate is at most the seconds
    /// since its last end. A due check is performed.
    pub fn conditional_perform(&self, now: i64) -> (due: bool)
        requires
            in_calendar(now),
            self.last_end matches Some(t) ==> in_calendar(t),
        ensures
            due == (self.rate <= spec_duration_since_last_end(self.last_end, now)),
            self.last_end is None ==> due,
            match self.last_end {
                Some(x) => (x <= now && now - x < 2_147_483_648_000_000
                    ==> (due <==> self.rate * 1_000_000 <= now - x))
                    && (now < x && x - now < 2_147_483_648_000_000 && self.rate > 0 ==> !due),
                None => due,
            },
    {
        proof {
            if let Some(x) = self.last_end {
                if x <= now && now - x < 2_147_483_648_000_000 {
                    lemma_due_exactly_after_rate(*self, x, now);
                }
                if now < x && x - now < 2_147_483_648_000_000 {
                    lemma_future_end_is_not_due(*self, x, now);
                }
            }
        }
        self.rate <= self.duration_since_last_end(now)
    }

    /// Records the start of a run.
    pub fn u_last_start(&mut self, time: i64)
        ensures
            *final(self) == (Check { last_start: Some(time), ..*old(self) }),
    {
        self.last_start = Some(time);
    }

    /// Records the end of a run.
    pub fn u_last_end(&mut self, time: i64)
        ensures
            *final(self) == (Check { last_end: Some(time), ..*old(self) }),
    {
        self.last_end = Some(time);
    }

    /// Records the HTTP status of a run, cut to `i32` as `status as i32` does.
    pub fn u_http_status(&mut self, status: u32)
        ensures
            *final(self) == (Check { http_status: Some(status as i32), ..*old(self) }),
    {
        self.http_status = Some(status as i32);
    }

    /// Replaces the metadata.
    pub fn u_meta(&mut self, new_meta: CheckMeta)
        ensures
            *final(self) == (Check { meta: Some(MetaValue::Decoded(new_meta)), ..*old(self) }),
    {
        self.meta = Some(MetaValue::Decoded(new_meta));
    }

    /// The stored metadata read as `CheckMeta`; missing metadata reads as
    /// JSON `null`, which is no `CheckMeta`.
    pub fn decoded_meta(&self) -> (r: Result<CheckMeta, RunError>)
        ensures
            match self.meta {
                Some(MetaValue::Decoded(m)) => r matches Ok(x) && x.same_as(m),
                _ => r == Err::<CheckMeta, RunError>(RunError::MetaUndecodable),
            },
            match self.meta {
                Some(MetaValue::Decoded(m)) => r is Ok && r->Ok_0.checkers@ == m.checkers@ && r->Ok_0.state == m.state,
                _ => r is Err,
            },
    {
        match &self.meta {
            Some(MetaValue::Decoded(m)) => Ok(m.copy()),
            _ => Err(RunError::MetaUndecodable),
        }
    }

    /// The `LIKE` pattern with which checks are searched: the query in lower
    /// case.
    pub fn search_pattern(query: &str) -> (p: String)
        ensures
            p@ == lowercase(query@),
    {
        to_lowercase(query)
    }

    /// The checks as they are handed out, in the same order.
    pub fn for_serde(checks: Vec<Check>, now: i64) -> (r: Vec<SerdeCheck>)
        requires
            in_calendar(now),
            forall|i: int| 0 <= i < checks@.len() ==> instants_in_calendar(#[trigger] checks@[i]),
        ensures
            r@.len() == checks@.len(),
            forall|i: int| 0 <= i < checks@.len() ==> spec_serde_check(#[trigger] checks@[i], now, r@[i]),
            forall|i: int| 0 <= i < checks@.len() ==> (#[trigger] r@[i]).id == checks@[i].id
                && r@[i].url@ == checks@[i].url@ && r@[i].rate == checks@[i].rate
                && r@[i].http_status == checks@[i].http_status,
    {
        let mut r: Vec<SerdeCheck> = Vec::new();
        let mut i: usize = 0;
        while i < checks.len()
            invariant
                i <= checks@.len(),
                in_calendar(now),
                forall|j: int| 0 <= j < checks@.len() ==> instants_in_calendar(#[trigger] checks@[j]),
                r@.len() == i,
                forall|j: int| 0 <= j < i ==> spec_serde_check(#[trigger] checks@[j], now, r@[j]),
            decreases checks@.len() - i,
        {
            let s = SerdeCheck::from(&checks[i], now);
            r.push(s);
            i = i + 1;
        }
        proof {
            assert forall|i: int| 0 <= i < checks@.len() implies (#[trigger] r@[i]).id == checks@[i].id
                && r@[i].url@ == checks@[i].url@ && r@[i].rate == checks@[i].rate
                && r@[i].http_status == checks@[i].http_status by {
                lemma_handed_out_check_keeps_its_fields(checks@[i], now, r@[i]);
            }
        }
        r
    }
}

impl Check {
    /// Records a run that started at `start`, ended at `end`, got the
    /// response body `body` and the response code `status` (`None` where the
    /// transfer reported none), step by step as the checker does it: the
    /// start; then the stored metadata must decode, else nothing more is
    /// recorded; then the end; then the body must be UTF-8 and becomes the
    /// metadata's state, else nothing more is recorded; then the status must
    /// be known and is recorded; and the completed run is returned. What a
    /// failed step leaves in the check is what the steps before it wrote.
    pub fn record_run(&mut self, start: i64, end: i64, body: Vec<u8>, status: Option<u32>) -> (r: Result<NewCheckRun, RunError>)
        requires
            in_calendar(start),
            in_calendar(end),
        ensures
            final(self).id == old(self).id,
            final(self).url == old(self).url,
            final(self).rate == old(self).rate,
            final(self).user_id == old(self).user_id,
            final(self).last_start == Some(start),
            match old(self).meta {
                Some(MetaValue::Decoded(m)) => {
                    &&& final(self).last_end == Some(end)
                    &&& if !valid_utf8(body@) {
                        &&& r == Err::<NewCheckRun, RunError>(RunError::BodyNotUtf8)
                        &&& final(self).meta == old(self).meta
                        &&& final(self).http_status == old(self).http_status
                    } else {
                        &&& final(self).meta matches Some(MetaValue::Decoded(m2))
                        &&& m2.checkers@ == m.checkers@
                        &&& m2.state matches Some(s)
                        &&& s@ == decode_utf8(body@)
                        &&& match status {
                            None => {
                                &&& r == Err::<NewCheckRun, RunError>(RunError::NoStatus)
                                &&& final(self).http_status == old(self).http_status
                            },
                            Some(code) => {
                                &&& final(self).http_status == Some(code as i32)
                                &&& r == Ok::<NewCheckRun, RunError>(spec_new_check_run(*final(self)))
                            },
                        }
                    }
                },
                _ => {
                    &&& r == Err::<NewCheckRun, RunError>(RunError::MetaUndecodable)
                    &&& final(self).last_end == old(self).last_end
                    &&& final(self).meta == old(self).meta
                    &&& final(self).http_status == old(self).http_status
                },
            },
    {
        self.u_last_start(start);
        let mut meta = match self.decoded_meta() {
            Ok(m) => m,
            Err(e) => return Err(e),
        };
        self.u_last_end(end);
        match meta.set_state_from_body(body) {
            Ok(()) => {},
            Err(e) => return Err(e),
        }
        self.u_meta(meta);
        match status {
            Some(code) => {
                self.u_http_status(code);
                Ok(NewCheckRun::from(self))
            },
            None => Err(RunError::NoStatus),
        }
    }
}

/// What `SerdeCheck::from` makes of check `c` at `now`.
pub open spec fn spec_serde_check(c: Check, now: i64, s: SerdeCheck) -> bool {
    &&& s.id == c.id
    &&& s.url@ == c.url@
    &&& s.rate == c.rate
    &&& s.http_status == c.http_status
    &&& match c.last_start {
        Some(t) => s.last_start matches Some(x) && x@ == naive_display(t),
        None => s.last_start is None,
    }
    &&& match c.last_end {
        Some(t) => s.last_end matches Some(x) && x@ == naive_display(t),
        None => s.last_end is None,
    }
    &&& match c.last_end {
        Some(t) => s.humanized_end matches Some(x) && x@ == humanized_span(t, now),
        None => s.humanized_end is None,
    }
}

/// A check is handed out with its own id, URL, rate and status unchanged,
/// and with each of its instants written out exactly when it has one: the
/// start and end as `chrono` displays them, and the end also as the span
/// from `now` in words.
pub proof fn lemma_handed_out_check_keeps_its_fields(c: Check, now: i64, s: SerdeCheck)
    requires
        spec_serde_check(c, now, s),
    ensures
        s.id == c.id,
        s.url@ == c.url@,
        s.rate == c.rate,
        s.http_status == c.http_status,
        s.last_start is Some <==> c.last_start is Some,
        s.last_end is Some <==> c.last_end is Some,
        s.humanized_end is Some <==> c.last_end is Some,
        c.last_start matches Some(t) ==> s.last_start->0@ == naive_display(t),
        c.last_end matches Some(t) ==> s.last_end->0@ == naive_display(t),
        c.last_end matches Some(t) ==> s.humanized_end->0@ == humanized_span(t, now),
{
}

impl SerdeCheck {
    /// The check as it is handed out at `now`: instants written as `chrono`
    /// writes them, and the span from `now` to the last end in words.
    pub fn from(c: &Check, now: i64) -> (s: SerdeCheck)
        requires
            in_calendar(now),
            instants_in_calendar(*c),
        ensures
            spec_serde_check(*c, now, s),
            s.id == c.id,
            s.url@ == c.url@,
            s.rate == c.rate,
            s.http_status == c.http_status,
            s.last_start is Some <==> c.last_start is Some,
            s.last_end is Some <==> c.last_end is Some,
            s.humanized_end is Some <==> c.last_end is Some,
            c.last_start matches Some(t) ==> s.last_start->0@ == naive_display(t),
            c.last_end matches Some(t) ==> s.last_end->0@ == naive_display(t),
            c.last_end matches Some(t) ==> s.humanized_end->0@ == humanized_span(t, now),
    {
        SerdeCheck {
            id: c.id,
            url: c.url.clone(),
            rate: c.rate,
            last_start: match c.last_start {
                Some(x) => Some(display_timestamp(x)),
                None => None,
            },
            last_end: match c.last_end {
                Some(x) => Some(display_timestamp(x)),
                None => None,
            },
            http_status: c.http_status,
            humanized_end: match c.last_end {
                Some(x) => Some(humanize_span(x, now)),
                None => None,
            },
        }
    }
}

/// The run that a check with a start, an end and a status has completed:
/// its id, start, end and status, and the whole milliseconds from start to
/// end, cut to `i32`.
pub open spec fn spec_new_check_run(check: Check) -> NewCheckRun {
    NewCheckRun {
        check_id: check.id,
        starttime: check.last_start->0,
        endtime: check.last_end->0,
        http_status: check.http_status->0,
        latency: whole_millis(check.last_end->0, check.last_start->0) as i32,
    }
}

/// A run is recorded from what the check was given: after the start `s`, the
/// end `e` and the status `status` are set (`u_last_start`, `u_last_end`,
/// `u_http_status`), the run that `NewCheckRun::from` makes has exactly
/// that start, end and status (cut to `i32`), the check's id, and the
/// milliseconds from `s` to `e` as latency, which is never negative when
/// the run ended after it started; and the check counts as valid exactly
/// when it started before it ended.
pub proof fn lemma_recorded_run(c: Check, s: i64, e: i64, status: u32)
    ensures
        ({
            let done = Check {
                last_start: Some(s),
                last_end: Some(e),
                http_status: Some(status as i32),
                ..c
            };
            &&& spec_new_check_run(done) == (NewCheckRun {
                check_id: c.id,
                starttime: s,
                endtime: e,
                http_status: status as i32,
                latency: whole_millis(e, s) as i32,
            })
            &&& option_before(done.last_start, done.last_end) == (s < e)
            &&& (s <= e && e - s < 2_147_483_648_000 ==> spec_new_check_run(done).latency >= 0)
        }),
{
    if s <= e && e - s < 2_147_483_648_000 {
        assert(0 <= (e - s) / 1000 <= 2_147_483_647) by (nonlinear_arith)
            requires
                0 <= e - s < 2_147_483_648_000;
    }
}

impl NewCheckRun {
    /// The run that a check has just completed: its id, start, end and
    /// status, and the milliseconds from start to end, cut to `i32`.
    pub fn from(check: &Check) -> (r: NewCheckRun)
        requires
            check.last_start matches Some(t) && in_calendar(t),
            check.last_end matches Some(t) && in_calendar(t),
            check.http_status is Some,
        ensures
            r == spec_new_check_run(*check),
    {
        let starttime = match check.last_start {
            Some(x) => x,
            None => 0,
        };
        let endtime = match check.last_end {
            Some(x) => x,
            None => 0,
        };
        let http_status = match check.http_status {
            Some(x) => x,
            None => 0,
        };
        let ms = millis_between(endtime, starttime);
        NewCheckRun {
            check_id: check.id,
            starttime,
            endtime,
            http_status,
            latency: ms as i32,
        }
    }
}

} // verus!
