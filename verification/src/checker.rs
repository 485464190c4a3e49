//! What the background checker decides: which checks are due, which
//! checkers run after a check, whom to notify and how long to idle.

use vstd::prelude::*;
use crate::models::{Check, alert_checker_name, known_checker};
use crate::text::{int_decimal, i64_to_string, str_eq};
use crate::time::{in_calendar, whole_seconds, seconds_between};

verus! {

/// The smallest of 60 and the rates of `checks`, folded from the left.
pub open spec fn rate_floor(checks: Seq<Check>) -> i32
    decreases checks.len(),
{
    if checks.len() == 0 {
        60
    } else {
        let s = rate_floor(checks.drop_last());
        if s < checks.last().rate { s } else { checks.last().rate }
    }
}

/// The rate floor is the least of 60 and all rates: it is at most 60, at
/// most every rate, and it is 60 or one of the rates.
pub proof fn lemma_rate_floor_is_least(checks: Seq<Check>)
    ensures
        rate_floor(checks) <= 60,
        forall|i: int| 0 <= i < checks.len() ==> rate_floor(checks) <= #[trigger] checks[i].rate,
        rate_floor(checks) == 60 || exists|i: int| 0 <= i < checks.len() && rate_floor(checks) == #[trigger] checks[i].rate,
    decreases checks.len(),
{
    if checks.len() > 0 {
        let pre = checks.drop_last();
        lemma_rate_floor_is_least(pre);
        assert forall|i: int| 0 <= i < checks.len() implies rate_floor(checks) <= #[trigger] checks[i].rate by {
            if i < pre.len() {
                assert(checks[i] == pre[i]);
            }
        }
        if rate_floor(checks) != 60 {
            if rate_floor(checks) == checks.last().rate {
                assert(checks[checks.len() - 1].rate == rate_floor(checks));
            } else {
                let j = choose|j: int| 0 <= j < pre.len() && rate_floor(pre) == #[trigger] pre[j].rate;
                assert(checks[j] == pre[j]);
            }
        }
    }
}

/// The smallest of 60 and the rates of the checks, as `u64` (`as u64`
/// sign-extends a negative rate).
pub fn min_rate(checks: &[Check]) -> (r: u64)
    ensures
        r == rate_floor(checks@) as u64,
{
    let mut s: i32 = 60;
    let mut i: usize = 0;
    while i < checks.len()
        invariant
            i <= checks@.len(),
            s == rate_floor(checks@.subrange(0, i as int)),
        decreases checks@.len() - i,
    {
        let ghost pre = checks@.subrange(0, i as int);
        let x = checks[i].rate;
        s = if s < x { s } else { x };
        i = i + 1;
        assert(checks@.subrange(0, i as int).drop_last() =~= pre);
    }
    assert(checks@.subrange(0, checks@.len() as int) =~= checks@);
    s as u64
}

/// The checkers that may be named in a check's metadata.
#[derive(Debug, Clone, Copy, PartialEq, Eq)]
pub enum Checker {
    /// Alert when the last HTTP status was an error.
    AlertOnErrorCode,
}

impl Checker {
    /// The checker with the given name; `None` for an unknown name.
    pub fn from_name(name: &str) -> (r: Option<Checker>)
        ensures
            r is Some <==> known_checker(name@),
            r is Some ==> r == Some(Checker::AlertOnErrorCode),
    {
        proof {
            reveal_strlit("alert_on_error_code");
            assert("alert_on_error_code"@ =~= alert_checker_name());
        }
        if str_eq(name, "alert_on_error_code") {
            Some(Checker::AlertOnErrorCode)
        } else {
            None
        }
    }
}

/// The URL that asks the API server to publish a user's checks:
/// `{url}/{api_ver}/check:publish?key={key}?user_id={user_id}`.
pub fn publish_endpoint(url: &str, api_ver: &str, key: &str, user_id: i32) -> (r: String)
    ensures
        r@ == url@ + "/"@ + api_ver@ + "/check:publish?key="@ + key@ + "?user_id="@
            + int_decimal(user_id as int),
{
    let mut r = String::from_str(url);
    r.append("/");
    r.append(api_ver);
    r.append("/check:publish?key=");
    r.append(key);
    r.append("?user_id=");
    let id = i64_to_string(user_id as i64);
    r.append(id.as_str());
    r
}

/// How the checker idles between two rounds: `ticks` sleeps of
/// `interval_secs` seconds each.
#[derive(Debug, Clone, Copy, PartialEq, Eq)]
pub struct IdlePlan {
    pub ticks: u64,
    pub interval_secs: u64,
}

/// Seconds between two rounds of checks.
pub const IDLE_SECS: u64 = 60;

/// Seconds between two publications.
pub const PUBLISH_INTERVAL_SECS: u64 = 10;

/// The idling after a round that started at `start` and ended at `now`:
/// six ticks of ten seconds, each shortened by the round's length in whole
/// seconds (cut to `u64`) when that length is under ten.
pub fn idle_plan(start: i64, now: i64) -> (p: IdlePlan)
    requires
        in_calendar(start),
        in_calendar(now),
    ensures
        p.ticks == IDLE_SECS / PUBLISH_INTERVAL_SECS,
        (whole_seconds(now, start) as u64) < PUBLISH_INTERVAL_SECS ==>
            p.interval_secs == PUBLISH_INTERVAL_SECS - (whole_seconds(now, start) as u64),
        (whole_seconds(now, start) as u64) >= PUBLISH_INTERVAL_SECS ==>
            p.interval_secs == PUBLISH_INTERVAL_SECS,
{
    let mut interval = PUBLISH_INTERVAL_SECS;
    let ticks = IDLE_SECS / interval;
    let duration = seconds_between(now, start) as u64;
    if duration < interval {
        interval = interval - duration;
    }
    IdlePlan { ticks, interval_secs: interval }
}

} // verus!
