//! Instants as microseconds since the Unix epoch (UTC), the spans between
//! them, and the text that `chrono` and `chrono-humanize` write for them.

use vstd::prelude::*;

verus! {

/// Microseconds in one hour.
pub const MICROS_PER_HOUR: i64 = 3_600_000_000;

/// The first instant that `chrono` can hold: 00:00:00 on January 1 of the
/// year -262143, in microseconds after the epoch.
pub const CALENDAR_MIN_MICROS: i64 = -8_334_601_228_800_000_000;

/// The last instant that `chrono` can hold at microsecond precision: the last
/// microsecond of December 31 of the year 262142.
pub const CALENDAR_MAX_MICROS: i64 = 8_210_266_876_799_999_999;

/// Instants that `chrono` can hold as a calendar date and time: its dates run
/// from January 1 of the year -262143 to December 31 of the year 262142.
pub open spec fn in_calendar(t: i64) -> bool {
    CALENDAR_MIN_MICROS <= t <= CALENDAR_MAX_MICROS
}

/// Integer division rounding toward zero, as `chrono::Duration::num_seconds`
/// and `num_milliseconds` round (`b > 0`).
pub open spec fn div_toward_zero(a: int, b: int) -> int {
    if a >= 0 { a / b } else { -((-a) / b) }
}

/// Whole seconds from `earlier` to `later`, rounded toward zero, as
/// `later.signed_duration_since(earlier).num_seconds()` gives them.
pub open spec fn whole_seconds(later: i64, earlier: i64) -> int {
    div_toward_zero(later - earlier, 1_000_000)
}

/// Whole milliseconds from `earlier` to `later`, rounded toward zero, as
/// `later.signed_duration_since(earlier).num_milliseconds()` gives them.
pub open spec fn whole_millis(later: i64, earlier: i64) -> int {
    div_toward_zero(later - earlier, 1000)
}

/// Whole spans are the real span cut toward zero: taken back to
/// microseconds, the whole seconds (or milliseconds) from `earlier` to
/// `later` fall short of the span by less than one second (or millisecond),
/// on the side of zero, and never overshoot it.
pub proof fn lemma_whole_spans_cut_toward_zero(later: i64, earlier: i64)
    ensures
        later >= earlier ==> 0 <= (later - earlier) - whole_seconds(later, earlier) * 1_000_000 < 1_000_000,
        later < earlier ==> 0 <= whole_seconds(later, earlier) * 1_000_000 - (later - earlier) < 1_000_000,
        later >= earlier ==> 0 <= (later - earlier) - whole_millis(later, earlier) * 1000 < 1000,
        later < earlier ==> 0 <= whole_millis(later, earlier) * 1000 - (later - earlier) < 1000,
{
    let d: int = later - earlier;
    if d >= 0 {
        assert(0 <= d - (d / 1_000_000) * 1_000_000 < 1_000_000) by (nonlinear_arith)
            requires d >= 0;
        assert(0 <= d - (d / 1000) * 1000 < 1000) by (nonlinear_arith)
            requires d >= 0;
    } else {
        let e: int = -d;
        assert(0 <= e - (e / 1_000_000) * 1_000_000 < 1_000_000) by (nonlinear_arith)
            requires e > 0;
        assert(0 <= e - (e / 1000) * 1000 < 1000) by (nonlinear_arith)
            requires e > 0;
    }
}

/// `(later - earlier)` in microseconds divided by `unit`, rounded toward zero.
fn span_in_units(later: i64, earlier: i64, unit: u128) -> (r: i64)
    requires
        in_calendar(later),
        in_calendar(earlier),
        unit == 1000 || unit == 1_000_000,
    ensures
        r == div_toward_zero(later - earlier, unit as int),
{
    let d: i128 = later as i128 - earlier as i128;
    if d >= 0 {
        let q: u128 = (d as u128) / unit;
        assert(q <= d) by (nonlinear_arith)
            requires
                q == (d as u128) / unit,
                unit >= 1,
                d >= 0;
        q as i64
    } else {
        let q: u128 = ((-d) as u128) / unit;
        assert(q <= -d) by (nonlinear_arith)
            requires
                q == ((-d) as u128) / unit,
                unit >= 1,
                d < 0;
        -(q as i128) as i64
    }
}

/// Whole seconds from `earlier` to `later`, rounded toward zero.
pub fn seconds_between(later: i64, earlier: i64) -> (r: i64)
    requires
        in_calendar(later),
        in_calendar(earlier),
    ensures
        r == whole_seconds(later, earlier),
{
    span_in_units(later, earlier, 1_000_000)
}

/// Whole milliseconds from `earlier` to `later`, rounded toward zero.
pub fn millis_between(later: i64, earlier: i64) -> (r: i64)
    requires
        in_calendar(later),
        in_calendar(earlier),
    ensures
        r == whole_millis(later, earlier),
{
    span_in_units(later, earlier, 1000)
}

/// The text that `format!("{}", t)` gives for the `chrono::NaiveDateTime`
/// at `micros` after the epoch.
pub uninterp spec fn naive_display(micros: i64) -> Seq<char>;

/// The text of the `chrono::NaiveDateTime` at `micros` after the epoch,
/// formatted with the strftime pattern `%Y-%m-%dT%H:%M:%S`.
pub uninterp spec fn second_stamp(micros: i64) -> Seq<char>;

/// The text that `chrono-humanize` writes (`format!("{}", HumanTime)`) for
/// the span from `now` to `then`, both in microseconds after the epoch.
pub uninterp spec fn humanized_span(then: i64, now: i64) -> Seq<char>;

/// Calls `chrono::DateTime::from_timestamp_micros` and writes the naive UTC
/// date and time with `Display`. Claims that the text is
/// `naive_display(micros)`, a function of `micros` alone; inside
/// `in_calendar` chrono always has a date for the instant.
#[verifier::external_body]
pub fn display_timestamp(micros: i64) -> (s: String)
    requires
        in_calendar(micros),
    ensures
        s@ == naive_display(micros),
{
    let t = chrono::DateTime::from_timestamp_micros(micros).unwrap().naive_utc();
    format!("{}", t)
}

/// Calls `chrono::DateTime::from_timestamp_micros`, takes the naive UTC date
/// and time and formats it with `format_with_items` and the items of
/// `StrftimeItems::new("%Y-%m-%dT%H:%M:%S")`. Claims that the text is
/// `second_stamp(micros)`, a function of `micros` alone.
#[verifier::external_body]
pub fn format_second_stamp(micros: i64) -> (s: String)
    requires
        in_calendar(micros),
    ensures
        s@ == second_stamp(micros),
{
    let t = chrono::DateTime::from_timestamp_micros(micros).unwrap().naive_utc();
    let items = chrono::format::strftime::StrftimeItems::new("%Y-%m-%dT%H:%M:%S");
    format!("{}", t.format_with_items(items))
}

/// Calls `chrono`'s `signed_duration_since` on the two instants and writes the
/// resulting span with `chrono_humanize::HumanTime`'s `Display`. Claims that
/// the text is `humanized_span(then, now)`, a function of the two instants.
#[verifier::external_body]
pub fn humanize_span(then: i64, now: i64) -> (s: String)
    requires
        in_calendar(then),
        in_calendar(now),
    ensures
        s@ == humanized_span(then, now),
{
    let t = chrono::DateTime::from_timestamp_micros(then).unwrap().naive_utc();
    let n = chrono::DateTime::from_timestamp_micros(now).unwrap().naive_utc();
    format!("{}", chrono_humanize::HumanTime::from(t.signed_duration_since(n)))
}

} // verus!
