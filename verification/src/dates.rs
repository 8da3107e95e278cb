//! Instants and ages.
//!
//! An instant is modelled as its number of milliseconds since the Unix epoch.
//! Reading an instant out of a timestamp text and rendering calendar fields of
//! one are delegated to the `chrono` crate behind trusted wrappers; the age
//! arithmetic and the recency rule are verified here.

use vstd::prelude::*;

verus! {

/// The number of milliseconds in one day.
pub const MS_PER_DAY: i64 = 86400000;

/// The instant, in milliseconds since the Unix epoch, that a timestamp text
/// denotes, or `None` where the text denotes no instant. The text fixes the
/// instant absolutely (it carries its own UTC offset), so the result depends on
/// the characters alone.
pub uninterp spec fn instant_of(s: Seq<char>) -> Option<i64>;

/// Relies on `chrono`: `str::parse::<DateTime<Local>>` reads an RFC 3339
/// timestamp, whose explicit offset fixes one absolute instant, and
/// `DateTime::timestamp_millis` returns that instant's milliseconds since the
/// Unix epoch; both are functions of the text alone.
#[verifier::external_body]
pub fn parse_instant(s: &str) -> (r: Option<i64>)
    ensures
        r == instant_of(s@),
{
    s.parse::<chrono::DateTime<chrono::Local>>().ok().map(|d| d.timestamp_millis())
}

/// Relies on `chrono`: the same `str::parse::<DateTime<Local>>` as
/// [`parse_instant`], so it succeeds on exactly the texts that denote an
/// instant, and formatting with `%d/%m`, which prints the zero-padded
/// two-digit day and month separated by a slash and cannot fail on a parsed
/// date. The digits depend on the host time zone, so nothing more is claimed
/// of them.
#[verifier::external_body]
pub fn day_month_of_text(s: &str) -> (r: Option<String>)
    ensures
        r is Some <==> instant_of(s@) is Some,
        r matches Some(t) ==> t@.len() == 5 && t@[2] == '/'
            && crate::decode::is_digit(t@[0]) && crate::decode::is_digit(t@[1])
            && crate::decode::is_digit(t@[3]) && crate::decode::is_digit(t@[4]),
{
    s.parse::<chrono::DateTime<chrono::Local>>().ok().map(|d| d.format("%d/%m").to_string())
}

/// Relies on `chrono`: `TimeZone::timestamp_millis_opt` maps an epoch
/// millisecond count to the host time zone (uniquely, where the count is
/// within `chrono`'s range), and formatting with `%Y-%m-%dT%H:%M:%S%.3fZ`
/// prints at least the 24 characters of a millisecond-precision timestamp.
/// The fields depend on the host time zone, so nothing more is claimed of
/// them.
#[verifier::external_body]
pub fn to_date_text(ms: i64) -> (r: Option<String>)
    ensures
        r matches Some(t) ==> t@.len() >= 24,
{
    chrono::TimeZone::timestamp_millis_opt(&chrono::Local, ms)
        .single()
        .map(|d| d.format("%Y-%m-%dT%H:%M:%S%.3fZ").to_string())
}

/// The age of an instant `pub_ms` as seen from `now_ms`, in whole days,
/// truncated toward zero (so anything less than one full day away has age 0).
pub open spec fn age_in_days(now_ms: i64, pub_ms: i64) -> int {
    let diff = now_ms - pub_ms;
    if diff >= 0 {
        diff / (MS_PER_DAY as int)
    } else {
        -((-diff) / (MS_PER_DAY as int))
    }
}

/// The recency rule: a record published 0, 1 or 2 whole days ago is recent.
pub open spec fn is_recent(now_ms: i64, pub_ms: i64) -> bool {
    0 <= age_in_days(now_ms, pub_ms) < 3
}

/// Decides the recency rule: whether `pub_ms` is 0, 1 or 2 whole days in the
/// past as seen from `now_ms`.
pub fn recent_flag(now_ms: i64, pub_ms: i64) -> (r: bool)
    ensures
        r == is_recent(now_ms, pub_ms),
{
    let diff: i128 = now_ms as i128 - pub_ms as i128;
    let day: i128 = MS_PER_DAY as i128;
    proof {
        let d = now_ms - pub_ms;
        if d >= 0 {
            assert(d / (MS_PER_DAY as int) < 3 <==> d < 3 * (MS_PER_DAY as int))
                by (nonlinear_arith);
            assert(d / (MS_PER_DAY as int) >= 0) by (nonlinear_arith)
                requires d >= 0;
        } else {
            assert((-d) / (MS_PER_DAY as int) == 0 <==> -d < MS_PER_DAY as int)
                by (nonlinear_arith)
                requires -d > 0;
            assert((-d) / (MS_PER_DAY as int) >= 0) by (nonlinear_arith)
                requires -d >= 0;
        }
    }
    diff > -day && diff < 3 * day
}

} // verus!
