//! The cutoff instant of a purge and its text.
//!
//! Instants are counted in milliseconds since 1970-01-01T00:00:00Z, leap
//! seconds left out. Stored `deleted_at` values are compared with the cutoff
//! as text, so the cutoff is written exactly as they are:
//! `YYYY-MM-DDTHH:MM:SS.sssZ`, in UTC.

use vstd::prelude::*;

verus! {

/// Length of a day in milliseconds.
pub const MILLIS_PER_DAY: i64 = 86_400_000;

/// The first instant that has a calendar date (January 1 of the year -262143).
pub const EARLIEST_MILLIS: i64 = -8_334_601_228_800_000;

/// The last instant that has a calendar date (the end of December 31 of
/// the year 262142).
pub const LATEST_MILLIS: i64 = 8_210_266_876_799_999;

/// An instant that has a calendar date, and therefore a text.
pub open spec fn representable(ms: int) -> bool {
    EARLIEST_MILLIS <= ms <= LATEST_MILLIS
}

/// The instant `purge_days` whole days before `now_ms`.
pub open spec fn cutoff_spec(now_ms: int, purge_days: int) -> int {
    now_ms - purge_days * MILLIS_PER_DAY
}

/// The UTC text of an instant, `YYYY-MM-DDTHH:MM:SS.sssZ`.
pub uninterp spec fn utc_timestamp_text(ms: int) -> Seq<char>;

/// Relies on chrono's `DateTime::<Utc>::from_timestamp_millis`, which yields
/// an instant exactly for millisecond counts from `EARLIEST_MILLIS` to
/// `LATEST_MILLIS`, and on `DateTime::format` with the pattern
/// `%Y-%m-%dT%H:%M:%S%.3fZ`, whose text depends on the instant alone.
#[verifier::external_body]
fn format_utc_millis(ms: i64) -> (r: Option<String>)
    ensures
        representable(ms as int) <==> r is Some,
        r matches Some(t) ==> t@ == utc_timestamp_text(ms as int),
{
    chrono::DateTime::<chrono::Utc>::from_timestamp_millis(ms).map(
        |t| t.format("%Y-%m-%dT%H:%M:%S%.3fZ").to_string(),
    )
}

/// Relies on chrono's `Utc::now` and `DateTime::timestamp_millis`: the
/// current time, of which nothing is known in advance.
#[verifier::external_body]
pub(crate) fn now_millis() -> (r: i64) {
    chrono::Utc::now().timestamp_millis()
}

/// The instant `purge_days` days before `now_ms`, when it has a calendar date.
pub fn cutoff_millis(now_ms: i64, purge_days: i64) -> (r: Option<i64>)
    ensures
        representable(cutoff_spec(now_ms as int, purge_days as int)) ==> r == Some(
            cutoff_spec(now_ms as int, purge_days as int) as i64,
        ),
        !representable(cutoff_spec(now_ms as int, purge_days as int)) ==> r is None,
{
    proof {
        let d = purge_days as int;
        assert(-0x8000_0000_0000_0000 * 86_400_000 <= d * 86_400_000 <= 0x8000_0000_0000_0000
            * 86_400_000) by (nonlinear_arith)
            requires
                -0x8000_0000_0000_0000 <= d <= 0x8000_0000_0000_0000,
        ;
    }
    let span: i128 = purge_days as i128 * MILLIS_PER_DAY as i128;
    let c: i128 = now_ms as i128 - span;
    if EARLIEST_MILLIS as i128 <= c && c <= LATEST_MILLIS as i128 {
        Some(c as i64)
    } else {
        None
    }
}

/// The text of the instant `purge_days` days before `now_ms`, in the form the
/// store keeps `deleted_at` in; none when that instant has no calendar date.
pub fn cutoff_text(now_ms: i64, purge_days: i64) -> (r: Option<String>)
    ensures
        representable(cutoff_spec(now_ms as int, purge_days as int)) <==> r is Some,
        r matches Some(t) ==> t@ == utc_timestamp_text(
            cutoff_spec(now_ms as int, purge_days as int),
        ),
{
    match cutoff_millis(now_ms, purge_days) {
        Some(c) => format_utc_millis(c),
        None => None,
    }
}

} // verus!
