//! The wall clock, calendar stamps and the time between two instants.

use vstd::prelude::*;
use crate::units::trunc_div;

verus! {

/// What `chrono` writes for the UTC instant `secs` seconds after the epoch in
/// the form year, month, day, an underscore, hour, minute, second; `None`
/// where the instant is outside the range of dates it can represent.
pub uninterp spec fn utc_stamp(secs: int) -> Option<Seq<char>>;

/// `chrono::Utc::now`, as nanoseconds since the epoch
/// (`DateTime::timestamp_nanos_opt`). The result depends on the clock, so
/// nothing is promised of it.
#[verifier::external_body]
pub(crate) fn now_ns() -> Option<i64> {
    chrono::Utc::now().timestamp_nanos_opt()
}

/// `chrono::DateTime::from_timestamp` followed by `DateTime::format` with the
/// pattern `%Y%m%d_%H%M%S`: the calendar stamp of a UTC instant, which is a
/// function of the instant alone.
#[verifier::external_body]
pub(crate) fn format_utc_stamp(secs: i64) -> (r: Option<String>)
    ensures
        match r {
            Some(s) => utc_stamp(secs as int) == Some(s@),
            None => utc_stamp(secs as int) is None,
        },
{
    chrono::DateTime::from_timestamp(secs, 0).map(|t| t.format("%Y%m%d_%H%M%S").to_string())
}

/// The whole milliseconds from `from` to `to`, both in nanoseconds; negative
/// where `to` is the earlier.
pub open spec fn elapsed_ms(from: i64, to: i64) -> int {
    trunc_div(to - from, 1_000_000)
}

/// The whole milliseconds from `from` to `to`.
pub fn milliseconds_between(from: i64, to: i64) -> (ms: i64)
    ensures
        ms as int == elapsed_ms(from, to),
        -18_446_744_073_710 <= ms <= 18_446_744_073_710,
        to >= from ==> ms >= 0,
{
    let d: i128 = to as i128 - from as i128;
    if d >= 0 {
        ((d as u128) / 1_000_000) as i64
    } else {
        -((((-d) as u128) / 1_000_000) as i64)
    }
}

} // verus!
