//! DateTime: 100-nanosecond ticks since 1601-01-01 UTC.
use vstd::prelude::*;

verus! {

/// Seconds from 1601-01-01 to 1970-01-01.
pub const EPOCH_OFFSET_SECS: i64 = 11_644_473_600;
/// Ticks in a second.
pub const TICKS_PER_SECOND: i64 = 10_000_000;
/// The last Unix second whose ticks, fraction included, fit an i64.
pub const MAX_UNIX_SECS: i64 = 910_692_730_083;

/// The DateTime of a Unix time: 0 before 1601, the largest value after the range.
pub open spec fn ticks_of(secs: i64, nanos: u32) -> i64 {
    if secs < -EPOCH_OFFSET_SECS {
        0
    } else if secs > MAX_UNIX_SECS {
        i64::MAX
    } else {
        ((secs + EPOCH_OFFSET_SECS) * TICKS_PER_SECOND + nanos / 100) as i64
    }
}

/// The DateTime of `secs` seconds and `nanos` nanoseconds after the Unix epoch.
pub fn ticks_from_unix(secs: i64, nanos: u32) -> (r: i64)
    requires
        nanos < 2_000_000_000,
    ensures
        r == ticks_of(secs, nanos),
{
    if secs < -EPOCH_OFFSET_SECS {
        0
    } else if secs > MAX_UNIX_SECS {
        i64::MAX
    } else {
        assert(0 <= (secs + EPOCH_OFFSET_SECS) * TICKS_PER_SECOND <= 9_223_372_036_830_000_000)
            by (nonlinear_arith)
            requires
                -EPOCH_OFFSET_SECS <= secs <= MAX_UNIX_SECS,
        ;
        (secs + EPOCH_OFFSET_SECS) * TICKS_PER_SECOND + (nanos / 100) as i64
    }
}

/// Relies on chrono's `Utc::now` with `DateTime::timestamp` and
/// `DateTime::timestamp_subsec_nanos`: the current time as whole seconds since the
/// Unix epoch and the nanoseconds past that second, which chrono keeps below
/// 2_000_000_000 (a leap second reaches past 999_999_999).
#[verifier::external_body]
fn utc_now() -> (r: (i64, u32))
    ensures
        r.1 < 2_000_000_000,
{
    let now = chrono::Utc::now();
    (now.timestamp(), now.timestamp_subsec_nanos())
}

/// The current time as a DateTime.
pub fn date_time_now() -> (r: i64)
    ensures
        r >= 0,
{
    let (secs, nanos) = utc_now();
    ticks_from_unix(secs, nanos)
}

} // verus!
