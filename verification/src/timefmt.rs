//! The clock (read through std) and the calendar text of UNIX timestamps
//! (which the chrono crate provides).
use vstd::prelude::*;

use chrono::TimeZone;

verus! {

/// The UTC date and time, written `%Y-%m-%d %H:%M:%S`, of the UNIX timestamp
/// `secs` (whole seconds), as chrono computes it; `None` when chrono has no
/// date for it.
pub uninterp spec fn utc_datetime_text(secs: int) -> Option<Seq<char>>;

/// chrono's `Utc.timestamp_opt(secs, 0).single()`, formatted with
/// `"%Y-%m-%d %H:%M:%S"`.  The contract only ties the result to `secs`
/// through the name `utc_datetime_text`; which timestamps chrono can represent
/// and the calendar arithmetic itself are left to chrono.
#[verifier::external_body]
pub(crate) fn format_utc_timestamp(secs: i64) -> (r: Option<String>)
    ensures
        match r {
            Some(s) => utc_datetime_text(secs as int) == Some(s@),
            None => utc_datetime_text(secs as int) is None,
        },
{
    match chrono::Utc.timestamp_opt(secs, 0).single() {
        Some(dt) => Some(dt.format("%Y-%m-%d %H:%M:%S").to_string()),
        None => None,
    }
}

/// Where the clock stands against the UNIX epoch, in whole seconds:
/// `After(secs)` that far after it, `Before(secs)` that far before it.
pub enum EpochOffset {
    After(u64),
    Before(u64),
}

/// std's system time.
#[verifier::external_type_specification]
#[verifier::external_body]
pub struct ExSystemTime(std::time::SystemTime);

/// std's error for a time before the one it was measured from.
#[verifier::external_type_specification]
#[verifier::external_body]
pub struct ExSystemTimeError(std::time::SystemTimeError);

/// std's `SystemTime::now`: the clock's current time.  It depends on the
/// clock, so nothing is stated of it.
#[verifier::external_body]
fn system_now() -> (t: std::time::SystemTime) {
    std::time::SystemTime::now()
}

/// std's `SystemTime::duration_since(UNIX_EPOCH)`: how long after the epoch
/// `t` is, or an error that tells how long before it `t` is.  The contents of
/// a system time are not visible here, so nothing is stated of the result.
#[verifier::external_body]
fn since_epoch(t: &std::time::SystemTime) -> (r: Result<std::time::Duration, std::time::SystemTimeError>) {
    t.duration_since(std::time::UNIX_EPOCH)
}

/// std's `SystemTimeError::duration`: how far before the epoch the time was.
/// The contents of the error are not visible here, so nothing is stated of
/// the result.
#[verifier::external_body]
fn error_duration(e: &std::time::SystemTimeError) -> (d: std::time::Duration) {
    e.duration()
}

/// std's `Duration::as_secs`: the whole seconds of `d`.  The contents of a
/// duration are not visible here, so nothing is stated of the result.
#[verifier::external_body]
fn whole_secs(d: &std::time::Duration) -> (s: u64) {
    d.as_secs()
}

/// Where the clock stands against the epoch, in whole seconds.  Which time
/// the clock gives is not stated.
fn clock_offset() -> (o: EpochOffset) {
    let now = system_now();
    match since_epoch(&now) {
        Ok(d) => EpochOffset::After(whole_secs(&d)),
        Err(e) => EpochOffset::Before(whole_secs(&error_duration(&e))),
    }
}

/// The UNIX timestamp, in whole seconds, that an offset from the epoch
/// stands for: the seconds after it, or minus the seconds before it,
/// saturating at `i64::MAX` and `-i64::MAX`.
pub open spec fn offset_timestamp(o: EpochOffset) -> int {
    match o {
        EpochOffset::After(s) => if s > i64::MAX {
            i64::MAX as int
        } else {
            s as int
        },
        EpochOffset::Before(s) => if s > i64::MAX {
            -i64::MAX
        } else {
            -(s as int)
        },
    }
}

/// The UNIX timestamp, in whole seconds, of an offset from the epoch.
pub fn timestamp_of_offset(o: &EpochOffset) -> (t: i64)
    ensures
        t == offset_timestamp(*o),
{
    match o {
        EpochOffset::After(s) => if *s > i64::MAX as u64 {
            i64::MAX
        } else {
            *s as i64
        },
        EpochOffset::Before(s) => if *s > i64::MAX as u64 {
            -i64::MAX
        } else {
            -(*s as i64)
        },
    }
}

/// The clock's current time as a UNIX timestamp in whole seconds (see
/// [`offset_timestamp`]).  Which time the clock gives is not stated.
pub fn unix_now() -> (t: i64)
    ensures
        exists|o: EpochOffset| t == #[trigger] offset_timestamp(o),
{
    let o = clock_offset();
    timestamp_of_offset(&o)
}

} // verus!
