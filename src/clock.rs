use vstd::prelude::*;

verus! {

/// Relies on chrono's `Utc::now` and `DateTime::timestamp_millis`: the current
/// time, in milliseconds since the Unix epoch.
#[verifier::external_body]
pub(crate) fn now_millis() -> i64 {
    chrono::Utc::now().timestamp_millis()
}

/// The milliseconds from `start` to `end`, or zero where `end` comes first.
pub open spec fn elapsed_ms(start: i64, end: i64) -> u64 {
    if end <= start {
        0
    } else {
        (end - start) as u64
    }
}

/// The milliseconds from `start` to `end`, or zero where `end` comes first.
pub fn elapsed_between(start: i64, end: i64) -> (r: u64)
    ensures
        r == elapsed_ms(start, end),
        r as int == if end <= start { 0 } else { end - start },
{
    if end <= start {
        0
    } else {
        (end as i128 - start as i128) as u64
    }
}

} // verus!
