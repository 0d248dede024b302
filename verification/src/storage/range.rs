use vstd::prelude::*;

verus! {

/// The milliseconds of one day.
pub const DAY_MS: i64 = 86_400_000;

/// The start of the time range that ends at `now` and reaches `days_ago`
/// days back, in milliseconds since the Unix epoch; `None` where no 64-bit
/// timestamp lies that far back.
pub fn range_start(now: i64, days_ago: u32) -> (start: Option<i64>)
    ensures
        start == if now - days_ago * DAY_MS >= i64::MIN {
            Some((now - days_ago * DAY_MS) as i64)
        } else {
            None
        },
{
    let back = days_ago as i64 * DAY_MS;
    now.checked_sub(back)
}

} // verus!
