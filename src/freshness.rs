//! Time-to-live checks on fetch dates written as `YYYY-MM-DD`.
use vstd::prelude::*;

verus! {

/// The Unix timestamp of midnight UTC at the start of the date `s` (`%Y-%m-%d`), as chrono
/// reads it; `None` when `s` is no such date.
pub uninterp spec fn day_start_of(s: Seq<char>) -> Option<i64>;

/// Relies on `chrono::NaiveDate::parse_from_str` with `%Y-%m-%d`, then `and_hms_opt(0, 0, 0)`
/// and the UTC timestamp of that instant: the result depends on the text alone.
#[verifier::external_body]
pub(crate) fn parse_day_start(s: &str) -> (r: Option<i64>)
    ensures
        r == day_start_of(s@),
{
    chrono::NaiveDate::parse_from_str(s, "%Y-%m-%d").ok().and_then(|d| d.and_hms_opt(0, 0, 0)).map(
        |t| t.and_utc().timestamp(),
    )
}

/// Relies on `chrono::Utc::now`: the current time, in whole seconds since the Unix epoch.
#[verifier::external_body]
pub(crate) fn now_timestamp() -> (r: i64) {
    chrono::Utc::now().timestamp()
}

/// Whether an entry fetched at the instant `start` is still fresh at `now` under a TTL of
/// `ttl` hours: its age in whole hours, rounded toward zero, is below the TTL.
pub open spec fn fresh_at(start: Option<i64>, now: i64, ttl: nat) -> bool {
    match start {
        None => false,
        Some(t) => {
            let age = now - t;
            if age >= 0 {
                age < ttl * 3600
            } else {
                ttl > 0 || age <= -3600
            }
        },
    }
}

/// Freshness of an entry fetched at `start` (seconds since the epoch, if the date was
/// readable), judged at `now`.
pub fn is_fresh_at(start: Option<i64>, now: i64, ttl_hours: usize) -> (r: bool)
    ensures
        r == fresh_at(start, now, ttl_hours as nat),
{
    match start {
        None => false,
        Some(t) => {
            let age: i128 = now as i128 - t as i128;
            if age >= 0 {
                age < ttl_hours as i128 * 3600
            } else {
                ttl_hours > 0 || age <= -3600
            }
        },
    }
}

/// Whether an entry whose fetch date is `fetched_at` is still within `latest_ttl_hours` of
/// now; an unreadable date is stale.
pub fn is_latest_cache_fresh(fetched_at: &str, latest_ttl_hours: usize) -> (r: bool)
    ensures
        day_start_of(fetched_at@) is None ==> !r,
{
    let start = parse_day_start(fetched_at);
    let now = now_timestamp();
    is_fresh_at(start, now, latest_ttl_hours)
}

} // verus!
