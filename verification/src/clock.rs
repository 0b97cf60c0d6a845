//! The clock and the local calendar, read through `std::time` and `chrono`.
//!
//! What these return depends on the moment and on the machine's time zone.
//! Their contracts state which local wall-clock time each reading is of: the
//! instant, up to the zone's offset from UTC, which chrono keeps strictly
//! within a day either way (`FixedOffset::east_opt`). Which offset applies is
//! the time zone's business and is left open; the schedule's decisions are
//! made by verified functions that take these readings as arguments.

use vstd::prelude::*;
use chrono::{Datelike, Local, NaiveDate, TimeZone, Timelike};
use std::time::{SystemTime, UNIX_EPOCH};

verus! {

/// The day number (counted with 1 January of year 1 as day 1) of 1 January
/// 1970, chrono's `UNIX_EPOCH_DAY`.
pub open spec fn epoch_day() -> int {
    719_163
}

/// Whether `o` may be a zone's offset from UTC, in seconds.
pub open spec fn is_offset(o: int) -> bool {
    -86_400 < o < 86_400
}

/// The wall-clock time `hour:minute:00` of local day `day`, in seconds as
/// if the zone were UTC.
pub open spec fn wall_secs(day: int, hour: int, minute: int) -> int {
    (day - epoch_day()) * 86_400 + hour * 3_600 + minute * 60
}

/// The first and last instants whose local date chrono can always give:
/// chrono's dates run from 1 January of year -262143 (day -95,746,129) to
/// 31 December of year 262142 (day 95,745,399), and an instant's UTC date
/// must lie a day inside either end so that the zone's offset, less than a
/// day, cannot carry its local time past them.
pub const LOCAL_RANGE_START: i64 = -8_334_601_142_400;

pub const LOCAL_RANGE_END: i64 = 8_210_266_790_399;

/// The instants whose local date chrono can always give: those whose UTC
/// date lies strictly between chrono's first and last dates.
pub open spec fn is_local_range(t: int) -> bool {
    LOCAL_RANGE_START <= t <= LOCAL_RANGE_END
}

/// What `local_day_number` reads at `secs`: the local date of that instant,
/// that is, the day whose wall clock shows `secs + o` for the zone's offset
/// `o`.
pub open spec fn day_reading(secs: int, r: Option<i32>) -> bool {
    &&& is_local_range(secs) ==> r is Some
    &&& r matches Some(d) ==> exists|o: int|
        #[trigger] is_offset(o) && wall_secs(d as int, 0, 0) <= secs + o < wall_secs(d as int, 0, 0) + 86_400
}

/// What `local_hour_mark` reads at `secs`: the instant whose wall clock shows
/// the hour of `secs`'s wall-clock time (`secs + o`) with its minute set to
/// `minute` and its seconds to zero, under the zone's offset `p` there.
pub open spec fn hour_mark_reading(secs: int, minute: int, r: Option<i64>) -> bool {
    r matches Some(m) ==> exists|o: int, p: int|
        #![trigger is_offset(o), is_offset(p)]
        is_offset(o) && is_offset(p) && m + p == (secs + o) - (secs + o) % 3_600 + minute * 60
}

/// What `local_slot` reads for day `day` at `hour:minute`: the instant whose
/// wall clock shows that time on that day, under the zone's offset there,
/// with the day's weekday counted from Sunday.
pub open spec fn slot_reading(day: int, hour: int, minute: int, r: Option<(i64, u32)>) -> bool {
    r matches Some(s) ==> {
        &&& s.1 == day % 7
        &&& exists|o: int| #[trigger] is_offset(o) && s.0 + o == wall_secs(day, hour, minute)
    }
}

/// Seconds since the Unix epoch by the system clock
/// (`SystemTime::now().duration_since(UNIX_EPOCH)`), or 0 when the clock reads
/// earlier than the epoch. Nothing is promised of the value: it is the time.
#[verifier::external_body]
pub(crate) fn system_secs() -> u64 {
    SystemTime::now().duration_since(UNIX_EPOCH).unwrap_or_default().as_secs()
}

/// `Local.timestamp_opt(secs, 0).single()`, and of the local date-time it
/// gives, `date_naive().num_days_from_ce()`: the local calendar day of the
/// instant `secs`.
///
/// Claimed (`day_reading`): `timestamp_opt` accepts every instant whose date
/// lies within years -262143 to 262142, which includes all of
/// `is_local_range` (those dates less a day at either end), and gives a
/// single local time for each (it converts from UTC); the date is that of
/// the wall-clock time `secs + o`, with `o` the zone's offset, which
/// `FixedOffset` keeps within a day. Within that range
/// the local time cannot leave `NaiveDateTime`'s range, so `date_naive` does
/// not panic; the `requires` keeps to it. Which offset applies is not stated.
#[verifier::external_body]
pub(crate) fn local_day_number(secs: i64) -> (r: Option<i32>)
    requires
        is_local_range(secs as int),
    ensures
        day_reading(secs as int, r),
        r matches Some(d) ==> -100_000_000 <= d <= 100_000_000,
{
    match Local.timestamp_opt(secs, 0).single() {
        Some(dt) => Some(dt.date_naive().num_days_from_ce()),
        None => None,
    }
}

/// The instant `secs` in local time with its minute set to `minute` and its
/// seconds and nanoseconds to zero (`with_minute`, `with_second`,
/// `with_nanosecond` on chrono's `DateTime<Local>`), as a Unix timestamp;
/// `None` when any step has no single local answer.
///
/// Claimed (`hour_mark_reading`): each step changes the wall-clock time and
/// resolves it again in the zone (`map_local`, then `from_local_datetime`),
/// so the result's wall clock shows the hour of `secs`'s wall clock at
/// `minute:00`. The offsets at `secs` and at the result are each within a
/// day but not stated, and need not be equal: a zone may change its offset
/// within the hour.
#[verifier::external_body]
pub(crate) fn local_hour_mark(secs: i64, minute: u32) -> (r: Option<i64>)
    requires
        minute <= 59,
    ensures
        hour_mark_reading(secs as int, minute as int, r),
{
    match Local.timestamp_opt(secs, 0).single() {
        Some(dt) => match dt.with_minute(minute) {
            Some(t) => match t.with_second(0) {
                Some(t) => match t.with_nanosecond(0) {
                    Some(t) => Some(t.timestamp()),
                    None => None,
                },
                None => None,
            },
            None => None,
        },
        None => None,
    }
}

/// For day `day` (counted as in `local_day_number`) at `hour:minute:00` local
/// time: the instant `Local.from_local_datetime(..).single()` gives, as a Unix
/// timestamp, with its weekday counted from Sunday
/// (`weekday().num_days_from_sunday()`). `None` when the day is out of range or
/// the local time does not exist or is ambiguous.
///
/// Claimed (`slot_reading`): the instant is that wall-clock time less the
/// zone's offset there (`from_local_datetime` subtracts it), and its weekday
/// is that of `day`, 1 January of year 1 being a Monday, so `day % 7` counts
/// from Sunday. Which offset applies, and when the local time is missing or
/// doubled, is the time zone's and is not stated.
#[verifier::external_body]
pub(crate) fn local_slot(day: i32, hour: u32, minute: u32) -> (r: Option<(i64, u32)>)
    requires
        hour <= 23,
        minute <= 59,
    ensures
        slot_reading(day as int, hour as int, minute as int, r),
        r matches Some(s) ==> s.1 < 7,
{
    match NaiveDate::from_num_days_from_ce_opt(day) {
        Some(date) => match date.and_hms_opt(hour, minute, 0) {
            Some(naive) => match Local.from_local_datetime(&naive).single() {
                Some(t) => Some((t.timestamp(), t.weekday().num_days_from_sunday())),
                None => None,
            },
            None => None,
        },
        None => None,
    }
}

} // verus!
