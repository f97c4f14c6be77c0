//! The decisions of the two background loops: when to refetch the schedules,
//! and what each user is reminded of.
use vstd::prelude::*;

use crate::calendar::{iso_week_of, next_day, Date, MAX_YEAR};
use crate::db::UserRow;
use crate::formatting::{day_text, ScheduleFormatting};
use crate::schedule_repo::{last_group_index, ScheduleRepo};
use crate::structures::{week_type_for_week, WeekType};

verus! {

/// How long a fetched schedule stays fresh: twelve hours.
pub const REFRESH_INTERVAL_SECS: u64 = 43200;

/// The wait after a failed fetch, times the number of failures in a row.
pub const RETRY_INTERVAL_SECS: u64 = 300;

/// `a.saturating_sub(b)` on `i64`.
pub open spec fn saturating_diff(a: i64, b: i64) -> int {
    if a - b > i64::MAX {
        i64::MAX as int
    } else if a - b < i64::MIN {
        i64::MIN as int
    } else {
        a - b
    }
}

/// What the fetch loop does next.
#[derive(Clone, Copy, Debug, PartialEq, Eq, Structural)]
pub enum FetchStep {
    /// The schedules are fresh: sleep this many seconds and look again.
    Sleep(u64),
    /// Fetch all schedules now.
    Fetch,
}

/// The next step of the fetch loop at time `now`, for schedules last updated
/// at `last_updated` (seconds since the epoch). Schedules younger than the
/// refresh interval are kept until they reach it.
pub fn next_fetch_step(now: i64, last_updated: Option<i64>) -> (r: FetchStep)
    ensures
        match last_updated {
            None => r == FetchStep::Fetch,
            Some(t) => if 0 <= saturating_diff(now, t) < REFRESH_INTERVAL_SECS {
                r == FetchStep::Sleep((REFRESH_INTERVAL_SECS - saturating_diff(now, t)) as u64)
            } else {
                r == FetchStep::Fetch
            },
        },
{
    match last_updated {
        Some(last_updated) => {
            let wide = now as i128 - last_updated as i128;
            let age: i64 = if wide > i64::MAX as i128 {
                i64::MAX
            } else if wide < i64::MIN as i128 {
                i64::MIN
            } else {
                wide as i64
            };
            if 0 <= age && (age as u64) < REFRESH_INTERVAL_SECS {
                FetchStep::Sleep(REFRESH_INTERVAL_SECS - age as u64)
            } else {
                FetchStep::Fetch
            }
        },
        None => FetchStep::Fetch,
    }
}

/// The failure count and the wait after a fetch: a success resets the count
/// and waits the refresh interval; a failure counts and waits the retry
/// interval times the count.
pub fn after_fetch(retries: u32, fetched: bool) -> (r: (u32, u64))
    requires
        fetched || retries < u32::MAX,
    ensures
        fetched ==> r == (0u32, REFRESH_INTERVAL_SECS),
        !fetched ==> r.0 == retries + 1 && r.1 == (retries + 1) * RETRY_INTERVAL_SECS,
{
    if fetched {
        (0, REFRESH_INTERVAL_SECS)
    } else {
        let retries = retries + 1;
        (retries, retries as u64 * RETRY_INTERVAL_SECS)
    }
}

/// The wait from `minute:second` plus `nanosecond` nanoseconds to the next
/// full hour, as whole seconds and nanoseconds; an hour where that is
/// negative (inside a leap second).
pub fn duration_until_next_hour(minute: u32, second: u32, nanosecond: u32) -> (r: (u64, u32))
    requires
        minute < 60,
        second < 60,
        nanosecond < 2_000_000_000,
    ensures
        ({
            let total = (3600 - minute * 60 - second) * 1_000_000_000 - nanosecond;
            if total >= 0 {
                r.0 * 1_000_000_000 + r.1 == total && r.1 < 1_000_000_000
            } else {
                r == (3600u64, 0u32)
            }
        }),
{
    let total: i64 = (3600 - minute as i64 * 60 - second as i64) * 1_000_000_000
        - nanosecond as i64;
    if total < 0 {
        (3600, 0)
    } else {
        ((total / 1_000_000_000) as u64, (total % 1_000_000_000) as u32)
    }
}

/// The day a reminder at `hour` (UTC) is about: today before noon, tomorrow
/// from noon on.
pub fn reminder_date(today: Date, hour: u32) -> (r: Date)
    requires
        today.valid(),
        hour > 11 ==> !(today.year == MAX_YEAR && today.month == 12 && today.day == 31),
    ensures
        r.valid(),
        hour > 11 ==> r.ymd() == next_day(today.year as int, today.month as int, today.day as int),
        hour <= 11 ==> r == today,
{
    if hour > 11 {
        today.succ()
    } else {
        today
    }
}

/// The reminder a user gets for `date`: their group's schedule for that day
/// and its week, if they have a group with a known schedule.
pub fn reminder_text(repo: &ScheduleRepo, user: &UserRow, date: Date) -> (r: Option<String>)
    requires
        date.valid(),
    ensures
        match user.group_number {
            None => r is None,
            Some(g) => match last_group_index(repo.schedules(), g) {
                None => r is None,
                Some(i) => r matches Some(t) && t@ == day_text(
                    repo.schedules()[i],
                    date,
                    week_type_for_week(
                        iso_week_of(date.year as int, date.month as int, date.day as int),
                    ),
                ),
            },
        },
{
    let group_number = match user.group_number {
        Some(group_number) => group_number,
        None => return None,
    };
    let schedule = match repo.get_by_group_number(group_number) {
        Some(schedule) => schedule,
        None => return None,
    };
    Some(schedule.format_for_day(date, WeekType::for_date(date)))
}

} // verus!
