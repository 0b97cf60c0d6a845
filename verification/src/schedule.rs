//! Scheduled update checks: the schedule's settings, when it next fires, and
//! what a run records.
//!
//! The schedule runs even when the app has been quit: a launchd agent
//! re-launches the app with `SCHEDULED_RUN_FLAG` on the chosen interval, and
//! while the app is open it does the same work on a timer.

use vstd::prelude::*;
use vstd::string::*;
use crate::check_output::{
    checked_total_from_counts, count_for, counted_total, is_itemised, lines_view, section_count,
    summary_total,
};
use crate::clock::{
    day_reading, hour_mark_reading, is_local_range, LOCAL_RANGE_END, LOCAL_RANGE_START, is_offset, local_day_number, local_hour_mark,
    local_slot, slot_reading, system_secs, wall_secs,
};
use crate::section_map::{SectionMap, with_value};
use crate::text::{
    begins_with, contains_str, decimal, decimal_string, finishes_with, has_sub, owned, str_eq, trim,
    trimmed,
};

verus! {

pub const AGENT_LABEL: &'static str = "com.partyman.updater.scheduler";

pub const SCHEDULED_RUN_FLAG: &'static str = "--scheduled-run";

/// The schedule's settings and what its last run found.
pub struct ScheduleConfig {
    pub enabled: bool,
    /// "hourly" | "daily" | "weekly"; anything else reads as daily.
    pub frequency: String,
    /// Minute past the hour; every frequency uses it.
    pub minute: u32,
    /// Hour of day for daily and weekly.
    pub hour: u32,
    /// 0 = Sunday … 6 = Saturday, for weekly. Matches launchd's numbering.
    pub weekday: u32,
    pub notify: bool,
    pub last_run: u64,
    pub last_total: usize,
    pub last_counts: SectionMap<usize>,
    /// Reminders stay quiet until this time; the count still updates.
    pub snoozed_until: u64,
    /// Fold brew formulae, npm, pip and gems into the count as well.
    pub count_dev_updates: bool,
    /// Run a check as soon as the app opens.
    pub check_on_launch: bool,
}

impl Default for ScheduleConfig {
    /// Off, daily at 10:00, weekly on Monday, notifying, never run.
    fn default() -> (cfg: Self)
        ensures
            !cfg.enabled,
            cfg.frequency@ == "daily"@,
            cfg.minute == 0,
            cfg.hour == 10,
            cfg.weekday == 1,
            cfg.notify,
            cfg.last_run == 0,
            cfg.last_total == 0,
            cfg.last_counts.pairs() == Seq::<(Seq<char>, usize)>::empty(),
            cfg.snoozed_until == 0,
            !cfg.count_dev_updates,
            !cfg.check_on_launch,
    {
        ScheduleConfig {
            enabled: false,
            frequency: owned("daily"),
            minute: 0,
            hour: 10,
            weekday: 1,
            notify: true,
            last_run: 0,
            last_total: 0,
            last_counts: SectionMap::new(),
            snoozed_until: 0,
            count_dev_updates: false,
            check_on_launch: false,
        }
    }
}

pub open spec fn clamp_minute(m: u32) -> u32 {
    if m < 59 { m } else { 59 }
}

pub open spec fn clamp_hour(h: u32) -> u32 {
    if h < 23 { h } else { 23 }
}

impl ScheduleConfig {
    /// Whether reminders are silenced at the moment `now`.
    pub fn snoozed_at(&self, now: u64) -> (r: bool)
        ensures
            r == (now < self.snoozed_until),
    {
        now < self.snoozed_until
    }

    /// Whether reminders are silenced now, by the system clock. A schedule
    /// that was never snoozed never is.
    pub fn snoozed(&self) -> (r: bool)
        ensures
            self.snoozed_until == 0 ==> !r,
    {
        self.snoozed_at(now_secs())
    }

    /// The minute, clamped so a hand-edited config cannot ask launchd for an
    /// impossible time.
    pub fn minute(&self) -> (m: u32)
        ensures
            m == clamp_minute(self.minute),
            m <= 59,
    {
        if self.minute < 59 {
            self.minute
        } else {
            59
        }
    }

    /// The hour, clamped to a real hour of the day.
    pub fn hour(&self) -> (h: u32)
        ensures
            h == clamp_hour(self.hour),
            h <= 23,
    {
        if self.hour < 23 {
            self.hour
        } else {
            23
        }
    }

    /// The weekday, folded into 0 (Sunday) … 6 (Saturday).
    pub fn weekday(&self) -> (w: u32)
        ensures
            w == self.weekday % 7,
            w < 7,
    {
        self.weekday % 7
    }
}

/// Seconds since the Unix epoch, by the system clock.
pub fn now_secs() -> u64 {
    system_secs()
}

// ---------------------------------------------------------------------------
// When the schedule fires
// ---------------------------------------------------------------------------

/// Hourly: the first instant after `from` that is a whole number of hours
/// from `mark`, the local time at which the chosen minute falls in `from`'s
/// hour; `mark` itself when that is already later.
pub open spec fn hourly_after(from: int, mark: int) -> int {
    if mark > from {
        mark
    } else {
        mark + 3600 * ((from - mark) / 3600 + 1)
    }
}

/// Daily and weekly: the first candidate time slot later than `from` (on the
/// chosen weekday, for weekly), or `fallback` when there is none. Each slot is
/// the local time of day on one successive day, with its weekday counted from
/// Sunday; a day on which that local time does not exist has no slot.
/// A slot qualifies when it exists, is later than `from`, and falls on the
/// chosen weekday if one is chosen.
pub open spec fn qualifies(slot: Option<(i64, u32)>, from: int, weekday: Option<u32>) -> bool {
    match slot {
        Some(s) => s.0 > from && (weekday is None || weekday == Some(s.1)),
        None => false,
    }
}

pub open spec fn first_slot(from: int, slots: Seq<Option<(i64, u32)>>, weekday: Option<u32>, fallback: int) -> int
    decreases slots.len(),
{
    if slots.len() == 0 {
        fallback
    } else if qualifies(slots[0], from, weekday) {
        (slots[0]->0).0 as int
    } else {
        first_slot(from, slots.drop_first(), weekday, fallback)
    }
}

pub open spec fn is_freq(cfg: ScheduleConfig, f: Seq<char>) -> bool {
    cfg.frequency@ == f
}

/// The next run strictly after `from`, given what local time makes of it:
/// `mark` for hourly schedules (see `hourly_after`; `from` itself when local
/// time gave none) and the day slots for daily (three days) and weekly (eight
/// days) ones. When no slot qualifies, a day (daily) or a week (weekly) after
/// `from`.
pub open spec fn next_run_given(from: int, cfg: ScheduleConfig, mark: Option<i64>, slots: Seq<Option<(i64, u32)>>) -> int {
    if is_freq(cfg, "hourly"@) {
        hourly_after(from, match mark { Some(m) => m as int, None => from })
    } else if is_freq(cfg, "weekly"@) {
        first_slot(from, slots, Some(cfg.weekday % 7), from + 7 * 24 * 3600)
    } else {
        first_slot(from, slots, None, from + 24 * 3600)
    }
}

/// The hourly rule: `hourly_after`.
pub fn next_hourly_after(from: i64, mark: i64) -> (r: i64)
    requires
        from <= i64::MAX - 3600,
    ensures
        r == hourly_after(from as int, mark as int),
{
    if mark > from {
        mark
    } else {
        let gap = (from as i128 - mark as i128) / 3600 + 1;
        assert(0 <= from - mark);
        assert(mark + 3600 * ((from - mark) / 3600 + 1) <= from + 3600) by (nonlinear_arith)
            requires
                mark <= from,
        ;
        assert(mark + 3600 * ((from - mark) / 3600 + 1) > from) by (nonlinear_arith)
            requires
                mark <= from,
        ;
        (mark as i128 + 3600 * gap) as i64
    }
}

/// The daily and weekly rule: `first_slot`.
pub fn first_slot_after(from: i64, slots: &[Option<(i64, u32)>], weekday: Option<u32>, fallback: i64) -> (r: i64)
    ensures
        r == first_slot(from as int, slots@, weekday, fallback as int),
{
    let n = slots.len();
    let mut i: usize = 0;
    assert(slots@.skip(0) =~= slots@);
    while i < n
        invariant
            n == slots@.len(),
            i <= n,
            first_slot(from as int, slots@, weekday, fallback as int) == first_slot(
                from as int,
                slots@.skip(i as int),
                weekday,
                fallback as int,
            ),
        decreases n - i,
    {
        let ghost rest = slots@.skip(i as int);
        assert(rest[0] == slots@[i as int]);
        assert(rest.drop_first() =~= slots@.skip(i + 1));
        match slots[i] {
            Some((t, w)) => {
                let on_day = match weekday {
                    Some(want) => want == w,
                    None => true,
                };
                if t > from && on_day {
                    return t;
                }
            },
            None => {},
        }
        i = i + 1;
    }
    fallback
}

/// The next moment the schedule should fire given what local time made of
/// `from`: `next_run_given`.
pub fn next_run_from(from: i64, cfg: &ScheduleConfig, mark: Option<i64>, slots: &[Option<(i64, u32)>]) -> (r: i64)
    requires
        -200_000_000_000_000 <= from <= 200_000_000_000_000,
    ensures
        r == next_run_given(from as int, *cfg, mark, slots@),
{
    if str_eq(cfg.frequency.as_str(), "hourly") {
        let m = match mark {
            Some(m) => m,
            None => from,
        };
        next_hourly_after(from, m)
    } else if str_eq(cfg.frequency.as_str(), "weekly") {
        first_slot_after(from, slots, Some(cfg.weekday()), from + 7 * 24 * 3600)
    } else {
        first_slot_after(from, slots, None, from + 24 * 3600)
    }
}

/// The local time slots of `count` successive days from `day`.
fn local_slots(day: i32, count: u32, hour: u32, minute: u32) -> (slots: Vec<Option<(i64, u32)>>)
    requires
        -100_000_000 <= day <= 100_000_000,
        count <= 8,
        hour <= 23,
        minute <= 59,
    ensures
        slots@.len() == count,
        forall|i: int| 0 <= i < count ==> slot_reading(day + i, hour as int, minute as int, #[trigger] slots@[i]),
{
    let mut slots: Vec<Option<(i64, u32)>> = Vec::new();
    let mut i: u32 = 0;
    while i < count
        invariant
            i <= count <= 8,
            -100_000_000 <= day <= 100_000_000,
            hour <= 23,
            minute <= 59,
            slots@.len() == i,
            forall|j: int| 0 <= j < i ==> slot_reading(day + j, hour as int, minute as int, #[trigger] slots@[j]),
        decreases count - i,
    {
        slots.push(local_slot(day + i as i32, hour, minute));
        i = i + 1;
    }
    slots
}

/// How many successive days' slots a schedule looks at: none for hourly,
/// eight for weekly, three for daily.
pub open spec fn slot_days(cfg: ScheduleConfig) -> nat {
    if is_freq(cfg, "hourly"@) {
        0
    } else if is_freq(cfg, "weekly"@) {
        8
    } else {
        3
    }
}

/// How far after `from` a run falls when local time offers no slot: an
/// hour, a week, or a day.
pub open spec fn fallback_period(cfg: ScheduleConfig) -> int {
    if is_freq(cfg, "hourly"@) {
        3600
    } else if is_freq(cfg, "weekly"@) {
        604_800int
    } else {
        86_400int
    }
}

/// The next run after `from`, worked out from what local time gave: `today`
/// is `from`'s local date, `mark` (hourly only) is `from`'s local hour at the
/// configured minute, and `slots` are the configured time of day on each of
/// `slot_days` successive days from `today`.
pub open spec fn run_from_readings(
    from: int,
    cfg: ScheduleConfig,
    today: i32,
    mark: Option<i64>,
    slots: Seq<Option<(i64, u32)>>,
    r: int,
) -> bool {
    &&& day_reading(from, Some(today))
    &&& if is_freq(cfg, "hourly"@) {
        hour_mark_reading(from, clamp_minute(cfg.minute) as int, mark)
    } else {
        mark is None
    }
    &&& slots.len() == slot_days(cfg)
    &&& forall|i: int|
        0 <= i < slots.len() ==> slot_reading(
            today + i,
            clamp_hour(cfg.hour) as int,
            clamp_minute(cfg.minute) as int,
            #[trigger] slots[i],
        )
    &&& r == next_run_given(from, cfg, mark, slots)
}

/// What `next_run_after` gives for `from`: within local time's range, the
/// rule `next_run_given` over the local readings for `from` and the
/// configured minute and hour; beyond it, the fallback period after `from`
/// (capped at the largest `i64`).
pub open spec fn next_run_reading(from: int, cfg: ScheduleConfig, r: int) -> bool {
    if is_local_range(from) {
        exists|today: i32, mark: Option<i64>, slots: Seq<Option<(i64, u32)>>|
            #[trigger] run_from_readings(from, cfg, today, mark, slots, r)
    } else {
        r == (if from + fallback_period(cfg) <= i64::MAX {
            from + fallback_period(cfg)
        } else {
            i64::MAX as int
        })
    }
}

/// The next moment the schedule should fire, strictly after `from`, in local
/// time (so "10:00 daily" stays at 10:00 across a daylight-saving change):
/// `next_run_reading`. Beyond the range in which local time is known, the
/// fallback period after `from`.
///
/// Which instants the local slots are depends on the time zone; which wall
/// clock times are looked up does not, and is stated.
pub fn next_run_after(from: i64, cfg: &ScheduleConfig) -> (r: i64)
    ensures
        next_run_reading(from as int, *cfg, r as int),
        r >= from,
        from < i64::MAX ==> r > from,
{
    if from < LOCAL_RANGE_START || from > LOCAL_RANGE_END {
        let period: i64 = if str_eq(cfg.frequency.as_str(), "hourly") {
            3600
        } else if str_eq(cfg.frequency.as_str(), "weekly") {
            7 * 24 * 3600
        } else {
            24 * 3600
        };
        return if from <= i64::MAX - period {
            from + period
        } else {
            i64::MAX
        };
    }
    let today = match local_day_number(from) {
        Some(d) => d,
        None => return from,
    };
    if str_eq(cfg.frequency.as_str(), "hourly") {
        let mark = local_hour_mark(from, cfg.minute());
        let none: Vec<Option<(i64, u32)>> = Vec::new();
        let r = next_run_from(from, cfg, mark, none.as_slice());
        proof {
            law_next_run_is_later(from as int, *cfg, mark, none@);
            assert(run_from_readings(from as int, *cfg, today, mark, none@, r as int));
        }
        r
    } else {
        let days: u32 = if str_eq(cfg.frequency.as_str(), "weekly") {
            8
        } else {
            3
        };
        let slots = local_slots(today, days, cfg.hour(), cfg.minute());
        let r = next_run_from(from, cfg, None, slots.as_slice());
        proof {
            law_next_run_is_later(from as int, *cfg, None, slots@);
            assert(run_from_readings(from as int, *cfg, today, None, slots@, r as int));
        }
        r
    }
}

proof fn lemma_first_slot_later(from: int, slots: Seq<Option<(i64, u32)>>, weekday: Option<u32>, fallback: int)
    requires
        fallback > from,
    ensures
        first_slot(from, slots, weekday, fallback) > from,
    decreases slots.len(),
{
    if slots.len() > 0 {
        lemma_first_slot_later(from, slots.drop_first(), weekday, fallback);
    }
}

/// Whatever local time makes of `from`, the schedule's next run comes
/// strictly after it.
pub proof fn law_next_run_is_later(from: int, cfg: ScheduleConfig, mark: Option<i64>, slots: Seq<Option<(i64, u32)>>)
    ensures
        next_run_given(from, cfg, mark, slots) > from,
{
    let m: int = match mark {
        Some(m) => m as int,
        None => from,
    };
    if m <= from {
        assert(m + 3600 * ((from - m) / 3600 + 1) > from) by (nonlinear_arith)
            requires
                m <= from,
        ;
    }
    lemma_first_slot_later(from, slots, Some(cfg.weekday % 7), from + 7 * 24 * 3600);
    lemma_first_slot_later(from, slots, None, from + 24 * 3600);
}

/// An hourly run falls a whole number of hours after the chosen minute's mark,
/// and is the first such instant after `from`: no earlier one qualifies.
pub proof fn law_hourly_is_next_mark(from: int, mark: int)
    ensures
        hourly_after(from, mark) > from,
        (hourly_after(from, mark) - mark) % 3600 == 0,
        mark <= from ==> hourly_after(from, mark) - 3600 <= from,
{
    if mark <= from {
        let k = (from - mark) / 3600 + 1;
        assert(mark + 3600 * k > from && mark + 3600 * k - 3600 <= from) by (nonlinear_arith)
            requires
                mark <= from,
                k == (from - mark) / 3600 + 1,
        ;
        assert((3600 * k) % 3600 == 0) by (nonlinear_arith);
    }
}

/// A daily or weekly run is either the fallback or the first qualifying
/// slot: a slot later than `from`, on the chosen weekday when one is chosen,
/// with no qualifying slot before it.
pub proof fn law_first_slot_is_first_qualifying(from: int, slots: Seq<Option<(i64, u32)>>, weekday: Option<u32>, fallback: int)
    ensures
        first_slot(from, slots, weekday, fallback) == fallback || exists|i: int|
            0 <= i < slots.len() && qualifies(#[trigger] slots[i], from, weekday) && first_slot(
                from,
                slots,
                weekday,
                fallback,
            ) == (slots[i]->0).0 && forall|j: int|
                0 <= j < i ==> !qualifies(#[trigger] slots[j], from, weekday),
    decreases slots.len(),
{
    if slots.len() > 0 {
        let rest = slots.drop_first();
        law_first_slot_is_first_qualifying(from, rest, weekday, fallback);
        if qualifies(slots[0], from, weekday) {
            assert(qualifies(slots[0], from, weekday));
        } else if first_slot(from, rest, weekday, fallback) != fallback {
            let i = choose|i: int|
                0 <= i < rest.len() && qualifies(#[trigger] rest[i], from, weekday) && first_slot(
                    from,
                    rest,
                    weekday,
                    fallback,
                ) == (rest[i]->0).0 && forall|j: int|
                    0 <= j < i ==> !qualifies(#[trigger] rest[j], from, weekday);
            assert(slots[i + 1] == rest[i]);
            assert forall|j: int| 0 <= j < i + 1 implies !qualifies(#[trigger] slots[j], from, weekday) by {
                if j > 0 {
                    assert(slots[j] == rest[j - 1]);
                }
            }
        }
    }
}


/// The weekday a schedule's slots must fall on: the chosen one for weekly,
/// any for daily.
pub open spec fn slot_weekday(cfg: ScheduleConfig) -> Option<u32> {
    if is_freq(cfg, "weekly"@) {
        Some(cfg.weekday % 7)
    } else {
        None
    }
}

/// `r` is slot `i` of the readings: the configured time of day on local day
/// `today + i` (on the chosen weekday, for weekly), later than `from`, and no
/// earlier slot looked at qualifies.
pub open spec fn first_configured_slot(
    from: int,
    cfg: ScheduleConfig,
    today: i32,
    slots: Seq<Option<(i64, u32)>>,
    i: int,
    r: int,
) -> bool {
    &&& 0 <= i < slots.len()
    &&& slots[i] is Some
    &&& r == (slots[i]->0).0
    &&& r > from
    &&& is_freq(cfg, "weekly"@) ==> (today + i) % 7 == cfg.weekday % 7
    &&& exists|o: int| #[trigger] is_offset(o) && r + o == wall_secs(
        today + i,
        clamp_hour(cfg.hour) as int,
        clamp_minute(cfg.minute) as int,
    )
    &&& forall|j: int| 0 <= j < i ==> !qualifies(#[trigger] slots[j], from, slot_weekday(cfg))
}

/// A daily or weekly run lands on the configured time of day: on the first
/// of the days looked at from `from`'s local date (the chosen weekday, for
/// weekly) whose slot at that wall-clock time is later than `from`. When no
/// day offers one, it is a day (daily) or a week (weekly) after `from`.
pub proof fn law_run_lands_on_the_configured_time(
    from: int,
    cfg: ScheduleConfig,
    today: i32,
    mark: Option<i64>,
    slots: Seq<Option<(i64, u32)>>,
    r: int,
)
    requires
        !is_freq(cfg, "hourly"@),
        run_from_readings(from, cfg, today, mark, slots, r),
    ensures
        r == from + fallback_period(cfg) || exists|i: int|
            #[trigger] first_configured_slot(from, cfg, today, slots, i, r),
{
    law_first_slot_is_first_qualifying(from, slots, slot_weekday(cfg), from + fallback_period(cfg));
    if r != from + fallback_period(cfg) {
        let i = choose|i: int|
            0 <= i < slots.len() && qualifies(#[trigger] slots[i], from, slot_weekday(cfg)) && first_slot(
                from,
                slots,
                slot_weekday(cfg),
                from + fallback_period(cfg),
            ) == (slots[i]->0).0 && forall|j: int|
                0 <= j < i ==> !qualifies(#[trigger] slots[j], from, slot_weekday(cfg));
        assert(slot_reading(today + i, clamp_hour(cfg.hour) as int, clamp_minute(cfg.minute) as int, slots[i]));
        assert(first_configured_slot(from, cfg, today, slots, i, r));
    }
}

/// An hourly run ignores the configured hour and weekday: it is strictly
/// later than `from` and, when local time gave `from`'s hour mark, falls at
/// the configured minute past a wall-clock hour (under the zone's offset
/// there); otherwise it is an hour after `from`.
pub proof fn law_hourly_run_keeps_the_minute(
    from: int,
    cfg: ScheduleConfig,
    today: i32,
    mark: Option<i64>,
    slots: Seq<Option<(i64, u32)>>,
    r: int,
)
    requires
        is_freq(cfg, "hourly"@),
        run_from_readings(from, cfg, today, mark, slots, r),
    ensures
        r > from,
        mark is None ==> r == from + 3600,
        mark is Some ==> exists|p: int| #[trigger] is_offset(p) && (r + p) % 3600 == clamp_minute(cfg.minute) * 60,
{
    law_next_run_is_later(from, cfg, mark, slots);
    if let Some(m) = mark {
        let minute = clamp_minute(cfg.minute) as int;
        let (o, p) = choose|o: int, p: int|
            #![trigger is_offset(o), is_offset(p)]
            is_offset(o) && is_offset(p) && m + p == (from + o) - (from + o) % 3_600 + minute * 60;
        law_hourly_is_next_mark(from, m as int);
        let x = from + o;
        let d = r - m;
        assert(d % 3600 == 0);
        let k = d / 3600;
        assert(d == 3600 * k) by (nonlinear_arith)
            requires
                d % 3600 == 0,
                k == d / 3600,
        ;
        let q = x / 3600;
        assert(x - x % 3600 == 3600 * q) by (nonlinear_arith)
            requires
                q == x / 3600,
        ;
        assert(r + p == 3600 * (k + q) + minute * 60);
        assert((3600 * (k + q) + minute * 60) % 3600 == minute * 60) by (nonlinear_arith)
            requires
                0 <= minute <= 59,
        ;
        assert(is_offset(p));
    }
}

/// How many days after `today` the chosen weekday next falls: 1 to 7, a week
/// when `today` is itself that weekday.
pub open spec fn days_to_chosen_weekday(today: int, cfg: ScheduleConfig) -> int {
    let k = ((cfg.weekday % 7) as int - today) % 7;
    if k == 0 {
        7
    } else {
        k
    }
}

/// A weekly schedule always looks far enough ahead: among the days it
/// looks at, after `from`'s own local date, is the next one on the chosen
/// weekday, a full week on when today is that weekday and its slot has
/// passed.
pub proof fn law_weekly_looks_a_full_week_ahead(cfg: ScheduleConfig, today: int)
    requires
        is_freq(cfg, "weekly"@),
    ensures
        1 <= days_to_chosen_weekday(today, cfg) < slot_days(cfg),
        (today + days_to_chosen_weekday(today, cfg)) % 7 == cfg.weekday % 7,
{
    reveal_strlit("hourly");
    reveal_strlit("weekly");
    assert("hourly"@[0] != "weekly"@[0]);
    assert(!is_freq(cfg, "hourly"@));
    let w = (cfg.weekday % 7) as int;
    let k = (w - today) % 7;
    assert((today + k) % 7 == w) by (nonlinear_arith)
        requires
            k == (w - today) % 7,
            0 <= w < 7,
    ;
    assert((today + 7) % 7 == today % 7) by (nonlinear_arith);
    if k == 0 {
        assert(today % 7 == w);
    }
}

proof fn lemma_first_slot_at_most(
    from: int,
    slots: Seq<Option<(i64, u32)>>,
    weekday: Option<u32>,
    fallback: int,
    i: int,
)
    requires
        0 <= i < slots.len(),
        qualifies(slots[i], from, weekday),
        forall|j: int| 0 <= j < i && qualifies(#[trigger] slots[j], from, weekday)
            ==> (slots[j]->0).0 <= (slots[i]->0).0,
    ensures
        first_slot(from, slots, weekday, fallback) <= (slots[i]->0).0,
    decreases i,
{
    if !qualifies(slots[0], from, weekday) {
        let rest = slots.drop_first();
        assert(rest[i - 1] == slots[i]);
        assert forall|j: int| 0 <= j < i - 1 && qualifies(#[trigger] rest[j], from, weekday)
            implies (rest[j]->0).0 <= (rest[i - 1]->0).0 by {
            assert(rest[j] == slots[j + 1]);
        }
        lemma_first_slot_at_most(from, rest, weekday, fallback, i - 1);
    }
}

/// A weekly run is never later than the chosen weekday's next slot: when
/// local time gives that slot and it is later than `from`, the run is at or
/// before it, so it never slips to the one-week fallback.
pub proof fn law_weekly_run_takes_the_next_chosen_day(
    from: int,
    cfg: ScheduleConfig,
    today: i32,
    mark: Option<i64>,
    slots: Seq<Option<(i64, u32)>>,
    r: int,
)
    requires
        is_freq(cfg, "weekly"@),
        run_from_readings(from, cfg, today, mark, slots, r),
        slots[days_to_chosen_weekday(today as int, cfg)] is Some,
        (slots[days_to_chosen_weekday(today as int, cfg)]->0).0 > from,
    ensures
        r <= (slots[days_to_chosen_weekday(today as int, cfg)]->0).0,
{
    reveal_strlit("hourly");
    reveal_strlit("weekly");
    assert("hourly"@[0] != "weekly"@[0]);
    assert(!is_freq(cfg, "hourly"@));
    law_weekly_looks_a_full_week_ahead(cfg, today as int);
    let i = days_to_chosen_weekday(today as int, cfg);
    let wd = slot_weekday(cfg);
    let h = clamp_hour(cfg.hour) as int;
    let mi = clamp_minute(cfg.minute) as int;
    assert(slot_reading(today + i, h, mi, slots[i]));
    assert(qualifies(slots[i], from, wd));
    assert forall|j: int| 0 <= j < i && qualifies(#[trigger] slots[j], from, wd)
        implies (slots[j]->0).0 <= (slots[i]->0).0 by {
        assert(slot_reading(today + j, h, mi, slots[j]));
        let sj = slots[j]->0;
        let si = slots[i]->0;
        assert(sj.1 == (today + j) % 7);
        assert(si.1 == (today + i) % 7);
        assert((today + j) % 7 == (today + i) % 7);
        assert(i - j == 7) by (nonlinear_arith)
            requires
                (today + j) % 7 == (today + i) % 7,
                0 <= j < i,
                i <= 7,
        ;
        let oj = choose|o: int| #[trigger] is_offset(o) && sj.0 + o == wall_secs(today + j, h, mi);
        let oi = choose|o: int| #[trigger] is_offset(o) && si.0 + o == wall_secs(today + i, h, mi);
        assert(wall_secs(today + i, h, mi) == wall_secs(today + j, h, mi) + 7 * 86_400);
    }
    lemma_first_slot_at_most(from, slots, wd, from + fallback_period(cfg), i);
}

// ---------------------------------------------------------------------------
// Whether a run is due
// ---------------------------------------------------------------------------

/// Whether the open app should run a check at the moment `now`, given the
/// schedule's next run after its last one: only an enabled schedule that has
/// run before is ever due.
pub fn is_due_at(cfg: &ScheduleConfig, now: u64, next: i64) -> (r: bool)
    ensures
        r == (cfg.enabled && cfg.last_run != 0 && now as i64 >= next),
{
    cfg.enabled && cfg.last_run != 0 && now as i64 >= next
}

/// Whether a run is due, given the clock read `now` and the schedule's next
/// run `next` after its last one: `is_due_at`'s rule, with `next` what
/// `next_run_after` gives for the last run.
pub open spec fn due_reading(cfg: ScheduleConfig, now: u64, next: i64, r: bool) -> bool {
    &&& next_run_reading(cfg.last_run as i64 as int, cfg, next as int)
    &&& r == (cfg.enabled && cfg.last_run != 0 && now as i64 >= next)
}

/// Whether the open app should run a check now. A schedule that has never
/// run waits for its next proper slot rather than firing the moment it is
/// enabled.
pub fn is_due(cfg: &ScheduleConfig) -> (r: bool)
    ensures
        !cfg.enabled || cfg.last_run == 0 ==> !r,
        cfg.enabled && cfg.last_run != 0 ==> exists|now: u64, next: i64|
            #[trigger] due_reading(*cfg, now, next, r),
{
    if !cfg.enabled || cfg.last_run == 0 {
        return false;
    }
    let next = next_run_after(cfg.last_run as i64, cfg);
    let now = now_secs();
    let r = is_due_at(cfg, now, next);
    assert(due_reading(*cfg, now, next, r));
    r
}

/// When the schedule next fires, for the app's display: never (0) when it is
/// off; otherwise the next slot after its last run, or after now when it has
/// not run yet.
pub fn next_run(cfg: &ScheduleConfig) -> (r: i64)
    ensures
        !cfg.enabled ==> r == 0,
        cfg.enabled && cfg.last_run != 0 ==> next_run_reading(cfg.last_run as i64 as int, *cfg, r as int),
        cfg.enabled && cfg.last_run != 0 && (cfg.last_run as i64) < i64::MAX ==> r > cfg.last_run as i64,
        cfg.enabled && cfg.last_run == 0 ==> exists|now: u64| #[trigger] next_run_reading(now as i64 as int, *cfg, r as int),
{
    if !cfg.enabled {
        return 0;
    }
    let from = if cfg.last_run == 0 {
        now_secs()
    } else {
        cfg.last_run
    };
    next_run_after(from as i64, cfg)
}

// ---------------------------------------------------------------------------
// What runs record
// ---------------------------------------------------------------------------

/// Every section a scheduled run checks. Untracked apps are left out: that
/// scan runs `codesign` over every app in /Applications, far too slow for a
/// background job, and it lists unmanaged apps rather than pending updates.
pub const CHECKED_SECTIONS: [&'static str; 8] = [
    "macos_updates",
    "app_store",
    "brew_casks",
    "brew_formulae",
    "npm_globals",
    "pip_packages",
    "ruby_rvm",
    "ruby_rbenv",
];

pub open spec fn is_checked_section(s: Seq<char>) -> bool {
    exists|i: int| 0 <= i < 8 && #[trigger] CHECKED_SECTIONS[i]@ == s
}

/// Whether a scheduled run checks `section`.
pub fn checked_section(section: &str) -> (r: bool)
    ensures
        r == is_checked_section(section@),
{
    let mut i: usize = 0;
    while i < 8
        invariant
            i <= 8,
            forall|j: int| 0 <= j < i ==> #[trigger] CHECKED_SECTIONS[j]@ != section@,
        decreases 8 - i,
    {
        if str_eq(CHECKED_SECTIONS[i], section) {
            return true;
        }
        i = i + 1;
    }
    false
}

/// The output of the last run, kept so the app can show each section filled
/// in without re-running checks it just did.
pub struct LastCheck {
    pub ts: u64,
    pub sections: SectionMap<Vec<String>>,
}

impl Default for LastCheck {
    /// Never run, nothing recorded.
    fn default() -> (r: Self)
        ensures
            r.ts == 0,
            r.sections.pairs() == Seq::<(Seq<char>, Vec<String>)>::empty(),
    {
        LastCheck { ts: 0, sections: SectionMap::new() }
    }
}

/// The config after a run at `now` found `counts`: the run's time, its counts
/// and their menu-bar total. `None` when the total exceeds a `usize`.
pub fn record_run(cfg: ScheduleConfig, counts: SectionMap<usize>, now: u64) -> (r: Option<ScheduleConfig>)
    ensures
        r is None <==> counted_total(counts.pairs(), cfg.count_dev_updates) > usize::MAX,
        r matches Some(c) ==> c == (ScheduleConfig {
            last_run: now,
            last_total: counted_total(counts.pairs(), cfg.count_dev_updates) as usize,
            last_counts: counts,
            ..cfg
        }),
{
    match checked_total_from_counts(&counts, cfg.count_dev_updates) {
        Some(total) => Some(ScheduleConfig { last_run: now, last_total: total, last_counts: counts, ..cfg }),
        None => None,
    }
}

/// The config with its menu-bar total recomputed from its counts, so a total
/// stored under an older counting rule does not linger. `None` when the
/// total exceeds a `usize`.
pub fn recompute_total(cfg: ScheduleConfig) -> (r: Option<ScheduleConfig>)
    ensures
        r is None <==> counted_total(cfg.last_counts.pairs(), cfg.count_dev_updates) > usize::MAX,
        r matches Some(c) ==> c == (ScheduleConfig {
            last_total: counted_total(cfg.last_counts.pairs(), cfg.count_dev_updates) as usize,
            ..cfg
        }),
{
    match checked_total_from_counts(&cfg.last_counts, cfg.count_dev_updates) {
        Some(total) => Some(ScheduleConfig { last_total: total, ..cfg }),
        None => None,
    }
}

/// The config after one section was re-checked and found `count` updates:
/// that section's count replaced and the total recomputed, everything else
/// kept. `None` when the total exceeds a `usize`.
pub fn record_recount(cfg: ScheduleConfig, section: &str, count: usize) -> (r: Option<ScheduleConfig>)
    ensures
        r is None <==> counted_total(with_value(cfg.last_counts.pairs(), section@, count), cfg.count_dev_updates)
            > usize::MAX,
        r matches Some(c) ==> c.last_counts.pairs() == with_value(cfg.last_counts.pairs(), section@, count),
        r matches Some(c) ==> {
            &&& c.last_counts.spec_get(section@) == Some(count)
            &&& forall|q: Seq<char>| q != section@ ==> #[trigger] c.last_counts.spec_get(q)
                == cfg.last_counts.spec_get(q)
            &&& c.last_total == counted_total(c.last_counts.pairs(), cfg.count_dev_updates)
            &&& c == (ScheduleConfig { last_counts: c.last_counts, last_total: c.last_total, ..cfg })
        },
{
    let mut cfg = cfg;
    cfg.last_counts.insert(owned(section), count);
    recompute_total(cfg)
}

/// Records, during a run, what one section's check printed: its count into
/// `counts` and its lines into `last`.
pub fn record_section(counts: &mut SectionMap<usize>, last: &mut LastCheck, section: &str, lines: Vec<String>)
    requires
        is_itemised(section@) || summary_total(lines_view(lines@)) <= usize::MAX,
    ensures
        final(counts).pairs() == with_value(
            old(counts).pairs(),
            section@,
            section_count(section@, lines_view(lines@)) as usize,
        ),
        final(last).sections.pairs() == with_value(old(last).sections.pairs(), section@, lines),
        final(last).ts == old(last).ts,
{
    let n = count_for(section, lines.as_slice());
    counts.insert(owned(section), n);
    last.sections.insert(owned(section), lines);
}

/// The last run's output after one section was re-checked at `now`: that
/// section's lines replaced, and the time stamp set to `now` if there was no
/// run before.
pub fn record_recheck(last: LastCheck, section: &str, lines: Vec<String>, now: u64) -> (r: LastCheck)
    ensures
        r.ts == (if last.ts == 0 { now } else { last.ts }),
        r.sections.pairs() == with_value(last.sections.pairs(), section@, lines),
{
    let mut last = last;
    if last.ts == 0 {
        last.ts = now;
    }
    last.sections.insert(owned(section), lines);
    last
}

/// The config with reminders silenced for `hours` from `now`. `None` when that
/// moment is past what a `u64` holds.
pub fn record_snooze(cfg: ScheduleConfig, now: u64, hours: u64) -> (r: Option<ScheduleConfig>)
    ensures
        r is None <==> now + hours * 3600 > u64::MAX,
        r matches Some(c) ==> c == (ScheduleConfig { snoozed_until: (now + hours * 3600) as u64, ..cfg }),
{
    if hours > (u64::MAX - now) / 3600 {
        assert(now + hours * 3600 > u64::MAX) by (nonlinear_arith)
            requires
                hours > (u64::MAX - now) / 3600,
        ;
        return None;
    }
    assert(now + hours * 3600 <= u64::MAX) by (nonlinear_arith)
        requires
            hours <= (u64::MAX - now) / 3600,
    ;
    Some(ScheduleConfig { snoozed_until: now + hours * 3600, ..cfg })
}

/// The settings the window sent, with the run history (last run, counts,
/// total, snooze) carried over from the stored config, and the total
/// recomputed under the new counting choice. `None` when that total exceeds a
/// `usize`.
pub fn apply_settings(previous: ScheduleConfig, config: ScheduleConfig) -> (r: Option<ScheduleConfig>)
    ensures
        r is None <==> counted_total(previous.last_counts.pairs(), config.count_dev_updates)
            > usize::MAX,
        r matches Some(c) ==> c == (ScheduleConfig {
            last_run: previous.last_run,
            last_total: counted_total(previous.last_counts.pairs(), config.count_dev_updates) as usize,
            last_counts: previous.last_counts,
            snoozed_until: previous.snoozed_until,
            ..config
        }),
{
    let cfg = ScheduleConfig {
        last_run: previous.last_run,
        last_total: previous.last_total,
        last_counts: previous.last_counts,
        snoozed_until: previous.snoozed_until,
        ..config
    };
    recompute_total(cfg)
}

pub const NOTIFICATION_TITLE: &'static str = "PartyMAN Update Manager";

pub const ONE_UPDATE_BODY: &'static str = "1 update is available. Open PartyMAN to install or postpone.";

pub const MANY_UPDATES_TAIL: &'static str = " updates are available. Open PartyMAN to install or postpone.";

/// The notification a finished run posts at `now`, if any: none when
/// notifications are off, nothing is outstanding, or reminders are snoozed.
pub open spec fn notification_text(cfg: ScheduleConfig, now: u64) -> Option<Seq<char>> {
    if !cfg.notify || cfg.last_total == 0 || now < cfg.snoozed_until {
        None
    } else if cfg.last_total == 1 {
        Some(ONE_UPDATE_BODY@)
    } else {
        Some(decimal(cfg.last_total as nat) + MANY_UPDATES_TAIL@)
    }
}

/// The body of the notification a finished run posts at `now`, if it posts
/// one (its title is `NOTIFICATION_TITLE`).
pub fn notification_body(cfg: &ScheduleConfig, now: u64) -> (r: Option<String>)
    ensures
        match r {
            Some(b) => notification_text(*cfg, now) == Some(b@),
            None => notification_text(*cfg, now) is None,
        },
        cfg.last_total == 0 || !cfg.notify || now < cfg.snoozed_until ==> r is None,
{
    if !cfg.notify || cfg.last_total == 0 || cfg.snoozed_at(now) {
        return None;
    }
    if cfg.last_total == 1 {
        Some(owned(ONE_UPDATE_BODY))
    } else {
        let mut body = decimal_string(cfg.last_total as u64);
        body.append(MANY_UPDATES_TAIL);
        Some(body)
    }
}

// ---------------------------------------------------------------------------
// The launchd agent that runs the app when it is closed
// ---------------------------------------------------------------------------

/// Nothing is posted when nothing is outstanding, when notifications are
/// off, or while reminders are snoozed, whatever the other settings say.
pub proof fn law_no_notification_without_updates_or_while_quiet(cfg: ScheduleConfig, now: u64)
    ensures
        cfg.last_total == 0 ==> notification_text(cfg, now) is None,
        !cfg.notify ==> notification_text(cfg, now) is None,
        now < cfg.snoozed_until ==> notification_text(cfg, now) is None,
{
}

/// Otherwise a notification is posted, and it ends by saying where to act.
pub proof fn law_outstanding_updates_are_notified(cfg: ScheduleConfig, now: u64)
    requires
        cfg.notify,
        cfg.last_total > 0,
        now >= cfg.snoozed_until,
    ensures
        notification_text(cfg, now) is Some,
        finishes_with(notification_text(cfg, now)->0, " Open PartyMAN to install or postpone."@),
{
    reveal_strlit("1 update is available. Open PartyMAN to install or postpone.");
    reveal_strlit(" updates are available. Open PartyMAN to install or postpone.");
    reveal_strlit(" Open PartyMAN to install or postpone.");
    let t = notification_text(cfg, now)->0;
    let p = " Open PartyMAN to install or postpone."@;
    assert(t.skip(t.len() - p.len()) =~= p);
}

pub const MINUTE_KEY: &'static str = "        <key>Minute</key><integer>";

pub const HOUR_KEY: &'static str = "        <key>Hour</key><integer>";

pub const WEEKDAY_KEY: &'static str = "        <key>Weekday</key><integer>";

pub const INTEGER_END: &'static str = "</integer>\n";

/// launchd fires whenever every key present matches, so omitting a key means
/// "any": hourly gives only Minute, daily adds Hour, weekly adds Weekday.
pub open spec fn calendar_text(cfg: ScheduleConfig) -> Seq<char> {
    MINUTE_KEY@ + decimal(clamp_minute(cfg.minute) as nat) + INTEGER_END@ + (if !is_freq(
        cfg,
        "hourly"@,
    ) {
        HOUR_KEY@ + decimal(clamp_hour(cfg.hour) as nat) + INTEGER_END@
    } else {
        Seq::empty()
    }) + (if is_freq(cfg, "weekly"@) {
        WEEKDAY_KEY@ + decimal((cfg.weekday % 7) as nat) + INTEGER_END@
    } else {
        Seq::empty()
    })
}

/// The calendar entry for the minute, which every frequency carries.
pub open spec fn minute_entry(cfg: ScheduleConfig) -> Seq<char> {
    MINUTE_KEY@ + decimal(clamp_minute(cfg.minute) as nat) + INTEGER_END@
}

/// Every schedule pins its minute: the calendar begins with the Minute key
/// holding the clamped minute, so launchd never fires on every minute of an
/// hour. An hourly schedule pins nothing else; a weekly one ends with its
/// weekday.
pub proof fn law_calendar_always_pins_the_minute(cfg: ScheduleConfig)
    ensures
        begins_with(calendar_text(cfg), minute_entry(cfg)),
        is_freq(cfg, "hourly"@) ==> calendar_text(cfg) == minute_entry(cfg),
        is_freq(cfg, "weekly"@) ==> finishes_with(
            calendar_text(cfg),
            WEEKDAY_KEY@ + decimal((cfg.weekday % 7) as nat) + INTEGER_END@,
        ),
{
    let t = calendar_text(cfg);
    let m = minute_entry(cfg);
    assert(t.take(m.len() as int) =~= m);
    reveal_strlit("hourly");
    reveal_strlit("weekly");
    assert("hourly"@[0] != "weekly"@[0]);
    if is_freq(cfg, "hourly"@) {
        assert(!is_freq(cfg, "weekly"@));
        assert(t =~= m);
    }
    if is_freq(cfg, "weekly"@) {
        assert(!is_freq(cfg, "hourly"@));
        let w = WEEKDAY_KEY@ + decimal((cfg.weekday % 7) as nat) + INTEGER_END@;
        assert(t.skip(t.len() - w.len()) =~= w);
    }
}

/// The `StartCalendarInterval` entries for the agent's plist.
pub fn calendar_entries(cfg: &ScheduleConfig) -> (r: String)
    ensures
        r@ == calendar_text(*cfg),
        begins_with(r@, minute_entry(*cfg)),
{
    let mut out = owned(MINUTE_KEY);
    out.append(decimal_string(cfg.minute() as u64).as_str());
    out.append(INTEGER_END);
    let ghost first = out@;
    if !str_eq(cfg.frequency.as_str(), "hourly") {
        out.append(HOUR_KEY);
        out.append(decimal_string(cfg.hour() as u64).as_str());
        out.append(INTEGER_END);
    }
    let ghost second = out@;
    if str_eq(cfg.frequency.as_str(), "weekly") {
        out.append(WEEKDAY_KEY);
        out.append(decimal_string(cfg.weekday() as u64).as_str());
        out.append(INTEGER_END);
    }
    assert(out@ =~= calendar_text(*cfg));
    proof {
        law_calendar_always_pins_the_minute(*cfg);
    }
    out
}

/// `c` as XML text.
pub open spec fn escape_char(c: char) -> Seq<char> {
    if c == '&' {
        "&amp;"@
    } else if c == '<' {
        "&lt;"@
    } else if c == '>' {
        "&gt;"@
    } else {
        seq![c]
    }
}

/// `s` with `&`, `<` and `>` written as XML entities.
pub open spec fn xml_escaped(s: Seq<char>) -> Seq<char>
    decreases s.len(),
{
    if s.len() == 0 {
        Seq::empty()
    } else {
        xml_escaped(s.drop_last()) + escape_char(s.last())
    }
}

/// An escaped path cannot open or close an XML tag: it holds no `<` and no
/// `>`.
pub proof fn law_escaped_text_has_no_tags(s: Seq<char>)
    ensures
        forall|i: int| 0 <= i < xml_escaped(s).len() ==> #[trigger] xml_escaped(s)[i] != '<'
            && xml_escaped(s)[i] != '>',
    decreases s.len(),
{
    reveal_strlit("&amp;");
    reveal_strlit("&lt;");
    reveal_strlit("&gt;");
    if s.len() > 0 {
        law_escaped_text_has_no_tags(s.drop_last());
        let a = xml_escaped(s.drop_last());
        let b = escape_char(s.last());
        assert forall|i: int| 0 <= i < xml_escaped(s).len() implies #[trigger] xml_escaped(s)[i] != '<'
            && xml_escaped(s)[i] != '>' by {
            if i < a.len() {
                assert(xml_escaped(s)[i] == a[i]);
            } else {
                assert(xml_escaped(s)[i] == b[i - a.len()]);
            }
        }
    }
}

/// `s` with `&`, `<` and `>` replaced by their entities, in that order.
pub fn xml_escape(s: &str) -> (r: String)
    ensures
        r@ == xml_escaped(s@),
{
    let n = s.unicode_len();
    let mut out = String::new();
    let mut i: usize = 0;
    assert(s@.take(0) =~= Seq::<char>::empty());
    while i < n
        invariant
            n == s@.len(),
            i <= n,
            out@ == xml_escaped(s@.take(i as int)),
        decreases n - i,
    {
        let c = s.get_char(i);
        let ghost t = s@.take(i + 1);
        assert(t.drop_last() =~= s@.take(i as int));
        assert(t.last() == c);
        if c == '&' {
            out.append("&amp;");
        } else if c == '<' {
            out.append("&lt;");
        } else if c == '>' {
            out.append("&gt;");
        } else {
            let one = s.substring_char(i, i + 1);
            assert(one@ =~= seq![c]);
            out.append(one);
        }
        i = i + 1;
    }
    assert(s@.take(n as int) =~= s@);
    out
}

pub const PLIST_HEAD: &'static str = "<?xml version=\"1.0\" encoding=\"UTF-8\"?>
<!DOCTYPE plist PUBLIC \"-//Apple//DTD PLIST 1.0//EN\" \"http://www.apple.com/DTDs/PropertyList-1.0.dtd\">
<plist version=\"1.0\">
<dict>
    <key>Label</key>
    <string>";

pub const PLIST_ARGS: &'static str = "</string>
    <key>ProgramArguments</key>
    <array>
        <string>";

pub const PLIST_NEXT_ARG: &'static str = "</string>
        <string>";

pub const PLIST_CALENDAR: &'static str = "</string>
    </array>
    <key>StartCalendarInterval</key>
    <dict>
";

pub const PLIST_TAIL: &'static str = "    </dict>
    <key>RunAtLoad</key>
    <false/>
    <key>ProcessType</key>
    <string>Background</string>
    <key>LowPriorityIO</key>
    <true/>
</dict>
</plist>
";

/// The agent's plist: it runs `exe` with the scheduled-run flag at the
/// schedule's calendar interval, in the background, not at load.
pub open spec fn plist_text(exe: Seq<char>, cfg: ScheduleConfig) -> Seq<char> {
    PLIST_HEAD@ + AGENT_LABEL@ + PLIST_ARGS@ + xml_escaped(exe) + PLIST_NEXT_ARG@
        + SCHEDULED_RUN_FLAG@ + PLIST_CALENDAR@ + calendar_text(cfg) + PLIST_TAIL@
}

/// The plist `install_agent` writes for the program at `exe`.
pub fn agent_plist(exe: &str, cfg: &ScheduleConfig) -> (r: String)
    ensures
        r@ == plist_text(exe@, *cfg),
{
    let mut out = owned(PLIST_HEAD);
    out.append(AGENT_LABEL);
    out.append(PLIST_ARGS);
    out.append(xml_escape(exe).as_str());
    out.append(PLIST_NEXT_ARG);
    out.append(SCHEDULED_RUN_FLAG);
    out.append(PLIST_CALENDAR);
    out.append(calendar_entries(cfg).as_str());
    out.append(PLIST_TAIL);
    assert(out@ =~= plist_text(exe@, *cfg));
    out
}

/// Whether an agent plist launches the program at `exe`: moving or
/// reinstalling the app changes that path, and launchd would go on launching
/// the old one.
pub fn plist_points_at(plist: &str, exe: &str) -> (r: bool)
    ensures
        r == has_sub(plist@, xml_escaped(exe@)),
{
    let escaped = xml_escape(exe);
    contains_str(plist, escaped.as_str())
}

/// Whether the launchd agent is current: launchd has it loaded (`loaded`,
/// what `launchctl print` answered) and its plist launches the program at
/// `exe`. Moving or reinstalling the app changes that path, and launchd
/// would go on launching the old one, or nothing at all.
pub fn agent_current(loaded: bool, plist: &str, exe: &str) -> (r: bool)
    ensures
        r == (loaded && has_sub(plist@, xml_escaped(exe@))),
{
    loaded && plist_points_at(plist, exe)
}

pub const BOOTSTRAP_FAILED: &'static str = "launchctl bootstrap failed: ";

/// The error `install_agent` reports when `launchctl bootstrap` fails with the
/// given error output.
pub fn bootstrap_error(stderr: &str) -> (r: String)
    ensures
        r@ == BOOTSTRAP_FAILED@ + trimmed(stderr@),
{
    let mut out = owned(BOOTSTRAP_FAILED);
    out.append(trim(stderr));
    out
}

/// What to do with the launchd agent.
#[derive(Clone, Copy, Debug, PartialEq, Eq)]
pub enum AgentAction {
    /// Write the plist and (re)load it.
    Install,
    /// Unload it and delete the plist.
    Remove,
    /// Leave it as it is.
    Keep,
}

/// At launch: re-register the agent when the schedule is on and the agent is
/// missing or points elsewhere (`agent_is_current` false); otherwise leave it.
pub fn ensure_agent_current(cfg: &ScheduleConfig, agent_is_current: bool) -> (a: AgentAction)
    ensures
        a == (if cfg.enabled && !agent_is_current { AgentAction::Install } else { AgentAction::Keep }),
{
    if cfg.enabled && !agent_is_current {
        AgentAction::Install
    } else {
        AgentAction::Keep
    }
}

/// After the settings change: the agent loaded at the right interval when the
/// schedule is on, gone when it is off.
pub fn sync_agent(cfg: &ScheduleConfig) -> (a: AgentAction)
    ensures
        a == (if cfg.enabled { AgentAction::Install } else { AgentAction::Remove }),
{
    if cfg.enabled {
        AgentAction::Install
    } else {
        AgentAction::Remove
    }
}

} // verus!
