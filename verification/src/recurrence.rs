//! Expands the `recurrenceRules` of a JSCalendar `Event` into the occurrences that intersect a
//! display range, applying `recurrenceOverrides` patches.
//!
//! This covers the patterns that show up in practice: plain daily, weekly, monthly and
//! yearly intervals, `byDay` weekday lists, `byDay` with `nthOfPeriod` ("2nd Tuesday"),
//! `byMonthDay` and `byMonth`. In a month, a day of the week without a number stands for all of
//! them. It is not the full grammar of iCalendar: there is no `bySetPosition` combined with
//! several `byDay` rules, no `byWeekNo` and no `byYearDay`.
//!
//! A rule whose next date would be past the end of the calendar cannot be expanded: the
//! specification functions give `None` there.

use vstd::prelude::*;
use vstd::string::*;
use crate::calendar::{
    date_less, date_of, date_of_num, date_plus_months, day_in_range, plus_days, plus_months,
    plus_secs, range_bounds, time_less, NaiveDate, NaiveDateTime, MAX_YEAR, MIN_YEAR,
};
use crate::collections::{
    in_order, map_get, sort_items, stable_sorted, stable_sorted_in_order, total_preorder, CloneView,
    Ordered, StrMap,
};
use crate::duration::{duration_secs, duration_text, format_duration, try_parse_duration, Duration};
use crate::jscalendar::{
    local_time, local_time_of_text, local_time_on_clock, CalendarEvent, CalendarEventV, Frequency,
    LocalDateTime, NDay, NDayV, PatchObject, RecurrenceRule, RecurrenceRuleV, Weekday,
};
use crate::json::ValueV;
use crate::numbers::{parse_int, parse_u32_str};
use crate::timetext::iso_text;

verus! {

/// No rule gives more occurrences than this.
pub const MAX_OCCURRENCES: usize = 2000;

/// The index of a day of the week, 0 for Monday.
pub open spec fn weekday_index(w: Weekday) -> int {
    match w {
        Weekday::Monday => 0,
        Weekday::Tuesday => 1,
        Weekday::Wednesday => 2,
        Weekday::Thursday => 3,
        Weekday::Friday => 4,
        Weekday::Saturday => 5,
        Weekday::Sunday => 6,
    }
}

/// The index of a day of the week, 0 for Monday.
pub fn days_from_monday(w: Weekday) -> (r: i64)
    ensures
        r == weekday_index(w),
        0 <= r < 7,
{
    match w {
        Weekday::Monday => 0,
        Weekday::Tuesday => 1,
        Weekday::Wednesday => 2,
        Weekday::Thursday => 3,
        Weekday::Friday => 4,
        Weekday::Saturday => 5,
        Weekday::Sunday => 6,
    }
}

/// The date with these parts, where there is one.
pub open spec fn date_at(y: int, m: int, d: int) -> Option<NaiveDate> {
    let date = NaiveDate { year: y as i32, month: m as u32, day: d as u32 };
    if MIN_YEAR <= y <= MAX_YEAR && 1 <= m <= 12 && 0 < d && date.valid() {
        Some(date)
    } else {
        None
    }
}

/// The last day of month `m`: the day before the first of the next month. The outer `None`
/// is a month without a next one.
pub open spec fn month_end(y: int, m: int) -> Option<Option<NaiveDate>> {
    if m >= u32::MAX || (m == 12 && y >= i32::MAX) {
        None
    } else {
        let next = if m == 12 {
            date_at(y + 1, 1, 1)
        } else {
            date_at(y, m + 1, 1)
        };
        match next {
            Some(n) => Some(plus_days(n, -1)),
            None => Some(None),
        }
    }
}

/// Day `day` of month `m`, counted from its end where `day` is not positive; none where the
/// month is too short for it. The outer `None` is a count that leaves the calendar.
pub open spec fn day_of_month(y: int, m: int, day: int) -> Option<Option<NaiveDate>> {
    if day > 0 {
        Some(date_at(y, m, day))
    } else {
        match month_end(y, m) {
            Some(Some(last)) => if day == i32::MIN {
                None
            } else {
                match plus_days(last, day + 1) {
                    Some(d) => if d.year == y && d.month == m {
                        Some(Some(d))
                    } else {
                        Some(None)
                    },
                    None => None,
                }
            },
            x => x,
        }
    }
}

/// The `nth` day of the week `w` of month `m`, counted from its end where `nth` is not
/// positive; none where the month has fewer. The outer `None` is a count that leaves the calendar.
pub open spec fn weekday_of_month(y: int, m: int, w: int, nth: int) -> Option<
    Option<NaiveDate>,
> {
    let base = if nth > 0 {
        Some(date_at(y, m, 1))
    } else {
        month_end(y, m)
    };
    match base {
        Some(Some(b)) => {
            let step = if nth > 0 {
                (7 + w - b.weekday_num()) % 7 + 7 * (nth - 1)
            } else {
                -((7 + b.weekday_num() - w) % 7 + 7 * (-nth - 1))
            };
            if nth == i32::MIN {
                None
            } else {
                match plus_days(b, step) {
                    Some(c) => if c.year == y && c.month == m {
                        Some(Some(c))
                    } else {
                        Some(None)
                    },
                    None => None,
                }
            }
        },
        x => x,
    }
}

/// The dates that are there; `None` where one of them could not be counted.
pub open spec fn present(s: Seq<Option<Option<NaiveDate>>>) -> Option<Seq<NaiveDate>>
    decreases s.len(),
{
    if s.len() == 0 {
        Some(Seq::empty())
    } else {
        match (present(s.drop_last()), s.last()) {
            (Some(out), Some(Some(d))) => Some(out.push(d)),
            (Some(out), Some(None)) => Some(out),
            _ => None,
        }
    }
}

/// The days of the week that a rule asks for in a month, each with its number there. One
/// without a number stands for all of them: there are no more than five.
pub open spec fn asked_days(by_day: Seq<NDayV>) -> Seq<(int, int)>
    decreases by_day.len(),
{
    if by_day.len() == 0 {
        Seq::empty()
    } else {
        let w = weekday_index(by_day.last().day);
        asked_days(by_day.drop_last()) + match by_day.last().nth_of_period {
            Some(n) => seq![(w, n as int)],
            None => Seq::new(5, |i: int| (w, i + 1)),
        }
    }
}

/// The dates that a rule picks in one month.
pub open spec fn month_dates(
    y: int,
    m: int,
    start_day: int,
    by_day: Seq<NDayV>,
    by_month_day: Seq<i32>,
) -> Option<Seq<NaiveDate>> {
    if by_day.len() > 0 {
        let asked = asked_days(by_day);
        present(
            Seq::new(asked.len(), |i: int| weekday_of_month(y, m, asked[i].0, asked[i].1)),
        )
    } else if by_month_day.len() > 0 {
        present(Seq::new(by_month_day.len(), |i: int| day_of_month(y, m, by_month_day[i] as int)))
    } else {
        present(seq![Some(date_at(y, m, start_day))])
    }
}

/// The interval of a rule: at least one.
pub open spec fn interval_of(rule: RecurrenceRuleV) -> int {
    match rule.interval {
        Some(i) => if i >= 1 {
            i as int
        } else {
            1
        },
        None => 1,
    }
}

/// The days of the week of a weekly rule, as indices.
pub open spec fn week_days(start: NaiveDate, by_day: Seq<NDayV>) -> Seq<int> {
    if by_day.len() == 0 {
        seq![start.weekday_num()]
    } else {
        Seq::new(by_day.len(), |i: int| weekday_index(by_day[i].day))
    }
}

/// The dates of one week of a weekly rule, in the order of the rule.
pub open spec fn week_dates(base: int, days: Seq<int>) -> Option<Seq<NaiveDate>> {
    present(
        Seq::new(
            days.len(),
            |i: int|
                if day_in_range(base + days[i]) {
                    Some(Some(date_of(base + days[i])))
                } else {
                    None
                },
        ),
    )
}

/// The months of a yearly rule: those of its `byMonth` that are numbers, or that of the
/// start.
pub open spec fn year_months(start: NaiveDate, by_month: Seq<Seq<char>>) -> Seq<int>
    decreases by_month.len(),
{
    if by_month.len() == 0 {
        seq![start.month as int]
    } else {
        numbers_of(by_month)
    }
}

/// The texts that are numbers, as those numbers.
pub open spec fn numbers_of(s: Seq<Seq<char>>) -> Seq<int>
    decreases s.len(),
{
    if s.len() == 0 {
        Seq::empty()
    } else {
        match parse_int(s.last(), 0, u32::MAX as int) {
            Some(n) => numbers_of(s.drop_last()).push(n),
            None => numbers_of(s.drop_last()),
        }
    }
}

/// The dates that a rule picks in one year.
pub open spec fn year_dates(
    y: int,
    months: Seq<int>,
    start_day: int,
    by_day: Seq<NDayV>,
    by_month_day: Seq<i32>,
) -> Option<Seq<NaiveDate>>
    decreases months.len(),
{
    if months.len() == 0 {
        Some(Seq::empty())
    } else {
        match (
            year_dates(y, months.drop_last(), start_day, by_day, by_month_day),
            month_dates(y, months.last(), start_day, by_day, by_month_day),
        ) {
            (Some(a), Some(b)) => Some(a + b),
            _ => None,
        }
    }
}

/// The dates in ascending order, each once.
pub open spec fn sorted_dates(s: Option<Seq<NaiveDate>>) -> Option<Seq<NaiveDate>> {
    match s {
        Some(s) => Some(
            dedup(stable_sorted(s, |a: NaiveDate, b: NaiveDate| NaiveDate::le_view(a, b))),
        ),
        None => None,
    }
}

/// Whether a date is on one of the days of the week that a daily rule keeps to: any day, where
/// it names none.
pub open spec fn on_listed_day(date: NaiveDate, by_day: Seq<NDayV>) -> bool {
    by_day.len() == 0 || exists|i: int|
        0 <= i < by_day.len() && weekday_index((#[trigger] by_day[i]).day) == date.weekday_num()
}

/// The candidate of a daily rule on one day: none where the rule keeps to other days of the week.
pub open spec fn daily_candidates(day: int, by_day: Seq<NDayV>) -> Seq<NaiveDate> {
    if on_listed_day(date_of(day), by_day) {
        seq![date_of(day)]
    } else {
        Seq::empty()
    }
}

/// The candidate dates of the `k`th period of a rule, in order; `None` where the period is
/// not in the calendar.
pub open spec fn period_dates(rule: RecurrenceRuleV, start: NaiveDate, k: int) -> Option<
    Seq<NaiveDate>,
> {
    let interval = interval_of(rule);
    match rule.frequency {
        Frequency::Weekly => {
            let base = start.num() - start.weekday_num() + 7 * (k * interval);
            if day_in_range(start.num() - start.weekday_num()) && day_in_range(base) {
                sorted_dates(week_dates(base, week_days(start, rule.by_day)))
            } else {
                None
            }
        },
        Frequency::Monthly => {
            let n = k * interval;
            match plus_months(start, n) {
                Some(d) => if n <= u32::MAX {
                    sorted_dates(
                        month_dates(
                            d.year as int,
                            d.month as int,
                            start.day as int,
                            rule.by_day,
                            rule.by_month_day,
                        ),
                    )
                } else {
                    None
                },
                None => None,
            }
        },
        Frequency::Yearly => {
            let y = start.year + k * interval;
            if MIN_YEAR <= y <= MAX_YEAR {
                sorted_dates(
                    year_dates(
                        y,
                        year_months(start, rule.by_month),
                        start.day as int,
                        rule.by_day,
                        rule.by_month_day,
                    ),
                )
            } else {
                None
            }
        },
        _ => {
            if day_in_range(start.num() + k * interval) {
                Some(daily_candidates(start.num() + k * interval, rule.by_day))
            } else {
                None
            }
        },
    }
}

/// What a rule is expanded against.
pub struct Bounds {
    pub dtstart: NaiveDateTime,
    pub range_start: NaiveDateTime,
    pub range_end: NaiveDateTime,
    pub until: Option<NaiveDateTime>,
    pub count: Option<u32>,
}

impl Bounds {
    pub open spec fn valid(self) -> bool {
        self.dtstart.valid() && self.range_start.valid() && self.range_end.valid()
    }
}

/// How far the expansion of a rule has come: the occurrences in range, how many dates
/// counted, and whether it has come to its end.
#[verifier::ext_equal]
pub struct WalkV {
    pub out: Seq<NaiveDateTime>,
    pub produced: int,
    pub done: bool,
}

/// The expansion after one more candidate date. Dates before the start do not count. The
/// rule ends at a date past `until`, at the date after the last counted one, at the first
/// past the range where nothing else bounds the rule, and after `MAX_OCCURRENCES` dates.
pub open spec fn walk_date(b: Bounds, w: WalkV, date: NaiveDate) -> WalkV {
    if w.done || date_less(date, b.dtstart.date) {
        w
    } else {
        let t = NaiveDateTime { date, secs: b.dtstart.secs, leap: b.dtstart.leap };
        let produced = w.produced + 1;
        if b.until is Some && time_less(b.until->0, t) {
            WalkV { out: w.out, produced: w.produced, done: true }
        } else if b.count is Some && produced > b.count->0 {
            WalkV { out: w.out, produced, done: true }
        } else {
            let out = if !time_less(t, b.range_start) && time_less(t, b.range_end) {
                w.out.push(t)
            } else {
                w.out
            };
            WalkV {
                out,
                produced,
                done: (!time_less(t, b.range_end) && b.until is None && b.count is None) || out.len()
                    >= MAX_OCCURRENCES || produced >= MAX_OCCURRENCES,
            }
        }
    }
}

/// The expansion after all the dates of `s`.
pub open spec fn walk_dates(b: Bounds, w: WalkV, s: Seq<NaiveDate>) -> WalkV
    decreases s.len(),
{
    if s.len() == 0 {
        w
    } else {
        walk_date(b, walk_dates(b, w, s.drop_last()), s.last())
    }
}

/// More periods than any rule has in the calendar.
pub const PERIOD_LIMIT: u64 = 200_000_000;

/// Every period of a rule that is in the calendar comes before `PERIOD_LIMIT`.
pub proof fn periods_end(rule: RecurrenceRuleV, start: NaiveDate, k: int)
    requires
        period_dates(rule, start, k) is Some,
        k >= 0,
        start.valid(),
    ensures
        k < PERIOD_LIMIT,
{
    range_bounds();
    date_of_num(start);
    let i = interval_of(rule);
    assert(k * i >= k) by (nonlinear_arith)
        requires
            k >= 0,
            i >= 1,
    ;
}

/// The expansion from period `k` on, or `None` where the calendar ends before the rule.
pub open spec fn walk_periods(rule: RecurrenceRuleV, b: Bounds, w: WalkV, k: int) -> Option<
    Seq<NaiveDateTime>,
>
    decreases PERIOD_LIMIT - k,
    when k >= 0 && b.dtstart.valid()
{
    if w.done {
        Some(w.out)
    } else {
        match period_dates(rule, b.dtstart.date, k) {
            Some(s) => {
                proof {
                    periods_end(rule, b.dtstart.date, k);
                }
                walk_periods(rule, b, walk_dates(b, w, s), k + 1)
            },
            None => None,
        }
    }
}

/// The bounds of a rule.
pub open spec fn bounds_of(
    rule: RecurrenceRuleV,
    dtstart: NaiveDateTime,
    range_start: NaiveDateTime,
    range_end: NaiveDateTime,
) -> Bounds {
    Bounds {
        dtstart,
        range_start,
        range_end,
        until: match rule.until {
            Some(u) => local_time(u),
            None => None,
        },
        count: rule.count,
    }
}

pub open spec fn walk_start() -> WalkV {
    WalkV { out: Seq::empty(), produced: 0, done: false }
}

/// A daily rule that comes to the same day of the week every time, and names only others.
pub open spec fn never_comes(rule: RecurrenceRuleV, start: NaiveDate) -> bool {
    rule.frequency is Daily && interval_of(rule) % 7 == 0 && !on_listed_day(start, rule.by_day)
}

/// The starts that a rule gives in a range; `None` where the calendar ends before the rule.
/// A rule that repeats within a day gives only the start itself.
pub open spec fn rule_starts(
    rule: RecurrenceRuleV,
    dtstart: NaiveDateTime,
    range_start: NaiveDateTime,
    range_end: NaiveDateTime,
) -> Option<Seq<NaiveDateTime>> {
    let b = bounds_of(rule, dtstart, range_start, range_end);
    match rule.frequency {
        Frequency::Hourly | Frequency::Minutely | Frequency::Secondly => Some(
            walk_date(b, walk_start(), dtstart.date).out,
        ),
        _ => if never_comes(rule, dtstart.date) {
            Some(Seq::empty())
        } else {
            walk_periods(rule, b, walk_start(), 0)
        },
    }
}

// ---------------------------------------------------------------------------
// Candidate dates
// ---------------------------------------------------------------------------

fn month_last(year: i32, month: u32) -> (r: Option<Option<NaiveDate>>)
    ensures
        r == month_end(year as int, month as int),
        r matches Some(Some(d)) ==> d.valid(),
{
    if month == u32::MAX || (month == 12 && year == i32::MAX) {
        return None;
    }
    let next = if month == 12 {
        NaiveDate::from_ymd_opt(year + 1, 1, 1)
    } else {
        NaiveDate::from_ymd_opt(year, month + 1, 1)
    };
    match next {
        Some(n) => Some(n.add_days(-1)),
        None => Some(None),
    }
}

/// Day `day` of a month, counted from its end where `day` is not positive.
fn nth_day_of_month(year: i32, month: u32, day: i32) -> (r: Option<Option<NaiveDate>>)
    ensures
        r == day_of_month(year as int, month as int, day as int),
        r matches Some(Some(d)) ==> d.valid(),
{
    if day > 0 {
        return Some(NaiveDate::from_ymd_opt(year, month, day as u32));
    }
    match month_last(year, month) {
        Some(Some(last)) => {
            if day == i32::MIN {
                return None;
            }
            match last.add_days(day as i64 + 1) {
                Some(d) => {
                    if d.year == year && d.month == month {
                        Some(Some(d))
                    } else {
                        Some(None)
                    }
                },
                None => None,
            }
        },
        x => x,
    }
}

/// The `nth` day of the week of a month, counted from its end where `nth` is not positive.
fn nth_weekday_of_month(year: i32, month: u32, weekday: Weekday, nth: i32) -> (r: Option<
    Option<NaiveDate>,
>)
    ensures
        r == weekday_of_month(year as int, month as int, weekday_index(weekday), nth as int),
        r matches Some(Some(d)) ==> d.valid(),
{
    let w: i64 = days_from_monday(weekday);
    let base = if nth > 0 {
        Some(NaiveDate::from_ymd_opt(year, month, 1))
    } else {
        month_last(year, month)
    };
    match base {
        Some(Some(b)) => {
            if nth == i32::MIN {
                return None;
            }
            let bw: i64 = b.weekday() as i64;
            let step: i64 = if nth > 0 {
                (7 + w - bw) % 7 + 7 * (nth as i64 - 1)
            } else {
                -((7 + bw - w) % 7 + 7 * (-(nth as i64) - 1))
            };
            match b.add_days(step) {
                Some(c) => {
                    if c.year == year && c.month == month {
                        Some(Some(c))
                    } else {
                        Some(None)
                    }
                },
                None => None,
            }
        },
        x => x,
    }
}

fn days_asked(by_day: &Vec<NDay>) -> (r: Vec<(Weekday, i32)>)
    ensures
        r@.len() == asked_days(by_day.deep_view()).len(),
        forall|i: int|
            0 <= i < r@.len() ==> (weekday_index((#[trigger] r@[i]).0), r@[i].1 as int)
                == asked_days(by_day.deep_view())[i],
{
    let ghost all = by_day.deep_view();
    let mut out: Vec<(Weekday, i32)> = Vec::new();
    let mut i: usize = 0;
    assert(all.take(0) =~= Seq::empty());
    while i < by_day.len()
        invariant
            0 <= i <= by_day@.len(),
            all == by_day.deep_view(),
            out@.len() == asked_days(all.take(i as int)).len(),
            forall|j: int|
                0 <= j < out@.len() ==> (weekday_index((#[trigger] out@[j]).0), out@[j].1 as int)
                    == asked_days(all.take(i as int))[j],
        decreases by_day@.len() - i,
    {
        proof {
            assert(all.take(i + 1).drop_last() =~= all.take(i as int));
            assert(all.take(i + 1).last() == by_day@[i as int].deep_view());
        }
        match by_day[i].nth_of_period {
            Some(n) => {
                out.push((by_day[i].day, n));
            },
            None => {
                out.push((by_day[i].day, 1));
                out.push((by_day[i].day, 2));
                out.push((by_day[i].day, 3));
                out.push((by_day[i].day, 4));
                out.push((by_day[i].day, 5));
            },
        }
        i = i + 1;
    }
    assert(all.take(i as int) =~= all);
    out
}

/// Every date is in range.
pub open spec fn all_valid(s: Seq<NaiveDate>) -> bool {
    forall|i: int| 0 <= i < s.len() ==> (#[trigger] s[i]).valid()
}

fn dates_in_month(
    year: i32,
    month: u32,
    start_day: u32,
    by_day: &Vec<NDay>,
    by_month_day: &Vec<i32>,
) -> (r: Option<Vec<NaiveDate>>)
    requires
        start_day >= 1,
    ensures
        match r {
            Some(v) => month_dates(
                year as int,
                month as int,
                start_day as int,
                by_day.deep_view(),
                by_month_day.deep_view(),
            ) == Some(v@) && all_valid(v@),
            None => month_dates(
                year as int,
                month as int,
                start_day as int,
                by_day.deep_view(),
                by_month_day.deep_view(),
            ) is None,
        },
{
    let mut out: Vec<NaiveDate> = Vec::new();
    if by_day.len() > 0 {
        let days = days_asked(by_day);
        let ghost asked = asked_days(by_day.deep_view());
        let ghost list = Seq::new(
            asked.len(),
            |i: int| weekday_of_month(year as int, month as int, asked[i].0, asked[i].1),
        );
        let mut i: usize = 0;
        assert(list.take(0) =~= Seq::empty());
        while i < days.len()
            invariant
                0 <= i <= days@.len(),
                days@.len() == asked.len(),
                forall|j: int|
                    0 <= j < days@.len() ==> (
                        weekday_index((#[trigger] days@[j]).0),
                        days@[j].1 as int,
                    ) == asked[j],
                list == Seq::new(
                    asked.len(),
                    |i: int| weekday_of_month(year as int, month as int, asked[i].0, asked[i].1),
                ),
                present(list.take(i as int)) == Some(out@),
                all_valid(out@),
                month_dates(
                    year as int,
                    month as int,
                    start_day as int,
                    by_day.deep_view(),
                    by_month_day.deep_view(),
                ) == present(list),
            decreases days@.len() - i,
        {
            let c = nth_weekday_of_month(year, month, days[i].0, days[i].1);
            proof {
                assert(list.take(i + 1).drop_last() =~= list.take(i as int));
                assert(days@[i as int].1 as int == asked[i as int].1);
                assert(list.take(i + 1).last() == c);
            }
            match c {
                Some(Some(d)) => {
                    out.push(d);
                },
                Some(None) => {},
                None => {
                    proof {
                        present_prefix(list, i + 1);
                    }
                    return None;
                },
            }
            i = i + 1;
        }
        assert(list.take(i as int) =~= list);
        Some(out)
    } else if by_month_day.len() > 0 {
        let ghost list = Seq::new(
            by_month_day.deep_view().len(),
            |i: int|
                day_of_month(year as int, month as int, by_month_day.deep_view()[i] as int),
        );
        let mut i: usize = 0;
        assert(list.take(0) =~= Seq::empty());
        while i < by_month_day.len()
            invariant
                0 <= i <= by_month_day@.len(),
                list == Seq::new(
                    by_month_day.deep_view().len(),
                    |i: int|
                        day_of_month(year as int, month as int, by_month_day.deep_view()[i] as int),
                ),
                present(list.take(i as int)) == Some(out@),
                all_valid(out@),
                month_dates(
                    year as int,
                    month as int,
                    start_day as int,
                    by_day.deep_view(),
                    by_month_day.deep_view(),
                ) == present(list),
            decreases by_month_day@.len() - i,
        {
            let c = nth_day_of_month(year, month, by_month_day[i]);
            proof {
                assert(list.take(i + 1).drop_last() =~= list.take(i as int));
                assert(list.take(i + 1).last() == c);
            }
            match c {
                Some(Some(d)) => {
                    out.push(d);
                },
                Some(None) => {},
                None => {
                    proof {
                        present_prefix(list, i + 1);
                    }
                    return None;
                },
            }
            i = i + 1;
        }
        assert(list.take(i as int) =~= list);
        Some(out)
    } else {
        let c = NaiveDate::from_ymd_opt(year, month, start_day);
        proof {
            let list = seq![Some(date_at(year as int, month as int, start_day as int))];
            assert(list.drop_last() =~= Seq::empty());
            reveal_with_fuel(present, 2);
        }
        match c {
            Some(d) => {
                out.push(d);
            },
            None => {},
        }
        Some(out)
    }
}

/// A date that cannot be counted spoils the whole list.
proof fn present_prefix(s: Seq<Option<Option<NaiveDate>>>, k: int)
    requires
        0 <= k <= s.len(),
        present(s.take(k)) is None,
    ensures
        present(s) is None,
    decreases s.len() - k,
{
    if k == s.len() {
        assert(s.take(k) =~= s);
    } else {
        assert(s.take(k + 1).drop_last() =~= s.take(k));
        present_prefix(s, k + 1);
    }
}

fn is_on_listed_day(date: NaiveDate, by_day: &Vec<NDay>) -> (r: bool)
    requires
        date.valid(),
    ensures
        r == on_listed_day(date, by_day.deep_view()),
{
    if by_day.len() == 0 {
        return true;
    }
    let w: i64 = date.weekday() as i64;
    let ghost all = by_day.deep_view();
    let mut i: usize = 0;
    while i < by_day.len()
        invariant
            0 <= i <= by_day@.len(),
            all == by_day.deep_view(),
            w == date.weekday_num(),
            forall|j: int| 0 <= j < i ==> weekday_index((#[trigger] all[j]).day) != w,
        decreases by_day@.len() - i,
    {
        assert(all[i as int] == by_day@[i as int].deep_view());
        if days_from_monday(by_day[i].day) == w {
            return true;
        }
        i = i + 1;
    }
    false
}

/// The dates of one period of a daily rule.
fn daily_dates(start: NaiveDate, interval: u32, by_day: &Vec<NDay>, k: u64) -> (r: Option<
    Vec<NaiveDate>,
>)
    requires
        start.valid(),
        k <= PERIOD_LIMIT,
    ensures
        match r {
            Some(v) => day_in_range(start.num() + k * interval) && v@ == daily_candidates(
                start.num() + k * interval,
                by_day.deep_view(),
            ) && all_valid(v@),
            None => !day_in_range(start.num() + k * interval),
        },
{
    assert(0 <= k * interval < 0x1000_0000_0000_0000) by (nonlinear_arith)
        requires
            0 <= k <= 200_000_000,
            0 <= interval < 0x1_0000_0000,
    ;
    match start.add_days(k as i64 * interval as i64) {
        Some(d) => {
            let mut v: Vec<NaiveDate> = Vec::new();
            if is_on_listed_day(d, by_day) {
                v.push(d);
            }
            assert(v@ =~= daily_candidates(start.num() + k * interval, by_day.deep_view()));
            Some(v)
        },
        None => None,
    }
}

fn sort_dates(v: Vec<NaiveDate>) -> (r: Vec<NaiveDate>)
    requires
        all_valid(v@),
    ensures
        sorted_dates(Some(v@)) == Some(r@),
        all_valid(r@),
{
    assert(v.deep_view() =~= v@);
    proof {
        sorting_keeps_valid(v@, |a: NaiveDate, b: NaiveDate| NaiveDate::le_view(a, b));
    }
    let sorted = sort_items(v);
    assert(sorted.deep_view() =~= sorted@);
    dedup_dates(&sorted)
}

fn dedup_dates(s: &Vec<NaiveDate>) -> (r: Vec<NaiveDate>)
    requires
        all_valid(s@),
    ensures
        r@ == dedup(s@),
        all_valid(r@),
{
    let mut out: Vec<NaiveDate> = Vec::new();
    let mut i: usize = 0;
    assert(dedup(s@.take(0)) =~= out@);
    while i < s.len()
        invariant
            0 <= i <= s@.len(),
            all_valid(s@),
            all_valid(out@),
            out@ == dedup(s@.take(i as int)),
        decreases s@.len() - i,
    {
        proof {
            let t = s@.take(i + 1);
            assert(t.drop_last() =~= s@.take(i as int));
            assert(t.last() == s@[i as int]);
            if i > 0 {
                assert(t[t.len() - 2] == s@[i - 1]);
            } else {
                assert(s@.take(0) =~= Seq::empty());
                assert(t =~= dedup(s@.take(0)).push(t.last()));
            }
        }
        if i == 0 || s[i] != s[i - 1] {
            out.push(s[i]);
        }
        i = i + 1;
    }
    assert(s@.take(i as int) =~= s@);
    out
}

/// The dates of one period of a weekly rule.
fn weekly_dates(start: NaiveDate, interval: u32, by_day: &Vec<NDay>, k: u64) -> (r: Option<
    Vec<NaiveDate>,
>)
    requires
        start.valid(),
        k <= PERIOD_LIMIT,
    ensures
        ({
            let base = start.num() - start.weekday_num() + 7 * (k * interval);
            let dates = if day_in_range(start.num() - start.weekday_num()) && day_in_range(base) {
                sorted_dates(week_dates(base, week_days(start, by_day.deep_view())))
            } else {
                None
            };
            match r {
                Some(v) => dates == Some(v@) && all_valid(v@),
                None => dates is None,
            }
        }),
{
    let ghost days = week_days(start, by_day.deep_view());
    let ghost base_num = start.num() - start.weekday_num() + 7 * (k * interval);
    let mut indices: Vec<i64> = Vec::new();
    if by_day.len() == 0 {
        indices.push(start.weekday() as i64);
    } else {
        let mut i: usize = 0;
        while i < by_day.len()
            invariant
                0 <= i <= by_day@.len(),
                indices@.len() == i,
                forall|j: int|
                    0 <= j < i ==> #[trigger] indices@[j] == weekday_index(by_day@[j].day) && 0
                        <= indices@[j] < 7,
            decreases by_day@.len() - i,
        {
            indices.push(days_from_monday(by_day[i].day));
            i = i + 1;
        }
    }
    assert(indices@.len() == days.len());
    assert forall|j: int| 0 <= j < indices@.len() implies #[trigger] indices@[j] == days[j] && 0
        <= indices@[j] < 7 by {}
    assert(0 <= k * interval < 0x1000_0000_0000_0000) by (nonlinear_arith)
        requires
            0 <= k <= 200_000_000,
            0 <= interval < 0x1_0000_0000,
    ;
    let monday = match start.add_days(-(start.weekday() as i64)) {
        Some(d) => d,
        None => {
            return None;
        },
    };
    let base = match monday.add_days(7 * (k as i64 * interval as i64)) {
        Some(d) => d,
        None => {
            return None;
        },
    };
    let ghost list = Seq::new(
        days.len(),
        |i: int|
            if day_in_range(base_num + days[i]) {
                Some(Some(date_of(base_num + days[i])))
            } else {
                None
            },
    );
    let mut out: Vec<NaiveDate> = Vec::new();
    let mut i: usize = 0;
    assert(list.take(0) =~= Seq::empty());
    while i < indices.len()
        invariant
            0 <= i <= indices@.len(),
            base.valid(),
            base.num() == base_num,
            days == week_days(start, by_day.deep_view()),
            base_num == start.num() - start.weekday_num() + 7 * (k * interval),
            indices@.len() == days.len(),
            forall|j: int|
                0 <= j < indices@.len() ==> #[trigger] indices@[j] == days[j] && 0 <= indices@[j]
                    < 7,
            list == Seq::new(
                days.len(),
                |i: int|
                    if day_in_range(base_num + days[i]) {
                        Some(Some(date_of(base_num + days[i])))
                    } else {
                        None
                    },
            ),
            week_dates(base_num, days) == present(list),
            present(list.take(i as int)) == Some(out@),
            all_valid(out@),
        decreases indices@.len() - i,
    {
        let c = base.add_days(indices[i]);
        proof {
            assert(list.take(i + 1).drop_last() =~= list.take(i as int));
            assert(list.take(i + 1).last() == list[i as int]);
        }
        match c {
            Some(d) => {
                out.push(d);
            },
            None => {
                proof {
                    present_prefix(list, i + 1);
                }
                return None;
            },
        }
        i = i + 1;
    }
    assert(list.take(i as int) =~= list);
    Some(sort_dates(out))
}

proof fn inserting_keeps_valid(
    s: Seq<NaiveDate>,
    x: NaiveDate,
    le: spec_fn(NaiveDate, NaiveDate) -> bool,
)
    requires
        all_valid(s),
        x.valid(),
    ensures
        all_valid(crate::collections::insert_sorted(s, x, le)),
    decreases s.len(),
{
    if s.len() > 0 && !le(s.last(), x) {
        inserting_keeps_valid(s.drop_last(), x, le);
    }
}

proof fn sorting_keeps_valid(s: Seq<NaiveDate>, le: spec_fn(NaiveDate, NaiveDate) -> bool)
    requires
        all_valid(s),
    ensures
        all_valid(stable_sorted(s, le)),
    decreases s.len(),
{
    if s.len() > 0 {
        sorting_keeps_valid(s.drop_last(), le);
        inserting_keeps_valid(stable_sorted(s.drop_last(), le), s.last(), le);
    }
}

/// The dates of one period of a monthly rule.
fn monthly_dates(
    start: NaiveDate,
    interval: u32,
    by_day: &Vec<NDay>,
    by_month_day: &Vec<i32>,
    k: u64,
) -> (r: Option<Vec<NaiveDate>>)
    requires
        start.valid(),
        k <= PERIOD_LIMIT,
    ensures
        ({
            let n = k * interval;
            let dates = match plus_months(start, n) {
                Some(d) => if n <= u32::MAX {
                    sorted_dates(
                        month_dates(
                            d.year as int,
                            d.month as int,
                            start.day as int,
                            by_day.deep_view(),
                            by_month_day.deep_view(),
                        ),
                    )
                } else {
                    None
                },
                None => None,
            };
            match r {
                Some(v) => dates == Some(v@) && all_valid(v@),
                None => dates is None,
            }
        }),
{
    assert(0 <= k * interval < 0x1000_0000_0000_0000) by (nonlinear_arith)
        requires
            0 <= k <= 200_000_000,
            0 <= interval < 0x1_0000_0000,
    ;
    let n: u64 = k * interval as u64;
    if n > u32::MAX as u64 {
        return None;
    }
    match date_plus_months(start, n as u32) {
        Some(d) => match dates_in_month(d.year, d.month, start.day, by_day, by_month_day) {
            Some(v) => Some(sort_dates(v)),
            None => None,
        },
        None => None,
    }
}

/// The dates of one period of a yearly rule.
fn yearly_dates(
    start: NaiveDate,
    interval: u32,
    by_month: &Vec<String>,
    by_month_day: &Vec<i32>,
    by_day: &Vec<NDay>,
    k: u64,
) -> (r: Option<Vec<NaiveDate>>)
    requires
        start.valid(),
        k <= PERIOD_LIMIT,
    ensures
        ({
            let y = start.year + k * interval;
            let dates = if MIN_YEAR <= y <= MAX_YEAR {
                sorted_dates(
                    year_dates(
                        y,
                        year_months(start, by_month.deep_view()),
                        start.day as int,
                        by_day.deep_view(),
                        by_month_day.deep_view(),
                    ),
                )
            } else {
                None
            };
            match r {
                Some(v) => dates == Some(v@) && all_valid(v@),
                None => dates is None,
            }
        }),
{
    assert(0 <= k * interval < 0x1000_0000_0000_0000) by (nonlinear_arith)
        requires
            0 <= k <= 200_000_000,
            0 <= interval < 0x1_0000_0000,
    ;
    let y: i64 = start.year as i64 + k as i64 * interval as i64;
    if y < MIN_YEAR as i64 || y > MAX_YEAR as i64 {
        return None;
    }
    let year: i32 = y as i32;
    let mut months: Vec<u32> = Vec::new();
    let ghost want = year_months(start, by_month.deep_view());
    if by_month.len() == 0 {
        months.push(start.month);
        assert(months.deep_view().map_values(|m: u32| m as int) =~= want);
    } else {
        let mut i: usize = 0;
        assert(by_month.deep_view().take(0) =~= Seq::empty());
        assert(months.deep_view().map_values(|m: u32| m as int) =~= Seq::<int>::empty());
        while i < by_month.len()
            invariant
                0 <= i <= by_month@.len(),
                months.deep_view().map_values(|m: u32| m as int) == numbers_of(
                    by_month.deep_view().take(i as int),
                ),
            decreases by_month@.len() - i,
        {
            let ghost before = months.deep_view().map_values(|m: u32| m as int);
            proof {
                let all = by_month.deep_view();
                assert(all.take(i + 1).drop_last() =~= all.take(i as int));
                assert(all.take(i + 1).last() == by_month@[i as int]@);
            }
            match parse_u32_str(by_month[i].as_str()) {
                Some(m) => {
                    months.push(m);
                    assert(months.deep_view().map_values(|m: u32| m as int) =~= before.push(
                        m as int,
                    ));
                },
                None => {},
            }
            i = i + 1;
        }
        assert(by_month.deep_view().take(i as int) =~= by_month.deep_view());
    }
    let mut out: Vec<NaiveDate> = Vec::new();
    let mut i: usize = 0;
    assert(want.take(0) =~= Seq::empty());
    assert(out@ =~= Seq::empty());
    while i < months.len()
        invariant
            0 <= i <= months@.len(),
            start.valid(),
            want == year_months(start, by_month.deep_view()),
            year == start.year + k * interval,
            months.deep_view().map_values(|m: u32| m as int) == want,
            year_dates(
                year as int,
                want.take(i as int),
                start.day as int,
                by_day.deep_view(),
                by_month_day.deep_view(),
            ) == Some(out@),
            all_valid(out@),
        decreases months@.len() - i,
    {
        proof {
            assert(want.len() == months@.len());
            assert(want.take(i + 1).drop_last() =~= want.take(i as int));
            assert(want.take(i + 1).last() == months@[i as int] as int);
        }
        match dates_in_month(year, months[i], start.day, by_day, by_month_day) {
            Some(v) => {
                let mut more = v;
                let ghost before = out@;
                out.append(&mut more);
                assert(out@ =~= before + v@);
            },
            None => {
                proof {
                    year_dates_prefix(
                        year as int,
                        want,
                        start.day as int,
                        by_day.deep_view(),
                        by_month_day.deep_view(),
                        i + 1,
                    );
                }
                return None;
            },
        }
        i = i + 1;
    }
    assert(want.take(i as int) =~= want);
    Some(sort_dates(out))
}

proof fn year_dates_prefix(
    y: int,
    months: Seq<int>,
    start_day: int,
    by_day: Seq<NDayV>,
    by_month_day: Seq<i32>,
    k: int,
)
    requires
        0 <= k <= months.len(),
        year_dates(y, months.take(k), start_day, by_day, by_month_day) is None,
    ensures
        year_dates(y, months, start_day, by_day, by_month_day) is None,
    decreases months.len() - k,
{
    if k == months.len() {
        assert(months.take(k) =~= months);
    } else {
        assert(months.take(k + 1).drop_last() =~= months.take(k));
        year_dates_prefix(y, months, start_day, by_day, by_month_day, k + 1);
    }
}

fn rule_interval(rule: &RecurrenceRule) -> (r: u32)
    ensures
        r == interval_of(rule.deep_view()),
        r >= 1,
{
    match rule.interval {
        Some(i) => {
            if i >= 1 {
                i
            } else {
                1
            }
        },
        None => 1,
    }
}

/// The dates of the `k`th period of a rule that repeats by days or more.
fn dates_of_period(rule: &RecurrenceRule, start: NaiveDate, k: u64) -> (r: Option<Vec<NaiveDate>>)
    requires
        start.valid(),
        k <= PERIOD_LIMIT,
    ensures
        match r {
            Some(v) => period_dates(rule.deep_view(), start, k as int) == Some(v@) && all_valid(
                v@,
            ),
            None => period_dates(rule.deep_view(), start, k as int) is None,
        },
{
    let interval: u32 = rule_interval(rule);
    match rule.frequency {
        Frequency::Weekly => weekly_dates(start, interval, &rule.by_day, k),
        Frequency::Monthly => monthly_dates(start, interval, &rule.by_day, &rule.by_month_day, k),
        Frequency::Yearly => yearly_dates(
            start,
            interval,
            &rule.by_month,
            &rule.by_month_day,
            &rule.by_day,
            k,
        ),
        _ => daily_dates(start, interval, &rule.by_day, k),
    }
}

// ---------------------------------------------------------------------------
// Rules
// ---------------------------------------------------------------------------

/// The starts that a rule gives in a range, or `None` where the calendar ends before the
/// rule.
pub fn expand_rule(
    rule: &RecurrenceRule,
    dtstart: NaiveDateTime,
    range_start: NaiveDateTime,
    range_end: NaiveDateTime,
) -> (r: Option<Vec<NaiveDateTime>>)
    requires
        dtstart.valid(),
        range_start.valid(),
        range_end.valid(),
    ensures
        match r {
            Some(v) => rule_starts(rule.deep_view(), dtstart, range_start, range_end) == Some(v@)
                && times_valid(v@),
            None => rule_starts(rule.deep_view(), dtstart, range_start, range_end) is None,
        },
{
    let until = match &rule.until {
        Some(u) => u.to_naive(),
        None => None,
    };
    let b = Bounds { dtstart, range_start, range_end, until, count: rule.count };
    assert(b == bounds_of(rule.deep_view(), dtstart, range_start, range_end));
    let mut walk = Walk { out: Vec::new(), produced: 0, done: false };
    assert(walk.out@ =~= Seq::empty());
    assert(walk.deep_view() == walk_start());
    match rule.frequency {
        Frequency::Hourly | Frequency::Minutely | Frequency::Secondly => {
            walk.take_date(&b, dtstart.date);
            return Some(walk.out);
        },
        Frequency::Daily => {
            if rule_interval(rule) % 7 == 0 && !is_on_listed_day(dtstart.date, &rule.by_day) {
                return Some(walk.out);
            }
        },
        _ => {},
    }
    let mut k: u64 = 0;
    while !walk.done
        invariant
            k <= PERIOD_LIMIT,
            b.valid(),
            b.dtstart == dtstart,
            b == bounds_of(rule.deep_view(), dtstart, range_start, range_end),
            walk.wf(),
            walk_periods(rule.deep_view(), b, walk.deep_view(), k as int) == rule_starts(
                rule.deep_view(),
                dtstart,
                range_start,
                range_end,
            ),
        decreases PERIOD_LIMIT - k,
    {
        match dates_of_period(rule, dtstart.date, k) {
            Some(dates) => {
                proof {
                    periods_end(rule.deep_view(), dtstart.date, k as int);
                }
                let ghost before = walk.deep_view();
                let mut i: usize = 0;
                assert(dates@.take(0) =~= Seq::empty());
                while i < dates.len()
                    invariant
                        0 <= i <= dates@.len(),
                        b.valid(),
                        all_valid(dates@),
                        walk.wf(),
                        walk.deep_view() == walk_dates(b, before, dates@.take(i as int)),
                    decreases dates@.len() - i,
                {
                    walk.take_date(&b, dates[i]);
                    assert(dates@.take(i + 1).drop_last() =~= dates@.take(i as int));
                    assert(dates@.take(i + 1).last() == dates@[i as int]);
                    i = i + 1;
                }
                assert(dates@.take(i as int) =~= dates@);
                k = k + 1;
            },
            None => {
                return None;
            },
        }
    }
    Some(walk.out)
}

/// Every time is in range.
pub open spec fn times_valid(s: Seq<NaiveDateTime>) -> bool {
    forall|i: int| 0 <= i < s.len() ==> (#[trigger] s[i]).valid()
}

/// How far the expansion of a rule has come.
struct Walk {
    out: Vec<NaiveDateTime>,
    produced: usize,
    done: bool,
}

impl DeepView for Walk {
    type V = WalkV;

    closed spec fn deep_view(&self) -> WalkV {
        WalkV { out: self.out@, produced: self.produced as int, done: self.done }
    }
}

impl Walk {
    /// A count is only reached by ending the walk.
    spec fn wf(&self) -> bool {
        (self.done || self.produced < MAX_OCCURRENCES) && times_valid(self.out@)
    }

    /// Takes one more candidate date.
    fn take_date(&mut self, b: &Bounds, date: NaiveDate)
        requires
            old(self).wf(),
            date.valid(),
            b.valid(),
        ensures
            final(self).wf(),
            final(self).deep_view() == walk_date(*b, old(self).deep_view(), date),
    {
        if self.done || date.is_before(b.dtstart.date) {
            return;
        }
        let t = NaiveDateTime { date, secs: b.dtstart.secs, leap: b.dtstart.leap };
        if let Some(u) = b.until {
            if u.is_before(t) {
                self.done = true;
                return;
            }
        }
        self.produced = self.produced + 1;
        if let Some(c) = b.count {
            if self.produced as u64 > c as u64 {
                self.done = true;
                return;
            }
        }
        if !t.is_before(b.range_start) && t.is_before(b.range_end) {
            self.out.push(t);
        }
        if !t.is_before(b.range_end) && b.until.is_none() && b.count.is_none() {
            self.done = true;
        }
        if self.out.len() >= MAX_OCCURRENCES || self.produced >= MAX_OCCURRENCES {
            self.done = true;
        }
    }
}

// ---------------------------------------------------------------------------
// Events
// ---------------------------------------------------------------------------

/// One occurrence of an event.
#[derive(Debug)]
pub struct Occurrence {
    pub start: NaiveDateTime,
    pub recurrence_id: Option<LocalDateTime>,
    pub event: CalendarEvent,
}

/// What an [`Occurrence`] stands for.
#[verifier::ext_equal]
pub struct OccurrenceV {
    pub start: NaiveDateTime,
    pub recurrence_id: Option<Seq<char>>,
    pub event: CalendarEventV,
}

impl DeepView for Occurrence {
    type V = OccurrenceV;

    open spec fn deep_view(&self) -> OccurrenceV {
        OccurrenceV {
            start: self.start,
            recurrence_id: self.recurrence_id.deep_view(),
            event: self.event.deep_view(),
        }
    }
}

pub type PatchV = Seq<(Seq<char>, ValueV)>;

pub type OverridesV = Seq<(Seq<char>, PatchV)>;

/// The string that a patch holds under a key.
pub open spec fn patch_str(p: Option<PatchV>, key: Seq<char>) -> Option<Seq<char>> {
    match p {
        Some(p) => match map_get(p, key) {
            Some(v) => v.as_str(),
            None => None,
        },
        None => None,
    }
}

/// The patch takes its instance out.
pub open spec fn excludes(p: Option<PatchV>) -> bool {
    match p {
        Some(p) => map_get(p, "excluded"@) == Some(ValueV::Bool(true)),
        None => false,
    }
}

/// Whether a time span touches a range; `None` where its end is out of the calendar. A
/// negative length counts as none.
pub open spec fn overlap(
    start: NaiveDateTime,
    secs: int,
    range_start: NaiveDateTime,
    range_end: NaiveDateTime,
) -> Option<bool> {
    match plus_secs(
        start,
        if secs > 0 {
            secs
        } else {
            0
        },
    ) {
        Some(end) => Some(time_less(start, range_end) && time_less(range_start, end)),
        None => None,
    }
}

/// The earliest time there is.
pub open spec fn first_time() -> NaiveDateTime {
    NaiveDate { year: MIN_YEAR, month: 1, day: 1 }.midnight()
}

/// A time before which nothing that lasts `secs` seconds touches a range that starts at
/// `range_start`.
pub open spec fn reach_back(range_start: NaiveDateTime, secs: int) -> NaiveDateTime {
    match plus_secs(
        range_start,
        if secs > 0 {
            -secs
        } else {
            0
        },
    ) {
        Some(t) => t,
        None => first_time(),
    }
}

/// The starts of several rules, one after the other.
pub open spec fn rules_starts(
    rules: Seq<RecurrenceRuleV>,
    dtstart: NaiveDateTime,
    range_start: NaiveDateTime,
    range_end: NaiveDateTime,
) -> Option<Seq<NaiveDateTime>>
    decreases rules.len(),
{
    if rules.len() == 0 {
        Some(Seq::empty())
    } else {
        match (
            rules_starts(rules.drop_last(), dtstart, range_start, range_end),
            rule_starts(rules.last(), dtstart, range_start, range_end),
        ) {
            (Some(a), Some(b)) => Some(a + b),
            _ => None,
        }
    }
}

/// `s` without the items that equal the one before them.
pub open spec fn dedup<T>(s: Seq<T>) -> Seq<T>
    decreases s.len(),
{
    if s.len() < 2 {
        s
    } else if s.last() == s[s.len() - 2] {
        dedup(s.drop_last())
    } else {
        dedup(s.drop_last()).push(s.last())
    }
}

/// Times in ascending order.
pub open spec fn sorted_times(s: Seq<NaiveDateTime>) -> Seq<NaiveDateTime> {
    stable_sorted(s, |a: NaiveDateTime, b: NaiveDateTime| NaiveDateTime::le_view(a, b))
}

/// The starts that the rules of an event give, as far back as its length reaches into the range,
/// or its own start where it has no rules.
pub open spec fn base_starts(
    event: CalendarEventV,
    dtstart: NaiveDateTime,
    secs: int,
    range_start: NaiveDateTime,
    range_end: NaiveDateTime,
) -> Option<Seq<NaiveDateTime>> {
    match event.recurrence_rules {
        None => match overlap(dtstart, secs, range_start, range_end) {
            Some(true) => Some(seq![dtstart]),
            Some(false) => Some(Seq::empty()),
            None => None,
        },
        Some(rules) => match rules_starts(
            rules,
            dtstart,
            reach_back(range_start, secs),
            range_end,
        ) {
            Some(s) => Some(dedup(sorted_times(s))),
            None => None,
        },
    }
}

/// When the instance planned for `start` happens, with its overrides: the text of its start, the
/// start and the length. None where an override takes it out or gives it no start. The outer
/// `None` is a length that cannot be computed.
pub open spec fn moved_to(overrides: OverridesV, start: NaiveDateTime, secs: int) -> Option<
    Option<(Seq<char>, NaiveDateTime, int)>,
> {
    let key = iso_text(start);
    let patch = map_get(overrides, key);
    let text = match patch_str(patch, "start"@) {
        Some(s) => s,
        None => key,
    };
    let length = match patch_str(patch, "duration"@) {
        Some(s) => match duration_secs(s) {
            Some(Some(n)) => Some(n),
            Some(None) => Some(secs),
            None => None,
        },
        None => Some(secs),
    };
    if excludes(patch) {
        Some(None)
    } else {
        match (local_time(text), length) {
            (None, _) => Some(None),
            (_, None) => None,
            (Some(t), Some(n)) => Some(Some((text, t, n))),
        }
    }
}

/// Whether the instance planned for `start`, with its overrides, touches a range; `None` where
/// that cannot be computed.
pub open spec fn instance_touches(
    overrides: OverridesV,
    start: NaiveDateTime,
    secs: int,
    range_start: NaiveDateTime,
    range_end: NaiveDateTime,
) -> Option<bool> {
    match moved_to(overrides, start, secs) {
        None => None,
        Some(None) => Some(false),
        Some(Some(m)) => overlap(m.1, m.2, range_start, range_end),
    }
}

/// `starts` and the further instances that an override speaks of: those planned for a time in
/// the range, and those that touch it as the override has them.
pub open spec fn with_extras(
    starts: Seq<NaiveDateTime>,
    overrides: OverridesV,
    keys: OverridesV,
    secs: int,
    range_start: NaiveDateTime,
    range_end: NaiveDateTime,
) -> Seq<NaiveDateTime>
    decreases keys.len(),
{
    if keys.len() == 0 {
        starts
    } else {
        let so_far = with_extras(starts, overrides, keys.drop_last(), secs, range_start, range_end);
        let key = keys.last().0;
        match local_time(key) {
            Some(t) => if !so_far.contains(t) && !excludes(map_get(overrides, key)) && ((!time_less(
                t,
                range_start,
            ) && time_less(t, range_end)) || instance_touches(
                overrides,
                t,
                secs,
                range_start,
                range_end,
            ) == Some(true)) {
                so_far.push(t)
            } else {
                so_far
            },
            None => so_far,
        }
    }
}

/// `new` where it is there, else `old`.
pub open spec fn or_else(new: Option<Seq<char>>, old: Option<Seq<char>>) -> Option<Seq<char>> {
    match new {
        Some(s) => Some(s),
        None => old,
    }
}

/// The event of one occurrence: the patch applied, and nothing left that repeats.
pub open spec fn patched(
    event: CalendarEventV,
    start: Seq<char>,
    key: Seq<char>,
    patch: Option<PatchV>,
    secs: int,
) -> CalendarEventV {
    CalendarEventV {
        start,
        recurrence_id: Some(key),
        recurrence_rules: None,
        recurrence_overrides: None,
        title: or_else(patch_str(patch, "title"@), event.title),
        description: or_else(patch_str(patch, "description"@), event.description),
        status: or_else(patch_str(patch, "status"@), event.status),
        color: or_else(patch_str(patch, "color"@), event.color),
        duration: duration_text(secs),
        ..event
    }
}

/// The occurrence at `start`: none where a patch takes it out, or where it does not touch the
/// range. The outer `None` is one that cannot be computed.
pub open spec fn occurrence_at(
    event: CalendarEventV,
    overrides: OverridesV,
    start: NaiveDateTime,
    secs: int,
    range_start: NaiveDateTime,
    range_end: NaiveDateTime,
) -> Option<Option<OccurrenceV>> {
    let key = iso_text(start);
    match moved_to(overrides, start, secs) {
        None => None,
        Some(None) => Some(None),
        Some(Some(m)) => match overlap(m.1, m.2, range_start, range_end) {
            None => None,
            Some(false) => Some(None),
            Some(true) => Some(
                Some(
                    OccurrenceV {
                        start: m.1,
                        recurrence_id: Some(key),
                        event: patched(event, m.0, key, map_get(overrides, key), m.2),
                    },
                ),
            ),
        },
    }
}

/// The occurrences at `starts`.
pub open spec fn occurrences_at(
    event: CalendarEventV,
    overrides: OverridesV,
    starts: Seq<NaiveDateTime>,
    secs: int,
    range_start: NaiveDateTime,
    range_end: NaiveDateTime,
) -> Option<Seq<OccurrenceV>>
    decreases starts.len(),
{
    if starts.len() == 0 {
        Some(Seq::empty())
    } else {
        match (
            occurrences_at(event, overrides, starts.drop_last(), secs, range_start, range_end),
            occurrence_at(event, overrides, starts.last(), secs, range_start, range_end),
        ) {
            (Some(out), Some(Some(o))) => Some(out.push(o)),
            (Some(out), Some(None)) => Some(out),
            _ => None,
        }
    }
}

/// The overrides of an event.
pub open spec fn overrides_of(event: CalendarEventV) -> OverridesV {
    match event.recurrence_overrides {
        Some(o) => o,
        None => Seq::empty(),
    }
}

/// The occurrences of an event in a range; `None` where they cannot be computed within the
/// calendar.
pub open spec fn expansion(
    event: CalendarEventV,
    range_start: NaiveDateTime,
    range_end: NaiveDateTime,
) -> Option<Seq<OccurrenceV>> {
    match local_time(event.start) {
        None => Some(Seq::empty()),
        Some(dtstart) => match duration_secs(event.duration) {
            None => None,
            Some(d) => {
                let secs = match d {
                    Some(n) => n,
                    None => 0,
                };
                let overrides = overrides_of(event);
                match base_starts(event, dtstart, secs, range_start, range_end) {
                    None => None,
                    Some(base) => occurrences_at(
                        event,
                        overrides,
                        sorted_times(
                            with_extras(base, overrides, overrides, secs, range_start, range_end),
                        ),
                        secs,
                        range_start,
                        range_end,
                    ),
                }
            },
        },
    }
}

fn overlaps(
    start: NaiveDateTime,
    duration: Duration,
    range_start: NaiveDateTime,
    range_end: NaiveDateTime,
) -> (r: Option<bool>)
    requires
        start.valid(),
        duration.valid(),
    ensures
        r == overlap(start, duration.secs as int, range_start, range_end),
{
    let secs: i64 = if duration.secs > 0 {
        duration.secs
    } else {
        0
    };
    match start.plus(secs) {
        Some(end) => Some(start.is_before(range_end) && range_start.is_before(end)),
        None => None,
    }
}

fn contains_time(s: &Vec<NaiveDateTime>, t: NaiveDateTime) -> (r: bool)
    ensures
        r == s@.contains(t),
{
    let mut i: usize = 0;
    while i < s.len()
        invariant
            0 <= i <= s@.len(),
            forall|j: int| 0 <= j < i ==> s@[j] != t,
        decreases s@.len() - i,
    {
        if s[i] == t {
            assert(s@[i as int] == t);
            return true;
        }
        i = i + 1;
    }
    false
}

fn dedup_times(s: &Vec<NaiveDateTime>) -> (r: Vec<NaiveDateTime>)
    requires
        times_valid(s@),
    ensures
        r@ == dedup(s@),
        times_valid(r@),
{
    let mut out: Vec<NaiveDateTime> = Vec::new();
    let mut i: usize = 0;
    assert(dedup(s@.take(0)) =~= out@);
    while i < s.len()
        invariant
            0 <= i <= s@.len(),
            times_valid(s@),
            times_valid(out@),
            out@ == dedup(s@.take(i as int)),
        decreases s@.len() - i,
    {
        proof {
            let t = s@.take(i + 1);
            assert(t.drop_last() =~= s@.take(i as int));
            assert(t.last() == s@[i as int]);
            if i > 0 {
                assert(t[t.len() - 2] == s@[i - 1]);
            } else {
                assert(s@.take(0) =~= Seq::empty());
                assert(t =~= dedup(s@.take(0)).push(t.last()));
            }
        }
        if i == 0 || s[i] != s[i - 1] {
            out.push(s[i]);
        }
        i = i + 1;
    }
    assert(s@.take(i as int) =~= s@);
    out
}

proof fn inserting_keeps_times_valid(
    s: Seq<NaiveDateTime>,
    x: NaiveDateTime,
    le: spec_fn(NaiveDateTime, NaiveDateTime) -> bool,
)
    requires
        times_valid(s),
        x.valid(),
    ensures
        times_valid(crate::collections::insert_sorted(s, x, le)),
    decreases s.len(),
{
    if s.len() > 0 && !le(s.last(), x) {
        inserting_keeps_times_valid(s.drop_last(), x, le);
    }
}

proof fn sorting_keeps_times_valid(
    s: Seq<NaiveDateTime>,
    le: spec_fn(NaiveDateTime, NaiveDateTime) -> bool,
)
    requires
        times_valid(s),
    ensures
        times_valid(stable_sorted(s, le)),
    decreases s.len(),
{
    if s.len() > 0 {
        sorting_keeps_times_valid(s.drop_last(), le);
        inserting_keeps_times_valid(stable_sorted(s.drop_last(), le), s.last(), le);
    }
}

fn sort_times(v: Vec<NaiveDateTime>) -> (r: Vec<NaiveDateTime>)
    requires
        times_valid(v@),
    ensures
        r@ == sorted_times(v@),
        times_valid(r@),
{
    assert(v.deep_view() =~= v@);
    proof {
        sorting_keeps_times_valid(
            v@,
            |a: NaiveDateTime, b: NaiveDateTime| NaiveDateTime::le_view(a, b),
        );
    }
    let r = sort_items(v);
    assert(r.deep_view() =~= r@);
    r
}

fn starts_of_rules(
    rules: &Vec<RecurrenceRule>,
    dtstart: NaiveDateTime,
    range_start: NaiveDateTime,
    range_end: NaiveDateTime,
) -> (r: Option<Vec<NaiveDateTime>>)
    requires
        dtstart.valid(),
        range_start.valid(),
        range_end.valid(),
    ensures
        match r {
            Some(v) => rules_starts(rules.deep_view(), dtstart, range_start, range_end) == Some(v@)
                && times_valid(v@),
            None => rules_starts(rules.deep_view(), dtstart, range_start, range_end) is None,
        },
{
    let mut all: Vec<NaiveDateTime> = Vec::new();
    let ghost views = rules.deep_view();
    let mut i: usize = 0;
    assert(views.take(0) =~= Seq::empty());
    assert(all@ =~= Seq::empty());
    while i < rules.len()
        invariant
            0 <= i <= rules@.len(),
            views == rules.deep_view(),
            dtstart.valid(),
            range_start.valid(),
            range_end.valid(),
            times_valid(all@),
            rules_starts(views.take(i as int), dtstart, range_start, range_end) == Some(all@),
        decreases rules@.len() - i,
    {
        proof {
            assert(views.take(i + 1).drop_last() =~= views.take(i as int));
            assert(views.take(i + 1).last() == rules@[i as int].deep_view());
        }
        match expand_rule(&rules[i], dtstart, range_start, range_end) {
            Some(v) => {
                let mut more = v;
                let ghost before = all@;
                all.append(&mut more);
                assert(all@ =~= before + v@);
            },
            None => {
                proof {
                    rules_starts_prefix(views, dtstart, range_start, range_end, i + 1);
                }
                return None;
            },
        }
        i = i + 1;
    }
    assert(views.take(i as int) =~= views);
    Some(all)
}

proof fn rules_starts_prefix(
    rules: Seq<RecurrenceRuleV>,
    dtstart: NaiveDateTime,
    range_start: NaiveDateTime,
    range_end: NaiveDateTime,
    k: int,
)
    requires
        0 <= k <= rules.len(),
        rules_starts(rules.take(k), dtstart, range_start, range_end) is None,
    ensures
        rules_starts(rules, dtstart, range_start, range_end) is None,
    decreases rules.len() - k,
{
    if k == rules.len() {
        assert(rules.take(k) =~= rules);
    } else {
        assert(rules.take(k + 1).drop_last() =~= rules.take(k));
        rules_starts_prefix(rules, dtstart, range_start, range_end, k + 1);
    }
}

/// The string that a patch holds under a key.
fn patch_text<'a>(p: Option<&'a PatchObject>, key: &str) -> (r: Option<&'a str>)
    ensures
        r.deep_view() == patch_str(p.deep_view(), key@),
{
    match p {
        Some(p) => match p.get(key) {
            Some(v) => v.as_str(),
            None => None,
        },
        None => None,
    }
}

/// Whether a patch takes its instance out.
fn is_excluded(p: Option<&PatchObject>) -> (r: bool)
    ensures
        r == excludes(p.deep_view()),
{
    match p {
        Some(p) => match p.get("excluded") {
            Some(v) => match v.as_bool() {
                Some(b) => b,
                None => false,
            },
            None => false,
        },
        None => false,
    }
}

fn range_reached(range_start: NaiveDateTime, duration: Duration) -> (r: NaiveDateTime)
    requires
        range_start.valid(),
        duration.valid(),
    ensures
        r == reach_back(range_start, duration.secs as int),
        r.valid(),
{
    let back: i64 = if duration.secs > 0 {
        -duration.secs
    } else {
        0
    };
    match range_start.plus(back) {
        Some(t) => t,
        None => NaiveDateTime {
            date: NaiveDate { year: MIN_YEAR, month: 1, day: 1 },
            secs: 0,
            leap: false,
        },
    }
}

fn starts_of_event(
    event: &CalendarEvent,
    dtstart: NaiveDateTime,
    duration: Duration,
    range_start: NaiveDateTime,
    range_end: NaiveDateTime,
) -> (r: Option<Vec<NaiveDateTime>>)
    requires
        dtstart.valid(),
        range_start.valid(),
        range_end.valid(),
        duration.valid(),
    ensures
        match r {
            Some(v) => base_starts(
                event.deep_view(),
                dtstart,
                duration.secs as int,
                range_start,
                range_end,
            ) == Some(v@) && times_valid(v@),
            None => base_starts(
                event.deep_view(),
                dtstart,
                duration.secs as int,
                range_start,
                range_end,
            ) is None,
        },
{
    match &event.recurrence_rules {
        None => {
            let mut out: Vec<NaiveDateTime> = Vec::new();
            match overlaps(dtstart, duration, range_start, range_end) {
                Some(true) => {
                    out.push(dtstart);
                    assert(out@ =~= seq![dtstart]);
                    Some(out)
                },
                Some(false) => {
                    assert(out@ =~= Seq::empty());
                    Some(out)
                },
                None => None,
            }
        },
        Some(rules) => match starts_of_rules(
            rules,
            dtstart,
            range_reached(range_start, duration),
            range_end,
        ) {
            Some(all) => {
                let sorted = sort_times(all);
                Some(dedup_times(&sorted))
            },
            None => None,
        },
    }
}

/// When the instance planned for `start` happens, with its overrides.
fn moved(overrides: &StrMap<PatchObject>, start: NaiveDateTime, duration: Duration) -> (r: Option<
    Option<(LocalDateTime, NaiveDateTime, Duration)>,
>)
    requires
        start.valid(),
        duration.valid(),
    ensures
        match r {
            None => moved_to(overrides.deep_view(), start, duration.secs as int) is None,
            Some(None) => moved_to(overrides.deep_view(), start, duration.secs as int) == Some(
                None::<(Seq<char>, NaiveDateTime, int)>,
            ),
            Some(Some(m)) => m.1.valid() && m.2.valid() && moved_to(
                overrides.deep_view(),
                start,
                duration.secs as int,
            ) == Some(Some((m.0.deep_view(), m.1, m.2.secs as int))),
        },
{
    let key = LocalDateTime::from_naive(start);
    let patch = overrides.get(key.0.as_str());
    assert(patch.deep_view() == map_get(overrides.deep_view(), iso_text(start)));
    if is_excluded(patch) {
        return Some(None);
    }
    let text = match patch_text(patch, "start") {
        Some(s) => LocalDateTime(s.to_string()),
        None => key.clone_view(),
    };
    let t = match text.to_naive() {
        Some(t) => t,
        None => {
            return Some(None);
        },
    };
    let length = match patch_text(patch, "duration") {
        Some(s) => match try_parse_duration(s) {
            Some(Some(d)) => d,
            Some(None) => duration,
            None => {
                return None;
            },
        },
        None => duration,
    };
    Some(Some((text, t, length)))
}

fn touches(
    overrides: &StrMap<PatchObject>,
    start: NaiveDateTime,
    duration: Duration,
    range_start: NaiveDateTime,
    range_end: NaiveDateTime,
) -> (r: Option<bool>)
    requires
        start.valid(),
        duration.valid(),
    ensures
        r == instance_touches(
            overrides.deep_view(),
            start,
            duration.secs as int,
            range_start,
            range_end,
        ),
{
    match moved(overrides, start, duration) {
        None => None,
        Some(None) => Some(false),
        Some(Some(m)) => overlaps(m.1, m.2, range_start, range_end),
    }
}

fn add_extras(
    starts: Vec<NaiveDateTime>,
    overrides: &StrMap<PatchObject>,
    duration: Duration,
    range_start: NaiveDateTime,
    range_end: NaiveDateTime,
) -> (r: Vec<NaiveDateTime>)
    requires
        times_valid(starts@),
        duration.valid(),
    ensures
        r@ == with_extras(
            starts@,
            overrides.deep_view(),
            overrides.deep_view(),
            duration.secs as int,
            range_start,
            range_end,
        ),
        times_valid(r@),
{
    let ghost first = starts@;
    let ghost keys = overrides.deep_view();
    let ghost secs = duration.secs as int;
    let mut out = starts;
    let mut i: usize = 0;
    assert(keys.take(0) =~= Seq::empty());
    while i < overrides.entries.len()
        invariant
            0 <= i <= overrides.entries@.len(),
            keys == overrides.deep_view(),
            secs == duration.secs,
            duration.valid(),
            times_valid(out@),
            out@ == with_extras(first, keys, keys.take(i as int), secs, range_start, range_end),
        decreases overrides.entries@.len() - i,
    {
        let key = LocalDateTime(overrides.entries[i].0.clone());
        proof {
            assert(keys.take(i + 1).drop_last() =~= keys.take(i as int));
            assert(keys.take(i + 1).last().0 == key.deep_view());
        }
        if let Some(t) = key.to_naive() {
            if !contains_time(&out, t) && !is_excluded(overrides.get(key.0.as_str())) {
                let in_range = !t.is_before(range_start) && t.is_before(range_end);
                if in_range || matches!(
                    touches(overrides, t, duration, range_start, range_end),
                    Some(true)
                ) {
                    out.push(t);
                }
            }
        }
        i = i + 1;
    }
    assert(keys.take(i as int) =~= keys);
    out
}

fn or_old(new: Option<&str>, old: &Option<String>) -> (r: Option<String>)
    ensures
        r.deep_view() == or_else(new.deep_view(), old.deep_view()),
{
    match new {
        Some(s) => Some(s.to_string()),
        None => old.clone_view(),
    }
}

fn patched_event(
    event: &CalendarEvent,
    start: LocalDateTime,
    key: LocalDateTime,
    patch: Option<&PatchObject>,
    duration: Duration,
) -> (r: CalendarEvent)
    requires
        duration.valid(),
    ensures
        r.deep_view() == patched(
            event.deep_view(),
            start.deep_view(),
            key.deep_view(),
            patch.deep_view(),
            duration.secs as int,
        ),
{
    let mut e = event.clone_view();
    e.start = start;
    e.recurrence_id = Some(key);
    e.recurrence_rules = None;
    e.recurrence_overrides = None;
    e.title = or_old(patch_text(patch, "title"), &event.title);
    e.description = or_old(patch_text(patch, "description"), &event.description);
    e.status = or_old(patch_text(patch, "status"), &event.status);
    e.color = or_old(patch_text(patch, "color"), &event.color);
    e.duration = format_duration(duration);
    e
}

fn occurrence(
    event: &CalendarEvent,
    overrides: &StrMap<PatchObject>,
    start: NaiveDateTime,
    duration: Duration,
    range_start: NaiveDateTime,
    range_end: NaiveDateTime,
) -> (r: Option<Option<Occurrence>>)
    requires
        start.valid(),
        duration.valid(),
    ensures
        r.deep_view() == occurrence_at(
            event.deep_view(),
            overrides.deep_view(),
            start,
            duration.secs as int,
            range_start,
            range_end,
        ),
        r matches Some(Some(o)) ==> o.start.valid(),
{
    match moved(overrides, start, duration) {
        None => None,
        Some(None) => Some(None),
        Some(Some((text, t, length))) => match overlaps(t, length, range_start, range_end) {
            None => None,
            Some(false) => Some(None),
            Some(true) => {
                let key = LocalDateTime::from_naive(start);
                let id = key.clone_view();
                let patch = overrides.get(key.0.as_str());
                let e = patched_event(event, text, key, patch, length);
                Some(Some(Occurrence { start: t, recurrence_id: Some(id), event: e }))
            },
        },
    }
}

/// The start of every occurrence is in range.
pub open spec fn starts_valid(s: Seq<Occurrence>) -> bool {
    forall|i: int| 0 <= i < s.len() ==> (#[trigger] s[i]).start.valid()
}

fn occurrences(
    event: &CalendarEvent,
    overrides: &StrMap<PatchObject>,
    starts: &Vec<NaiveDateTime>,
    duration: Duration,
    range_start: NaiveDateTime,
    range_end: NaiveDateTime,
) -> (r: Option<Vec<Occurrence>>)
    requires
        times_valid(starts@),
        duration.valid(),
    ensures
        r.deep_view() == occurrences_at(
            event.deep_view(),
            overrides.deep_view(),
            starts@,
            duration.secs as int,
            range_start,
            range_end,
        ),
        r matches Some(v) ==> starts_valid(v@),
{
    let ghost ev = event.deep_view();
    let ghost ov = overrides.deep_view();
    let mut out: Vec<Occurrence> = Vec::new();
    let mut i: usize = 0;
    assert(starts@.take(0) =~= Seq::empty());
    assert(out.deep_view() =~= Seq::empty());
    while i < starts.len()
        invariant
            0 <= i <= starts@.len(),
            ev == event.deep_view(),
            ov == overrides.deep_view(),
            times_valid(starts@),
            duration.valid(),
            starts_valid(out@),
            occurrences_at(
                ev,
                ov,
                starts@.take(i as int),
                duration.secs as int,
                range_start,
                range_end,
            ) == Some(out.deep_view()),
        decreases starts@.len() - i,
    {
        proof {
            assert(starts@.take(i + 1).drop_last() =~= starts@.take(i as int));
            assert(starts@.take(i + 1).last() == starts@[i as int]);
        }
        match occurrence(event, overrides, starts[i], duration, range_start, range_end) {
            Some(Some(o)) => {
                let ghost before = out.deep_view();
                out.push(o);
                assert(out.deep_view() =~= before.push(o.deep_view()));
            },
            Some(None) => {},
            None => {
                proof {
                    occurrences_prefix(
                        ev,
                        ov,
                        starts@,
                        duration.secs as int,
                        range_start,
                        range_end,
                        i + 1,
                    );
                }
                return None;
            },
        }
        i = i + 1;
    }
    assert(starts@.take(i as int) =~= starts@);
    Some(out)
}

proof fn occurrences_prefix(
    event: CalendarEventV,
    overrides: OverridesV,
    starts: Seq<NaiveDateTime>,
    secs: int,
    range_start: NaiveDateTime,
    range_end: NaiveDateTime,
    k: int,
)
    requires
        0 <= k <= starts.len(),
        occurrences_at(event, overrides, starts.take(k), secs, range_start, range_end) is None,
    ensures
        occurrences_at(event, overrides, starts, secs, range_start, range_end) is None,
    decreases starts.len() - k,
{
    if k == starts.len() {
        assert(starts.take(k) =~= starts);
    } else {
        assert(starts.take(k + 1).drop_last() =~= starts.take(k));
        occurrences_prefix(event, overrides, starts, secs, range_start, range_end, k + 1);
    }
}

/// The occurrences of an event in a range, where they can be computed.
pub(crate) fn expand_checked(
    event: &CalendarEvent,
    range_start: NaiveDateTime,
    range_end: NaiveDateTime,
) -> (r: Option<Vec<Occurrence>>)
    requires
        range_start.valid(),
        range_end.valid(),
    ensures
        r.deep_view() == expansion(event.deep_view(), range_start, range_end),
        r matches Some(v) ==> starts_valid(v@),
{
    let dtstart = match event.start.to_naive() {
        Some(t) => t,
        None => {
            let none: Vec<Occurrence> = Vec::new();
            assert(none.deep_view() =~= Seq::empty());
            return Some(none);
        },
    };
    let duration = match try_parse_duration(event.duration.as_str()) {
        Some(Some(d)) => d,
        Some(None) => Duration::zero(),
        None => {
            return None;
        },
    };
    let base = match starts_of_event(event, dtstart, duration, range_start, range_end) {
        Some(v) => v,
        None => {
            return None;
        },
    };
    let overrides = match &event.recurrence_overrides {
        Some(o) => o.clone_view(),
        None => StrMap::new(),
    };
    let starts = sort_times(add_extras(base, &overrides, duration, range_start, range_end));
    occurrences(event, &overrides, &starts, duration, range_start, range_end)
}

/// The occurrences of an event that touch a range: those of its rules, of its overrides, or its
/// one own, in ascending order of the times they were planned for.
pub fn expand(event: &CalendarEvent, range_start: NaiveDateTime, range_end: NaiveDateTime) -> (r:
    Vec<Occurrence>)
    requires
        range_start.valid(),
        range_end.valid(),
        expansion(event.deep_view(), range_start, range_end) is Some,
    ensures
        Some(r.deep_view()) == expansion(event.deep_view(), range_start, range_end),
{
    match expand_checked(event, range_start, range_end) {
        Some(v) => v,
        None => Vec::new(),
    }
}

/// The occurrences of an event in a range, or `None` where they cannot be computed within
/// the calendar.
pub fn try_expand(
    event: &CalendarEvent,
    range_start: NaiveDateTime,
    range_end: NaiveDateTime,
) -> (r: Option<Vec<Occurrence>>)
    requires
        range_start.valid(),
        range_end.valid(),
    ensures
        r.deep_view() == expansion(event.deep_view(), range_start, range_end),
{
    expand_checked(event, range_start, range_end)
}

// ---------------------------------------------------------------------------
// Laws
// ---------------------------------------------------------------------------

/// `t` is a time that a rule with these bounds can give: at the time of day of the start,
/// not before it, in the range, and not past `until`.
pub open spec fn within_bounds(b: Bounds, t: NaiveDateTime) -> bool {
    &&& t.secs == b.dtstart.secs
    &&& t.leap == b.dtstart.leap
    &&& !date_less(t.date, b.dtstart.date)
    &&& !time_less(t, b.range_start)
    &&& time_less(t, b.range_end)
    &&& b.until is Some ==> !time_less(b.until->0, t)
}

spec fn walk_inv(b: Bounds, w: WalkV) -> bool {
    &&& 0 <= w.out.len() <= w.produced <= MAX_OCCURRENCES
    &&& !w.done ==> w.produced < MAX_OCCURRENCES
    &&& b.count is Some ==> w.out.len() <= b.count->0
    &&& b.count is Some && !w.done ==> w.produced <= b.count->0
    &&& forall|i: int| 0 <= i < w.out.len() ==> within_bounds(b, #[trigger] w.out[i])
}

proof fn walk_dates_inv(b: Bounds, w: WalkV, s: Seq<NaiveDate>)
    requires
        walk_inv(b, w),
    ensures
        walk_inv(b, walk_dates(b, w, s)),
    decreases s.len(),
{
    if s.len() > 0 {
        walk_dates_inv(b, w, s.drop_last());
    }
}

proof fn walk_periods_inv(rule: RecurrenceRuleV, b: Bounds, w: WalkV, k: int)
    requires
        walk_inv(b, w),
        k >= 0,
        b.dtstart.valid(),
        walk_periods(rule, b, w, k) is Some,
    ensures
        walk_periods(rule, b, w, k)->0.len() <= MAX_OCCURRENCES,
        b.count is Some ==> walk_periods(rule, b, w, k)->0.len() <= b.count->0,
        forall|i: int|
            0 <= i < walk_periods(rule, b, w, k)->0.len() ==> within_bounds(
                b,
                #[trigger] walk_periods(rule, b, w, k)->0[i],
            ),
    decreases PERIOD_LIMIT - k,
{
    if !w.done {
        let s = period_dates(rule, b.dtstart.date, k)->0;
        periods_end(rule, b.dtstart.date, k);
        walk_dates_inv(b, w, s);
        walk_periods_inv(rule, b, walk_dates(b, w, s), k + 1);
    }
}

/// A rule gives no more starts than its count and than `MAX_OCCURRENCES`, each of them at
/// the time of day of the event's start, not before it, in the range and not past `until`.
pub proof fn rule_starts_within_bounds(
    rule: RecurrenceRuleV,
    dtstart: NaiveDateTime,
    range_start: NaiveDateTime,
    range_end: NaiveDateTime,
)
    requires
        dtstart.valid(),
        rule_starts(rule, dtstart, range_start, range_end) is Some,
    ensures
        rule_starts(rule, dtstart, range_start, range_end)->0.len() <= MAX_OCCURRENCES,
        rule.count is Some ==> rule_starts(rule, dtstart, range_start, range_end)->0.len()
            <= rule.count->0,
        forall|i: int|
            0 <= i < rule_starts(rule, dtstart, range_start, range_end)->0.len() ==> within_bounds(
                bounds_of(rule, dtstart, range_start, range_end),
                #[trigger] rule_starts(rule, dtstart, range_start, range_end)->0[i],
            ),
{
    let b = bounds_of(rule, dtstart, range_start, range_end);
    assert(walk_inv(b, walk_start()));
    match rule.frequency {
        Frequency::Hourly | Frequency::Minutely | Frequency::Secondly => {
            assert(walk_inv(b, walk_date(b, walk_start(), dtstart.date)));
        },
        _ => {
            if !never_comes(rule, dtstart.date) {
                walk_periods_inv(rule, b, walk_start(), 0);
            }
        },
    }
}

/// An occurrence is one that no override takes out, and a plain event of its own; where its
/// duration reads back, it touches the range.
pub open spec fn sound_occurrence(
    overrides: OverridesV,
    o: OccurrenceV,
    range_start: NaiveDateTime,
    range_end: NaiveDateTime,
) -> bool {
    &&& o.recurrence_id is Some
    &&& o.event.recurrence_id == o.recurrence_id
    &&& !excludes(map_get(overrides, o.recurrence_id->0))
    &&& o.event.recurrence_rules is None
    &&& o.event.recurrence_overrides is None
    &&& local_time(o.event.start) == Some(o.start)
    &&& exists|secs: int|
        #![trigger duration_text(secs)]
        o.event.duration == duration_text(secs) && overlap(o.start, secs, range_start, range_end)
            == Some(true)
}

proof fn occurrences_sound(
    event: CalendarEventV,
    overrides: OverridesV,
    starts: Seq<NaiveDateTime>,
    secs: int,
    range_start: NaiveDateTime,
    range_end: NaiveDateTime,
)
    requires
        occurrences_at(event, overrides, starts, secs, range_start, range_end) is Some,
    ensures
        ({
            let out = occurrences_at(event, overrides, starts, secs, range_start, range_end)->0;
            &&& out.len() <= starts.len()
            &&& forall|i: int|
                0 <= i < out.len() ==> sound_occurrence(
                    overrides,
                    #[trigger] out[i],
                    range_start,
                    range_end,
                )
        }),
    decreases starts.len(),
{
    if starts.len() > 0 {
        occurrences_sound(event, overrides, starts.drop_last(), secs, range_start, range_end);
        let before = occurrences_at(
            event,
            overrides,
            starts.drop_last(),
            secs,
            range_start,
            range_end,
        )->0;
        match occurrence_at(event, overrides, starts.last(), secs, range_start, range_end) {
            Some(Some(o)) => {
                let patch = map_get(overrides, iso_text(starts.last()));
                let n = match patch_str(patch, "duration"@) {
                    Some(s) => match duration_secs(s) {
                        Some(Some(n)) => n,
                        _ => secs,
                    },
                    None => secs,
                };
                assert(o.event.duration == duration_text(n) && overlap(
                    o.start,
                    n,
                    range_start,
                    range_end,
                ) == Some(true));
                assert(sound_occurrence(overrides, o, range_start, range_end));
            },
            _ => {},
        }
    }
}

/// No occurrence is one that an override takes out; each is a plain event that does not
/// repeat, starts when the occurrence does and touches the range.
pub proof fn expansion_sound(
    event: CalendarEventV,
    range_start: NaiveDateTime,
    range_end: NaiveDateTime,
)
    requires
        expansion(event, range_start, range_end) is Some,
    ensures
        forall|i: int|
            0 <= i < expansion(event, range_start, range_end)->0.len() ==> sound_occurrence(
                overrides_of(event),
                #[trigger] expansion(event, range_start, range_end)->0[i],
                range_start,
                range_end,
            ),
{
    if let Some(dtstart) = local_time(event.start) {
        let secs = match duration_secs(event.duration) {
            Some(Some(n)) => n,
            _ => 0,
        };
        let overrides = overrides_of(event);
        let base = base_starts(event, dtstart, secs, range_start, range_end)->0;
        occurrences_sound(
            event,
            overrides,
            sorted_times(with_extras(base, overrides, overrides, secs, range_start, range_end)),
            secs,
            range_start,
            range_end,
        );
    }
}

/// An event without rules and overrides happens once where it touches the range, as it
/// stands, and not at all elsewhere.
pub proof fn expansion_of_single_event(
    event: CalendarEventV,
    range_start: NaiveDateTime,
    range_end: NaiveDateTime,
)
    requires
        event.recurrence_rules is None,
        event.recurrence_overrides is None,
        expansion(event, range_start, range_end) is Some,
    ensures
        match (local_time(event.start), duration_secs(event.duration)) {
            (Some(t), Some(Some(n))) => if overlap(t, n, range_start, range_end) == Some(true) {
                expansion(event, range_start, range_end)->0 =~= seq![
                    OccurrenceV {
                        start: t,
                        recurrence_id: Some(iso_text(t)),
                        event: patched(event, iso_text(t), iso_text(t), None, n),
                    },
                ]
            } else {
                expansion(event, range_start, range_end)->0.len() == 0
            },
            (None, _) => expansion(event, range_start, range_end)->0.len() == 0,
            _ => true,
        },
{
    if let Some(t) = local_time(event.start) {
        if let Some(Some(n)) = duration_secs(event.duration) {
            let overrides = overrides_of(event);
            local_time_on_clock(event.start);
            local_time_of_text(t);
            let base = base_starts(event, t, n, range_start, range_end)->0;
            assert(with_extras(base, overrides, overrides, n, range_start, range_end) == base);
            if base.len() == 1 {
                assert(base.drop_last() =~= Seq::empty());
                reveal_with_fuel(stable_sorted, 2);
                let le = |a: NaiveDateTime, b: NaiveDateTime| NaiveDateTime::le_view(a, b);
                assert(stable_sorted(base.drop_last(), le) =~= Seq::empty());
                assert(sorted_times(base) =~= seq![t]);
                let st = seq![t];
                assert(st.drop_last() =~= Seq::empty());
                assert(occurrences_at(
                    event,
                    overrides,
                    st.drop_last(),
                    n,
                    range_start,
                    range_end,
                ) == Some(Seq::<OccurrenceV>::empty()));
            }
        }
    }
}

/// Those of `starts` at which there is an occurrence.
pub open spec fn kept_starts(
    event: CalendarEventV,
    overrides: OverridesV,
    starts: Seq<NaiveDateTime>,
    secs: int,
    range_start: NaiveDateTime,
    range_end: NaiveDateTime,
) -> Seq<NaiveDateTime>
    decreases starts.len(),
{
    if starts.len() == 0 {
        starts
    } else {
        let before = kept_starts(
            event,
            overrides,
            starts.drop_last(),
            secs,
            range_start,
            range_end,
        );
        match occurrence_at(event, overrides, starts.last(), secs, range_start, range_end) {
            Some(Some(_)) => before.push(starts.last()),
            _ => before,
        }
    }
}

/// The times that the occurrences of an event were planned for.
pub open spec fn planned_times(
    event: CalendarEventV,
    range_start: NaiveDateTime,
    range_end: NaiveDateTime,
) -> Seq<NaiveDateTime> {
    match (local_time(event.start), duration_secs(event.duration)) {
        (Some(dtstart), Some(d)) => {
            let secs = match d {
                Some(n) => n,
                None => 0,
            };
            let overrides = overrides_of(event);
            match base_starts(event, dtstart, secs, range_start, range_end) {
                Some(base) => kept_starts(
                    event,
                    overrides,
                    sorted_times(
                        with_extras(base, overrides, overrides, secs, range_start, range_end),
                    ),
                    secs,
                    range_start,
                    range_end,
                ),
                None => Seq::empty(),
            }
        },
        _ => Seq::empty(),
    }
}

proof fn kept_starts_in_order(
    event: CalendarEventV,
    overrides: OverridesV,
    starts: Seq<NaiveDateTime>,
    secs: int,
    range_start: NaiveDateTime,
    range_end: NaiveDateTime,
    le: spec_fn(NaiveDateTime, NaiveDateTime) -> bool,
)
    requires
        in_order(starts, le),
        starts.no_duplicates(),
        occurrences_at(event, overrides, starts, secs, range_start, range_end) is Some,
    ensures
        ({
            let kept = kept_starts(event, overrides, starts, secs, range_start, range_end);
            let out = occurrences_at(event, overrides, starts, secs, range_start, range_end)->0;
            &&& in_order(kept, le)
            &&& kept.len() == out.len()
            &&& kept.len() <= starts.len()
            &&& kept.no_duplicates()
            &&& forall|i: int|
                0 <= i < kept.len() ==> (#[trigger] out[i]).recurrence_id == Some(iso_text(kept[i]))
            &&& forall|i: int| 0 <= i < kept.len() ==> starts.contains(#[trigger] kept[i])
        }),
    decreases starts.len(),
{
    if starts.len() > 0 {
        let t = starts.drop_last();
        assert(in_order(t, le));
        assert(t.no_duplicates());
        kept_starts_in_order(event, overrides, t, secs, range_start, range_end, le);
        let before = kept_starts(event, overrides, t, secs, range_start, range_end);
        let kept = kept_starts(event, overrides, starts, secs, range_start, range_end);
        assert forall|i: int| 0 <= i < before.len() implies starts.contains(
            #[trigger] before[i],
        ) && le(before[i], starts.last()) && before[i] != starts.last() by {
            let j = choose|j: int| 0 <= j < t.len() && t[j] == before[i];
            assert(starts[j] == before[i]);
            assert(starts[j] != starts[starts.len() - 1]);
            assert(le(starts[j], starts[starts.len() - 1]));
        }
        assert(starts.contains(starts.last())) by {
            assert(starts[starts.len() - 1] == starts.last());
        }
        assert(le(starts[starts.len() - 1], starts[starts.len() - 1]));
        assert forall|i: int, j: int| 0 <= i <= j < kept.len() implies le(
            #[trigger] kept[i],
            #[trigger] kept[j],
        ) by {
            if i < before.len() {
                assert(kept[i] == before[i]);
                if j < before.len() {
                    assert(kept[j] == before[j]);
                }
            }
        }
    }
}

/// Times are ordered.
pub proof fn times_are_ordered()
    ensures
        total_preorder(|a: NaiveDateTime, b: NaiveDateTime| NaiveDateTime::le_view(a, b)),
{
    let le = |a: NaiveDateTime, b: NaiveDateTime| NaiveDateTime::le_view(a, b);
    assert forall|a: NaiveDateTime, b: NaiveDateTime, c: NaiveDateTime| #[trigger]
        le(a, b) && #[trigger] le(b, c) implies le(a, c) by {}
}

/// Where equal items stand side by side, as they do in order, `dedup` leaves each item once.
pub proof fn dedup_leaves_no_duplicates<T>(s: Seq<T>, le: spec_fn(T, T) -> bool)
    requires
        in_order(s, le),
        forall|a: T, b: T| #[trigger] le(a, b) && le(b, a) ==> a == b,
    ensures
        dedup(s).no_duplicates(),
        in_order(dedup(s), le),
        forall|i: int| 0 <= i < dedup(s).len() ==> s.contains(#[trigger] dedup(s)[i]),
        forall|x: T| s.contains(x) ==> dedup(s).contains(x),
        s.len() > 0 ==> dedup(s).len() > 0 && dedup(s).last() == s.last(),
    decreases s.len(),
{
    if s.len() >= 2 {
        let t = s.drop_last();
        assert(in_order(t, le));
        dedup_leaves_no_duplicates(t, le);
        let d = dedup(t);
        assert forall|i: int| 0 <= i < d.len() implies s.contains(#[trigger] d[i]) && le(
            d[i],
            s.last(),
        ) && (s.last() != s[s.len() - 2] ==> d[i] != s.last()) by {
            let j = choose|j: int| 0 <= j < t.len() && t[j] == d[i];
            assert(s[j] == d[i]);
            assert(le(s[j], s[s.len() - 2]));
            assert(le(s[s.len() - 2], s[s.len() - 1]));
            assert(le(s[j], s[s.len() - 1]));
        }
        assert(s[s.len() - 1] == s.last());
        assert(le(s[s.len() - 1], s[s.len() - 1]));
        let r = dedup(s);
        assert forall|x: T| s.contains(x) implies r.contains(x) by {
            let k = choose|k: int| 0 <= k < s.len() && s[k] == x;
            if k < t.len() || s.last() == s[s.len() - 2] {
                assert(t[if k < t.len() { k } else { k - 1 }] == x);
                assert(t.contains(x));
                assert(d.contains(x));
                let i = choose|i: int| 0 <= i < d.len() && d[i] == x;
                assert(r[i] == x);
            } else {
                assert(r[r.len() - 1] == x);
            }
        }
        assert forall|i: int, j: int| 0 <= i <= j < r.len() implies le(
            #[trigger] r[i],
            #[trigger] r[j],
        ) by {
            if j < d.len() {
                assert(r[i] == d[i] && r[j] == d[j]);
            } else if i < d.len() {
                assert(r[i] == d[i]);
            }
        }
    } else if s.len() == 1 {
        assert(dedup(s)[0] == s[0]);
    }
}

proof fn extras_add_no_duplicates(
    starts: Seq<NaiveDateTime>,
    overrides: OverridesV,
    keys: OverridesV,
    secs: int,
    range_start: NaiveDateTime,
    range_end: NaiveDateTime,
)
    requires
        starts.no_duplicates(),
    ensures
        with_extras(starts, overrides, keys, secs, range_start, range_end).no_duplicates(),
    decreases keys.len(),
{
    if keys.len() > 0 {
        extras_add_no_duplicates(
            starts,
            overrides,
            keys.drop_last(),
            secs,
            range_start,
            range_end,
        );
    }
}

/// The occurrences of an event come in ascending order of the times they were planned for, no
/// two for one time, and each carries that time as its recurrence id.
pub proof fn expansion_in_order(
    event: CalendarEventV,
    range_start: NaiveDateTime,
    range_end: NaiveDateTime,
)
    requires
        expansion(event, range_start, range_end) is Some,
    ensures
        ({
            let out = expansion(event, range_start, range_end)->0;
            let times = planned_times(event, range_start, range_end);
            &&& out.len() == times.len()
            &&& forall|i: int, j: int|
                0 <= i < j < times.len() ==> time_less(#[trigger] times[i], #[trigger] times[j])
            &&& forall|i: int|
                0 <= i < out.len() ==> (#[trigger] out[i]).recurrence_id == Some(iso_text(times[i]))
        }),
{
    if let Some(dtstart) = local_time(event.start) {
        let secs = match duration_secs(event.duration) {
            Some(Some(n)) => n,
            _ => 0,
        };
        let overrides = overrides_of(event);
        let base = base_starts(event, dtstart, secs, range_start, range_end)->0;
        let all = with_extras(base, overrides, overrides, secs, range_start, range_end);
        let le = |a: NaiveDateTime, b: NaiveDateTime| NaiveDateTime::le_view(a, b);
        times_are_ordered();
        stable_sorted_in_order(all, le);
        if let Some(rules) = event.recurrence_rules {
            let given = rules_starts(rules, dtstart, reach_back(range_start, secs), range_end)->0;
            stable_sorted_in_order(given, le);
            dedup_leaves_no_duplicates(sorted_times(given), le);
        }
        extras_add_no_duplicates(base, overrides, overrides, secs, range_start, range_end);
        all.lemma_multiset_has_no_duplicates();
        sorted_times(all).lemma_multiset_has_no_duplicates_conv();
        kept_starts_in_order(
            event,
            overrides,
            sorted_times(all),
            secs,
            range_start,
            range_end,
            le,
        );
        let times = planned_times(event, range_start, range_end);
        assert forall|i: int, j: int| 0 <= i < j < times.len() implies time_less(
            #[trigger] times[i],
            #[trigger] times[j],
        ) by {
            assert(le(times[i], times[j]));
            assert(times[i] != times[j]);
        }
    }
}

} // verus!
