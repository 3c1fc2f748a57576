//! Which dates a rule gives, by the calendar: those at its interval on the days that it names,
//! and all of them.

use vstd::arithmetic::div_mod::{lemma_fundamental_div_mod, lemma_mod_multiples_basic};
use vstd::prelude::*;
use crate::byday_laws::{
    listed_is_present, sorting_keeps, weekday_fits, weekday_is_found,
};
use crate::calendar::{
    date_less, date_of, date_of_exists, date_of_num, day_in_range, days_before_month, first_date,
    last_date, month_len, month_starts, nums_ascend, plus_days, plus_months, range_bounds,
    time_less_is_order, year_step, NaiveDate, NaiveDateTime, MAX_YEAR, MIN_YEAR,
};
use crate::jscalendar::{local_time, local_time_on_clock, NDayV, RecurrenceRuleV, Weekday};
use crate::numbers::parse_int;
use crate::recurrence::{
    asked_days, bounds_of, daily_candidates, date_at, day_of_month, interval_of, month_dates,
    month_end, never_comes, numbers_of, on_listed_day, period_dates, present, rule_starts,
    rule_starts_within_bounds, week_dates, week_days, weekday_index, weekday_of_month, year_dates,
    year_months,
};
use crate::recurrence_laws::{
    before_period, by_periods, is_reached, month_dates_stay, named_by, named_date_is_given,
    rule_gives_named_dates, year_dates_stay,
};

verus! {

/// A rule repeats every `n` days, weeks, months or years.
pub open spec fn every(rule: RecurrenceRuleV, n: int) -> bool {
    match rule.interval {
        Some(i) => if i == 0 {
            n == 1
        } else {
            n == i
        },
        None => n == 1,
    }
}

/// A date is on a day of the week.
pub open spec fn is_on(d: NaiveDate, w: Weekday) -> bool {
    match w {
        Weekday::Monday => d.weekday_num() == 0,
        Weekday::Tuesday => d.weekday_num() == 1,
        Weekday::Wednesday => d.weekday_num() == 2,
        Weekday::Thursday => d.weekday_num() == 3,
        Weekday::Friday => d.weekday_num() == 4,
        Weekday::Saturday => d.weekday_num() == 5,
        Weekday::Sunday => d.weekday_num() == 6,
    }
}

/// A date is on one of some days of the week.
pub open spec fn is_on_one(d: NaiveDate, by_day: Seq<NDayV>) -> bool {
    exists|j: int| 0 <= j < by_day.len() && is_on(d, (#[trigger] by_day[j]).day)
}

/// A date is the day of the month that a number says: counted from the first, or, where it is
/// negative, from the last.
pub open spec fn is_day(d: NaiveDate, number: i32) -> bool {
    ||| number > 0 && d.day == number
    ||| number < 0 && d.day == month_len(d.year as int, d.month as int) + 1 + number
}

/// A date is the weekday of its month that an entry says: the first, the second and so on, or,
/// where the number is negative, the last, the last but one and so on; any, without a number.
pub open spec fn is_weekday(d: NaiveDate, entry: NDayV) -> bool {
    is_on(d, entry.day) && match entry.nth_of_period {
        None => true,
        Some(n) => {
            ||| n > 0 && (d.day - 1) / 7 + 1 == n
            ||| n < 0 && (month_len(d.year as int, d.month as int) - d.day) / 7 + 1 == -n
        },
    }
}

/// A date is one that a rule picks in the date's month: by its days of the week, or else by its
/// days of the month, or else by the day on which the event starts.
pub open spec fn is_picked(
    d: NaiveDate,
    start_day: u32,
    by_day: Seq<NDayV>,
    by_month_day: Seq<i32>,
) -> bool {
    if by_day.len() > 0 {
        exists|j: int| 0 <= j < by_day.len() && is_weekday(d, #[trigger] by_day[j])
    } else if by_month_day.len() > 0 {
        exists|j: int| 0 <= j < by_month_day.len() && is_day(d, #[trigger] by_month_day[j])
    } else {
        d.day == start_day
    }
}

/// A date can be given by a rule: it is less than 2000 days after the start, and before as many
/// as the rule counts; it is not past the rule's end; and the range holds it.
pub open spec fn can_be_given(
    rule: RecurrenceRuleV,
    dtstart: NaiveDateTime,
    range_start: NaiveDateTime,
    range_end: NaiveDateTime,
    d: NaiveDate,
) -> bool {
    let t = NaiveDateTime { date: d, secs: dtstart.secs, leap: dtstart.leap };
    &&& d.valid()
    &&& 0 <= d.num() - dtstart.date.num() < 2000
    &&& rule.count matches Some(c) ==> d.num() - dtstart.date.num() < c
    &&& rule.until matches Some(u) ==> (local_time(u) matches Some(x) ==> t.order() <= x.order())
    &&& range_start.order() <= t.order() < range_end.order()
}

proof fn given_is_reached(
    rule: RecurrenceRuleV,
    dtstart: NaiveDateTime,
    range_start: NaiveDateTime,
    range_end: NaiveDateTime,
    d: NaiveDate,
)
    requires
        dtstart.valid(),
        range_start.valid(),
        range_end.valid(),
        can_be_given(rule, dtstart, range_start, range_end, d),
    ensures
        is_reached(bounds_of(rule, dtstart, range_start, range_end), d),
{
    let t = NaiveDateTime { date: d, secs: dtstart.secs, leap: dtstart.leap };
    assert(t == NaiveDateTime { date: d, ..dtstart });
    time_less_is_order(t, range_start);
    time_less_is_order(t, range_end);
    if let Some(u) = rule.until {
        if let Some(x) = local_time(u) {
            local_time_on_clock(u);
            time_less_is_order(x, t);
        }
    }
}

proof fn listed_day(d: NaiveDate, by_day: Seq<NDayV>)
    requires
        by_day.len() > 0,
    ensures
        on_listed_day(d, by_day) == is_on_one(d, by_day),
{
    if on_listed_day(d, by_day) {
        let j = choose|j: int|
            0 <= j < by_day.len() && weekday_index((#[trigger] by_day[j]).day) == d.weekday_num();
        assert(is_on(d, by_day[j].day));
    }
    if is_on_one(d, by_day) {
        let j = choose|j: int| 0 <= j < by_day.len() && is_on(d, (#[trigger] by_day[j]).day);
        assert(weekday_index(by_day[j].day) == d.weekday_num());
    }
}

proof fn period_of_start(
    rule: RecurrenceRuleV,
    dtstart: NaiveDateTime,
    range_start: NaiveDateTime,
    range_end: NaiveDateTime,
    i: int,
) -> (k: int)
    requires
        dtstart.valid(),
        range_start.valid(),
        range_end.valid(),
        by_periods(rule),
        rule_starts(rule, dtstart, range_start, range_end) is Some,
        0 <= i < rule_starts(rule, dtstart, range_start, range_end)->0.len(),
    ensures
        k >= 0,
        period_dates(rule, dtstart.date, k) is Some,
        period_dates(rule, dtstart.date, k)->0.contains(
            rule_starts(rule, dtstart, range_start, range_end)->0[i].date,
        ),
        !date_less(rule_starts(rule, dtstart, range_start, range_end)->0[i].date, dtstart.date),
{
    rule_gives_named_dates(rule, dtstart, range_start, range_end);
    rule_starts_within_bounds(rule, dtstart, range_start, range_end);
    let d = rule_starts(rule, dtstart, range_start, range_end)->0[i].date;
    assert(named_by(rule, dtstart.date, d));
    choose|k: int|
        k >= 0 && (#[trigger] period_dates(rule, dtstart.date, k)) is Some && period_dates(
            rule,
            dtstart.date,
            k,
        )->0.contains(d)
}

// ---------------------------------------------------------------------------
// Days
// ---------------------------------------------------------------------------

/// A daily rule gives only days whose distance from the start is a multiple of its interval, on
/// the days of the week that it names.
#[verifier::spinoff_prover]
#[verifier::rlimit(60)]
pub proof fn daily_starts_keep_interval(
    rule: RecurrenceRuleV,
    dtstart: NaiveDateTime,
    range_start: NaiveDateTime,
    range_end: NaiveDateTime,
    n: int,
    i: int,
)
    requires
        dtstart.valid(),
        range_start.valid(),
        range_end.valid(),
        rule.frequency is Daily,
        every(rule, n),
        rule_starts(rule, dtstart, range_start, range_end) is Some,
        0 <= i < rule_starts(rule, dtstart, range_start, range_end)->0.len(),
    ensures
        ({
            let d = rule_starts(rule, dtstart, range_start, range_end)->0[i].date;
            &&& d.num() >= dtstart.date.num()
            &&& (d.num() - dtstart.date.num()) % n == 0
            &&& rule.by_day.len() > 0 ==> is_on_one(d, rule.by_day)
        }),
{
    let start = dtstart.date;
    let d = rule_starts(rule, dtstart, range_start, range_end)->0[i].date;
    let k = period_of_start(rule, dtstart, range_start, range_end, i);
    date_of_exists(start.num() + k * n);
    assert(d == date_of(start.num() + k * n));
    lemma_mod_multiples_basic(k, n);
    nums_ascend(d, start);
    if rule.by_day.len() > 0 {
        listed_day(d, rule.by_day);
    }
}

proof fn whole_weeks(a: int, b: int, n: int, k: int)
    requires
        n % 7 == 0,
        b - a == n * k,
    ensures
        (b - 1) % 7 == (a - 1) % 7,
{
    let m = n / 7;
    assert(n * k == 7 * (m * k)) by (nonlinear_arith)
        requires
            n == 7 * m,
    ;
}

/// A daily rule gives every day whose distance from the start is a multiple of its interval, on
/// the days of the week that it names.
#[verifier::spinoff_prover]
#[verifier::rlimit(60)]
pub proof fn daily_rule_gives(
    rule: RecurrenceRuleV,
    dtstart: NaiveDateTime,
    range_start: NaiveDateTime,
    range_end: NaiveDateTime,
    n: int,
    d: NaiveDate,
)
    requires
        dtstart.valid(),
        range_start.valid(),
        range_end.valid(),
        rule.frequency is Daily,
        every(rule, n),
        rule_starts(rule, dtstart, range_start, range_end) is Some,
        can_be_given(rule, dtstart, range_start, range_end, d),
        (d.num() - dtstart.date.num()) % n == 0,
        rule.by_day.len() > 0 ==> is_on_one(d, rule.by_day),
    ensures
        rule_starts(rule, dtstart, range_start, range_end)->0.contains(
            NaiveDateTime { date: d, secs: dtstart.secs, leap: dtstart.leap },
        ),
{
    let start = dtstart.date;
    let k = (d.num() - start.num()) / n;
    lemma_fundamental_div_mod(d.num() - start.num(), n);
    assert(k * n == d.num() - start.num()) by (nonlinear_arith)
        requires
            d.num() - start.num() == n * k,
    ;
    assert(k >= 0) by (nonlinear_arith)
        requires
            n * k >= 0,
            n >= 1,
    ;
    given_is_reached(rule, dtstart, range_start, range_end, d);
    date_of_num(d);
    if rule.by_day.len() > 0 {
        listed_day(d, rule.by_day);
    }
    assert(daily_candidates(d.num(), rule.by_day) =~= seq![d]);
    assert(seq![d][0] == d);
    assert(seq![d].contains(d));
    if never_comes(rule, start) {
        whole_weeks(start.num(), d.num(), n, k);
        assert(on_listed_day(start, rule.by_day));
    }
    assert forall|x: NaiveDate| #[trigger] before_period(rule, start, x, k) implies date_less(
        x,
        d,
    ) by {
        nums_ascend(x, d);
    }
    named_date_is_given(rule, dtstart, range_start, range_end, k, d);
    assert(NaiveDateTime { date: d, secs: dtstart.secs, leap: dtstart.leap } == NaiveDateTime {
        date: d,
        ..dtstart
    });
}

// ---------------------------------------------------------------------------
// Weeks
// ---------------------------------------------------------------------------

proof fn week_exact(base: int, days: Seq<int>, d: NaiveDate)
    requires
        (base - 1) % 7 == 0,
        forall|i: int| 0 <= i < days.len() ==> 0 <= #[trigger] days[i] < 7,
        week_dates(base, days) is Some,
        week_dates(base, days)->0.contains(d),
    ensures
        d.valid(),
        0 <= d.num() - base < 7,
        days.contains(d.weekday_num()),
{
    let list = Seq::new(
        days.len(),
        |i: int|
            if day_in_range(base + days[i]) {
                Some(Some(date_of(base + days[i])))
            } else {
                None
            },
    );
    listed_is_present(list, d);
    let j = choose|j: int| 0 <= j < list.len() && list[j] == Some(Some(d));
    date_of_exists(base + days[j]);
    assert(d.weekday_num() == days[j]);
}

proof fn days_named(start: NaiveDate, by_day: Seq<NDayV>, d: NaiveDate)
    requires
        week_days(start, by_day).contains(d.weekday_num()),
    ensures
        by_day.len() > 0 ==> is_on_one(d, by_day),
        by_day.len() == 0 ==> d.weekday_num() == start.weekday_num(),
{
    let days = week_days(start, by_day);
    let j = choose|j: int| 0 <= j < days.len() && days[j] == d.weekday_num();
    if by_day.len() > 0 {
        assert(is_on(d, by_day[j].day));
    }
}

#[verifier::spinoff_prover]
#[verifier::rlimit(60)]
proof fn weekly_period(rule: RecurrenceRuleV, start: NaiveDate, n: int, k: int, d: NaiveDate)
    requires
        rule.frequency is Weekly,
        every(rule, n),
        period_dates(rule, start, k) is Some,
        period_dates(rule, start, k)->0.contains(d),
    ensures
        d.valid(),
        ((d.num() - d.weekday_num()) - (start.num() - start.weekday_num())) % (7 * n) == 0,
        rule.by_day.len() > 0 ==> is_on_one(d, rule.by_day),
        rule.by_day.len() == 0 ==> d.weekday_num() == start.weekday_num(),
{
    let w = k * n;
    let base = start.num() - start.weekday_num() + 7 * w;
    let days = week_days(start, rule.by_day);
    assert(n == interval_of(rule));
    assert(week_dates(base, days) is Some);
    sorting_keeps(week_dates(base, days)->0, d);
    assert((base - 1) % 7 == 0);
    week_exact(base, days, d);
    days_named(start, rule.by_day, d);
    assert(d.num() - d.weekday_num() == base);
    assert(7 * w == k * (7 * n)) by (nonlinear_arith)
        requires
            w == k * n,
    ;
    lemma_mod_multiples_basic(k, 7 * n);
}

/// A weekly rule gives only dates in weeks, from Monday on, whose distance from the week of the
/// start is a multiple of its interval, and on the days of the week that it names, or else on that
/// of the start.
#[verifier::spinoff_prover]
#[verifier::rlimit(60)]
pub proof fn weekly_starts_keep_interval(
    rule: RecurrenceRuleV,
    dtstart: NaiveDateTime,
    range_start: NaiveDateTime,
    range_end: NaiveDateTime,
    n: int,
    i: int,
)
    requires
        dtstart.valid(),
        range_start.valid(),
        range_end.valid(),
        rule.frequency is Weekly,
        every(rule, n),
        rule_starts(rule, dtstart, range_start, range_end) is Some,
        0 <= i < rule_starts(rule, dtstart, range_start, range_end)->0.len(),
    ensures
        ({
            let start = dtstart.date;
            let d = rule_starts(rule, dtstart, range_start, range_end)->0[i].date;
            &&& d.num() >= start.num()
            &&& ((d.num() - d.weekday_num()) - (start.num() - start.weekday_num())) % (7 * n) == 0
            &&& rule.by_day.len() > 0 ==> is_on_one(d, rule.by_day)
            &&& rule.by_day.len() == 0 ==> d.weekday_num() == start.weekday_num()
        }),
{
    let start = dtstart.date;
    let d = rule_starts(rule, dtstart, range_start, range_end)->0[i].date;
    let k = period_of_start(rule, dtstart, range_start, range_end, i);
    weekly_period(rule, start, n, k, d);
    nums_ascend(d, start);
}

/// A weekly rule gives every day of the week that it names, or else that of the start, in every
/// week whose distance from the week of the start is a multiple of its interval.
#[verifier::spinoff_prover]
#[verifier::rlimit(60)]
pub proof fn weekly_rule_gives(
    rule: RecurrenceRuleV,
    dtstart: NaiveDateTime,
    range_start: NaiveDateTime,
    range_end: NaiveDateTime,
    n: int,
    d: NaiveDate,
)
    requires
        dtstart.valid(),
        range_start.valid(),
        range_end.valid(),
        rule.frequency is Weekly,
        every(rule, n),
        rule_starts(rule, dtstart, range_start, range_end) is Some,
        can_be_given(rule, dtstart, range_start, range_end, d),
        ((d.num() - d.weekday_num()) - (dtstart.date.num() - dtstart.date.weekday_num())) % (7 * n)
            == 0,
        rule.by_day.len() > 0 ==> is_on_one(d, rule.by_day),
        rule.by_day.len() == 0 ==> d.weekday_num() == dtstart.date.weekday_num(),
    ensures
        rule_starts(rule, dtstart, range_start, range_end)->0.contains(
            NaiveDateTime { date: d, secs: dtstart.secs, leap: dtstart.leap },
        ),
{
    let start = dtstart.date;
    let monday = start.num() - start.weekday_num();
    let base = d.num() - d.weekday_num();
    let k = (base - monday) / (7 * n);
    lemma_fundamental_div_mod(base - monday, 7 * n);
    assert(7 * (k * n) == base - monday) by (nonlinear_arith)
        requires
            base - monday == (7 * n) * k,
    ;
    assert(base - monday > -7);
    assert(k >= 0) by (nonlinear_arith)
        requires
            (7 * n) * k > -7,
            n >= 1,
    ;
    given_is_reached(rule, dtstart, range_start, range_end, d);
    date_of_num(d);
    let days = week_days(start, rule.by_day);
    let list = Seq::new(
        days.len(),
        |i: int|
            if day_in_range(base + days[i]) {
                Some(Some(date_of(base + days[i])))
            } else {
                None
            },
    );
    assert(days.contains(d.weekday_num())) by {
        if rule.by_day.len() > 0 {
            let j = choose|j: int|
                0 <= j < rule.by_day.len() && is_on(d, (#[trigger] rule.by_day[j]).day);
            assert(days[j] == d.weekday_num());
        } else {
            assert(days[0] == d.weekday_num());
        }
    }
    let j = choose|j: int| 0 <= j < days.len() && days[j] == d.weekday_num();
    assert(list[j] == Some(Some(d)));
    if period_dates(rule, start, k) is Some {
        listed_is_present(list, d);
        sorting_keeps(week_dates(base, days)->0, d);
    }
    assert forall|x: NaiveDate| #[trigger] before_period(rule, start, x, k) implies date_less(
        x,
        d,
    ) by {
        nums_ascend(x, d);
    }
    named_date_is_given(rule, dtstart, range_start, range_end, k, d);
    assert(NaiveDateTime { date: d, secs: dtstart.secs, leap: dtstart.leap } == NaiveDateTime {
        date: d,
        ..dtstart
    });
}

// ---------------------------------------------------------------------------
// Within a month
// ---------------------------------------------------------------------------

/// The last day of a month, where there is a month after it.
proof fn end_of_month(y: int, m: int)
    requires
        1 <= m <= 12,
        month_end(y, m) matches Some(Some(_)),
    ensures
        ({
            let last = month_end(y, m)->0->0;
            last.valid() && last.year == y && last.month == m && last.day == month_len(y, m)
        }),
{
    let last = month_end(y, m)->0->0;
    let next = if m == 12 {
        date_at(y + 1, 1, 1)->0
    } else {
        date_at(y, m + 1, 1)->0
    };
    assert(plus_days(next, -1) == Some(last));
    date_of_exists(next.num() - 1);
    if m == 12 && y < MIN_YEAR {
        range_bounds();
        assert(next == first_date());
        assert(false);
    }
    let e = NaiveDate { year: y as i32, month: m as u32, day: month_len(y, m) as u32 };
    assert(e.valid());
    month_starts(y);
    month_starts(y + 1);
    year_step(y);
    assert(days_before_month(y, m + 1) == days_before_month(y, m) + month_len(y, m));
    assert(e.num() == next.num() - 1);
    nums_ascend(last, e);
}

/// What is found by its day of the month is the day that the number says, and is found by it.
#[verifier::spinoff_prover]
#[verifier::rlimit(60)]
proof fn day_exact(d: NaiveDate, number: i32)
    requires
        d.valid(),
        d.year < MAX_YEAR || number > 0,
    ensures
        day_of_month(d.year as int, d.month as int, number as int) is Some ==> (day_of_month(
            d.year as int,
            d.month as int,
            number as int,
        ) == Some(Some(d))) == is_day(d, number),
{
    let y = d.year as int;
    let m = d.month as int;
    if number > 0 {
    } else {
        assert(month_end(y, m) matches Some(Some(_))) by {
            range_bounds();
            let next = if m == 12 {
                NaiveDate { year: (y + 1) as i32, month: 1, day: 1 }
            } else {
                NaiveDate { year: y as i32, month: (m + 1) as u32, day: 1 }
            };
            assert(next.valid());
            nums_ascend(d, next);
            nums_ascend(next, last_date());
            nums_ascend(first_date(), d);
        }
        end_of_month(y, m);
        let last = month_end(y, m)->0->0;
        if day_of_month(y, m, number as int) is Some {
            let c = date_of(last.num() + number + 1);
            date_of_exists(last.num() + number + 1);
            assert(d.num() == last.num() + d.day - last.day);
            if is_day(d, number) {
                nums_ascend(c, d);
            }
        }
    }
}

/// What is found by a number of a day of the week is the weekday of that number, and is found by
/// it.
#[verifier::spinoff_prover]
#[verifier::rlimit(60)]
proof fn nth_exact(d: NaiveDate, w: int, nth: i32)
    requires
        d.valid(),
        0 <= w < 7,
        d.year < MAX_YEAR || nth > 0,
        weekday_of_month(d.year as int, d.month as int, w, nth as int) is Some,
    ensures
        (weekday_of_month(d.year as int, d.month as int, w, nth as int) == Some(Some(d))) == (
        d.weekday_num() == w && (nth > 0 && (d.day - 1) / 7 + 1 == nth || nth < 0 && (month_len(
            d.year as int,
            d.month as int,
        ) - d.day) / 7 + 1 == -nth)),
{
    let y = d.year as int;
    let m = d.month as int;
    weekday_fits(y, m, w, nth as int);
    if nth > 0 {
        if d.weekday_num() == w && (d.day - 1) / 7 + 1 == nth {
            weekday_is_found(d);
        }
        if weekday_of_month(y, m, w, nth as int) == Some(Some(d)) {
            let b = date_at(y, m, 1)->0;
            let step = (7 + w - b.weekday_num()) % 7 + 7 * (nth - 1);
            date_of_exists(b.num() + step);
            assert(plus_days(b, step) == Some(d));
            assert(d.num() == b.num() + d.day - 1);
            assert(d.day - 1 == step);
        }
    } else {
        assert(month_end(y, m) matches Some(Some(_))) by {
            range_bounds();
            let next = if m == 12 {
                NaiveDate { year: (y + 1) as i32, month: 1, day: 1 }
            } else {
                NaiveDate { year: y as i32, month: (m + 1) as u32, day: 1 }
            };
            assert(next.valid());
            nums_ascend(d, next);
            nums_ascend(next, last_date());
            nums_ascend(first_date(), d);
        }
        end_of_month(y, m);
        let last = month_end(y, m)->0->0;
        let bw = last.weekday_num();
        let x = (7 + bw - w) % 7;
        let step = -(x + 7 * (-nth - 1));
        assert(d.num() == last.num() + d.day - last.day);
        let c = date_of(last.num() + step);
        date_of_exists(last.num() + step);
        assert(plus_days(last, step) == Some(c));
        if c == d {
            assert(last.day - d.day == x + 7 * (-nth - 1));
        }
        if d.weekday_num() == w && nth < 0 && (last.day - d.day) / 7 + 1 == -nth {
            days_from_end(last.num(), last.day - d.day, w);
            assert(last.day - d.day == x + 7 * (-nth - 1));
            nums_ascend(c, d);
        }
    }
}

proof fn days_from_end(last: int, back: int, w: int)
    requires
        0 <= back <= 30,
        (last - back - 1) % 7 == w,
    ensures
        (7 + (last - 1) % 7 - w) % 7 + 7 * (back / 7) == back,
{
    assert((last - 1) % 7 == (w + back % 7) % 7);
}

#[verifier::spinoff_prover]
#[verifier::rlimit(60)]
proof fn asked_exact(by_day: Seq<NDayV>, d: NaiveDate)
    requires
        d.valid(),
        d.year < MAX_YEAR,
        forall|i: int|
            0 <= i < asked_days(by_day).len() ==> weekday_of_month(
                d.year as int,
                d.month as int,
                (#[trigger] asked_days(by_day)[i]).0,
                asked_days(by_day)[i].1,
            ) is Some,
    ensures
        (exists|i: int|
            0 <= i < asked_days(by_day).len() && weekday_of_month(
                d.year as int,
                d.month as int,
                (#[trigger] asked_days(by_day)[i]).0,
                asked_days(by_day)[i].1,
            ) == Some(Some(d))) == (exists|j: int|
            0 <= j < by_day.len() && is_weekday(d, #[trigger] by_day[j])),
    decreases by_day.len(),
{
    let y = d.year as int;
    let m = d.month as int;
    let all = asked_days(by_day);
    if by_day.len() > 0 {
        let t = by_day.drop_last();
        let a = asked_days(t);
        let e = by_day.last();
        let w = weekday_index(e.day);
        assert forall|i: int| 0 <= i < a.len() implies weekday_of_month(
            y,
            m,
            (#[trigger] a[i]).0,
            a[i].1,
        ) is Some by {
            assert(all[i] == a[i]);
        }
        asked_exact(t, d);
        let found_t = exists|i: int|
            0 <= i < a.len() && weekday_of_month(y, m, (#[trigger] a[i]).0, a[i].1) == Some(
                Some(d),
            );
        let found = exists|i: int|
            0 <= i < all.len() && weekday_of_month(y, m, (#[trigger] all[i]).0, all[i].1) == Some(
                Some(d),
            );
        let named = exists|j: int| 0 <= j < by_day.len() && is_weekday(d, #[trigger] by_day[j]);
        if found_t {
            let i = choose|i: int|
                0 <= i < a.len() && weekday_of_month(y, m, (#[trigger] a[i]).0, a[i].1) == Some(
                    Some(d),
                );
            assert(all[i] == a[i]);
            let j = choose|j: int| 0 <= j < t.len() && is_weekday(d, #[trigger] t[j]);
            assert(by_day[j] == t[j]);
            assert(found && named);
        } else {
            match e.nth_of_period {
                Some(n) => {
                    assert(all[a.len() as int] == (w, n as int));
                    nth_exact(d, w, n);
                    assert(is_weekday(d, e) == (weekday_of_month(y, m, w, n as int) == Some(
                        Some(d),
                    )));
                },
                None => {
                    assert(all[a.len() as int] == (w, 1int));
                    assert(all[a.len() as int + 1] == (w, 2int));
                    assert(all[a.len() as int + 2] == (w, 3int));
                    assert(all[a.len() as int + 3] == (w, 4int));
                    assert(all[a.len() as int + 4] == (w, 5int));
                    nth_exact(d, w, 1);
                    nth_exact(d, w, 2);
                    nth_exact(d, w, 3);
                    nth_exact(d, w, 4);
                    nth_exact(d, w, 5);
                    assert(1 <= (d.day - 1) / 7 + 1 <= 5);
                },
            }
            if found {
                let i = choose|i: int|
                    0 <= i < all.len() && weekday_of_month(y, m, (#[trigger] all[i]).0, all[i].1)
                        == Some(Some(d));
                if i < a.len() {
                    assert(all[i] == a[i]);
                }
                assert(is_weekday(d, by_day[by_day.len() - 1]));
            }
            if named {
                let j = choose|j: int| 0 <= j < by_day.len() && is_weekday(d, #[trigger] by_day[j]);
                if j < t.len() {
                    assert(t[j] == by_day[j]);
                }
                assert(is_weekday(d, e));
                assert(found);
            }
        }
    }
}

proof fn all_present(s: Seq<Option<Option<NaiveDate>>>)
    requires
        present(s) is Some,
    ensures
        forall|i: int| 0 <= i < s.len() ==> #[trigger] s[i] is Some,
    decreases s.len(),
{
    if s.len() > 0 {
        all_present(s.drop_last());
        assert forall|i: int| 0 <= i < s.len() implies #[trigger] s[i] is Some by {
            if i < s.len() - 1 {
                assert(s.drop_last()[i] == s[i]);
            }
        }
    }
}

/// What a rule picks in a month are the dates that its days say.
#[verifier::spinoff_prover]
#[verifier::rlimit(60)]
proof fn month_exact(
    d: NaiveDate,
    start_day: u32,
    by_day: Seq<NDayV>,
    by_month_day: Seq<i32>,
)
    requires
        d.valid(),
        d.year < MAX_YEAR,
        start_day >= 1,
        month_dates(d.year as int, d.month as int, start_day as int, by_day, by_month_day) is Some,
    ensures
        month_dates(
            d.year as int,
            d.month as int,
            start_day as int,
            by_day,
            by_month_day,
        )->0.contains(d) == is_picked(d, start_day, by_day, by_month_day),
{
    let y = d.year as int;
    let m = d.month as int;
    if by_day.len() > 0 {
        let asked = asked_days(by_day);
        let list = Seq::new(asked.len(), |i: int| weekday_of_month(y, m, asked[i].0, asked[i].1));
        all_present(list);
        listed_is_present(list, d);
        assert forall|i: int| 0 <= i < asked.len() implies weekday_of_month(
            y,
            m,
            (#[trigger] asked[i]).0,
            asked[i].1,
        ) is Some by {
            assert(list[i] is Some);
        }
        asked_exact(by_day, d);
        if list.contains(Some(Some(d))) {
            let i = choose|i: int| 0 <= i < list.len() && list[i] == Some(Some(d));
            assert(weekday_of_month(y, m, asked[i].0, asked[i].1) == Some(Some(d)));
        }
        if is_picked(d, start_day, by_day, by_month_day) {
            let i = choose|i: int|
                0 <= i < asked.len() && weekday_of_month(y, m, (#[trigger] asked[i]).0, asked[i].1)
                    == Some(Some(d));
            assert(list[i] == Some(Some(d)));
        }
    } else if by_month_day.len() > 0 {
        let list = Seq::new(
            by_month_day.len(),
            |i: int| day_of_month(y, m, by_month_day[i] as int),
        );
        all_present(list);
        listed_is_present(list, d);
        if list.contains(Some(Some(d))) {
            let i = choose|i: int| 0 <= i < list.len() && list[i] == Some(Some(d));
            day_exact(d, by_month_day[i]);
            assert(is_day(d, by_month_day[i]));
        }
        if is_picked(d, start_day, by_day, by_month_day) {
            let i = choose|i: int|
                0 <= i < by_month_day.len() && is_day(d, #[trigger] by_month_day[i]);
            assert(list[i] is Some);
            day_exact(d, by_month_day[i]);
            assert(list[i] == Some(Some(d)));
        }
    } else {
        let list = seq![Some(date_at(y, m, start_day as int))];
        listed_is_present(list, d);
        assert(list[0] == Some(date_at(y, m, start_day as int)));
        if d.day == start_day {
            assert(list[0] == Some(Some(d)));
        }
    }
}

// ---------------------------------------------------------------------------
// Months
// ---------------------------------------------------------------------------

/// A monthly rule gives only dates in months whose distance from the month of the start is a
/// multiple of its interval, and on the days that it names.
#[verifier::spinoff_prover]
#[verifier::rlimit(60)]
pub proof fn monthly_starts_keep_interval(
    rule: RecurrenceRuleV,
    dtstart: NaiveDateTime,
    range_start: NaiveDateTime,
    range_end: NaiveDateTime,
    n: int,
    i: int,
)
    requires
        dtstart.valid(),
        range_start.valid(),
        range_end.valid(),
        rule.frequency is Monthly,
        every(rule, n),
        rule_starts(rule, dtstart, range_start, range_end) is Some,
        0 <= i < rule_starts(rule, dtstart, range_start, range_end)->0.len(),
        rule_starts(rule, dtstart, range_start, range_end)->0[i].date.year < MAX_YEAR,
    ensures
        ({
            let start = dtstart.date;
            let d = rule_starts(rule, dtstart, range_start, range_end)->0[i].date;
            &&& d.num() >= start.num()
            &&& ((d.year * 12 + d.month) - (start.year * 12 + start.month)) % n == 0
            &&& is_picked(d, start.day, rule.by_day, rule.by_month_day)
        }),
{
    let start = dtstart.date;
    let d = rule_starts(rule, dtstart, range_start, range_end)->0[i].date;
    let k = period_of_start(rule, dtstart, range_start, range_end, i);
    let m = plus_months(start, k * n)->0;
    let raw = month_dates(
        m.year as int,
        m.month as int,
        start.day as int,
        rule.by_day,
        rule.by_month_day,
    )->0;
    sorting_keeps(raw, d);
    month_dates_stay(
        m.year as int,
        m.month as int,
        start.day as int,
        rule.by_day,
        rule.by_month_day,
    );
    let q = choose|q: int| 0 <= q < raw.len() && raw[q] == d;
    assert(d.valid() && d.year == m.year && d.month == m.month);
    assert((m.year * 12 + m.month) - (start.year * 12 + start.month) == k * n);
    lemma_mod_multiples_basic(k, n);
    nums_ascend(d, start);
    month_exact(d, start.day, rule.by_day, rule.by_month_day);
}

/// A monthly rule gives every date that its days say in every month whose distance from the month
/// of the start is a multiple of its interval.
#[verifier::spinoff_prover]
#[verifier::rlimit(60)]
pub proof fn monthly_rule_gives(
    rule: RecurrenceRuleV,
    dtstart: NaiveDateTime,
    range_start: NaiveDateTime,
    range_end: NaiveDateTime,
    n: int,
    d: NaiveDate,
)
    requires
        dtstart.valid(),
        range_start.valid(),
        range_end.valid(),
        rule.frequency is Monthly,
        every(rule, n),
        rule_starts(rule, dtstart, range_start, range_end) is Some,
        can_be_given(rule, dtstart, range_start, range_end, d),
        d.year < MAX_YEAR,
        ((d.year * 12 + d.month) - (dtstart.date.year * 12 + dtstart.date.month)) % n == 0,
        is_picked(d, dtstart.date.day, rule.by_day, rule.by_month_day),
    ensures
        rule_starts(rule, dtstart, range_start, range_end)->0.contains(
            NaiveDateTime { date: d, secs: dtstart.secs, leap: dtstart.leap },
        ),
{
    let start = dtstart.date;
    let diff = (d.year * 12 + d.month) - (start.year * 12 + start.month);
    let k = diff / n;
    lemma_fundamental_div_mod(diff, n);
    assert(k * n == diff) by (nonlinear_arith)
        requires
            diff == n * k,
    ;
    nums_ascend(d, start);
    assert(diff >= 0);
    assert(k >= 0) by (nonlinear_arith)
        requires
            n * k >= 0,
            n >= 1,
    ;
    given_is_reached(rule, dtstart, range_start, range_end, d);
    let m = plus_months(start, k * n)->0;
    assert(plus_months(start, k * n) is Some && m.year == d.year && m.month == d.month);
    if period_dates(rule, start, k) is Some {
        month_exact(d, start.day, rule.by_day, rule.by_month_day);
        sorting_keeps(
            month_dates(
                m.year as int,
                m.month as int,
                start.day as int,
                rule.by_day,
                rule.by_month_day,
            )->0,
            d,
        );
    }
    named_date_is_given(rule, dtstart, range_start, range_end, k, d);
    assert(NaiveDateTime { date: d, secs: dtstart.secs, leap: dtstart.leap } == NaiveDateTime {
        date: d,
        ..dtstart
    });
}

// ---------------------------------------------------------------------------
// Years
// ---------------------------------------------------------------------------

/// A date is in a month that a yearly rule names, or else in that of the start.
pub open spec fn is_in_month(d: NaiveDate, start_month: u32, by_month: Seq<Seq<char>>) -> bool {
    if by_month.len() == 0 {
        d.month == start_month
    } else {
        exists|j: int|
            0 <= j < by_month.len() && parse_int(#[trigger] by_month[j], 0, u32::MAX as int)
                == Some(d.month as int)
    }
}

proof fn numbers_exact(s: Seq<Seq<char>>, n: int)
    ensures
        numbers_of(s).contains(n) == (exists|j: int|
            0 <= j < s.len() && parse_int(#[trigger] s[j], 0, u32::MAX as int) == Some(n)),
    decreases s.len(),
{
    if s.len() > 0 {
        let t = s.drop_last();
        numbers_exact(t, n);
        let a = numbers_of(t);
        let b = numbers_of(s);
        if b.contains(n) {
            let i = choose|i: int| 0 <= i < b.len() && b[i] == n;
            if i < a.len() {
                assert(a[i] == n);
                let j = choose|j: int|
                    0 <= j < t.len() && parse_int(#[trigger] t[j], 0, u32::MAX as int) == Some(n);
                assert(s[j] == t[j]);
            } else {
                assert(parse_int(s[s.len() - 1], 0, u32::MAX as int) == Some(n));
            }
        }
        if exists|j: int|
            0 <= j < s.len() && parse_int(#[trigger] s[j], 0, u32::MAX as int) == Some(n) {
            let j = choose|j: int|
                0 <= j < s.len() && parse_int(#[trigger] s[j], 0, u32::MAX as int) == Some(n);
            if j < t.len() {
                assert(t[j] == s[j]);
                let i = choose|i: int| 0 <= i < a.len() && a[i] == n;
                assert(b[i] == n);
            } else {
                assert(b[b.len() - 1] == n);
            }
        }
    }
}

#[verifier::spinoff_prover]
#[verifier::rlimit(60)]
proof fn year_exact(
    d: NaiveDate,
    months: Seq<int>,
    start_day: u32,
    by_day: Seq<NDayV>,
    by_month_day: Seq<i32>,
)
    requires
        d.valid(),
        d.year < MAX_YEAR,
        start_day >= 1,
        year_dates(d.year as int, months, start_day as int, by_day, by_month_day) is Some,
    ensures
        year_dates(
            d.year as int,
            months,
            start_day as int,
            by_day,
            by_month_day,
        )->0.contains(d) == (months.contains(d.month as int) && is_picked(
            d,
            start_day,
            by_day,
            by_month_day,
        )),
    decreases months.len(),
{
    let y = d.year as int;
    if months.len() > 0 {
        let t = months.drop_last();
        let m = months.last();
        let a = year_dates(y, t, start_day as int, by_day, by_month_day)->0;
        let b = month_dates(y, m, start_day as int, by_day, by_month_day)->0;
        let all = year_dates(y, months, start_day as int, by_day, by_month_day)->0;
        year_exact(d, t, start_day, by_day, by_month_day);
        month_dates_stay(y, m, start_day as int, by_day, by_month_day);
        if m == d.month {
            month_exact(d, start_day, by_day, by_month_day);
        }
        if all.contains(d) {
            let i = choose|i: int| 0 <= i < all.len() && all[i] == d;
            if i < a.len() {
                assert(a[i] == d);
                let j = choose|j: int| 0 <= j < t.len() && t[j] == d.month;
                assert(months[j] == d.month);
            } else {
                assert(b[i - a.len()] == d);
                assert(b.contains(d));
                assert(months[months.len() - 1] == d.month);
            }
        }
        if months.contains(d.month as int) && is_picked(d, start_day, by_day, by_month_day) {
            let j = choose|j: int| 0 <= j < months.len() && months[j] == d.month;
            if j < t.len() {
                assert(t[j] == d.month);
                let i = choose|i: int| 0 <= i < a.len() && a[i] == d;
                assert(all[i] == d);
            } else {
                let i = choose|i: int| 0 <= i < b.len() && b[i] == d;
                assert(all[a.len() + i] == d);
            }
        }
    }
}

/// A yearly rule gives only dates in years whose distance from the year of the start is a multiple
/// of its interval, in the months and on the days that it names.
#[verifier::spinoff_prover]
#[verifier::rlimit(60)]
pub proof fn yearly_starts_keep_interval(
    rule: RecurrenceRuleV,
    dtstart: NaiveDateTime,
    range_start: NaiveDateTime,
    range_end: NaiveDateTime,
    n: int,
    i: int,
)
    requires
        dtstart.valid(),
        range_start.valid(),
        range_end.valid(),
        rule.frequency is Yearly,
        every(rule, n),
        rule_starts(rule, dtstart, range_start, range_end) is Some,
        0 <= i < rule_starts(rule, dtstart, range_start, range_end)->0.len(),
        rule_starts(rule, dtstart, range_start, range_end)->0[i].date.year < MAX_YEAR,
    ensures
        ({
            let start = dtstart.date;
            let d = rule_starts(rule, dtstart, range_start, range_end)->0[i].date;
            &&& d.num() >= start.num()
            &&& (d.year - start.year) % n == 0
            &&& is_in_month(d, start.month, rule.by_month)
            &&& is_picked(d, start.day, rule.by_day, rule.by_month_day)
        }),
{
    let start = dtstart.date;
    let d = rule_starts(rule, dtstart, range_start, range_end)->0[i].date;
    let k = period_of_start(rule, dtstart, range_start, range_end, i);
    let y = start.year + k * n;
    let months = year_months(start, rule.by_month);
    let raw = year_dates(y, months, start.day as int, rule.by_day, rule.by_month_day)->0;
    sorting_keeps(raw, d);
    year_dates_stay(y, months, start.day as int, rule.by_day, rule.by_month_day);
    let q = choose|q: int| 0 <= q < raw.len() && raw[q] == d;
    assert(d.valid() && d.year == y);
    lemma_mod_multiples_basic(k, n);
    nums_ascend(d, start);
    year_exact(d, months, start.day, rule.by_day, rule.by_month_day);
    numbers_exact(rule.by_month, d.month as int);
}

/// A yearly rule gives every date that its months and days say in every year whose distance from
/// the year of the start is a multiple of its interval.
#[verifier::spinoff_prover]
#[verifier::rlimit(60)]
pub proof fn yearly_rule_gives(
    rule: RecurrenceRuleV,
    dtstart: NaiveDateTime,
    range_start: NaiveDateTime,
    range_end: NaiveDateTime,
    n: int,
    d: NaiveDate,
)
    requires
        dtstart.valid(),
        range_start.valid(),
        range_end.valid(),
        rule.frequency is Yearly,
        every(rule, n),
        rule_starts(rule, dtstart, range_start, range_end) is Some,
        can_be_given(rule, dtstart, range_start, range_end, d),
        d.year < MAX_YEAR,
        (d.year - dtstart.date.year) % n == 0,
        is_in_month(d, dtstart.date.month, rule.by_month),
        is_picked(d, dtstart.date.day, rule.by_day, rule.by_month_day),
    ensures
        rule_starts(rule, dtstart, range_start, range_end)->0.contains(
            NaiveDateTime { date: d, secs: dtstart.secs, leap: dtstart.leap },
        ),
{
    let start = dtstart.date;
    let diff = d.year - start.year;
    let k = diff / n;
    lemma_fundamental_div_mod(diff, n);
    assert(k * n == diff) by (nonlinear_arith)
        requires
            diff == n * k,
    ;
    nums_ascend(d, start);
    assert(diff >= 0);
    assert(k >= 0) by (nonlinear_arith)
        requires
            n * k >= 0,
            n >= 1,
    ;
    given_is_reached(rule, dtstart, range_start, range_end, d);
    let months = year_months(start, rule.by_month);
    numbers_exact(rule.by_month, d.month as int);
    assert(months.contains(d.month as int)) by {
        if rule.by_month.len() == 0 {
            assert(months[0] == d.month);
        }
    }
    if period_dates(rule, start, k) is Some {
        year_exact(d, months, start.day, rule.by_day, rule.by_month_day);
        sorting_keeps(
            year_dates(d.year as int, months, start.day as int, rule.by_day, rule.by_month_day)->0,
            d,
        );
    }
    named_date_is_given(rule, dtstart, range_start, range_end, k, d);
    assert(NaiveDateTime { date: d, secs: dtstart.secs, leap: dtstart.leap } == NaiveDateTime {
        date: d,
        ..dtstart
    });
}

// ---------------------------------------------------------------------------
// Within a day
// ---------------------------------------------------------------------------

/// A rule that repeats within a day gives the start and nothing else: where the range holds it, the
/// rule counts at least one, and does not end before it.
pub proof fn rule_within_day_gives_start(
    rule: RecurrenceRuleV,
    dtstart: NaiveDateTime,
    range_start: NaiveDateTime,
    range_end: NaiveDateTime,
)
    requires
        dtstart.valid(),
        range_start.valid(),
        range_end.valid(),
        rule.frequency is Hourly || rule.frequency is Minutely || rule.frequency is Secondly,
    ensures
        rule_starts(rule, dtstart, range_start, range_end) matches Some(s) && s.len() <= 1 && (
        forall|i: int| 0 <= i < s.len() ==> #[trigger] s[i] == dtstart),
        can_be_given(rule, dtstart, range_start, range_end, dtstart.date) ==> rule_starts(
            rule,
            dtstart,
            range_start,
            range_end,
        )->0.len() == 1,
{
    if can_be_given(rule, dtstart, range_start, range_end, dtstart.date) {
        given_is_reached(rule, dtstart, range_start, range_end, dtstart.date);
    }
}

} // verus!
