//! What the days of the week of a rule stand for.

use vstd::prelude::*;
use crate::calendar::{
    date_of, date_of_exists, date_of_num, day_in_range, plus_days, plus_months, NaiveDate,
};
use crate::collections::{stable_sorted, stable_sorted_in_order, total_preorder, Ordered};
use crate::jscalendar::{Frequency, NDayV, RecurrenceRuleV};
use crate::recurrence::{
    asked_days, date_at, dedup_leaves_no_duplicates, interval_of, month_dates, month_end,
    on_listed_day, period_dates, present, sorted_dates, week_dates, week_days, weekday_index,
    weekday_of_month, year_dates, year_months,
};
use crate::recurrence_laws::{by_periods, named_by};

verus! {

pub proof fn listed_is_present(s: Seq<Option<Option<NaiveDate>>>, d: NaiveDate)
    requires
        present(s) is Some,
    ensures
        present(s)->0.contains(d) == s.contains(Some(Some(d))),
    decreases s.len(),
{
    if s.len() > 0 {
        let t = s.drop_last();
        listed_is_present(t, d);
        let a = present(t)->0;
        let b = present(s)->0;
        if s.contains(Some(Some(d))) {
            let j = choose|j: int| 0 <= j < s.len() && s[j] == Some(Some(d));
            if j < t.len() {
                assert(t[j] == Some(Some(d)));
                let i = choose|i: int| 0 <= i < a.len() && a[i] == d;
                assert(b[i] == d);
            } else {
                assert(b[b.len() - 1] == d);
            }
        }
        if b.contains(d) {
            let i = choose|i: int| 0 <= i < b.len() && b[i] == d;
            if i < a.len() {
                assert(a[i] == d);
                let j = choose|j: int| 0 <= j < t.len() && t[j] == Some(Some(d));
                assert(s[j] == Some(Some(d)));
            } else {
                assert(s[s.len() - 1] == Some(Some(d)));
            }
        }
    }
}

pub proof fn sorting_keeps(s: Seq<NaiveDate>, d: NaiveDate)
    ensures
        sorted_dates(Some(s))->0.contains(d) == s.contains(d),
{
    let le = |a: NaiveDate, b: NaiveDate| NaiveDate::le_view(a, b);
    assert(total_preorder(le)) by {
        assert forall|a: NaiveDate, b: NaiveDate, c: NaiveDate| #[trigger] le(a, b)
            && #[trigger] le(b, c) implies le(a, c) by {}
    }
    stable_sorted_in_order(s, le);
    let r = stable_sorted(s, le);
    dedup_leaves_no_duplicates(r, le);
    s.to_multiset_ensures();
    r.to_multiset_ensures();
    assert(s.to_multiset().count(d) == r.to_multiset().count(d));
    assert(s.contains(d) == (s.to_multiset().count(d) > 0));
    assert(r.contains(d) == (r.to_multiset().count(d) > 0));
}

pub proof fn asked_is_listed(by_day: Seq<NDayV>, i: int)
    requires
        0 <= i < asked_days(by_day).len(),
    ensures
        exists|j: int|
            0 <= j < by_day.len() && weekday_index((#[trigger] by_day[j]).day) == asked_days(
                by_day,
            )[i].0,
    decreases by_day.len(),
{
    let t = by_day.drop_last();
    if i < asked_days(t).len() {
        asked_is_listed(t, i);
        let j = choose|j: int|
            0 <= j < t.len() && weekday_index((#[trigger] t[j]).day) == asked_days(t)[i].0;
        assert(by_day[j] == t[j]);
    } else {
        assert(weekday_index(by_day[by_day.len() - 1].day) == asked_days(by_day)[i].0);
    }
}

proof fn step_forward(b: int, w: int, weeks: int)
    requires
        0 <= w < 7,
    ensures
        (b + ((7 + w - (b - 1) % 7) % 7 + 7 * weeks) - 1) % 7 == w,
{
}

proof fn step_back(b: int, w: int, weeks: int)
    requires
        0 <= w < 7,
    ensures
        (b - ((7 + (b - 1) % 7 - w) % 7 + 7 * weeks) - 1) % 7 == w,
{
}

/// A weekday of a month is that day of the week.
pub proof fn weekday_fits(y: int, m: int, w: int, nth: int)
    requires
        0 <= w < 7,
    ensures
        weekday_of_month(y, m, w, nth) matches Some(Some(c)) ==> c.weekday_num() == w,
{
    if let Some(Some(c)) = weekday_of_month(y, m, w, nth) {
        let base = if nth > 0 {
            Some(date_at(y, m, 1))
        } else {
            month_end(y, m)
        };
        let b = base->0->0;
        let bw = b.weekday_num();
        let step = if nth > 0 {
            (7 + w - bw) % 7 + 7 * (nth - 1)
        } else {
            -((7 + bw - w) % 7 + 7 * (-nth - 1))
        };
        assert(plus_days(b, step) == Some(c));
        date_of_exists(b.num() + step);
        if nth > 0 {
            step_forward(b.num(), w, nth - 1);
        } else {
            step_back(b.num(), w, -nth - 1);
        }
    }
}

proof fn month_fits(
    y: int,
    m: int,
    start_day: int,
    by_day: Seq<NDayV>,
    by_month_day: Seq<i32>,
    d: NaiveDate,
)
    requires
        by_day.len() > 0,
        month_dates(y, m, start_day, by_day, by_month_day) is Some,
        month_dates(y, m, start_day, by_day, by_month_day)->0.contains(d),
    ensures
        on_listed_day(d, by_day),
{
    let asked = asked_days(by_day);
    let list = Seq::new(asked.len(), |i: int| weekday_of_month(y, m, asked[i].0, asked[i].1));
    listed_is_present(list, d);
    let i = choose|i: int| 0 <= i < list.len() && list[i] == Some(Some(d));
    asked_is_listed(by_day, i);
    weekday_fits(y, m, asked[i].0, asked[i].1);
}

proof fn year_fits(
    y: int,
    months: Seq<int>,
    start_day: int,
    by_day: Seq<NDayV>,
    by_month_day: Seq<i32>,
    d: NaiveDate,
)
    requires
        by_day.len() > 0,
        year_dates(y, months, start_day, by_day, by_month_day) is Some,
        year_dates(y, months, start_day, by_day, by_month_day)->0.contains(d),
    ensures
        on_listed_day(d, by_day),
    decreases months.len(),
{
    if months.len() > 0 {
        let a = year_dates(y, months.drop_last(), start_day, by_day, by_month_day)->0;
        let b = month_dates(y, months.last(), start_day, by_day, by_month_day)->0;
        let i = choose|i: int| 0 <= i < (a + b).len() && (a + b)[i] == d;
        if i < a.len() {
            assert(a[i] == d);
            year_fits(y, months.drop_last(), start_day, by_day, by_month_day, d);
        } else {
            assert(b[i - a.len()] == d);
            month_fits(y, months.last(), start_day, by_day, by_month_day, d);
        }
    }
}

proof fn week_fits(start: NaiveDate, base: int, by_day: Seq<NDayV>, x: int, d: NaiveDate)
    requires
        by_day.len() > 0,
        base == start.num() - start.weekday_num() + 7 * x,
        week_dates(base, week_days(start, by_day)) is Some,
        week_dates(base, week_days(start, by_day))->0.contains(d),
    ensures
        on_listed_day(d, by_day),
{
    let days = week_days(start, by_day);
    let list = Seq::new(
        days.len(),
        |i: int|
            if day_in_range(base + days[i]) {
                Some(Some(date_of(base + days[i])))
            } else {
                None
            },
    );
    listed_is_present(list, d);
    let i = choose|i: int| 0 <= i < list.len() && list[i] == Some(Some(d));
    date_of_exists(base + days[i]);
    assert(days[i] == weekday_index(by_day[i].day));
    assert((base - 1) % 7 == 0);
    assert(d.weekday_num() == days[i]);
}

/// A rule that names days of the week gives only dates on these days.
pub proof fn dates_are_on_named_days(rule: RecurrenceRuleV, start: NaiveDate, d: NaiveDate)
    requires
        start.valid(),
        by_periods(rule),
        rule.by_day.len() > 0,
        named_by(rule, start, d),
    ensures
        on_listed_day(d, rule.by_day),
{
    let k = choose|k: int|
        k >= 0 && (#[trigger] period_dates(rule, start, k)) is Some && period_dates(
            rule,
            start,
            k,
        )->0.contains(d);
    let interval = interval_of(rule);
    match rule.frequency {
        Frequency::Weekly => {
            let base = start.num() - start.weekday_num() + 7 * (k * interval);
            sorting_keeps(week_dates(base, week_days(start, rule.by_day))->0, d);
            week_fits(start, base, rule.by_day, k * interval, d);
        },
        Frequency::Monthly => {
            let m = plus_months(start, k * interval)->0;
            let s = month_dates(
                m.year as int,
                m.month as int,
                start.day as int,
                rule.by_day,
                rule.by_month_day,
            );
            sorting_keeps(s->0, d);
            month_fits(
                m.year as int,
                m.month as int,
                start.day as int,
                rule.by_day,
                rule.by_month_day,
                d,
            );
        },
        Frequency::Yearly => {
            let y = start.year + k * interval;
            let months = year_months(start, rule.by_month);
            let s = year_dates(y, months, start.day as int, rule.by_day, rule.by_month_day);
            sorting_keeps(s->0, d);
            year_fits(y, months, start.day as int, rule.by_day, rule.by_month_day, d);
        },
        _ => {},
    }
}

pub proof fn all_five_are_asked(by_day: Seq<NDayV>, j: int, n: int)
    requires
        0 <= j < by_day.len(),
        by_day[j].nth_of_period is None,
        1 <= n <= 5,
    ensures
        asked_days(by_day).contains((weekday_index(by_day[j].day), n)),
    decreases by_day.len(),
{
    let t = by_day.drop_last();
    let a = asked_days(t);
    let all = asked_days(by_day);
    if j == by_day.len() - 1 {
        assert(all[a.len() + n - 1] == (weekday_index(by_day[j].day), n));
    } else {
        all_five_are_asked(t, j, n);
        let i = choose|i: int| 0 <= i < a.len() && a[i] == (weekday_index(t[j].day), n);
        assert(all[i] == a[i]);
    }
}

proof fn days_to_weekday(b: int, day: int)
    requires
        1 <= day <= 31,
    ensures
        (7 + (b + day - 2) % 7 - (b - 1) % 7) % 7 + 7 * ((day - 1) / 7) == day - 1,
{
    assert((b + day - 2) % 7 == ((b - 1) % 7 + (day - 1) % 7) % 7);
}

/// A date is the weekday of its month that its day says.
pub proof fn weekday_is_found(d: NaiveDate)
    requires
        d.valid(),
    ensures
        weekday_of_month(
            d.year as int,
            d.month as int,
            d.weekday_num(),
            (d.day - 1) / 7 + 1,
        ) == Some(Some(d)),
{
    let b = NaiveDate { year: d.year, month: d.month, day: 1 };
    assert(date_at(d.year as int, d.month as int, 1) == Some(b));
    let w = d.weekday_num();
    let bw = b.weekday_num();
    let n = (d.day - 1) / 7 + 1;
    assert(d.num() == b.num() + d.day - 1);
    days_to_weekday(b.num(), d.day as int);
    assert((7 + w - bw) % 7 + 7 * (n - 1) == d.day - 1);
    date_of_num(d);
    assert(plus_days(b, d.day - 1) == Some(d));
}

/// A day of the week without a number stands for all such days of the month: a monthly rule
/// that names one gives each of them.
pub proof fn every_such_day_is_named(
    rule: RecurrenceRuleV,
    start: NaiveDate,
    k: int,
    j: int,
    d: NaiveDate,
)
    requires
        rule.frequency is Monthly,
        period_dates(rule, start, k) is Some,
        0 <= j < rule.by_day.len(),
        rule.by_day[j].nth_of_period is None,
        d.valid(),
        weekday_index(rule.by_day[j].day) == d.weekday_num(),
        plus_months(start, k * interval_of(rule)) matches Some(m) && m.year == d.year && m.month
            == d.month,
    ensures
        period_dates(rule, start, k)->0.contains(d),
{
    let asked = asked_days(rule.by_day);
    let list = Seq::new(
        asked.len(),
        |i: int| weekday_of_month(d.year as int, d.month as int, asked[i].0, asked[i].1),
    );
    let n = (d.day - 1) / 7 + 1;
    all_five_are_asked(rule.by_day, j, n);
    weekday_is_found(d);
    let i = choose|i: int| 0 <= i < asked.len() && asked[i] == (d.weekday_num(), n);
    assert(list[i] == Some(Some(d)));
    let s = month_dates(
        d.year as int,
        d.month as int,
        start.day as int,
        rule.by_day,
        rule.by_month_day,
    );
    listed_is_present(list, d);
    assert(s == present(list));
    sorting_keeps(s->0, d);
}

} // verus!
