//! What a rule gives: the dates that it names, and all of them.

use vstd::prelude::*;
use crate::calendar::{
    date_less, date_of, date_of_exists, date_of_num, day_in_range, nums_ascend, plus_days,
    plus_months, plus_secs, plus_secs_stays_valid, range_bounds, time_less, time_less_is_order,
    NaiveDate, NaiveDateTime,
};
use crate::collections::{map_get, stable_sorted, stable_sorted_in_order, total_preorder, Ordered};
use crate::duration::duration_secs;
use crate::jscalendar::{
    local_time, local_time_of_text, local_time_on_clock, CalendarEventV, Frequency, NDayV,
    RecurrenceRuleV,
};
use crate::recurrence::{
    asked_days, base_starts, bounds_of, daily_candidates, date_at, day_of_month, dedup,
    dedup_leaves_no_duplicates, expansion, first_time, interval_of, month_dates, month_end,
    never_comes, occurrence_at, occurrences_at, on_listed_day, overlap, overrides_of, period_dates,
    periods_end, present, reach_back, rule_starts, rules_starts, sorted_dates, sorted_times,
    times_are_ordered, walk_date, walk_dates, walk_periods, walk_start, week_dates, week_days,
    weekday_of_month, with_extras, year_dates, year_months, Bounds, OverridesV, WalkV,
    MAX_OCCURRENCES, PERIOD_LIMIT,
};
use crate::timetext::iso_text;

verus! {

/// The candidate dates of the first `k` periods of a rule, period by period; `None` where one
/// of the periods is not in the calendar.
pub open spec fn first_dates(rule: RecurrenceRuleV, start: NaiveDate, k: int) -> Option<
    Seq<NaiveDate>,
>
    decreases k,
{
    if k <= 0 {
        Some(Seq::empty())
    } else {
        match (first_dates(rule, start, k - 1), period_dates(rule, start, k - 1)) {
            (Some(a), Some(b)) => Some(a + b),
            _ => None,
        }
    }
}

/// Those of some dates that are not before a start: the ones that count.
pub open spec fn counted(s: Seq<NaiveDate>, start: NaiveDate) -> Seq<NaiveDate>
    decreases s.len(),
{
    if s.len() == 0 {
        s
    } else if date_less(s.last(), start) {
        counted(s.drop_last(), start)
    } else {
        counted(s.drop_last(), start).push(s.last())
    }
}

/// A date at the time of day at which an event starts.
pub open spec fn at_start_of(b: Bounds, date: NaiveDate) -> NaiveDateTime {
    NaiveDateTime { date, secs: b.dtstart.secs, leap: b.dtstart.leap }
}

/// The rule repeats by days, weeks, months or years.
pub open spec fn by_periods(rule: RecurrenceRuleV) -> bool {
    !(rule.frequency is Hourly || rule.frequency is Minutely || rule.frequency is Secondly)
}

proof fn walk_concat(b: Bounds, w: WalkV, s: Seq<NaiveDate>, t: Seq<NaiveDate>)
    ensures
        walk_dates(b, w, s + t) == walk_dates(b, walk_dates(b, w, s), t),
    decreases t.len(),
{
    if t.len() == 0 {
        assert(s + t =~= s);
    } else {
        walk_concat(b, w, s, t.drop_last());
        assert((s + t).drop_last() =~= s + t.drop_last());
        assert((s + t).last() == t.last());
    }
}

proof fn walk_of_done(b: Bounds, w: WalkV, s: Seq<NaiveDate>)
    requires
        w.done,
    ensures
        walk_dates(b, w, s) == w,
    decreases s.len(),
{
    if s.len() > 0 {
        walk_of_done(b, w, s.drop_last());
    }
}

/// Going through periods one by one goes through their dates.
proof fn walk_of_first(rule: RecurrenceRuleV, b: Bounds, k: int)
    requires
        k >= 0,
        b.dtstart.valid(),
        first_dates(rule, b.dtstart.date, k) is Some,
    ensures
        walk_periods(rule, b, walk_start(), 0) == walk_periods(
            rule,
            b,
            walk_dates(b, walk_start(), first_dates(rule, b.dtstart.date, k)->0),
            k,
        ),
    decreases k,
{
    if k > 0 {
        walk_of_first(rule, b, k - 1);
        let before = first_dates(rule, b.dtstart.date, k - 1)->0;
        let s = period_dates(rule, b.dtstart.date, k - 1)->0;
        let w = walk_dates(b, walk_start(), before);
        walk_concat(b, walk_start(), before, s);
        periods_end(rule, b.dtstart.date, k - 1);
        if w.done {
            walk_of_done(b, w, s);
        }
    }
}

/// Dates before the start change nothing.
proof fn walk_of_counted(b: Bounds, w: WalkV, s: Seq<NaiveDate>)
    ensures
        walk_dates(b, w, s) == walk_dates(b, w, counted(s, b.dtstart.date)),
    decreases s.len(),
{
    if s.len() > 0 {
        walk_of_counted(b, w, s.drop_last());
        if !date_less(s.last(), b.dtstart.date) {
            let c = counted(s.drop_last(), b.dtstart.date);
            assert(c.push(s.last()).drop_last() =~= c);
        }
    }
}

proof fn counted_not_before(s: Seq<NaiveDate>, start: NaiveDate)
    ensures
        forall|i: int|
            0 <= i < counted(s, start).len() ==> !date_less(#[trigger] counted(s, start)[i], start),
        forall|i: int| 0 <= i < counted(s, start).len() ==> s.contains(#[trigger] counted(s, start)[i]),
    decreases s.len(),
{
    if s.len() > 0 {
        let t = s.drop_last();
        counted_not_before(t, start);
        let c = counted(s, start);
        assert forall|i: int| 0 <= i < c.len() implies s.contains(#[trigger] c[i]) by {
            if i < counted(t, start).len() {
                let j = choose|j: int| 0 <= j < t.len() && t[j] == counted(t, start)[i];
                assert(s[j] == c[i]);
            } else {
                assert(s[s.len() - 1] == c[i]);
            }
        }
    }
}

/// What was found stays, whatever comes after it.
proof fn found_stays(b: Bounds, w: WalkV, s: Seq<NaiveDate>, t: NaiveDateTime)
    requires
        w.out.contains(t),
    ensures
        walk_dates(b, w, s).out.contains(t),
    decreases s.len(),
{
    if s.len() > 0 {
        found_stays(b, w, s.drop_last(), t);
        let v = walk_dates(b, w, s.drop_last());
        let i = choose|i: int| 0 <= i < v.out.len() && v.out[i] == t;
        assert(walk_date(b, v, s.last()).out[i] == t);
    }
}

proof fn found_stays_to_the_end(
    rule: RecurrenceRuleV,
    b: Bounds,
    w: WalkV,
    k: int,
    t: NaiveDateTime,
)
    requires
        k >= 0,
        b.dtstart.valid(),
        w.out.contains(t),
        walk_periods(rule, b, w, k) is Some,
    ensures
        walk_periods(rule, b, w, k)->0.contains(t),
    decreases PERIOD_LIMIT - k,
{
    if !w.done {
        let s = period_dates(rule, b.dtstart.date, k)->0;
        periods_end(rule, b.dtstart.date, k);
        found_stays(b, w, s, t);
        found_stays_to_the_end(rule, b, walk_dates(b, w, s), k + 1, t);
    }
}

/// Nothing has ended a rule before its date at `i`: neither its end, nor its count, nor the end
/// of the range, nor the limit on occurrences.
pub open spec fn reaches(b: Bounds, dates: Seq<NaiveDate>, i: int) -> bool {
    &&& i < MAX_OCCURRENCES
    &&& b.count is Some ==> i < b.count->0
    &&& b.until is Some ==> forall|j: int|
        0 <= j <= i ==> !time_less(b.until->0, at_start_of(b, #[trigger] dates[j]))
    &&& b.count is None && b.until is None ==> forall|j: int|
        0 <= j < i ==> time_less(at_start_of(b, #[trigger] dates[j]), b.range_end)
}

proof fn walk_reaches(b: Bounds, dates: Seq<NaiveDate>, i: int)
    requires
        0 <= i < dates.len(),
        reaches(b, dates, i),
        forall|j: int| 0 <= j <= i ==> !date_less(#[trigger] dates[j], b.dtstart.date),
    ensures
        ({
            let w = walk_dates(b, walk_start(), dates.take(i));
            !w.done && w.produced == i && w.out.len() <= i
        }),
    decreases i,
{
    if i == 0 {
        assert(dates.take(0) =~= Seq::empty());
    } else {
        walk_reaches(b, dates, i - 1);
        assert(dates.take(i).drop_last() =~= dates.take(i - 1));
        assert(dates.take(i).last() == dates[i - 1]);
        let w = walk_dates(b, walk_start(), dates.take(i - 1));
        assert(at_start_of(b, dates[i - 1]).date == dates[i - 1]);
    }
}

/// The day of the week is the same after whole weeks.
proof fn weeks_later(n: int, k: int, days: int)
    requires
        days % 7 == 0,
    ensures
        (n + k * days - 1) % 7 == (n - 1) % 7,
{
    let w = k * (days / 7);
    assert(k * days == 7 * w) by (nonlinear_arith)
        requires
            days == 7 * (days / 7),
            w == k * (days / 7),
    ;
}

/// A rule that never comes has no dates.
proof fn no_dates(rule: RecurrenceRuleV, start: NaiveDate, k: int)
    requires
        start.valid(),
        never_comes(rule, start),
        first_dates(rule, start, k) is Some,
    ensures
        first_dates(rule, start, k)->0.len() == 0,
    decreases k,
{
    if k > 0 {
        no_dates(rule, start, k - 1);
        let i = interval_of(rule);
        let n = start.num() + (k - 1) * i;
        date_of_exists(n);
        weeks_later(start.num(), k - 1, i);
        let d = date_of(n);
        assert(d.weekday_num() == start.weekday_num());
        assert(!on_listed_day(d, rule.by_day));
        assert(daily_candidates(n, rule.by_day).len() == 0);
    }
}

/// A rule misses nothing: each of its dates that is not before the start of the event and in
/// the range is among its starts, unless the rule ends before it.
pub proof fn rule_misses_nothing(
    rule: RecurrenceRuleV,
    dtstart: NaiveDateTime,
    range_start: NaiveDateTime,
    range_end: NaiveDateTime,
    k: int,
    i: int,
)
    requires
        dtstart.valid(),
        by_periods(rule),
        rule_starts(rule, dtstart, range_start, range_end) is Some,
        k >= 0,
        first_dates(rule, dtstart.date, k) is Some,
        ({
            let b = bounds_of(rule, dtstart, range_start, range_end);
            let dates = counted(first_dates(rule, dtstart.date, k)->0, dtstart.date);
            &&& 0 <= i < dates.len()
            &&& reaches(b, dates, i)
            &&& !time_less(at_start_of(b, dates[i]), range_start)
            &&& time_less(at_start_of(b, dates[i]), range_end)
        }),
    ensures
        ({
            let b = bounds_of(rule, dtstart, range_start, range_end);
            let dates = counted(first_dates(rule, dtstart.date, k)->0, dtstart.date);
            rule_starts(rule, dtstart, range_start, range_end)->0.contains(at_start_of(b, dates[i]))
        }),
{
    let b = bounds_of(rule, dtstart, range_start, range_end);
    let all = first_dates(rule, dtstart.date, k)->0;
    let dates = counted(all, dtstart.date);
    let t = at_start_of(b, dates[i]);
    counted_not_before(all, dtstart.date);
    if never_comes(rule, dtstart.date) {
        no_dates(rule, dtstart.date, k);
    }
    walk_reaches(b, dates, i);
    let before = walk_dates(b, walk_start(), dates.take(i));
    let here = walk_dates(b, walk_start(), dates.take(i + 1));
    assert(dates.take(i + 1).drop_last() =~= dates.take(i));
    assert(dates.take(i + 1).last() == dates[i]);
    assert(here == walk_date(b, before, dates[i]));
    assert(here.out[before.out.len() as int] == t);
    assert(dates =~= dates.take(i + 1) + dates.skip(i + 1));
    walk_concat(b, walk_start(), dates.take(i + 1), dates.skip(i + 1));
    found_stays(b, here, dates.skip(i + 1), t);
    walk_of_counted(b, walk_start(), all);
    walk_of_first(rule, b, k);
    found_stays_to_the_end(rule, b, walk_dates(b, walk_start(), all), k, t);
}

// ---------------------------------------------------------------------------
// Nothing else
// ---------------------------------------------------------------------------

/// A date is one that a rule names in one of its periods.
pub open spec fn named_by(rule: RecurrenceRuleV, start: NaiveDate, date: NaiveDate) -> bool {
    exists|k: int|
        k >= 0 && (#[trigger] period_dates(rule, start, k)) is Some && period_dates(
            rule,
            start,
            k,
        )->0.contains(date)
}

proof fn walk_dates_named(rule: RecurrenceRuleV, b: Bounds, w: WalkV, s: Seq<NaiveDate>)
    requires
        forall|i: int|
            0 <= i < w.out.len() ==> named_by(rule, b.dtstart.date, (#[trigger] w.out[i]).date),
        forall|i: int| 0 <= i < s.len() ==> named_by(rule, b.dtstart.date, #[trigger] s[i]),
    ensures
        ({
            let v = walk_dates(b, w, s);
            forall|i: int|
                0 <= i < v.out.len() ==> named_by(rule, b.dtstart.date, (#[trigger] v.out[i]).date)
        }),
    decreases s.len(),
{
    if s.len() > 0 {
        let t = s.drop_last();
        assert forall|i: int| 0 <= i < t.len() implies named_by(
            rule,
            b.dtstart.date,
            #[trigger] t[i],
        ) by {
            assert(t[i] == s[i]);
        }
        walk_dates_named(rule, b, w, t);
        let before = walk_dates(b, w, t);
        let v = walk_dates(b, w, s);
        assert(named_by(rule, b.dtstart.date, s[s.len() - 1]));
        assert forall|i: int| 0 <= i < v.out.len() implies named_by(
            rule,
            b.dtstart.date,
            (#[trigger] v.out[i]).date,
        ) by {
            if i < before.out.len() {
                assert(v.out[i] == before.out[i]);
            } else {
                assert(v.out[i].date == s.last());
            }
        }
    }
}

proof fn walk_periods_named(rule: RecurrenceRuleV, b: Bounds, w: WalkV, k: int)
    requires
        k >= 0,
        b.dtstart.valid(),
        walk_periods(rule, b, w, k) is Some,
        forall|i: int|
            0 <= i < w.out.len() ==> named_by(rule, b.dtstart.date, (#[trigger] w.out[i]).date),
    ensures
        ({
            let out = walk_periods(rule, b, w, k)->0;
            forall|i: int|
                0 <= i < out.len() ==> named_by(rule, b.dtstart.date, (#[trigger] out[i]).date)
        }),
    decreases PERIOD_LIMIT - k,
{
    if !w.done {
        let s = period_dates(rule, b.dtstart.date, k)->0;
        periods_end(rule, b.dtstart.date, k);
        assert forall|i: int| 0 <= i < s.len() implies named_by(
            rule,
            b.dtstart.date,
            #[trigger] s[i],
        ) by {
            assert(period_dates(rule, b.dtstart.date, k)->0.contains(s[i]));
        }
        walk_dates_named(rule, b, w, s);
        walk_periods_named(rule, b, walk_dates(b, w, s), k + 1);
    }
}

/// A rule gives nothing but the dates that it names.
pub proof fn rule_gives_named_dates(
    rule: RecurrenceRuleV,
    dtstart: NaiveDateTime,
    range_start: NaiveDateTime,
    range_end: NaiveDateTime,
)
    requires
        dtstart.valid(),
        by_periods(rule),
        rule_starts(rule, dtstart, range_start, range_end) is Some,
    ensures
        forall|i: int|
            0 <= i < rule_starts(rule, dtstart, range_start, range_end)->0.len() ==> named_by(
                rule,
                dtstart.date,
                (#[trigger] rule_starts(rule, dtstart, range_start, range_end)->0[i]).date,
            ),
{
    if !never_comes(rule, dtstart.date) {
        walk_periods_named(
            rule,
            bounds_of(rule, dtstart, range_start, range_end),
            walk_start(),
            0,
        );
    }
}

// ---------------------------------------------------------------------------
// From starts to occurrences
// ---------------------------------------------------------------------------

pub proof fn sorted_keeps(s: Seq<NaiveDateTime>, t: NaiveDateTime)
    requires
        s.contains(t),
    ensures
        sorted_times(s).contains(t),
{
    let le = |a: NaiveDateTime, b: NaiveDateTime| NaiveDateTime::le_view(a, b);
    times_are_ordered();
    stable_sorted_in_order(s, le);
    s.to_multiset_ensures();
    sorted_times(s).to_multiset_ensures();
    assert(s.to_multiset().count(t) > 0);
}

proof fn dedup_keeps(s: Seq<NaiveDateTime>, t: NaiveDateTime)
    requires
        s.contains(t),
    ensures
        dedup(s).contains(t),
    decreases s.len(),
{
    if s.len() >= 2 {
        let k = choose|k: int| 0 <= k < s.len() && s[k] == t;
        let u = s.drop_last();
        if k < s.len() - 1 || s.last() == s[s.len() - 2] {
            assert(u[if k < s.len() - 1 { k } else { k - 1 }] == t);
            dedup_keeps(u, t);
            let i = choose|i: int| 0 <= i < dedup(u).len() && dedup(u)[i] == t;
            assert(dedup(s)[i] == t);
        } else {
            assert(dedup(s)[dedup(s).len() - 1] == t);
        }
    }
}

proof fn extras_keep(
    starts: Seq<NaiveDateTime>,
    overrides: OverridesV,
    keys: OverridesV,
    secs: int,
    range_start: NaiveDateTime,
    range_end: NaiveDateTime,
    t: NaiveDateTime,
)
    requires
        starts.contains(t),
    ensures
        with_extras(starts, overrides, keys, secs, range_start, range_end).contains(t),
    decreases keys.len(),
{
    if keys.len() > 0 {
        let k = keys.drop_last();
        extras_keep(starts, overrides, k, secs, range_start, range_end, t);
        let before = with_extras(starts, overrides, k, secs, range_start, range_end);
        let i = choose|i: int| 0 <= i < before.len() && before[i] == t;
        assert(with_extras(starts, overrides, keys, secs, range_start, range_end)[i] == t);
    }
}

pub proof fn occurrence_is_listed(
    event: CalendarEventV,
    overrides: OverridesV,
    starts: Seq<NaiveDateTime>,
    secs: int,
    range_start: NaiveDateTime,
    range_end: NaiveDateTime,
    t: NaiveDateTime,
)
    requires
        starts.contains(t),
        occurrences_at(event, overrides, starts, secs, range_start, range_end) is Some,
        occurrence_at(event, overrides, t, secs, range_start, range_end) matches Some(Some(_)),
    ensures
        occurrences_at(event, overrides, starts, secs, range_start, range_end)->0.contains(
            occurrence_at(event, overrides, t, secs, range_start, range_end)->0->0,
        ),
    decreases starts.len(),
{
    let u = starts.drop_last();
    let o = occurrence_at(event, overrides, t, secs, range_start, range_end)->0->0;
    let out = occurrences_at(event, overrides, starts, secs, range_start, range_end)->0;
    if starts.last() == t {
        assert(out[out.len() - 1] == o);
    } else {
        let k = choose|k: int| 0 <= k < starts.len() && starts[k] == t;
        assert(u[k] == t);
        occurrence_is_listed(event, overrides, u, secs, range_start, range_end, t);
        let before = occurrences_at(event, overrides, u, secs, range_start, range_end)->0;
        let i = choose|i: int| 0 <= i < before.len() && before[i] == o;
        assert(out[i] == o);
    }
}

/// The length of an event in seconds.
pub open spec fn length_of(event: CalendarEventV) -> int {
    match duration_secs(event.duration) {
        Some(Some(n)) => n,
        _ => 0,
    }
}

/// A start that the rules of an event give, as far back as its length reaches, and that no
/// override speaks of, is an occurrence where it touches the range.
pub proof fn start_occurs(
    event: CalendarEventV,
    range_start: NaiveDateTime,
    range_end: NaiveDateTime,
    t: NaiveDateTime,
)
    requires
        expansion(event, range_start, range_end) is Some,
        event.recurrence_rules is Some,
        local_time(event.start) is Some,
        rules_starts(
            event.recurrence_rules->0,
            local_time(event.start)->0,
            reach_back(range_start, length_of(event)),
            range_end,
        )->0.contains(t),
        map_get(overrides_of(event), iso_text(t)) is None,
        t.on_clock(),
        overlap(t, length_of(event), range_start, range_end) == Some(true),
    ensures
        exists|i: int|
            0 <= i < expansion(event, range_start, range_end)->0.len() && (#[trigger] expansion(
                event,
                range_start,
                range_end,
            )->0[i]).start == t && expansion(event, range_start, range_end)->0[i].recurrence_id
                == Some(iso_text(t)),
{
    let dtstart = local_time(event.start)->0;
    let secs = length_of(event);
    let overrides = overrides_of(event);
    local_time_of_text(t);
    let given = rules_starts(
        event.recurrence_rules->0,
        dtstart,
        reach_back(range_start, secs),
        range_end,
    )->0;
    sorted_keeps(given, t);
    dedup_keeps(sorted_times(given), t);
    let base = base_starts(event, dtstart, secs, range_start, range_end)->0;
    extras_keep(base, overrides, overrides, secs, range_start, range_end, t);
    let all = with_extras(base, overrides, overrides, secs, range_start, range_end);
    sorted_keeps(all, t);
    occurrence_is_listed(
        event,
        overrides,
        sorted_times(all),
        secs,
        range_start,
        range_end,
        t,
    );
}

/// What touches a range does not start before what the length reaches back to.
pub proof fn reaches_back(
    t: NaiveDateTime,
    secs: int,
    range_start: NaiveDateTime,
    range_end: NaiveDateTime,
)
    requires
        t.valid(),
        range_start.valid(),
        overlap(t, secs, range_start, range_end) == Some(true),
    ensures
        !time_less(t, reach_back(range_start, secs)),
        time_less(t, range_end),
{
    let back = reach_back(range_start, secs);
    range_bounds();
    date_of_num(t.date);
    date_of_num(range_start.date);
    if secs > 0 {
        let end = plus_secs(t, secs)->0;
        plus_secs_stays_valid(t, secs);
        time_less_is_order(range_start, end);
        let n = t.num() + secs;
        date_of_exists(n / 86400);
        assert(end.num() == n);
        let m = range_start.num() - secs + (if range_start.leap {
            1int
        } else {
            0int
        });
        if day_in_range(m / 86400) {
            date_of_exists(m / 86400);
            assert(back.num() == m);
            plus_secs_stays_valid(range_start, -secs);
            time_less_is_order(t, back);
        } else {
            assert(back == first_time());
            time_less_is_order(t, back);
        }
    } else {
        time_less_is_order(range_start, t);
        time_less_is_order(t, range_start);
    }
}

pub proof fn starts_of_one_rule(
    rules: Seq<RecurrenceRuleV>,
    dtstart: NaiveDateTime,
    range_start: NaiveDateTime,
    range_end: NaiveDateTime,
    r: int,
    t: NaiveDateTime,
)
    requires
        0 <= r < rules.len(),
        rules_starts(rules, dtstart, range_start, range_end) is Some,
    ensures
        rule_starts(rules[r], dtstart, range_start, range_end) is Some,
        rule_starts(rules[r], dtstart, range_start, range_end)->0.contains(t) ==> rules_starts(
            rules,
            dtstart,
            range_start,
            range_end,
        )->0.contains(t),
    decreases rules.len(),
{
    let before = rules_starts(rules.drop_last(), dtstart, range_start, range_end)->0;
    let last = rule_starts(rules.last(), dtstart, range_start, range_end)->0;
    let all = rules_starts(rules, dtstart, range_start, range_end)->0;
    if r == rules.len() - 1 {
        if last.contains(t) {
            let i = choose|i: int| 0 <= i < last.len() && last[i] == t;
            assert(all[before.len() + i] == t);
        }
    } else {
        starts_of_one_rule(rules.drop_last(), dtstart, range_start, range_end, r, t);
        if before.contains(t) {
            let i = choose|i: int| 0 <= i < before.len() && before[i] == t;
            assert(all[i] == t);
        }
    }
}

/// Each date of a rule at which the event touches the range is an occurrence, though it starts
/// before the range, unless the rule ends before it or an override speaks of it.
pub proof fn touching_date_occurs(
    event: CalendarEventV,
    range_start: NaiveDateTime,
    range_end: NaiveDateTime,
    r: int,
    k: int,
    i: int,
)
    requires
        range_start.valid(),
        expansion(event, range_start, range_end) is Some,
        local_time(event.start) is Some,
        event.recurrence_rules is Some,
        0 <= r < event.recurrence_rules->0.len(),
        k >= 0,
        ({
            let rule = event.recurrence_rules->0[r];
            let dtstart = local_time(event.start)->0;
            let b = bounds_of(
                rule,
                dtstart,
                reach_back(range_start, length_of(event)),
                range_end,
            );
            let dates = counted(first_dates(rule, dtstart.date, k)->0, dtstart.date);
            &&& by_periods(rule)
            &&& first_dates(rule, dtstart.date, k) is Some
            &&& 0 <= i < dates.len()
            &&& dates[i].valid()
            &&& reaches(b, dates, i)
            &&& map_get(overrides_of(event), iso_text(at_start_of(b, dates[i]))) is None
            &&& overlap(at_start_of(b, dates[i]), length_of(event), range_start, range_end) == Some(
                true,
            )
        }),
    ensures
        ({
            let rule = event.recurrence_rules->0[r];
            let dtstart = local_time(event.start)->0;
            let dates = counted(first_dates(rule, dtstart.date, k)->0, dtstart.date);
            let t = NaiveDateTime { date: dates[i], ..dtstart };
            exists|j: int|
                0 <= j < expansion(event, range_start, range_end)->0.len() && (#[trigger] expansion(
                    event,
                    range_start,
                    range_end,
                )->0[j]).start == t && expansion(event, range_start, range_end)->0[j].recurrence_id
                    == Some(iso_text(t))
        }),
{
    let rules = event.recurrence_rules->0;
    let rule = rules[r];
    let dtstart = local_time(event.start)->0;
    let back = reach_back(range_start, length_of(event));
    let dates = counted(first_dates(rule, dtstart.date, k)->0, dtstart.date);
    let t = NaiveDateTime { date: dates[i], ..dtstart };
    local_time_on_clock(event.start);
    reaches_back(t, length_of(event), range_start, range_end);
    starts_of_one_rule(rules, dtstart, back, range_end, r, t);
    rule_misses_nothing(rule, dtstart, back, range_end, k, i);
    start_occurs(event, range_start, range_end, t);
}

// ---------------------------------------------------------------------------
// Parts of a range
// ---------------------------------------------------------------------------

/// How two walks over the parts of a range, up to `mid` and from `mid` on, stand to the walk
/// over the whole, when `prev` was the last date.
spec fn in_parts(
    b: Bounds,
    first: WalkV,
    second: WalkV,
    whole: WalkV,
    mid: NaiveDateTime,
    prev: Option<NaiveDate>,
) -> bool {
    &&& whole.out == first.out + second.out
    &&& whole.done == second.done
    &&& whole.produced == second.produced
    &&& whole.out.len() <= whole.produced
    &&& whole.done ==> first.done
    &&& !first.done ==> first.produced == whole.produced
    &&& second.out.len() > 0 || (first.done && !whole.done) ==> prev is Some && !time_less(
        at_start_of(b, prev->0),
        mid,
    )
}

proof fn parts_of_date(
    b: Bounds,
    first: WalkV,
    second: WalkV,
    whole: WalkV,
    mid: NaiveDateTime,
    prev: Option<NaiveDate>,
    d: NaiveDate,
)
    requires
        in_parts(b, first, second, whole, mid, prev),
        prev is Some ==> !date_less(d, prev->0),
        !time_less(mid, b.range_start),
        !time_less(b.range_end, mid),
    ensures
        in_parts(
            b,
            walk_date(Bounds { range_end: mid, ..b }, first, d),
            walk_date(Bounds { range_start: mid, ..b }, second, d),
            walk_date(b, whole, d),
            mid,
            Some(d),
        ),
{
    let t = at_start_of(b, d);
    let x = walk_date(Bounds { range_end: mid, ..b }, first, d);
    let y = walk_date(Bounds { range_start: mid, ..b }, second, d);
    let z = walk_date(b, whole, d);
    if prev is Some && !time_less(at_start_of(b, prev->0), mid) {
        assert(!time_less(t, mid));
    }
    if !whole.done && !date_less(d, b.dtstart.date) {
        if time_less(t, mid) {
            assert(second.out =~= Seq::empty());
            assert(z.out =~= x.out + y.out);
        } else {
            assert(x.out =~= first.out);
            assert(z.out =~= x.out + y.out);
        }
    }
}

proof fn parts_of_dates(
    b: Bounds,
    first: WalkV,
    second: WalkV,
    whole: WalkV,
    mid: NaiveDateTime,
    prev: Option<NaiveDate>,
    s: Seq<NaiveDate>,
)
    requires
        in_parts(b, first, second, whole, mid, prev),
        forall|i: int| 0 <= i < s.len() && prev is Some ==> !date_less(#[trigger] s[i], prev->0),
        forall|i: int, j: int|
            0 <= i <= j < s.len() ==> !date_less(#[trigger] s[j], #[trigger] s[i]),
        !time_less(mid, b.range_start),
        !time_less(b.range_end, mid),
    ensures
        in_parts(
            b,
            walk_dates(Bounds { range_end: mid, ..b }, first, s),
            walk_dates(Bounds { range_start: mid, ..b }, second, s),
            walk_dates(b, whole, s),
            mid,
            if s.len() > 0 {
                Some(s.last())
            } else {
                prev
            },
        ),
    decreases s.len(),
{
    if s.len() > 0 {
        let t = s.drop_last();
        assert forall|i: int| 0 <= i < t.len() && prev is Some implies !date_less(
            #[trigger] t[i],
            prev->0,
        ) by {
            assert(t[i] == s[i]);
        }
        assert forall|i: int, j: int| 0 <= i <= j < t.len() implies !date_less(
            #[trigger] t[j],
            #[trigger] t[i],
        ) by {
            assert(t[i] == s[i] && t[j] == s[j]);
        }
        parts_of_dates(b, first, second, whole, mid, prev, t);
        let before = if t.len() > 0 {
            Some(t.last())
        } else {
            prev
        };
        if t.len() > 0 {
            assert(t.last() == s[t.len() - 1]);
            assert(!date_less(s[s.len() - 1], s[t.len() - 1]));
        } else if prev is Some {
            assert(!date_less(s[0], prev->0));
        }
        parts_of_date(
            b,
            walk_dates(Bounds { range_end: mid, ..b }, first, t),
            walk_dates(Bounds { range_start: mid, ..b }, second, t),
            walk_dates(b, whole, t),
            mid,
            before,
            s.last(),
        );
    }
}

pub proof fn present_is_listed(s: Seq<Option<Option<NaiveDate>>>)
    requires
        present(s) is Some,
    ensures
        forall|i: int|
            0 <= i < present(s)->0.len() ==> s.contains(Some(Some(#[trigger] present(s)->0[i]))),
    decreases s.len(),
{
    if s.len() > 0 {
        let t = s.drop_last();
        present_is_listed(t);
        let a = present(t)->0;
        let b = present(s)->0;
        assert forall|i: int| 0 <= i < b.len() implies s.contains(Some(Some(#[trigger] b[i]))) by {
            if i < a.len() {
                assert(b[i] == a[i]);
                let j = choose|j: int| 0 <= j < t.len() && t[j] == Some(Some(a[i]));
                assert(s[j] == Some(Some(b[i])));
            } else {
                assert(s[s.len() - 1] == Some(Some(b[i])));
            }
        }
    }
}

/// What a rule picks in a month is in that month.
pub proof fn month_dates_stay(
    y: int,
    m: int,
    start_day: int,
    by_day: Seq<NDayV>,
    by_month_day: Seq<i32>,
)
    requires
        month_dates(y, m, start_day, by_day, by_month_day) is Some,
    ensures
        ({
            let s = month_dates(y, m, start_day, by_day, by_month_day)->0;
            forall|i: int|
                0 <= i < s.len() ==> (#[trigger] s[i]).valid() && s[i].year == y && s[i].month == m
        }),
{
    let s = month_dates(y, m, start_day, by_day, by_month_day)->0;
    if by_day.len() > 0 {
        let asked = asked_days(by_day);
        let list = Seq::new(asked.len(), |i: int| weekday_of_month(y, m, asked[i].0, asked[i].1));
        present_is_listed(list);
        assert forall|i: int| 0 <= i < s.len() implies (#[trigger] s[i]).valid() && s[i].year == y
            && s[i].month == m by {
            assert(list.contains(Some(Some(s[i]))));
            let q = choose|q: int| 0 <= q < list.len() && list[q] == Some(Some(s[i]));
            weekday_stays(y, m, asked[q].0, asked[q].1);
        }
    } else if by_month_day.len() > 0 {
        let list = Seq::new(
            by_month_day.len(),
            |i: int| day_of_month(y, m, by_month_day[i] as int),
        );
        present_is_listed(list);
        assert forall|i: int| 0 <= i < s.len() implies (#[trigger] s[i]).valid() && s[i].year == y
            && s[i].month == m by {
            assert(list.contains(Some(Some(s[i]))));
            let q = choose|q: int| 0 <= q < list.len() && list[q] == Some(Some(s[i]));
            day_stays(y, m, by_month_day[q] as int);
        }
    } else {
        let list = seq![Some(date_at(y, m, start_day))];
        present_is_listed(list);
        assert forall|i: int| 0 <= i < s.len() implies (#[trigger] s[i]).valid() && s[i].year == y
            && s[i].month == m by {
            assert(list.contains(Some(Some(s[i]))));
            let q = choose|q: int| 0 <= q < list.len() && list[q] == Some(Some(s[i]));
            assert(list[q] == Some(date_at(y, m, start_day)));
        }
    }
}

pub proof fn weekday_stays(y: int, m: int, w: int, nth: int)
    ensures
        weekday_of_month(y, m, w, nth) matches Some(Some(c)) ==> c.valid() && c.year == y && c.month
            == m,
{
    if let Some(Some(c)) = weekday_of_month(y, m, w, nth) {
        let base = if nth > 0 {
            Some(date_at(y, m, 1))
        } else {
            month_end(y, m)
        };
        let b = base->0->0;
        let step = if nth > 0 {
            (7 + w - b.weekday_num()) % 7 + 7 * (nth - 1)
        } else {
            -((7 + b.weekday_num() - w) % 7 + 7 * (-nth - 1))
        };
        assert(plus_days(b, step) == Some(c));
        date_of_exists(b.num() + step);
    }
}

pub proof fn day_stays(y: int, m: int, day: int)
    ensures
        day_of_month(y, m, day) matches Some(Some(c)) ==> c.valid() && c.year == y && c.month == m,
{
    if let Some(Some(c)) = day_of_month(y, m, day) {
        if day <= 0 {
            let last = month_end(y, m)->0->0;
            assert(plus_days(last, day + 1) == Some(c));
            date_of_exists(last.num() + day + 1);
        }
    }
}

pub proof fn year_dates_stay(
    y: int,
    months: Seq<int>,
    start_day: int,
    by_day: Seq<NDayV>,
    by_month_day: Seq<i32>,
)
    requires
        year_dates(y, months, start_day, by_day, by_month_day) is Some,
    ensures
        ({
            let s = year_dates(y, months, start_day, by_day, by_month_day)->0;
            forall|i: int| 0 <= i < s.len() ==> (#[trigger] s[i]).valid() && s[i].year == y
        }),
    decreases months.len(),
{
    if months.len() > 0 {
        let a = year_dates(y, months.drop_last(), start_day, by_day, by_month_day)->0;
        let b = month_dates(y, months.last(), start_day, by_day, by_month_day)->0;
        year_dates_stay(y, months.drop_last(), start_day, by_day, by_month_day);
        month_dates_stay(y, months.last(), start_day, by_day, by_month_day);
        let s = year_dates(y, months, start_day, by_day, by_month_day)->0;
        assert forall|i: int| 0 <= i < s.len() implies (#[trigger] s[i]).valid() && s[i].year
            == y by {
            if i < a.len() {
                assert(s[i] == a[i]);
            } else {
                assert(s[i] == b[i - a.len()]);
            }
        }
    }
}

pub proof fn week_dates_stay(base: int, days: Seq<int>)
    requires
        week_dates(base, days) is Some,
        forall|i: int| 0 <= i < days.len() ==> 0 <= #[trigger] days[i] < 7,
    ensures
        ({
            let s = week_dates(base, days)->0;
            forall|i: int|
                0 <= i < s.len() ==> (#[trigger] s[i]).valid() && base <= s[i].num() < base + 7
        }),
{
    let list = Seq::new(
        days.len(),
        |i: int|
            if day_in_range(base + days[i]) {
                Some(Some(date_of(base + days[i])))
            } else {
                None
            },
    );
    let s = week_dates(base, days)->0;
    present_is_listed(list);
    assert forall|i: int| 0 <= i < s.len() implies (#[trigger] s[i]).valid() && base <= s[i].num()
        < base + 7 by {
        assert(list.contains(Some(Some(s[i]))));
        let q = choose|q: int| 0 <= q < list.len() && list[q] == Some(Some(s[i]));
        date_of_exists(base + days[q]);
        assert(0 <= days[q] < 7);
    }
}

/// Sorting dates puts them in order, each once, and adds none.
pub proof fn sorted_dates_in_order(s: Seq<NaiveDate>)
    ensures
        ({
            let r = sorted_dates(Some(s))->0;
            &&& r.no_duplicates()
            &&& forall|i: int, j: int|
                0 <= i <= j < r.len() ==> !date_less(#[trigger] r[j], #[trigger] r[i])
            &&& forall|i: int| 0 <= i < r.len() ==> s.contains(#[trigger] r[i])
        }),
{
    let le = |a: NaiveDate, b: NaiveDate| NaiveDate::le_view(a, b);
    assert(total_preorder(le)) by {
        assert forall|a: NaiveDate, b: NaiveDate, c: NaiveDate| #[trigger] le(a, b)
            && #[trigger] le(b, c) implies le(a, c) by {}
    }
    let sorted = stable_sorted(s, le);
    stable_sorted_in_order(s, le);
    dedup_leaves_no_duplicates(sorted, le);
    let r = dedup(sorted);
    s.to_multiset_ensures();
    sorted.to_multiset_ensures();
    assert forall|i: int| 0 <= i < r.len() implies s.contains(#[trigger] r[i]) by {
        assert(sorted.contains(r[i]));
        assert(s.to_multiset().count(r[i]) > 0);
    }
    assert forall|i: int, j: int| 0 <= i <= j < r.len() implies !date_less(
        #[trigger] r[j],
        #[trigger] r[i],
    ) by {
        assert(le(r[i], r[j]));
    }
}

/// A date is before all those of the `k`th period of a rule.
pub open spec fn before_period(rule: RecurrenceRuleV, start: NaiveDate, d: NaiveDate, k: int) -> bool {
    let n = k * interval_of(rule);
    d.valid() && match rule.frequency {
        Frequency::Weekly => d.num() < start.num() - start.weekday_num() + 7 * n,
        Frequency::Monthly => d.year * 12 + d.month < start.year * 12 + start.month + n,
        Frequency::Yearly => d.year < start.year + n,
        _ => d.num() < start.num() + n,
    }
}

/// The dates of the periods of a rule, not yet sorted, are in their periods.
pub proof fn dates_in_period(rule: RecurrenceRuleV, start: NaiveDate, k: int) -> (s: Seq<NaiveDate>)
    requires
        start.valid(),
        k >= 0,
        by_periods(rule),
        period_dates(rule, start, k) is Some,
    ensures
        !(rule.frequency is Daily) ==> period_dates(rule, start, k) == sorted_dates(Some(s)),
        rule.frequency is Daily ==> period_dates(rule, start, k) == Some(s) && s.len() <= 1,
        forall|i: int| 0 <= i < s.len() ==> before_period(rule, start, #[trigger] s[i], k + 1),
        forall|i: int| 0 <= i < s.len() ==> !before_period(rule, start, #[trigger] s[i], k),
        forall|i: int, d: NaiveDate|
            0 <= i < s.len() && #[trigger] before_period(rule, start, d, k) ==> !date_less(
                #[trigger] s[i],
                d,
            ),
{
    let interval = interval_of(rule);
    let n = k * interval;
    assert((k + 1) * interval == n + interval) by (nonlinear_arith)
        requires
            n == k * interval,
    ;
    match rule.frequency {
        Frequency::Weekly => {
            let base = start.num() - start.weekday_num() + 7 * n;
            let days = week_days(start, rule.by_day);
            let s = week_dates(base, days)->0;
            week_dates_stay(base, days);
            assert forall|i: int, d: NaiveDate| 0 <= i < s.len() && #[trigger] before_period(
                rule,
                start,
                d,
                k,
            ) implies !date_less(#[trigger] s[i], d) by {
                nums_ascend(s[i], d);
            }
            s
        },
        Frequency::Monthly => {
            let m = plus_months(start, n)->0;
            let s = month_dates(
                m.year as int,
                m.month as int,
                start.day as int,
                rule.by_day,
                rule.by_month_day,
            )->0;
            month_dates_stay(
                m.year as int,
                m.month as int,
                start.day as int,
                rule.by_day,
                rule.by_month_day,
            );
            assert(m.year * 12 + m.month == start.year * 12 + start.month + n);
            s
        },
        Frequency::Yearly => {
            let y = start.year + n;
            let months = year_months(start, rule.by_month);
            year_dates_stay(y, months, start.day as int, rule.by_day, rule.by_month_day);
            year_dates(y, months, start.day as int, rule.by_day, rule.by_month_day)->0
        },
        _ => {
            date_of_exists(start.num() + n);
            let s = daily_candidates(start.num() + n, rule.by_day);
            assert forall|i: int, d: NaiveDate| 0 <= i < s.len() && #[trigger] before_period(
                rule,
                start,
                d,
                k,
            ) implies !date_less(#[trigger] s[i], d) by {
                nums_ascend(s[i], d);
            }
            s
        },
    }
}

/// The dates of one period of a rule ascend and come once each, and they are before those of the
/// next period.
pub proof fn dates_ascend(rule: RecurrenceRuleV, start: NaiveDate, k: int)
    requires
        start.valid(),
        k >= 0,
        by_periods(rule),
        period_dates(rule, start, k) is Some,
    ensures
        ({
            let s = period_dates(rule, start, k)->0;
            &&& s.no_duplicates()
            &&& forall|i: int|
                0 <= i < s.len() ==> before_period(rule, start, #[trigger] s[i], k + 1)
            &&& forall|i: int, d: NaiveDate|
                0 <= i < s.len() && #[trigger] before_period(rule, start, d, k) ==> !date_less(
                    #[trigger] s[i],
                    d,
                )
            &&& forall|i: int, j: int|
                0 <= i <= j < s.len() ==> !date_less(#[trigger] s[j], #[trigger] s[i])
        }),
        forall|d: NaiveDate| #[trigger]
            before_period(rule, start, d, k) ==> before_period(rule, start, d, k + 1),
{
    let raw = dates_in_period(rule, start, k);
    let s = period_dates(rule, start, k)->0;
    sorted_dates_in_order(raw);
    let interval = interval_of(rule);
    assert((k + 1) * interval == k * interval + interval) by (nonlinear_arith);
    assert forall|i: int| 0 <= i < s.len() implies raw.contains(#[trigger] s[i]) by {}
    assert forall|i: int| 0 <= i < s.len() implies before_period(
        rule,
        start,
        #[trigger] s[i],
        k + 1,
    ) by {
        let q = choose|q: int| 0 <= q < raw.len() && raw[q] == s[i];
        assert(before_period(rule, start, raw[q], k + 1));
    }
    assert forall|i: int, d: NaiveDate| 0 <= i < s.len() && #[trigger] before_period(
        rule,
        start,
        d,
        k,
    ) implies !date_less(#[trigger] s[i], d) by {
        let q = choose|q: int| 0 <= q < raw.len() && raw[q] == s[i];
        assert(!date_less(raw[q], d));
    }
}

/// A period of a rule is a set of dates: they ascend, and none comes twice, however the rule names
/// it.
pub proof fn dates_come_once(rule: RecurrenceRuleV, start: NaiveDate, k: int)
    requires
        start.valid(),
        k >= 0,
        by_periods(rule),
        period_dates(rule, start, k) is Some,
    ensures
        ({
            let s = period_dates(rule, start, k)->0;
            forall|i: int, j: int|
                0 <= i < j < s.len() ==> date_less(#[trigger] s[i], #[trigger] s[j])
        }),
{
    dates_ascend(rule, start, k);
    let s = period_dates(rule, start, k)->0;
    assert forall|i: int, j: int| 0 <= i < j < s.len() implies date_less(
        #[trigger] s[i],
        #[trigger] s[j],
    ) by {
        assert(!date_less(s[j], s[i]));
        assert(s[i] != s[j]);
    }
}

proof fn parts_of_periods(
    rule: RecurrenceRuleV,
    b: Bounds,
    first: WalkV,
    second: WalkV,
    whole: WalkV,
    mid: NaiveDateTime,
    prev: Option<NaiveDate>,
    k: int,
)
    requires
        k >= 0,
        b.dtstart.valid(),
        by_periods(rule),
        in_parts(b, first, second, whole, mid, prev),
        prev is Some ==> before_period(rule, b.dtstart.date, prev->0, k),
        !time_less(mid, b.range_start),
        !time_less(b.range_end, mid),
    ensures
        ({
            let x = walk_periods(rule, Bounds { range_end: mid, ..b }, first, k);
            let y = walk_periods(rule, Bounds { range_start: mid, ..b }, second, k);
            let z = walk_periods(rule, b, whole, k);
            &&& z is Some == y is Some
            &&& z is Some ==> x is Some && z->0 == x->0 + y->0
        }),
    decreases PERIOD_LIMIT - k,
{
    if !whole.done {
        let start = b.dtstart.date;
        if let Some(s) = period_dates(rule, start, k) {
            periods_end(rule, start, k);
            dates_ascend(rule, start, k);
            assert forall|i: int| 0 <= i < s.len() && prev is Some implies !date_less(
                #[trigger] s[i],
                prev->0,
            ) by {
                assert(before_period(rule, start, prev->0, k));
            }
            parts_of_dates(b, first, second, whole, mid, prev, s);
            let x = walk_dates(Bounds { range_end: mid, ..b }, first, s);
            let y = walk_dates(Bounds { range_start: mid, ..b }, second, s);
            let z = walk_dates(b, whole, s);
            let last = if s.len() > 0 {
                Some(s.last())
            } else {
                prev
            };
            if s.len() > 0 {
                assert(s[s.len() - 1] == s.last());
            }
            parts_of_periods(rule, b, x, y, z, mid, last, k + 1);
            if first.done {
                walk_of_done(Bounds { range_end: mid, ..b }, first, s);
            }
        }
    }
}

/// What a rule gives in a range is what it gives up to a time in the range, followed by what it
/// gives from then on: nothing is lost, doubled or put elsewhere, whatever its count and end. The
/// whole range can be expanded where its second part can.
pub proof fn range_in_parts(
    rule: RecurrenceRuleV,
    dtstart: NaiveDateTime,
    range_start: NaiveDateTime,
    mid: NaiveDateTime,
    range_end: NaiveDateTime,
)
    requires
        dtstart.valid(),
        !time_less(mid, range_start),
        !time_less(range_end, mid),
    ensures
        ({
            let x = rule_starts(rule, dtstart, range_start, mid);
            let y = rule_starts(rule, dtstart, mid, range_end);
            let z = rule_starts(rule, dtstart, range_start, range_end);
            &&& z is Some == y is Some
            &&& z is Some ==> x is Some && z->0 == x->0 + y->0
        }),
{
    let b = bounds_of(rule, dtstart, range_start, range_end);
    let w = walk_start();
    let none = Seq::<NaiveDateTime>::empty();
    assert(none =~= none + none);
    assert(bounds_of(rule, dtstart, range_start, mid) == Bounds { range_end: mid, ..b });
    assert(bounds_of(rule, dtstart, mid, range_end) == Bounds { range_start: mid, ..b });
    if !by_periods(rule) {
        parts_of_date(b, w, w, w, mid, None, dtstart.date);
    } else if !never_comes(rule, dtstart.date) {
        parts_of_periods(rule, b, w, w, w, mid, None, 0);
    }
}

// ---------------------------------------------------------------------------
// What a rule comes to
// ---------------------------------------------------------------------------

/// Nothing ends a rule before a date that is less than 2000 days after the start, and before as
/// many as the rule counts, and not past its end; and the range holds it.
pub open spec fn is_reached(b: Bounds, d: NaiveDate) -> bool {
    let t = NaiveDateTime { date: d, ..b.dtstart };
    &&& d.valid()
    &&& 0 <= d.num() - b.dtstart.date.num() < 2000
    &&& b.count is Some ==> d.num() - b.dtstart.date.num() < b.count->0
    &&& b.until is Some ==> !time_less(b.until->0, t)
    &&& !time_less(t, b.range_start)
    &&& time_less(t, b.range_end)
}

spec fn days_counted(b: Bounds, prev: Option<NaiveDate>) -> int {
    match prev {
        Some(p) => if p.num() < b.dtstart.date.num() {
            0
        } else {
            p.num() + 1 - b.dtstart.date.num()
        },
        None => 0,
    }
}

proof fn walk_below(b: Bounds, w: WalkV, s: Seq<NaiveDate>, prev: Option<NaiveDate>, d: NaiveDate)
    requires
        b.dtstart.valid(),
        is_reached(b, d),
        !w.done,
        0 <= w.out.len() <= w.produced <= days_counted(b, prev),
        prev is Some ==> prev->0.valid(),
        forall|i: int| 0 <= i < s.len() ==> (#[trigger] s[i]).valid() && date_less(s[i], d),
        forall|i: int| 0 <= i < s.len() && prev is Some ==> date_less(prev->0, #[trigger] s[i]),
        forall|i: int, j: int|
            0 <= i < j < s.len() ==> date_less(#[trigger] s[i], #[trigger] s[j]),
    ensures
        ({
            let v = walk_dates(b, w, s);
            &&& !v.done
            &&& v.out.len() <= v.produced
            &&& v.produced <= days_counted(
                b,
                if s.len() > 0 {
                    Some(s.last())
                } else {
                    prev
                },
            )
        }),
    decreases s.len(),
{
    if s.len() > 0 {
        let t = s.drop_last();
        let x = s.last();
        assert forall|i: int| 0 <= i < t.len() implies (#[trigger] t[i]).valid() && date_less(
            t[i],
            d,
        ) && (prev is Some ==> date_less(prev->0, t[i])) by {
            assert(t[i] == s[i]);
        }
        assert forall|i: int, j: int| 0 <= i < j < t.len() implies date_less(
            #[trigger] t[i],
            #[trigger] t[j],
        ) by {
            assert(t[i] == s[i] && t[j] == s[j]);
        }
        walk_below(b, w, t, prev, d);
        assert(s[s.len() - 1] == x);
        let before = if t.len() > 0 {
            Some(t.last())
        } else {
            prev
        };
        if t.len() > 0 {
            assert(t.last() == s[t.len() - 1]);
            assert(date_less(s[t.len() - 1], s[s.len() - 1]));
        }
        if before is Some {
            nums_ascend(before->0, x);
        }
        nums_ascend(x, d);
        nums_ascend(x, b.dtstart.date);
        let v = walk_dates(b, w, t);
        let tx = at_start_of(b, x);
        let td = at_start_of(b, d);
        assert(time_less(tx, td));
        assert(time_less(tx, b.range_end));
        assert(v.produced <= days_counted(b, before));
        assert(walk_dates(b, w, s) == walk_date(b, v, x));
    }
}

proof fn before_later(rule: RecurrenceRuleV, start: NaiveDate, x: NaiveDate, j: int, k: int)
    requires
        before_period(rule, start, x, j),
        0 <= j <= k,
    ensures
        before_period(rule, start, x, k),
{
    let i = interval_of(rule);
    assert(j * i <= k * i) by (nonlinear_arith)
        requires
            0 <= j <= k,
            i >= 1,
    ;
}

proof fn walk_comes_to(
    rule: RecurrenceRuleV,
    b: Bounds,
    w: WalkV,
    j: int,
    k: int,
    prev: Option<NaiveDate>,
    d: NaiveDate,
)
    requires
        0 <= j <= k,
        b.dtstart.valid(),
        by_periods(rule),
        is_reached(b, d),
        walk_periods(rule, b, w, j) is Some,
        !w.done,
        0 <= w.out.len() <= w.produced <= days_counted(b, prev),
        prev is Some ==> before_period(rule, b.dtstart.date, prev->0, j),
        forall|x: NaiveDate| #[trigger]
            before_period(rule, b.dtstart.date, x, k) ==> date_less(x, d),
        period_dates(rule, b.dtstart.date, k) matches Some(s) ==> s.contains(d),
    ensures
        walk_periods(rule, b, w, j)->0.contains(at_start_of(b, d)),
    decreases k - j,
{
    let start = b.dtstart.date;
    let s = period_dates(rule, start, j)->0;
    assert(period_dates(rule, start, j) is Some);
    periods_end(rule, start, j);
    dates_ascend(rule, start, j);
    dates_come_once(rule, start, j);
    assert forall|i: int| 0 <= i < s.len() && prev is Some implies date_less(
        prev->0,
        #[trigger] s[i],
    ) by {
        assert(before_period(rule, start, prev->0, j));
        assert(before_period(rule, start, s[i], j + 1));
        period_is_later(rule, start, prev->0, j, i);
    }
    if j < k {
        assert forall|i: int| 0 <= i < s.len() implies (#[trigger] s[i]).valid() && date_less(
            s[i],
            d,
        ) by {
            before_later(rule, start, s[i], j + 1, k);
        }
        walk_below(b, w, s, prev, d);
        let next = if s.len() > 0 {
            Some(s.last())
        } else {
            prev
        };
        if s.len() > 0 {
            assert(s[s.len() - 1] == s.last());
        } else if prev is Some {
            before_later(rule, start, prev->0, j, j + 1);
        }
        walk_comes_to(rule, b, walk_dates(b, w, s), j + 1, k, next, d);
    } else {
        let q = choose|q: int| 0 <= q < s.len() && s[q] == d;
        let p = s.take(q);
        assert forall|i: int| 0 <= i < p.len() implies (#[trigger] p[i]).valid() && date_less(
            p[i],
            d,
        ) && (prev is Some ==> date_less(prev->0, p[i])) by {
            assert(p[i] == s[i]);
            assert(before_period(rule, start, s[i], j + 1));
            assert(date_less(s[i], s[q]));
        }
        assert forall|i: int, m: int| 0 <= i < m < p.len() implies date_less(
            #[trigger] p[i],
            #[trigger] p[m],
        ) by {
            assert(p[i] == s[i] && p[m] == s[m]);
        }
        walk_below(b, w, p, prev, d);
        let v = walk_dates(b, w, p);
        let last = if p.len() > 0 {
            Some(p.last())
        } else {
            prev
        };
        if p.len() > 0 {
            assert(p.last() == p[p.len() - 1]);
            nums_ascend(p.last(), d);
        } else if prev is Some {
            assert(date_less(prev->0, s[q]));
            nums_ascend(prev->0, d);
        }
        nums_ascend(d, start);
        let t = at_start_of(b, d);
        let here = walk_date(b, v, d);
        assert(here.out[v.out.len() as int] == t);
        let upto = s.take(q + 1);
        assert(upto.drop_last() =~= p);
        assert(upto.last() == d);
        assert(walk_dates(b, w, upto) == here);
        assert(s =~= upto + s.skip(q + 1));
        walk_concat(b, w, upto, s.skip(q + 1));
        found_stays(b, here, s.skip(q + 1), t);
        found_stays_to_the_end(rule, b, walk_dates(b, w, s), k + 1, t);
    }
}

/// A date of a period comes after those before the period.
proof fn period_is_later(rule: RecurrenceRuleV, start: NaiveDate, x: NaiveDate, k: int, i: int)
    requires
        start.valid(),
        k >= 0,
        by_periods(rule),
        period_dates(rule, start, k) is Some,
        0 <= i < period_dates(rule, start, k)->0.len(),
        before_period(rule, start, x, k),
    ensures
        date_less(x, period_dates(rule, start, k)->0[i]),
{
    dates_ascend(rule, start, k);
    let s = period_dates(rule, start, k)->0;
    if x == s[i] {
        dates_not_before(rule, start, k, i);
    }
}

proof fn dates_not_before(rule: RecurrenceRuleV, start: NaiveDate, k: int, i: int)
    requires
        start.valid(),
        k >= 0,
        by_periods(rule),
        period_dates(rule, start, k) is Some,
        0 <= i < period_dates(rule, start, k)->0.len(),
    ensures
        !before_period(rule, start, period_dates(rule, start, k)->0[i], k),
{
    let raw = dates_in_period(rule, start, k);
    sorted_dates_in_order(raw);
    let s = period_dates(rule, start, k)->0;
    assert(raw.contains(s[i]));
    let q = choose|q: int| 0 <= q < raw.len() && raw[q] == s[i];
    assert(!before_period(rule, start, raw[q], k));
}

/// A date that a rule names in one of its periods is among its starts, where nothing ends the
/// rule before it.
pub proof fn named_date_is_given(
    rule: RecurrenceRuleV,
    dtstart: NaiveDateTime,
    range_start: NaiveDateTime,
    range_end: NaiveDateTime,
    k: int,
    d: NaiveDate,
)
    requires
        dtstart.valid(),
        by_periods(rule),
        !never_comes(rule, dtstart.date),
        rule_starts(rule, dtstart, range_start, range_end) is Some,
        is_reached(bounds_of(rule, dtstart, range_start, range_end), d),
        k >= 0,
        forall|x: NaiveDate| #[trigger]
            before_period(rule, dtstart.date, x, k) ==> date_less(x, d),
        period_dates(rule, dtstart.date, k) matches Some(s) ==> s.contains(d),
    ensures
        rule_starts(rule, dtstart, range_start, range_end)->0.contains(
            NaiveDateTime { date: d, ..dtstart },
        ),
{
    let b = bounds_of(rule, dtstart, range_start, range_end);
    walk_comes_to(rule, b, walk_start(), 0, k, None, d);
}

} // verus!
