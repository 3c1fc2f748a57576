//! What stands on the pages of the calendar: everything that falls on a day, once, under that day.

use vstd::prelude::*;
use vstd::string::*;
use crate::calendar::{
    date_of, date_of_exists, date_of_num, first_date, last_date, nums_ascend, plus_days,
    range_bounds, NaiveDate, NaiveDateTime,
};
use crate::grid::{
    birthdays_shown, day_page, holidays_shown, month_page, views_where, week_page, weekday_labels,
    weeks_up_to, BuildInputsV,
};
use crate::jscontact::BirthdayOccurrenceV;
use crate::layout::{
    birthday_view, event_view, holiday_view, laid_out, lane_ends, slots, slots_by_top,
    slots_sorted, with_lanes, Slot, StyleV,
};
use crate::timetext::date_text;
use crate::view::{
    first_of_month, localization, monday_of, shown_dates, shown_dates_hold_date, EventViewV,
    LocalizedV,
};

verus! {

/// The birthdays of a date, as they are drawn.
pub open spec fn birthdays_of(bs: Seq<BirthdayOccurrenceV>, date: NaiveDate) -> Seq<EventViewV> {
    bs.filter(|b: BirthdayOccurrenceV| b.date == date).map_values(
        |b: BirthdayOccurrenceV| birthday_view(b),
    )
}

/// The holidays of a date, as they are drawn.
pub open spec fn holidays_of(hs: Seq<(NaiveDate, Seq<char>)>, date: NaiveDate) -> Seq<EventViewV> {
    hs.filter(|h: (NaiveDate, Seq<char>)| h.0 == date).map_values(
        |h: (NaiveDate, Seq<char>)| holiday_view(date, h.1),
    )
}

pub proof fn birthdays_are_filtered(bs: Seq<BirthdayOccurrenceV>, date: NaiveDate)
    ensures
        birthdays_shown(bs, date) == birthdays_of(bs, date),
    decreases bs.len(),
{
    let keep = |b: BirthdayOccurrenceV| b.date == date;
    let draw = |b: BirthdayOccurrenceV| birthday_view(b);
    reveal(Seq::filter);
    if bs.len() == 0 {
        assert(bs.filter(keep).map_values(draw) =~= Seq::empty());
    } else {
        let t = bs.drop_last();
        birthdays_are_filtered(t, date);
        if keep(bs.last()) {
            assert(bs.filter(keep) == t.filter(keep).push(bs.last()));
            assert(bs.filter(keep).map_values(draw) =~= t.filter(keep).map_values(draw).push(
                draw(bs.last()),
            ));
        } else {
            assert(bs.filter(keep) == t.filter(keep));
        }
    }
}

pub proof fn holidays_are_filtered(hs: Seq<(NaiveDate, Seq<char>)>, date: NaiveDate)
    ensures
        holidays_shown(hs, date) == holidays_of(hs, date),
    decreases hs.len(),
{
    let keep = |h: (NaiveDate, Seq<char>)| h.0 == date;
    let draw = |h: (NaiveDate, Seq<char>)| holiday_view(date, h.1);
    reveal(Seq::filter);
    if hs.len() == 0 {
        assert(hs.filter(keep).map_values(draw) =~= Seq::empty());
    } else {
        let t = hs.drop_last();
        holidays_are_filtered(t, date);
        if keep(hs.last()) {
            assert(hs.filter(keep) == t.filter(keep).push(hs.last()));
            assert(hs.filter(keep).map_values(draw) =~= t.filter(keep).map_values(draw).push(
                draw(hs.last()),
            ));
        } else {
            assert(hs.filter(keep) == t.filter(keep));
        }
    }
}

proof fn views_are_filtered(
    ls: Seq<LocalizedV>,
    date: Option<NaiveDate>,
    all_day: Option<bool>,
    style: StyleV,
    keep: spec_fn(LocalizedV) -> bool,
)
    requires
        forall|l: LocalizedV| #[trigger]
            keep(l) == ((date matches Some(d) ==> l.start.date == d) && (all_day matches Some(b)
                ==> l.all_day == b)),
    ensures
        views_where(ls, date, all_day, style) == ls.filter(keep).map_values(
            |l: LocalizedV| event_view(l, style),
        ),
    decreases ls.len(),
{
    let draw = |l: LocalizedV| event_view(l, style);
    reveal(Seq::filter);
    if ls.len() == 0 {
        assert(ls.filter(keep).map_values(draw) =~= Seq::empty());
    } else {
        let t = ls.drop_last();
        views_are_filtered(t, date, all_day, style, keep);
        if keep(ls.last()) {
            assert(ls.filter(keep) == t.filter(keep).push(ls.last()));
            assert(ls.filter(keep).map_values(draw) =~= t.filter(keep).map_values(draw).push(
                draw(ls.last()),
            ));
        } else {
            assert(ls.filter(keep) == t.filter(keep));
        }
    }
}

/// The occurrences that start on a date, and last all day or not, as they are drawn.
pub open spec fn starting_on(
    ls: Seq<LocalizedV>,
    date: NaiveDate,
    all_day: bool,
    style: StyleV,
) -> Seq<EventViewV> {
    ls.filter(|l: LocalizedV| l.start.date == date && l.all_day == all_day).map_values(
        |l: LocalizedV| event_view(l, style),
    )
}

/// The occurrences that last all day, or those that do not, as they are drawn.
pub open spec fn lasting(ls: Seq<LocalizedV>, all_day: bool, style: StyleV) -> Seq<EventViewV> {
    ls.filter(|l: LocalizedV| l.all_day == all_day).map_values(
        |l: LocalizedV| event_view(l, style),
    )
}

/// The occurrences that start on a date, as they are drawn.
pub open spec fn any_starting_on(
    ls: Seq<LocalizedV>,
    date: NaiveDate,
    style: StyleV,
) -> Seq<EventViewV> {
    ls.filter(|l: LocalizedV| l.start.date == date).map_values(
        |l: LocalizedV| event_view(l, style),
    )
}

pub proof fn views_by_date(ls: Seq<LocalizedV>, date: NaiveDate, all_day: bool, style: StyleV)
    ensures
        views_where(ls, Some(date), Some(all_day), style) == starting_on(ls, date, all_day, style),
        views_where(ls, None, Some(all_day), style) == lasting(ls, all_day, style),
        views_where(ls, Some(date), None, style) == any_starting_on(ls, date, style),
{
    views_are_filtered(
        ls,
        Some(date),
        Some(all_day),
        style,
        |l: LocalizedV| l.start.date == date && l.all_day == all_day,
    );
    views_are_filtered(
        ls,
        None,
        Some(all_day),
        style,
        |l: LocalizedV| l.all_day == all_day,
    );
    views_are_filtered(ls, Some(date), None, style, |l: LocalizedV| l.start.date == date);
}

proof fn marks_by_date(inputs: BuildInputsV, date: NaiveDate)
    ensures
        inputs.marks(date) == days_of_note(inputs, date),
{
    birthdays_are_filtered(inputs.birthdays, date);
    holidays_are_filtered(inputs.holidays, date);
}

/// The birthdays and then the holidays of a date.
pub open spec fn days_of_note(inputs: BuildInputsV, date: NaiveDate) -> Seq<EventViewV> {
    birthdays_of(inputs.birthdays, date) + holidays_of(inputs.holidays, date)
}

/// A drawn event apart from its place beside others.
pub open spec fn alone(v: EventViewV) -> EventViewV {
    EventViewV { lane: 0, lanes: 0, ..v }
}

/// Events apart from their places beside each other.
pub open spec fn each_alone(s: Seq<EventViewV>) -> Seq<EventViewV> {
    s.map_values(|v: EventViewV| alone(v))
}

proof fn lanes_change_places_only(events: Seq<EventViewV>, s: Seq<Slot>, lanes: int)
    requires
        forall|k: int| 0 <= k < s.len() ==> (#[trigger] s[k]).index < events.len(),
    ensures
        with_lanes(events, s, lanes).len() == events.len(),
        forall|i: int|
            0 <= i < events.len() ==> alone(#[trigger] with_lanes(events, s, lanes)[i]) == alone(
                events[i],
            ),
    decreases s.len(),
{
    if s.len() > 0 {
        let t = s.drop_last();
        assert forall|k: int| 0 <= k < t.len() implies (#[trigger] t[k]).index < events.len() by {
            assert(t[k] == s[k]);
        }
        lanes_change_places_only(events, t, lanes);
        let before = with_lanes(events, t, lanes);
        let after = with_lanes(events, s, lanes);
        assert(s[s.len() - 1].index < events.len());
        assert forall|i: int| 0 <= i < events.len() implies alone(#[trigger] after[i]) == alone(
            events[i],
        ) by {
            assert(alone(before[i]) == alone(events[i]));
        }
    }
}

/// Laying events out side by side keeps each of them in its place in the list, and changes nothing
/// of it but its lane.
pub proof fn layout_keeps_events(events: Seq<EventViewV>)
    requires
        events.len() <= usize::MAX,
    ensures
        laid_out(events).len() == events.len(),
        forall|i: int|
            0 <= i < events.len() ==> alone(#[trigger] laid_out(events)[i]) == alone(events[i]),
{
    let s = slots_by_top(events);
    slots_sorted(events);
    assert forall|k: int| 0 <= k < s.len() implies (#[trigger] s[k]).index < events.len() by {
        assert(slots(events).contains(s[k]));
    }
    lanes_change_places_only(events, s, lane_ends(s).len() as int);
}

proof fn timed_events_are(
    ls: Seq<LocalizedV>,
    date: Option<NaiveDate>,
    all_day: Option<bool>,
    style: StyleV,
)
    requires
        ls.len() <= usize::MAX,
    ensures
        each_alone(laid_out(views_where(ls, date, all_day, style))) == views_where(
            ls,
            date,
            all_day,
            style,
        ),
{
    let views = views_where(ls, date, all_day, style);
    views_have_no_lane(ls, date, all_day, style);
    layout_keeps_events(views);
    let shown = each_alone(laid_out(views));
    assert forall|i: int| 0 <= i < shown.len() implies #[trigger] shown[i] == views[i] by {
        assert(alone(laid_out(views)[i]) == alone(views[i]));
        assert(alone(views[i]) == views[i]);
    }
    assert(shown =~= views);
}

proof fn views_have_no_lane(
    ls: Seq<LocalizedV>,
    date: Option<NaiveDate>,
    all_day: Option<bool>,
    style: StyleV,
)
    ensures
        views_where(ls, date, all_day, style).len() <= ls.len(),
        forall|i: int|
            0 <= i < views_where(ls, date, all_day, style).len() ==> alone(
                #[trigger] views_where(ls, date, all_day, style)[i],
            ) == views_where(ls, date, all_day, style)[i],
    decreases ls.len(),
{
    if ls.len() > 0 {
        views_have_no_lane(ls.drop_last(), date, all_day, style);
    }
}

#[verifier::spinoff_prover]
#[verifier::rlimit(60)]
proof fn week_from(date: NaiveDate, monday: NaiveDate, end: NaiveDate)
    requires
        date.valid(),
        monday.valid(),
        end.valid(),
        monday.weekday_num() == 0,
        monday.num() <= date.num() < monday.num() + 7,
        end.num() == monday.num() + 7,
    ensures
        monday_of(date) == Some(monday),
        plus_days(monday, 7) == Some(end),
        forall|k: int| 0 <= k < 7 ==> (#[trigger] date_of(monday.num() + k)).num() == monday.num()
            + k && date_of(monday.num() + k).valid(),
{
    assert(date.num() - date.weekday_num() == monday.num());
    date_of_num(monday);
    date_of_num(end);
    range_bounds();
    nums_ascend(end, last_date());
    nums_ascend(first_date(), monday);
    assert forall|k: int| 0 <= k < 7 implies (#[trigger] date_of(monday.num() + k)).num()
        == monday.num() + k && date_of(monday.num() + k).valid() by {
        date_of_exists(monday.num() + k);
    }
}

/// The page of a week has seven columns, from Monday on. The column of a day holds, over the day,
/// its birthdays and holidays and then the occurrences that start on that day and last all day;
/// and, by the hours, those that start on that day and do not: all of them, in the order of their
/// starts, and none of another day.
#[verifier::spinoff_prover]
#[verifier::rlimit(60)]
pub proof fn week_column_holds_its_day(
    inputs: BuildInputsV,
    monday: NaiveDate,
    end: NaiveDate,
    k: int,
)
    requires
        inputs.params.date.valid(),
        week_page(inputs) is Some,
        monday.valid(),
        end.valid(),
        monday.weekday_num() == 0,
        monday.num() <= inputs.params.date.num() < monday.num() + 7,
        end.num() == monday.num() + 7,
        0 <= k < 7,
    ensures
        week_page(inputs)->0.days.len() == 7,
        inputs.localized(monday, end) is Some,
        inputs.localized(monday, end)->0.len() <= usize::MAX ==> ({
            let ls = inputs.localized(monday, end)->0;
            let d = date_of(monday.num() + k);
            let column = week_page(inputs)->0.days[k];
            &&& column.all_day_events == days_of_note(inputs, d) + starting_on(
                ls,
                d,
                true,
                inputs.style(),
            )
            &&& each_alone(column.timed_events) == starting_on(ls, d, false, inputs.style())
            &&& column.iso == date_text(d)
            &&& column.is_today <==> d == inputs.today
        }),
{
    week_from(inputs.params.date, monday, end);
    let d = date_of(monday.num() + k);
    let ls = inputs.localized(monday, end)->0;
    if ls.len() <= usize::MAX {
        marks_by_date(inputs, d);
        views_by_date(ls, d, true, inputs.style());
        views_by_date(ls, d, false, inputs.style());
        timed_events_are(ls, Some(d), Some(false), inputs.style());
    }
}

/// The occurrences that start on a date, and last all day or not.
pub open spec fn starting(ls: Seq<LocalizedV>, num: int, all_day: bool) -> int {
    ls.filter(|l: LocalizedV| l.start.date.num() == num && l.all_day == all_day).len() as int
}

proof fn starting_in_week(ls: Seq<LocalizedV>, monday: int)
    ensures
        ls.filter(|l: LocalizedV| monday <= l.start.date.num() < monday + 7).len() == starting(
            ls,
            monday,
            true,
        ) + starting(ls, monday, false) + starting(ls, monday + 1, true) + starting(
            ls,
            monday + 1,
            false,
        ) + starting(ls, monday + 2, true) + starting(ls, monday + 2, false) + starting(
            ls,
            monday + 3,
            true,
        ) + starting(ls, monday + 3, false) + starting(ls, monday + 4, true) + starting(
            ls,
            monday + 4,
            false,
        ) + starting(ls, monday + 5, true) + starting(ls, monday + 5, false) + starting(
            ls,
            monday + 6,
            true,
        ) + starting(ls, monday + 6, false),
    decreases ls.len(),
{
    reveal(Seq::filter);
    if ls.len() > 0 {
        starting_in_week(ls.drop_last(), monday);
    }
}

proof fn same_filter(
    ls: Seq<LocalizedV>,
    f: spec_fn(LocalizedV) -> bool,
    g: spec_fn(LocalizedV) -> bool,
)
    requires
        forall|i: int| 0 <= i < ls.len() ==> f(#[trigger] ls[i]) == g(ls[i]),
    ensures
        ls.filter(f) == ls.filter(g),
    decreases ls.len(),
{
    reveal(Seq::filter);
    if ls.len() > 0 {
        let t = ls.drop_last();
        assert forall|i: int| 0 <= i < t.len() implies f(#[trigger] t[i]) == g(t[i]) by {
            assert(t[i] == ls[i]);
        }
        same_filter(t, f, g);
        assert(f(ls[ls.len() - 1]) == g(ls[ls.len() - 1]));
    }
}

/// The number of the occurrences that a column of a week draws.
pub open spec fn drawn(inputs: BuildInputsV, monday: NaiveDate, k: int) -> int {
    let column = week_page(inputs)->0.days[k];
    column.all_day_events.len() - days_of_note(inputs, date_of(monday.num() + k)).len()
        + column.timed_events.len()
}

#[verifier::spinoff_prover]
#[verifier::rlimit(60)]
proof fn column_draws(inputs: BuildInputsV, monday: NaiveDate, end: NaiveDate, k: int)
    requires
        inputs.params.date.valid(),
        week_page(inputs) is Some,
        monday.valid(),
        end.valid(),
        monday.weekday_num() == 0,
        monday.num() <= inputs.params.date.num() < monday.num() + 7,
        end.num() == monday.num() + 7,
        0 <= k < 7,
        inputs.localized(monday, end)->0.len() <= usize::MAX,
        forall|i: int|
            0 <= i < inputs.localized(monday, end)->0.len() ==> (#[trigger] inputs.localized(
                monday,
                end,
            )->0[i]).start.date.valid(),
    ensures
        drawn(inputs, monday, k) == starting(
            inputs.localized(monday, end)->0,
            monday.num() + k,
            true,
        ) + starting(inputs.localized(monday, end)->0, monday.num() + k, false),
{
    let ls = inputs.localized(monday, end)->0;
    let d = date_of(monday.num() + k);
    week_column_holds_its_day(inputs, monday, end, k);
    week_from(inputs.params.date, monday, end);
    starting_by_number(ls, d, true, inputs.style());
    starting_by_number(ls, d, false, inputs.style());
    let timed = week_page(inputs)->0.days[k].timed_events;
    assert(each_alone(timed).len() == timed.len());
}

proof fn starting_by_number(ls: Seq<LocalizedV>, d: NaiveDate, all_day: bool, style: StyleV)
    requires
        d.valid(),
        forall|i: int| 0 <= i < ls.len() ==> (#[trigger] ls[i]).start.date.valid(),
    ensures
        starting_on(ls, d, all_day, style).len() == starting(ls, d.num(), all_day),
{
    assert forall|i: int| 0 <= i < ls.len() implies ((#[trigger] ls[i]).start.date == d
        <==> ls[i].start.date.num() == d.num()) by {
        nums_ascend(ls[i].start.date, d);
    }
    same_filter(
        ls,
        |l: LocalizedV| l.start.date == d && l.all_day == all_day,
        |l: LocalizedV| l.start.date.num() == d.num() && l.all_day == all_day,
    );
}

/// Over the seven columns of a week, each occurrence that starts in the week is drawn once, and
/// no other is drawn.
#[verifier::spinoff_prover]
#[verifier::rlimit(60)]
pub proof fn week_draws_each_once(inputs: BuildInputsV, monday: NaiveDate, end: NaiveDate)
    requires
        inputs.params.date.valid(),
        week_page(inputs) is Some,
        monday.valid(),
        end.valid(),
        monday.weekday_num() == 0,
        monday.num() <= inputs.params.date.num() < monday.num() + 7,
        end.num() == monday.num() + 7,
        inputs.localized(monday, end)->0.len() <= usize::MAX,
        forall|i: int|
            0 <= i < inputs.localized(monday, end)->0.len() ==> (#[trigger] inputs.localized(
                monday,
                end,
            )->0[i]).start.date.valid(),
    ensures
        drawn(inputs, monday, 0) + drawn(inputs, monday, 1) + drawn(inputs, monday, 2) + drawn(
            inputs,
            monday,
            3,
        ) + drawn(inputs, monday, 4) + drawn(inputs, monday, 5) + drawn(inputs, monday, 6)
            == inputs.localized(monday, end)->0.filter(
            |l: LocalizedV| monday.num() <= l.start.date.num() < monday.num() + 7,
        ).len(),
{
    column_draws(inputs, monday, end, 0);
    column_draws(inputs, monday, end, 1);
    column_draws(inputs, monday, end, 2);
    column_draws(inputs, monday, end, 3);
    column_draws(inputs, monday, end, 4);
    column_draws(inputs, monday, end, 5);
    column_draws(inputs, monday, end, 6);
    starting_in_week(inputs.localized(monday, end)->0, monday.num());
}

/// The page of a day holds its birthdays and holidays, and all the occurrences that touch the day,
/// also one that started before it.
#[verifier::spinoff_prover]
#[verifier::rlimit(60)]
pub proof fn day_column_holds_all(inputs: BuildInputsV, end: NaiveDate)
    requires
        inputs.params.date.valid(),
        end.valid(),
        end.num() == inputs.params.date.num() + 1,
        day_page(inputs) is Some,
    ensures
        inputs.localized(inputs.params.date, end) is Some,
        inputs.localized(inputs.params.date, end)->0.len() <= usize::MAX ==> ({
            let ls = inputs.localized(inputs.params.date, end)->0;
            let column = day_page(inputs)->0.day;
            &&& column.all_day_events == days_of_note(inputs, inputs.params.date) + lasting(
                ls,
                true,
                inputs.style(),
            )
            &&& each_alone(column.timed_events) == lasting(ls, false, inputs.style())
            &&& column.iso == date_text(inputs.params.date)
            &&& column.is_today <==> inputs.params.date == inputs.today
        }),
{
    let date = inputs.params.date;
    date_of_num(end);
    let ls = inputs.localized(date, end)->0;
    if ls.len() <= usize::MAX {
        marks_by_date(inputs, date);
        views_by_date(ls, date, true, inputs.style());
        views_by_date(ls, date, false, inputs.style());
        timed_events_are(ls, None, Some(false), inputs.style());
    }
}

/// The page of a month has whole weeks, from the Monday of the week of its first day on. The cell
/// of a day shows the first four of what falls on it, the birthdays and holidays first and then the
/// occurrences that start on it, and counts those that it does not show.
#[verifier::spinoff_prover]
#[verifier::rlimit(60)]
pub proof fn month_cell_holds_its_day(
    inputs: BuildInputsV,
    from: NaiveDate,
    to: NaiveDate,
    w: int,
    k: int,
)
    requires
        inputs.params.date.valid(),
        month_page(inputs) is Some,
        shown_dates(inputs.params.view, inputs.params.date) == Some((from, to)),
        0 <= w < month_page(inputs)->0.weeks.len(),
        0 <= k < 7,
    ensures
        month_page(inputs)->0.weeks[w].len() == 7,
        inputs.localized(from, to) is Some,
        ({
            let first = NaiveDate {
                year: inputs.params.date.year,
                month: inputs.params.date.month,
                day: 1,
            };
            let d = date_of(first.num() - first.weekday_num() + 7 * w + k);
            let cell = month_page(inputs)->0.weeks[w][k];
            let all = days_of_note(inputs, d) + any_starting_on(
                inputs.localized(from, to)->0,
                d,
                inputs.style(),
            );
            &&& cell.events.len() <= 4
            &&& cell.events.len() < 4 ==> cell.events.len() == all.len()
            &&& cell.events.len() <= all.len()
            &&& forall|i: int| 0 <= i < cell.events.len() ==> #[trigger] cell.events[i] == all[i]
            &&& all.len() <= usize::MAX ==> cell.events.len() + cell.more_count == all.len()
            &&& cell.day_num == d.day
            &&& cell.iso == date_text(d)
            &&& cell.is_today <==> d == inputs.today
            &&& cell.in_month <==> d.month == inputs.params.date.month
        }),
{
    let first = first_of_month(inputs.params.date);
    let start = monday_of(first)->0;
    date_of_exists(first.num() - first.weekday_num());
    assert(start.num() == first.num() - first.weekday_num());
    let d = date_of(start.num() + 7 * w + k);
    let ls = inputs.localized(from, to)->0;
    assert(month_page(inputs)->0.weeks[w][k] == inputs.day_cell(ls, d));
    marks_by_date(inputs, d);
    views_by_date(ls, d, true, inputs.style());
}

/// The page of a month has as many weeks as the dates that it shows.
#[verifier::spinoff_prover]
#[verifier::rlimit(50)]
pub proof fn month_has_its_weeks(inputs: BuildInputsV, from: NaiveDate, to: NaiveDate)
    requires
        inputs.params.date.valid(),
        inputs.params.view is Month,
        month_page(inputs) is Some,
        shown_dates(inputs.params.view, inputs.params.date) == Some((from, to)),
    ensures
        month_page(inputs)->0.weeks.len() * 7 == to.num() - from.num(),
        month_page(inputs)->0.weekday_labels.len() == 7,
        month_page(inputs)->0.weekday_labels[0] == "Mon"@,
        month_page(inputs)->0.weekday_labels[6] == "Sun"@,
{
    shown_dates_hold_date(inputs.params.view, inputs.params.date);
    let n = weeks_up_to(from, to);
    weeks_between(from.num(), to.num());
    assert(n * 7 == to.num() - from.num());
    assert(month_page(inputs)->0.weeks.len() == n);
    assert(month_page(inputs)->0.weekday_labels == weekday_labels());
}

proof fn weeks_between(a: int, b: int)
    requires
        a < b,
        (b - a) % 7 == 0,
    ensures
        (b - a + 6) / 7 * 7 == b - a,
{
}

/// A page shows what the visible calendars have between two midnights on the viewer's clock, in the
/// colors and by the clock that it is given.
pub proof fn page_shows_dates(inputs: BuildInputsV, from: NaiveDate, to: NaiveDate)
    ensures
        inputs.localized(from, to) == localization(
            inputs.events,
            inputs.params.visible,
            inputs.viewer_tz,
            NaiveDateTime { date: from, secs: 0, leap: false },
            NaiveDateTime { date: to, secs: 0, leap: false },
        ),
        inputs.style().calendars == inputs.calendars,
        inputs.style().ics_colors == inputs.ics_colors,
        inputs.style().time_format == inputs.time_format,
{
}

} // verus!
