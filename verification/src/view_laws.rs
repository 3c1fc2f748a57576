//! What the views draw and where they lead: the occurrences of the visible events, their places
//! and colors, the agenda, and the steps from page to page.

use vstd::prelude::*;
use vstd::string::*;
use crate::calendar::{
    date_less, date_of_exists, date_of_num, month_len, month_starts, nums_ascend, plus_days,
    plus_months, plus_secs, range_bounds, time_less, year_step, NaiveDate, NaiveDateTime,
};
use crate::collections::{
    in_order, insert_sorted, map_get, stable_sorted, stable_sorted_in_order, total_preorder,
    Ordered,
};
use crate::duration::duration_secs;
use crate::grid::{
    agenda_items, agenda_label, agenda_page, dated_birthdays, dated_events, dated_holidays, grouped,
    groups_ascend, AgendaGroupV, BuildInputsV, Dated, DatedV,
};
use crate::jscalendar::{CalendarEventV, CalendarV};
use crate::jscontact::BirthdayOccurrenceV;
use crate::layout::{birthday_view, calendar_named, event_view, holiday_view, StyleV};
use crate::numbers::{dec, int_text, zero_fill};
use crate::page_laws::{
    any_starting_on, birthdays_are_filtered, birthdays_of, holidays_are_filtered, holidays_of,
    views_by_date,
};
use crate::recurrence::expansion;
use crate::state::TimeFormat;
use crate::timetext::{clock_text, two};
use crate::tz::converted;
use crate::view::{
    all_some, concat_lists, event_calendar, event_zone, first_of_month, hours_by, localization,
    localize_event, localize_occurrence, monday_follows, next_month_follows, range_in_zone,
    shown_dates, week_starts_on_monday, EventViewV, Localized, LocalizedV, ViewKind, ViewParamsV,
    HOUR_HEIGHT_PX,
};

verus! {

// ---------------------------------------------------------------------------
// The occurrences of the visible events
// ---------------------------------------------------------------------------

proof fn item_of_some_list<T>(lists: Seq<Seq<T>>, x: int) -> (r: (int, int))
    requires
        0 <= x < concat_lists(lists).len(),
    ensures
        0 <= r.0 < lists.len(),
        0 <= r.1 < lists[r.0].len(),
        concat_lists(lists)[x] == lists[r.0][r.1],
    decreases lists.len(),
{
    let t = lists.drop_last();
    let n = concat_lists(t).len();
    if x < n {
        let r = item_of_some_list(t, x);
        assert(t[r.0] == lists[r.0]);
        r
    } else {
        (lists.len() - 1, x - n)
    }
}

proof fn item_is_in_all<T>(lists: Seq<Seq<T>>, i: int, j: int)
    requires
        0 <= i < lists.len(),
        0 <= j < lists[i].len(),
    ensures
        concat_lists(lists).contains(lists[i][j]),
    decreases lists.len(),
{
    let t = lists.drop_last();
    let all = concat_lists(lists);
    if i < t.len() {
        assert(t[i] == lists[i]);
        item_is_in_all(t, i, j);
        let k = choose|k: int| 0 <= k < concat_lists(t).len() && concat_lists(t)[k] == lists[i][j];
        assert(all[k] == lists[i][j]);
    } else {
        assert(all[concat_lists(t).len() + j] == lists[i][j]);
    }
}

proof fn localized_have_order()
    ensures
        total_preorder(|a: LocalizedV, b: LocalizedV| Localized::le_view(a, b)),
{
    let le = |a: LocalizedV, b: LocalizedV| Localized::le_view(a, b);
    assert forall|a: LocalizedV, b: LocalizedV, c: LocalizedV| #[trigger] le(a, b) && #[trigger] le(
        b,
        c,
    ) implies le(a, c) by {}
}

/// What is shown comes in the order of the starts.
pub proof fn shown_in_order(
    events: Seq<CalendarEventV>,
    visible: Set<Seq<char>>,
    viewer: Seq<char>,
    range_start: NaiveDateTime,
    range_end: NaiveDateTime,
    i: int,
    j: int,
)
    requires
        localization(events, visible, viewer, range_start, range_end) is Some,
        0 <= i <= j < localization(events, visible, viewer, range_start, range_end)->0.len(),
    ensures
        !time_less(
            localization(events, visible, viewer, range_start, range_end)->0[j].start,
            localization(events, visible, viewer, range_start, range_end)->0[i].start,
        ),
{
    let lists = all_some(
        Seq::new(
            events.len(),
            |i: int| localize_event(events[i], visible, viewer, range_start, range_end),
        ),
    )->0;
    let le = |a: LocalizedV, b: LocalizedV| Localized::le_view(a, b);
    let out = localization(events, visible, viewer, range_start, range_end)->0;
    localized_have_order();
    stable_sorted_in_order(concat_lists(lists), le);
    assert(le(out[i], out[j]));
}

/// What is shown is an occurrence of an event whose calendar is visible: the first calendar of the
/// event. It is shown at the time that the viewer's clock has when the occurrence starts, and
/// for as long as it lasts.
#[verifier::spinoff_prover]
#[verifier::rlimit(60)]
pub proof fn shown_is_an_occurrence(
    events: Seq<CalendarEventV>,
    visible: Set<Seq<char>>,
    viewer: Seq<char>,
    range_start: NaiveDateTime,
    range_end: NaiveDateTime,
    x: int,
) -> (r: (int, int))
    requires
        localization(events, visible, viewer, range_start, range_end) is Some,
        0 <= x < localization(events, visible, viewer, range_start, range_end)->0.len(),
    ensures
        0 <= r.0 < events.len(),
        ({
            let l = localization(events, visible, viewer, range_start, range_end)->0[x];
            let event = events[r.0];
            &&& visible.contains(l.calendar_id)
            &&& event.calendar_ids matches Some(m) ==> (m.len() > 0 ==> l.calendar_id == m[0].0)
            &&& event_zone(event) is None ==> (expansion(event, range_start, range_end)
                matches Some(out) && 0 <= r.1 < out.len() && l.event == out[r.1].event && l.start
                == out[r.1].start)
            &&& event_zone(event) matches Some(zone) ==> (converted(range_start, Some(viewer), zone)
                matches Some(a) && converted(range_end, Some(viewer), zone) matches Some(b)
                && expansion(event, a, b) matches Some(out) && 0 <= r.1 < out.len() && l.event
                == out[r.1].event && converted(out[r.1].start, Some(zone), viewer) == Some(l.start))
            &&& l.all_day == l.event.show_without_time
            &&& duration_secs(l.event.duration) matches Some(Some(n)) ==> plus_secs(l.start, n)
                == Some(l.end)
            &&& duration_secs(l.event.duration) == Some(None::<int>) ==> l.end == l.start
        }),
{
    let parts = Seq::new(
        events.len(),
        |i: int| localize_event(events[i], visible, viewer, range_start, range_end),
    );
    let lists = all_some(parts)->0;
    let le = |a: LocalizedV, b: LocalizedV| Localized::le_view(a, b);
    let all = concat_lists(lists);
    let out = localization(events, visible, viewer, range_start, range_end)->0;
    localized_have_order();
    stable_sorted_in_order(all, le);
    all.to_multiset_ensures();
    out.to_multiset_ensures();
    assert(out.contains(out[x]));
    assert(out.to_multiset().count(out[x]) > 0);
    assert(all.contains(out[x]));
    let y = choose|y: int| 0 <= y < all.len() && all[y] == out[x];
    let r = item_of_some_list(lists, y);
    assert(parts[r.0] is Some && lists[r.0] == parts[r.0]->0);
    let zone = event_zone(events[r.0]);
    let a = range_in_zone(range_start, zone, viewer)->0;
    let b = range_in_zone(range_end, zone, viewer)->0;
    let occs = expansion(events[r.0], a, b)->0;
    let each = Seq::new(
        occs.len(),
        |i: int| localize_occurrence(occs[i], zone, viewer, event_calendar(events[r.0])),
    );
    assert(lists[r.0] == all_some(each)->0);
    assert(each[r.1] is Some);
    r
}

/// Each occurrence of an event whose calendar is visible is shown.
#[verifier::spinoff_prover]
#[verifier::rlimit(60)]
pub proof fn occurrence_is_shown(
    events: Seq<CalendarEventV>,
    visible: Set<Seq<char>>,
    viewer: Seq<char>,
    range_start: NaiveDateTime,
    range_end: NaiveDateTime,
    e: int,
    from: NaiveDateTime,
    to: NaiveDateTime,
    o: int,
)
    requires
        localization(events, visible, viewer, range_start, range_end) is Some,
        0 <= e < events.len(),
        events[e].calendar_ids matches Some(m) && m.len() > 0 && visible.contains(m[0].0),
        match event_zone(events[e]) {
            Some(zone) => converted(range_start, Some(viewer), zone) == Some(from) && converted(
                range_end,
                Some(viewer),
                zone,
            ) == Some(to),
            None => from == range_start && to == range_end,
        },
        expansion(events[e], from, to) matches Some(out) && 0 <= o < out.len(),
    ensures
        exists|x: int|
            0 <= x < localization(events, visible, viewer, range_start, range_end)->0.len()
                && (#[trigger] localization(
                events,
                visible,
                viewer,
                range_start,
                range_end,
            )->0[x]).event == expansion(events[e], from, to)->0[o].event && converted(
                expansion(events[e], from, to)->0[o].start,
                event_zone(events[e]),
                viewer,
            ) == Some(
                localization(events, visible, viewer, range_start, range_end)->0[x].start,
            ),
{
    let parts = Seq::new(
        events.len(),
        |i: int| localize_event(events[i], visible, viewer, range_start, range_end),
    );
    let lists = all_some(parts)->0;
    let le = |a: LocalizedV, b: LocalizedV| Localized::le_view(a, b);
    let all = concat_lists(lists);
    let out = localization(events, visible, viewer, range_start, range_end)->0;
    assert(parts[e] is Some && lists[e] == parts[e]->0);
    let zone = event_zone(events[e]);
    let occs = expansion(events[e], from, to)->0;
    let each = Seq::new(
        occs.len(),
        |i: int| localize_occurrence(occs[i], zone, viewer, event_calendar(events[e])),
    );
    assert(lists[e] == all_some(each)->0);
    assert(each[o] is Some);
    item_is_in_all(lists, e, o);
    let l = lists[e][o];
    localized_have_order();
    stable_sorted_in_order(all, le);
    all.to_multiset_ensures();
    out.to_multiset_ensures();
    assert(all.to_multiset().count(l) > 0);
    assert(out.contains(l));
    let x = choose|x: int| 0 <= x < out.len() && out[x] == l;
    assert(out[x].event == occs[o].event);
}

// ---------------------------------------------------------------------------
// How an occurrence is drawn
// ---------------------------------------------------------------------------

/// An occurrence is drawn with the event's own title, and under its id; with the color of its
/// subscription, or else of its calendar; and with the times on the viewer's clock.
pub proof fn drawing_shows_event(l: LocalizedV, style: StyleV)
    ensures
        ({
            let v = event_view(l, style);
            &&& l.event.title matches Some(t) ==> (t.len() > 0 ==> v.title == t)
            &&& l.event.id matches Some(i) ==> v.id == i
            &&& v.all_day == l.all_day
            &&& !v.is_birthday
            &&& map_get(style.ics_colors, l.calendar_id) matches Some(c) ==> v.color == c
            &&& map_get(style.ics_colors, l.calendar_id) is None ==> (calendar_named(
                style.calendars,
                l.calendar_id,
            ) matches Some(c) ==> (c.color matches Some(color) ==> v.color == color))
            &&& l.all_day ==> v.time_label == "All day"@
            &&& !l.all_day && style.time_format is TwentyFour ==> v.time_label == two(
                l.start.hour(),
            ).push(':') + two(l.start.minute()) + "\u{2013}"@ + (two(l.end.hour()).push(':') + two(
                l.end.minute(),
            ))
            &&& !l.all_day && style.time_format is Twelve ==> v.time_label == clock_text(l.start)
                + "\u{2013}"@ + clock_text(l.end)
            &&& l.event.id matches Some(i) ==> l.event.recurrence_id is None ==> v.edit_href
                == "/app/event/"@ + i + "/edit"@
        }),
{
    if let Some(i) = l.event.id {
        if l.event.recurrence_id is None {
            assert(event_view(l, style).edit_href =~= "/app/event/"@ + i + "/edit"@);
        }
    }
}

/// A calendar is found by its id, and it is the first of that id.
pub proof fn named_calendar_has_id(calendars: Seq<CalendarV>, id: Seq<char>, i: int)
    requires
        0 <= i < calendars.len(),
        calendars[i].id == Some(id),
        forall|j: int| 0 <= j < i ==> (#[trigger] calendars[j]).id != Some(id),
    ensures
        calendar_named(calendars, id) == Some(calendars[i]),
    decreases i,
{
    if i > 0 {
        let t = calendars.skip(1);
        assert(calendars[0].id != Some(id));
        assert forall|j: int| 0 <= j < i - 1 implies (#[trigger] t[j]).id != Some(id) by {
            assert(t[j] == calendars[j + 1]);
        }
        named_calendar_has_id(t, id, i - 1);
    }
}

/// An occurrence is drawn as far down as its start is in the day, and as high as it is long, to
/// within half a pixel; what is short is drawn with at least 22 pixels.
#[verifier::spinoff_prover]
#[verifier::rlimit(60)]
pub proof fn drawing_is_to_scale(l: LocalizedV, style: StyleV)
    requires
        l.start.valid(),
        l.end.valid(),
        !l.start.leap,
        !l.end.leap,
        l.end.num() >= l.start.num(),
    ensures
        ({
            let v = event_view(l, style);
            let from = l.start.hour() * 60 + l.start.minute();
            let long = (l.end.num() - l.start.num()) / 60;
            &&& -30 <= 60 * v.top_px - from * HOUR_HEIGHT_PX <= 30
            &&& v.height_px >= 22
            &&& long >= 30 ==> -30 <= 60 * v.height_px - long * HOUR_HEIGHT_PX <= 30
        }),
{
    let secs = l.start.secs as int;
    range_bounds();
    date_of_num(l.start.date);
    date_of_num(l.end.date);
    assert((secs / 3600) * 60 + (secs % 3600) / 60 == secs / 60);
}

// ---------------------------------------------------------------------------
// The agenda
// ---------------------------------------------------------------------------

/// The items of a date.
pub open spec fn items_on(s: Seq<DatedV>, date: NaiveDate) -> Seq<EventViewV> {
    s.filter(|x: DatedV| x.date == date).map_values(|x: DatedV| x.event)
}

proof fn items_step(s: Seq<DatedV>, x: DatedV, date: NaiveDate)
    ensures
        items_on(s.push(x), date) == (if x.date == date {
            items_on(s, date).push(x.event)
        } else {
            items_on(s, date)
        }),
{
    reveal(Seq::filter);
    let keep = |x: DatedV| x.date == date;
    let show = |x: DatedV| x.event;
    assert(s.push(x).drop_last() =~= s);
    assert(s.push(x).last() == x);
    if x.date == date {
        assert(s.push(x).filter(keep) == s.filter(keep).push(x));
        assert(s.push(x).filter(keep).map_values(show) =~= s.filter(keep).map_values(show).push(
            x.event,
        ));
    }
}

proof fn no_items(date: NaiveDate)
    ensures
        items_on(Seq::empty(), date) == Seq::<EventViewV>::empty(),
{
    reveal(Seq::filter);
    assert(items_on(Seq::empty(), date) =~= Seq::empty());
}

proof fn inserting_keeps_items(s: Seq<DatedV>, x: DatedV, date: NaiveDate)
    ensures
        items_on(insert_sorted(s, x, |a: DatedV, b: DatedV| Dated::le_view(a, b)), date)
            == items_on(s.push(x), date),
    decreases s.len(),
{
    let le = |a: DatedV, b: DatedV| Dated::le_view(a, b);
    if s.len() > 0 && !le(s.last(), x) {
        let t = s.drop_last();
        inserting_keeps_items(t, x, date);
        assert(t.push(s.last()) =~= s);
        items_step(insert_sorted(t, x, le), s.last(), date);
        items_step(t, x, date);
        items_step(t, s.last(), date);
        items_step(s, x, date);
    }
}

proof fn sorting_keeps_items(s: Seq<DatedV>, date: NaiveDate)
    ensures
        items_on(stable_sorted(s, |a: DatedV, b: DatedV| Dated::le_view(a, b)), date) == items_on(
            s,
            date,
        ),
    decreases s.len(),
{
    let le = |a: DatedV, b: DatedV| Dated::le_view(a, b);
    if s.len() > 0 {
        let t = s.drop_last();
        sorting_keeps_items(t, date);
        inserting_keeps_items(stable_sorted(t, le), s.last(), date);
        items_step(stable_sorted(t, le), s.last(), date);
        assert(t.push(s.last()) =~= s);
        items_step(t, s.last(), date);
    }
}

proof fn items_of_sum(a: Seq<DatedV>, b: Seq<DatedV>, date: NaiveDate)
    ensures
        items_on(a + b, date) == items_on(a, date) + items_on(b, date),
    decreases b.len(),
{
    if b.len() == 0 {
        assert(a + b =~= a);
        no_items(date);
        assert(b =~= Seq::empty());
        assert(items_on(a, date) + items_on(b, date) =~= items_on(a, date));
    } else {
        let t = b.drop_last();
        items_of_sum(a, t, date);
        assert(a + b =~= (a + t).push(b.last()));
        assert(b =~= t.push(b.last()));
        items_step(a + t, b.last(), date);
        items_step(t, b.last(), date);
        if b.last().date == date {
            assert(items_on(a + b, date) =~= items_on(a, date) + items_on(b, date));
        }
    }
}

proof fn dated_parts(inputs: BuildInputsV, ls: Seq<LocalizedV>, date: NaiveDate)
    ensures
        items_on(dated_birthdays(inputs.birthdays), date) == birthdays_of(inputs.birthdays, date),
        items_on(dated_holidays(inputs.holidays), date) == holidays_of(inputs.holidays, date),
        items_on(dated_events(ls, inputs.style()), date) == any_starting_on(
            ls,
            date,
            inputs.style(),
        ),
{
    dated_birthdays_by_date(inputs.birthdays, date);
    dated_holidays_by_date(inputs.holidays, date);
    dated_events_by_date(ls, inputs.style(), date);
}

proof fn dated_birthdays_by_date(
    bs: Seq<BirthdayOccurrenceV>,
    date: NaiveDate,
)
    ensures
        items_on(dated_birthdays(bs), date) == birthdays_of(bs, date),
    decreases bs.len(),
{
    birthdays_are_filtered(bs, date);
    if bs.len() == 0 {
        no_items(date);
        assert(dated_birthdays(bs) =~= Seq::empty());
    } else {
        let t = bs.drop_last();
        dated_birthdays_by_date(t, date);
        birthdays_are_filtered(t, date);
        let x = DatedV { date: bs.last().date, event: birthday_view(bs.last()) };
        assert(dated_birthdays(bs) =~= dated_birthdays(t).push(x));
        items_step(dated_birthdays(t), x, date);
    }
}

proof fn dated_holidays_by_date(hs: Seq<(NaiveDate, Seq<char>)>, date: NaiveDate)
    ensures
        items_on(dated_holidays(hs), date) == holidays_of(hs, date),
    decreases hs.len(),
{
    holidays_are_filtered(hs, date);
    if hs.len() == 0 {
        no_items(date);
        assert(dated_holidays(hs) =~= Seq::empty());
    } else {
        let t = hs.drop_last();
        dated_holidays_by_date(t, date);
        holidays_are_filtered(t, date);
        let x = DatedV {
            date: hs.last().0,
            event: holiday_view(hs.last().0, hs.last().1),
        };
        assert(dated_holidays(hs) =~= dated_holidays(t).push(x));
        items_step(dated_holidays(t), x, date);
    }
}

proof fn dated_events_by_date(ls: Seq<LocalizedV>, style: StyleV, date: NaiveDate)
    ensures
        items_on(dated_events(ls, style), date) == any_starting_on(ls, date, style),
    decreases ls.len(),
{
    views_by_date(ls, date, true, style);
    if ls.len() == 0 {
        no_items(date);
        assert(dated_events(ls, style) =~= Seq::empty());
    } else {
        let t = ls.drop_last();
        dated_events_by_date(t, style, date);
        views_by_date(t, date, true, style);
        let x = DatedV { date: ls.last().start.date, event: event_view(ls.last(), style) };
        assert(dated_events(ls, style) =~= dated_events(t, style).push(x));
        items_step(dated_events(t, style), x, date);
    }
}

proof fn front_in_order(s: Seq<DatedV>)
    requires
        s.len() > 0,
        in_order(s, |a: DatedV, b: DatedV| Dated::le_view(a, b)),
    ensures
        in_order(s.drop_last(), |a: DatedV, b: DatedV| Dated::le_view(a, b)),
{
    let le = |a: DatedV, b: DatedV| Dated::le_view(a, b);
    let t = s.drop_last();
    assert forall|i: int, j: int| 0 <= i <= j < t.len() implies le(
        #[trigger] t[i],
        #[trigger] t[j],
    ) by {
        assert(le(s[i], s[j]));
    }
}

proof fn item_has_group(s: Seq<DatedV>, today: NaiveDate, k: int) -> (i: int)
    requires
        0 <= k < s.len(),
    ensures
        0 <= i < grouped(s, today).len(),
        grouped(s, today)[i].date == s[k].date,
    decreases s.len(),
{
    let t = s.drop_last();
    if k < t.len() {
        let i = item_has_group(t, today, k);
        assert(t[k] == s[k]);
        i
    } else {
        grouped(s, today).len() - 1
    }
}

proof fn group_has_item(s: Seq<DatedV>, today: NaiveDate, i: int) -> (k: int)
    requires
        0 <= i < grouped(s, today).len(),
    ensures
        0 <= k < s.len(),
        s[k].date == grouped(s, today)[i].date,
    decreases s.len(),
{
    let t = s.drop_last();
    if i < grouped(t, today).len() {
        let k = group_has_item(t, today, i);
        assert(t[k] == s[k]);
        k
    } else {
        s.len() - 1
    }
}

#[verifier::spinoff_prover]
#[verifier::rlimit(60)]
proof fn group_holds_items(s: Seq<DatedV>, today: NaiveDate, i: int)
    requires
        in_order(s, |a: DatedV, b: DatedV| Dated::le_view(a, b)),
        0 <= i < grouped(s, today).len(),
    ensures
        grouped(s, today)[i].events == items_on(s, grouped(s, today)[i].date),
        grouped(s, today)[i].events.len() > 0,
    decreases s.len(),
{
    if s.len() > 0 {
        let le = |a: DatedV, b: DatedV| Dated::le_view(a, b);
        let t = s.drop_last();
        let x = s.last();
        let n = s.len() as int;
        front_in_order(s);
        groups_ascend(t, today);
        assert(t.push(x) =~= s);
        let g = grouped(t, today);
        let h = grouped(s, today);
        let joined = g.len() > 0 && g.last().date == x.date;
        items_step(t, x, h[i].date);
        if t.len() > 0 {
            assert(le(s[n - 2], s[n - 1]));
            assert(t.last() == s[n - 2]);
        }
        if i < g.len() {
            group_holds_items(t, today, i);
            if joined && i < g.len() - 1 {
                assert(date_less(g[i].date, g[g.len() - 1].date));
                assert(h[i] == g[i]);
            } else if !joined {
                assert(h[i] == g[i]);
                let k = group_has_item(t, today, i);
                assert(le(s[k], s[n - 2]));
            }
        } else {
            nothing_before(t, g, x.date, today);
            assert(h[i].events =~= items_on(t, x.date).push(x.event));
        }
    }
}

/// Where no group has a date, nothing of the list is on it.
proof fn nothing_before(
    t: Seq<DatedV>,
    g: Seq<AgendaGroupV>,
    date: NaiveDate,
    today: NaiveDate,
)
    requires
        g == grouped(t, today),
        in_order(t, |a: DatedV, b: DatedV| Dated::le_view(a, b)),
        g.len() > 0 ==> g.last().date != date && t.len() > 0 && g.last().date == t.last().date,
        t.len() > 0 ==> g.len() > 0 && !date_less(date, t.last().date),
    ensures
        items_on(t, date) == Seq::<EventViewV>::empty(),
{
    let le = |a: DatedV, b: DatedV| Dated::le_view(a, b);
    assert forall|k: int| 0 <= k < t.len() implies (#[trigger] t[k]).date != date by {
        assert(le(t[k], t[t.len() - 1]));
    }
    none_on(t, date);
}

proof fn none_on(t: Seq<DatedV>, date: NaiveDate)
    requires
        forall|k: int| 0 <= k < t.len() ==> (#[trigger] t[k]).date != date,
    ensures
        items_on(t, date) == Seq::<EventViewV>::empty(),
    decreases t.len(),
{
    if t.len() == 0 {
        no_items(date);
        assert(t =~= Seq::empty());
    } else {
        let u = t.drop_last();
        assert forall|k: int| 0 <= k < u.len() implies (#[trigger] u[k]).date != date by {
            assert(u[k] == t[k]);
        }
        none_on(u, date);
        assert(u.push(t.last()) =~= t);
        assert(t[t.len() - 1].date != date);
        items_step(u, t.last(), date);
    }
}

proof fn dated_have_order()
    ensures
        total_preorder(|a: DatedV, b: DatedV| Dated::le_view(a, b)),
{
    let le = |a: DatedV, b: DatedV| Dated::le_view(a, b);
    assert forall|a: DatedV, b: DatedV, c: DatedV| #[trigger] le(a, b) && #[trigger] le(
        b,
        c,
    ) implies le(a, c) by {}
}

/// What the agenda has on a date.
spec fn all_on(inputs: BuildInputsV, ls: Seq<LocalizedV>, date: NaiveDate) -> Seq<EventViewV> {
    birthdays_of(inputs.birthdays, date) + holidays_of(inputs.holidays, date) + any_starting_on(
        ls,
        date,
        inputs.style(),
    )
}

proof fn agenda_items_on(inputs: BuildInputsV, ls: Seq<LocalizedV>, date: NaiveDate)
    ensures
        items_on(
            stable_sorted(
                agenda_items(inputs, ls),
                |a: DatedV, b: DatedV| Dated::le_view(a, b),
            ),
            date,
        ) == all_on(inputs, ls, date),
{
    sorting_keeps_items(agenda_items(inputs, ls), date);
    let b = dated_birthdays(inputs.birthdays);
    let h = dated_holidays(inputs.holidays);
    items_of_sum(b, h, date);
    items_of_sum(b + h, dated_events(ls, inputs.style()), date);
    dated_parts(inputs, ls, date);
}

proof fn listed_date_has_group(s: Seq<DatedV>, today: NaiveDate, date: NaiveDate) -> (i: int)
    requires
        items_on(s, date).len() > 0,
    ensures
        0 <= i < grouped(s, today).len(),
        grouped(s, today)[i].date == date,
{
    if forall|k: int| 0 <= k < s.len() ==> (#[trigger] s[k]).date != date {
        none_on(s, date);
    }
    let k = choose|k: int| 0 <= k < s.len() && (#[trigger] s[k]).date == date;
    item_has_group(s, today, k)
}

/// A day of the agenda lists the birthdays of that day, then its holidays, and then the occurrences
/// that start on it, in the order of their starts; and something is on it.
#[verifier::spinoff_prover]
#[verifier::rlimit(60)]
pub proof fn agenda_day_holds_its_day(inputs: BuildInputsV, end: NaiveDate, i: int)
    requires
        inputs.params.date.valid(),
        end.valid(),
        end.num() == inputs.params.date.num() + 30,
        agenda_page(inputs) is Some,
        0 <= i < agenda_page(inputs)->0.groups.len(),
    ensures
        inputs.localized(inputs.params.date, end) is Some,
        ({
            let group = agenda_page(inputs)->0.groups[i];
            &&& group.events == birthdays_of(inputs.birthdays, group.date) + holidays_of(
                inputs.holidays,
                group.date,
            ) + any_starting_on(
                inputs.localized(inputs.params.date, end)->0,
                group.date,
                inputs.style(),
            )
            &&& group.events.len() > 0
        }),
{
    date_of_num(end);
    let ls = inputs.localized(inputs.params.date, end)->0;
    let le = |a: DatedV, b: DatedV| Dated::le_view(a, b);
    let items = agenda_items(inputs, ls);
    let date = agenda_page(inputs)->0.groups[i].date;
    dated_have_order();
    stable_sorted_in_order(items, le);
    group_holds_items(stable_sorted(items, le), inputs.today, i);
    agenda_items_on(inputs, ls, date);
}

/// Every date with something on it has its day in the agenda: with an occurrence that starts on it,
/// a birthday or a holiday.
#[verifier::spinoff_prover]
#[verifier::rlimit(50)]
pub proof fn agenda_misses_no_day(inputs: BuildInputsV, end: NaiveDate, date: NaiveDate)
    requires
        inputs.params.date.valid(),
        end.valid(),
        end.num() == inputs.params.date.num() + 30,
        agenda_page(inputs) is Some,
        any_starting_on(
            inputs.localized(inputs.params.date, end)->0,
            date,
            inputs.style(),
        ).len() > 0 || birthdays_of(inputs.birthdays, date).len() > 0 || holidays_of(
            inputs.holidays,
            date,
        ).len() > 0,
    ensures
        exists|i: int|
            0 <= i < agenda_page(inputs)->0.groups.len() && (#[trigger] agenda_page(
                inputs,
            )->0.groups[i]).date == date,
{
    date_of_num(end);
    let ls = inputs.localized(inputs.params.date, end)->0;
    let s = stable_sorted(
        agenda_items(inputs, ls),
        |a: DatedV, b: DatedV| Dated::le_view(a, b),
    );
    assert(items_on(s, date).len() > 0) by {
        agenda_items_on(inputs, ls, date);
    }
    let g = grouped(s, inputs.today);
    assert(agenda_page(inputs)->0.groups == g);
    let i = listed_date_has_group(s, inputs.today, date);
    assert(agenda_page(inputs)->0.groups[i].date == date);
}

/// A day of the agenda is labelled as today or tomorrow where it is.
#[verifier::spinoff_prover]
#[verifier::rlimit(60)]
pub proof fn agenda_labels_near_days(inputs: BuildInputsV, i: int)
    requires
        inputs.today.valid(),
        agenda_page(inputs) is Some,
        0 <= i < agenda_page(inputs)->0.groups.len(),
        agenda_page(inputs)->0.groups[i].date.valid(),
    ensures
        ({
            let group = agenda_page(inputs)->0.groups[i];
            &&& group.date.num() == inputs.today.num() ==> group.label == "Today"@
            &&& group.date.num() == inputs.today.num() + 1 ==> group.label == "Tomorrow"@
        }),
{
    let group = agenda_page(inputs)->0.groups[i];
    let ls = inputs.localized(inputs.params.date, plus_days(inputs.params.date, 30)->0)->0;
    let s = stable_sorted(
        agenda_items(inputs, ls),
        |a: DatedV, b: DatedV| Dated::le_view(a, b),
    );
    labels_by_date(s, inputs.today, i);
    nums_ascend(group.date, inputs.today);
    date_of_num(group.date);
}

proof fn labels_by_date(s: Seq<DatedV>, today: NaiveDate, i: int)
    requires
        0 <= i < grouped(s, today).len(),
    ensures
        grouped(s, today)[i].label == agenda_label(grouped(s, today)[i].date, today),
    decreases s.len(),
{
    if s.len() > 0 {
        let g = grouped(s.drop_last(), today);
        if i < g.len() {
            labels_by_date(s.drop_last(), today, i);
        }
    }
}

// ---------------------------------------------------------------------------
// From page to page
// ---------------------------------------------------------------------------

/// A step goes on by a week, a day or thirty days, by the view; in the month view to the next
/// month, on the same day or, where that month is shorter, on its last; and nowhere among contacts.
/// A step back goes as far.
#[verifier::spinoff_prover]
#[verifier::rlimit(60)]
pub proof fn step_goes_by_view(p: ViewParamsV, sign: int, to: NaiveDate)
    requires
        p.date.valid(),
        sign == 1 || sign == -1,
        p.stepped(sign) == Some(to),
    ensures
        to.valid(),
        p.view is Week ==> to.num() == p.date.num() + 7 * sign,
        p.view is Day ==> to.num() == p.date.num() + sign,
        p.view is Agenda ==> to.num() == p.date.num() + 30 * sign,
        p.view is Contacts ==> to == p.date,
        p.view is Month && to != p.date ==> {
            &&& to.year * 12 + to.month == p.date.year * 12 + p.date.month + sign
            &&& p.date.day <= month_len(to.year as int, to.month as int) ==> to.day == p.date.day
            &&& p.date.day > month_len(to.year as int, to.month as int) ==> to.day == month_len(
                to.year as int,
                to.month as int,
            )
        },
{
    if !(p.view is Month || p.view is Contacts) {
        date_of_exists(p.date.num() + sign * p.step_days());
        assert(sign * p.step_days() == p.step_days() * sign) by (nonlinear_arith);
    }
}

/// A view shows its dates: a week from Monday on, a day, thirty days, or the whole weeks that a
/// month touches.
#[verifier::spinoff_prover]
#[verifier::rlimit(60)]
pub proof fn view_shows_its_dates(view: ViewKind, date: NaiveDate, from: NaiveDate, to: NaiveDate)
    requires
        date.valid(),
        shown_dates(view, date) == Some((from, to)),
    ensures
        from.valid() && to.valid(),
        view is Week ==> from.weekday_num() == 0 && from.num() <= date.num() < from.num() + 7
            && to.num() == from.num() + 7,
        view is Day ==> from == date && to.num() == date.num() + 1,
        view is Agenda ==> from == date && to.num() == date.num() + 30,
        view is Month ==> {
            let first = NaiveDate { year: date.year, month: date.month, day: 1 };
            let next = first.num() + month_len(date.year as int, date.month as int);
            &&& from.weekday_num() == 0
            &&& from.num() <= first.num() < from.num() + 7
            &&& to.weekday_num() == 0
            &&& next <= to.num() < next + 7
        },
{
    match view {
        ViewKind::Month => {
            next_month_follows(date);
            week_starts_on_monday(first_of_month(date));
            let next = plus_months(first_of_month(date), 1)->0;
            monday_follows(next);
            month_starts(date.year as int);
            year_step(date.year as int);
            month_starts(date.year + 1);
        },
        ViewKind::Week => {
            week_starts_on_monday(date);
            date_of_exists(from.num() + 7);
        },
        ViewKind::Day => {
            date_of_exists(date.num() + 1);
        },
        ViewKind::Agenda => {
            date_of_exists(date.num() + 30);
        },
        ViewKind::Contacts => {},
    }
}

/// The rows beside the columns are the hours of a day, each labelled by the viewer's clock.
pub proof fn hours_are_rows(format: TimeFormat, h: int)
    requires
        0 <= h < 24,
    ensures
        hours_by(format).len() == 24,
        hours_by(format)[h].hour == h,
        format is TwentyFour ==> hours_by(format)[h].label == two(h) + ":00"@,
        format is Twelve && h == 0 ==> hours_by(format)[h].label == "12 AM"@,
        format is Twelve && 1 <= h < 12 ==> hours_by(format)[h].label == dec(h as nat) + " AM"@,
        format is Twelve && h == 12 ==> hours_by(format)[h].label == "12 PM"@,
        format is Twelve && 13 <= h ==> hours_by(format)[h].label == dec((h - 12) as nat) + " PM"@,
{
    assert(zero_fill(dec(h as nat), 2) == two(h)) by {
        reveal_with_fuel(dec, 3);
        assert(zero_fill(dec(h as nat), 2) =~= two(h));
    }
}

/// A birthday is drawn over its day with the name of the contact, and with the age that they get
/// where it is known; a holiday with its name.
pub proof fn days_of_note_are_drawn(b: BirthdayOccurrenceV, date: NaiveDate, name: Seq<char>)
    ensures
        birthday_view(b).all_day && birthday_view(b).is_birthday,
        b.turns is None ==> birthday_view(b).title == "\u{1f382} "@ + b.name,
        b.turns matches Some(age) ==> birthday_view(b).title == "\u{1f382} "@ + b.name + (
        " turns "@ + int_text(age as int)),
        holiday_view(date, name).all_day && !holiday_view(date, name).is_birthday,
        holiday_view(date, name).title == name,
{
    if b.turns is None {
        assert(birthday_view(b).title =~= "\u{1f382} "@ + b.name);
    }
}

} // verus!
