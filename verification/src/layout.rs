//! How the occurrences of a day are drawn: their labels, and the lanes of those that overlap.

use vstd::prelude::*;
use vstd::string::*;
use crate::calendar::{seconds_between, secs_between, NaiveDate, NaiveDateTime};
use crate::collections::{
    in_order, map_get, sort_items, stable_sorted, stable_sorted_in_order, CloneView, Ordered,
    StrMap,
};
use crate::jscalendar::{Calendar, CalendarV};
use crate::jscontact::{BirthdayOccurrence, BirthdayOccurrenceV};
use crate::numbers::{i64_text, int_text};
use crate::state::{TimeFormat, HOLIDAYS_COLOR};
use crate::text::{join, join_str, split, split_str, str_eq};
use crate::timetext::{clock_text, date_text, format_time, two};
use crate::view::{
    calendar_color, color_of, EventView, EventViewV, Localized, LocalizedV, BIRTHDAY_COLOR,
    HOUR_HEIGHT_PX,
};

verus! {

/// The height of so many minutes, to the nearest pixel.
pub open spec fn pixels(minutes: int) -> int {
    (minutes * HOUR_HEIGHT_PX + 30) / 60
}

/// The minutes from midnight to a time.
pub open spec fn minutes_into_day(t: NaiveDateTime) -> int {
    secs_between(t, t.date.midnight()) / 60
}

/// The minutes that an occurrence is drawn with: a quarter of an hour or more.
pub open spec fn minutes_drawn(start: NaiveDateTime, end: NaiveDateTime) -> int {
    if secs_between(end, start) / 60 < 15 {
        15
    } else {
        secs_between(end, start) / 60
    }
}

/// The height of an occurrence: never less than 22 pixels.
pub open spec fn drawn_height(start: NaiveDateTime, end: NaiveDateTime) -> int {
    if pixels(minutes_drawn(start, end)) < 22 {
        22
    } else {
        pixels(minutes_drawn(start, end))
    }
}

/// What decides how an occurrence looks: the calendars, the colors of the subscriptions by the
/// ids that stand for them, and the clock.
pub struct Style<'a> {
    pub calendars: &'a Vec<Calendar>,
    pub ics_colors: &'a StrMap<String>,
    pub time_format: TimeFormat,
}

/// What a [`Style`] stands for.
#[verifier::ext_equal]
pub struct StyleV {
    pub calendars: Seq<CalendarV>,
    pub ics_colors: Seq<(Seq<char>, Seq<char>)>,
    pub time_format: TimeFormat,
}

impl<'a> DeepView for Style<'a> {
    type V = StyleV;

    open spec fn deep_view(&self) -> StyleV {
        StyleV {
            calendars: self.calendars.deep_view(),
            ics_colors: self.ics_colors.deep_view(),
            time_format: self.time_format,
        }
    }
}

impl StyleV {
    /// The color of what is in a calendar: that of the subscription or of the calendar.
    pub open spec fn color(self, calendar_id: Seq<char>) -> Seq<char> {
        match map_get(self.ics_colors, calendar_id) {
            Some(color) => color,
            None => color_of(calendar_named(self.calendars, calendar_id), calendar_id),
        }
    }
}

/// A time of day on a clock.
pub open spec fn clock_by(t: NaiveDateTime, format: TimeFormat) -> Seq<char> {
    match format {
        TimeFormat::Twelve => clock_text(t),
        TimeFormat::TwentyFour => two(t.hour()).push(':') + two(t.minute()),
    }
}

/// The times that an occurrence runs from and to.
pub open spec fn time_span_text(
    start: NaiveDateTime,
    end: NaiveDateTime,
    format: TimeFormat,
) -> Seq<char> {
    clock_by(start, format) + "\u{2013}"@ + clock_by(end, format)
}

/// A text with its colons written as they stand in a URL.
pub open spec fn colons_escaped(s: Seq<char>) -> Seq<char> {
    join(split(s, ':'), "%3A"@)
}

/// The address of the page that edits an event or one occurrence of it.
pub open spec fn edit_address(id: Seq<char>, rid: Option<Seq<char>>) -> Seq<char> {
    "/app/event/"@ + id + "/edit"@ + match rid {
        Some(r) => "?rid="@ + colons_escaped(r),
        None => Seq::empty(),
    }
}

/// The first calendar with an id.
pub open spec fn calendar_named(calendars: Seq<CalendarV>, id: Seq<char>) -> Option<CalendarV>
    decreases calendars.len(),
{
    if calendars.len() == 0 {
        None
    } else if calendars[0].id == Some(id) {
        Some(calendars[0])
    } else {
        calendar_named(calendars.skip(1), id)
    }
}

/// The title that is shown for an event.
pub open spec fn shown_title(title: Option<Seq<char>>) -> Seq<char> {
    match title {
        Some(t) => if t.len() == 0 {
            "(untitled)"@
        } else {
            t
        },
        None => "(untitled)"@,
    }
}

/// How an occurrence is drawn, before it is given a lane.
pub open spec fn event_view(l: LocalizedV, style: StyleV) -> EventViewV {
    let id = match l.event.id {
        Some(i) => i,
        None => Seq::empty(),
    };
    EventViewV {
        id,
        title: shown_title(l.event.title),
        color: style.color(l.calendar_id),
        all_day: l.all_day,
        is_birthday: false,
        time_label: if l.all_day {
            "All day"@
        } else {
            time_span_text(l.start, l.end, style.time_format)
        },
        edit_href: edit_address(id, l.event.recurrence_id),
        top_px: pixels(minutes_into_day(l.start)) as i64,
        height_px: drawn_height(l.start, l.end) as i64,
        lane: 0,
        lanes: 0,
    }
}

/// How a birthday is drawn.
pub open spec fn birthday_view(b: BirthdayOccurrenceV) -> EventViewV {
    EventViewV {
        id: "bday-"@ + b.uid,
        title: "\u{1f382} "@ + b.name + match b.turns {
            Some(age) => " turns "@ + int_text(age as int),
            None => Seq::empty(),
        },
        color: BIRTHDAY_COLOR@,
        all_day: true,
        is_birthday: true,
        time_label: "Birthday"@,
        edit_href: Seq::empty(),
        top_px: 0,
        height_px: HOUR_HEIGHT_PX,
        lane: 0,
        lanes: 0,
    }
}

/// How a holiday is drawn.
pub open spec fn holiday_view(date: NaiveDate, name: Seq<char>) -> EventViewV {
    EventViewV {
        id: "holiday-"@ + date_text(date),
        title: name,
        color: HOLIDAYS_COLOR@,
        all_day: true,
        is_birthday: false,
        time_label: "Public holiday"@,
        edit_href: Seq::empty(),
        top_px: 0,
        height_px: HOUR_HEIGHT_PX,
        lane: 0,
        lanes: 0,
    }
}

fn clock(t: NaiveDateTime, format: TimeFormat) -> (r: String)
    requires
        t.valid(),
    ensures
        r@ == clock_by(t, format),
{
    match format {
        TimeFormat::Twelve => format_time(t, "%-I:%M %p"),
        TimeFormat::TwentyFour => format_time(t, "%H:%M"),
    }
}

fn time_label(start: NaiveDateTime, end: NaiveDateTime, format: TimeFormat) -> (r: String)
    requires
        start.valid(),
        end.valid(),
    ensures
        r@ == time_span_text(start, end, format),
{
    let mut out = clock(start, format);
    out.append("\u{2013}");
    out.append(clock(end, format).as_str());
    out
}

fn color_by(style: &Style, calendar_id: &str) -> (r: String)
    ensures
        r@ == style.deep_view().color(calendar_id@),
{
    match style.ics_colors.get(calendar_id) {
        Some(color) => color.clone(),
        None => calendar_color(find_calendar(style.calendars, calendar_id), calendar_id),
    }
}

fn urlencoding_light(s: &str) -> (r: String)
    ensures
        r@ == colons_escaped(s@),
{
    join_str(&split_str(s, ':'), "%3A")
}

/// The first of some calendars that has an id.
pub fn find_calendar<'a>(calendars: &'a Vec<Calendar>, id: &str) -> (r: Option<&'a Calendar>)
    ensures
        r.deep_view() == calendar_named(calendars.deep_view(), id@),
{
    let ghost all = calendars.deep_view();
    let mut i: usize = 0;
    assert(all.skip(0) =~= all);
    while i < calendars.len()
        invariant
            0 <= i <= calendars@.len(),
            all == calendars.deep_view(),
            calendar_named(all, id@) == calendar_named(all.skip(i as int), id@),
        decreases calendars@.len() - i,
    {
        assert(all.skip(i as int)[0] == calendars@[i as int].deep_view());
        assert(all.skip(i as int).skip(1) =~= all.skip(i + 1));
        if let Some(cid) = &calendars[i].id {
            if str_eq(cid.as_str(), id) {
                return Some(&calendars[i]);
            }
        }
        i = i + 1;
    }
    None
}

/// The places of the boxes allow for arithmetic.
pub open spec fn placeable(events: Seq<EventViewV>) -> bool {
    forall|i: int|
        0 <= i < events.len() ==> 0 <= (#[trigger] events[i]).top_px <= 1_000_000 && 0
            <= events[i].height_px <= 1_000_000_000_000
}

fn vertical_place(start: NaiveDateTime, end: NaiveDateTime) -> (r: (i64, i64))
    requires
        start.valid(),
        end.valid(),
    ensures
        r.0 == pixels(minutes_into_day(start)),
        r.1 == drawn_height(start, end),
        0 <= r.0 <= 1_000_000,
        0 <= r.1 <= 1_000_000_000_000,
{
    let midnight = start.date.at_midnight();
    let from: i64 = seconds_between(start, midnight);
    assert(0 <= from <= 86401);
    let top: i64 = (from / 60 * HOUR_HEIGHT_PX + 30) / 60;
    let secs: i64 = seconds_between(end, start);
    let drawn: i64 = if secs < 900 {
        15
    } else {
        secs / 60
    };
    let height: i64 = (drawn * HOUR_HEIGHT_PX + 30) / 60;
    if height < 22 {
        (top, 22)
    } else {
        (top, height)
    }
}

pub(crate) fn to_event_view(l: &Localized, style: &Style) -> (r: EventView)
    requires
        l.start.valid(),
        l.end.valid(),
    ensures
        r.deep_view() == event_view(l.deep_view(), style.deep_view()),
        0 <= r.top_px <= 1_000_000,
        0 <= r.height_px <= 1_000_000_000_000,
{
    let id = match &l.event.id {
        Some(i) => i.clone(),
        None => String::new(),
    };
    let title = match &l.event.title {
        Some(t) => {
            if t.as_str().unicode_len() == 0 {
                "(untitled)".to_string()
            } else {
                t.clone()
            }
        },
        None => "(untitled)".to_string(),
    };
    let mut edit_href = "/app/event/".to_string();
    edit_href.append(id.as_str());
    edit_href.append("/edit");
    if let Some(rid) = &l.event.recurrence_id {
        edit_href.append("?rid=");
        edit_href.append(urlencoding_light(rid.0.as_str()).as_str());
    }
    let (top_px, height_px) = vertical_place(l.start, l.end);
    let r = EventView {
        id,
        title,
        color: color_by(style, l.calendar_id.as_str()),
        all_day: l.all_day,
        is_birthday: false,
        time_label: if l.all_day {
            "All day".to_string()
        } else {
            time_label(l.start, l.end, style.time_format)
        },
        edit_href,
        top_px,
        height_px,
        lane: 0,
        lanes: 0,
    };
    assert(r.deep_view() =~= event_view(l.deep_view(), style.deep_view()));
    r
}

pub(crate) fn birthday_event_view(b: &BirthdayOccurrence) -> (r: EventView)
    ensures
        r.deep_view() == birthday_view(b.deep_view()),
{
    let mut id = "bday-".to_string();
    id.append(b.uid.as_str());
    let mut title = "\u{1f382} ".to_string();
    title.append(b.name.as_str());
    if let Some(age) = b.turns {
        title.append(" turns ");
        title.append(i64_text(age as i64).as_str());
    }
    let r = EventView {
        id,
        title,
        color: BIRTHDAY_COLOR.to_string(),
        all_day: true,
        is_birthday: true,
        time_label: "Birthday".to_string(),
        edit_href: String::new(),
        top_px: 0,
        height_px: HOUR_HEIGHT_PX,
        lane: 0,
        lanes: 0,
    };
    assert(r.deep_view() =~= birthday_view(b.deep_view()));
    r
}

pub(crate) fn holiday_event_view(date: NaiveDate, name: &str) -> (r: EventView)
    requires
        date.valid(),
    ensures
        r.deep_view() == holiday_view(date, name@),
{
    let mut id = "holiday-".to_string();
    id.append(format_time(date.at_midnight(), "%Y-%m-%d").as_str());
    let r = EventView {
        id,
        title: name.to_string(),
        color: HOLIDAYS_COLOR.to_string(),
        all_day: true,
        is_birthday: false,
        time_label: "Public holiday".to_string(),
        edit_href: String::new(),
        top_px: 0,
        height_px: HOUR_HEIGHT_PX,
        lane: 0,
        lanes: 0,
    };
    assert(r.deep_view() =~= holiday_view(date, name@));
    r
}

// ---------------------------------------------------------------------------
// Lanes
// ---------------------------------------------------------------------------

/// The part of a day's column that an event takes up.
#[derive(Debug, Clone, Copy, PartialEq, Eq, Structural)]
pub struct Slot {
    pub top: i64,
    pub bottom: i64,
    /// The event's place in the list.
    pub index: usize,
}

impl DeepView for Slot {
    type V = Slot;

    open spec fn deep_view(&self) -> Slot {
        *self
    }
}

impl Ordered for Slot {
    open spec fn le_view(a: Slot, b: Slot) -> bool {
        a.top <= b.top
    }

    fn le(&self, other: &Self) -> (r: bool) {
        self.top <= other.top
    }
}

/// The slots of the events of a list.
pub open spec fn slots(events: Seq<EventViewV>) -> Seq<Slot> {
    Seq::new(
        events.len(),
        |i: int|
            Slot {
                top: events[i].top_px,
                bottom: (events[i].top_px + events[i].height_px) as i64,
                index: i as usize,
            },
    )
}

/// The slots from the top down.
pub open spec fn slots_by_top(events: Seq<EventViewV>) -> Seq<Slot> {
    stable_sorted(slots(events), |a: Slot, b: Slot| Slot::le_view(a, b))
}

/// The lanes, each with where it is taken to, once those that end above `top` are free.
pub open spec fn freed(ends: Seq<Option<i64>>, top: i64) -> Seq<Option<i64>> {
    Seq::new(
        ends.len(),
        |i: int|
            match ends[i] {
                Some(e) => if e <= top {
                    None
                } else {
                    Some(e)
                },
                None => None,
            },
    )
}

/// The first lane that is free, or the number of lanes where none is.
pub open spec fn free_lane(ends: Seq<Option<i64>>) -> int
    decreases ends.len(),
{
    if ends.len() == 0 || ends[0] is None {
        0
    } else {
        1 + free_lane(ends.skip(1))
    }
}

/// The lanes after the slots have been given theirs, one after the other.
pub open spec fn lane_ends(s: Seq<Slot>) -> Seq<Option<i64>>
    decreases s.len(),
{
    if s.len() == 0 {
        Seq::empty()
    } else {
        let ends = freed(lane_ends(s.drop_last()), s.last().top);
        if free_lane(ends) < ends.len() {
            ends.update(free_lane(ends), Some(s.last().bottom))
        } else {
            ends.push(Some(s.last().bottom))
        }
    }
}

/// The lane of the last of some slots: the first that is free when its turn comes.
pub open spec fn last_lane(s: Seq<Slot>) -> int {
    free_lane(freed(lane_ends(s.drop_last()), s.last().top))
}

/// The events with the lanes of some slots written into them.
pub open spec fn with_lanes(events: Seq<EventViewV>, s: Seq<Slot>, lanes: int) -> Seq<EventViewV>
    decreases s.len(),
{
    if s.len() == 0 {
        events
    } else {
        let before = with_lanes(events, s.drop_last(), lanes);
        let i = s.last().index as int;
        before.update(
            i,
            EventViewV { lane: last_lane(s) as usize, lanes: lanes as usize, ..before[i] },
        )
    }
}

/// The events side by side: each in the first lane that is free where it starts, from the
/// top down, and all told of the number of lanes.
pub open spec fn laid_out(events: Seq<EventViewV>) -> Seq<EventViewV> {
    let s = slots_by_top(events);
    with_lanes(events, s, lane_ends(s).len() as int)
}

proof fn free_lane_is(ends: Seq<Option<i64>>, k: int)
    requires
        0 <= k <= ends.len(),
        forall|i: int| 0 <= i < k ==> #[trigger] ends[i] is Some,
        k < ends.len() ==> ends[k] is None,
    ensures
        free_lane(ends) == k,
    decreases k,
{
    if k > 0 {
        assert(ends[0] is Some);
        assert forall|i: int| 0 <= i < k - 1 implies #[trigger] ends.skip(1)[i] is Some by {
            assert(ends.skip(1)[i] == ends[i + 1]);
        }
        free_lane_is(ends.skip(1), k - 1);
    }
}

proof fn free_lane_bounds(ends: Seq<Option<i64>>)
    ensures
        0 <= free_lane(ends) <= ends.len(),
        free_lane(ends) < ends.len() ==> ends[free_lane(ends)] is None,
    decreases ends.len(),
{
    if ends.len() > 0 && ends[0] is Some {
        free_lane_bounds(ends.skip(1));
    }
}

proof fn lanes_at_most(s: Seq<Slot>)
    ensures
        lane_ends(s).len() <= s.len(),
        s.len() > 0 ==> 0 <= last_lane(s) < lane_ends(s).len() && lane_ends(s.drop_last()).len()
            <= lane_ends(s).len(),
    decreases s.len(),
{
    if s.len() > 0 {
        lanes_at_most(s.drop_last());
        free_lane_bounds(freed(lane_ends(s.drop_last()), s.last().top));
    }
}

pub proof fn slots_sorted(events: Seq<EventViewV>)
    requires
        events.len() <= usize::MAX,
    ensures
        in_order(slots_by_top(events), |a: Slot, b: Slot| Slot::le_view(a, b)),
        slots_by_top(events).len() == events.len(),
        forall|k: int|
            0 <= k < events.len() ==> slots(events).contains(#[trigger] slots_by_top(events)[k]),
        forall|k: int|
            0 <= k < events.len() ==> slots_by_top(events).contains(#[trigger] slots(events)[k]),
        slots_by_top(events).no_duplicates(),
{
    broadcast use vstd::seq_lib::group_to_multiset_ensures;

    let s = slots(events);
    let t = slots_by_top(events);
    stable_sorted_in_order(s, |a: Slot, b: Slot| Slot::le_view(a, b));
    assert forall|k: int| 0 <= k < events.len() implies s.contains(#[trigger] t[k]) by {
        assert(t.contains(t[k]));
        assert(t.to_multiset().count(t[k]) > 0);
    }
    assert forall|k: int| 0 <= k < events.len() implies t.contains(#[trigger] s[k]) by {
        assert(s.contains(s[k]));
        assert(s.to_multiset().count(s[k]) > 0);
    }
    assert(s.no_duplicates()) by {
        assert forall|i: int, j: int| 0 <= i < s.len() && 0 <= j < s.len() && i != j implies s[i]
            != s[j] by {
            assert(s[i].index == i && s[j].index == j);
        }
    }
    s.lemma_multiset_has_no_duplicates();
    t.lemma_multiset_has_no_duplicates_conv();
}

fn take_lane(ends: &mut Vec<Option<i64>>, slot: Slot, Ghost(before): Ghost<Seq<Slot>>) -> (r: usize)
    requires
        old(ends)@ == lane_ends(before),
        before.len() < usize::MAX,
    ensures
        final(ends)@ == lane_ends(before.push(slot)),
        r == last_lane(before.push(slot)),
{
    let ghost was = ends@;
    let ghost now = before.push(slot);
    let n = ends.len();
    let mut i: usize = 0;
    while i < n
        invariant
            0 <= i <= n,
            n == was.len(),
            ends@.len() == n,
            forall|j: int| 0 <= j < i ==> #[trigger] ends@[j] == freed(was, slot.top)[j],
            forall|j: int| i <= j < n ==> #[trigger] ends@[j] == was[j],
        decreases n - i,
    {
        if let Some(e) = ends[i] {
            if e <= slot.top {
                ends.set(i, None);
            }
        }
        i = i + 1;
    }
    assert(ends@ =~= freed(was, slot.top));
    assert(now.drop_last() =~= before);
    let ghost free = ends@;
    let mut lane: usize = 0;
    let mut searching = true;
    while searching && lane < n
        invariant
            0 <= lane <= n,
            n == free.len(),
            ends@ == free,
            forall|j: int| 0 <= j < lane ==> #[trigger] free[j] is Some,
            !searching ==> lane < n && free[lane as int] is None,
        decreases n - lane, (if searching { 1int } else { 0int }),
    {
        if ends[lane].is_none() {
            searching = false;
        } else {
            lane = lane + 1;
        }
    }
    proof {
        free_lane_is(free, lane as int);
    }
    if lane < n {
        ends.set(lane, Some(slot.bottom));
    } else {
        ends.push(Some(slot.bottom));
    }
    lane
}

/// Packs events that overlap into lanes side by side, so that they do not cover each other.
pub(crate) fn layout_overlaps(events: &mut Vec<EventView>)
    requires
        placeable(old(events).deep_view()),
    ensures
        final(events).deep_view() == laid_out(old(events).deep_view()),
{
    let ghost ev = events.deep_view();
    let n = events.len();
    let mut list: Vec<Slot> = Vec::new();
    let mut i: usize = 0;
    while i < n
        invariant
            0 <= i <= n,
            n == events@.len(),
            ev == events.deep_view(),
            placeable(ev),
            list.deep_view() =~= slots(ev).take(i as int),
        decreases n - i,
    {
        let e = &events[i];
        assert(ev[i as int] == e.deep_view());
        let ghost before = list.deep_view();
        let slot = Slot { top: e.top_px, bottom: e.top_px + e.height_px, index: i };
        list.push(slot);
        assert(list.deep_view() =~= before.push(slot));
        i = i + 1;
    }
    assert(slots(ev).take(n as int) =~= slots(ev));
    let order = sort_items(list);
    let ghost s = slots_by_top(ev);
    assert(order.deep_view() == s);
    assert(order@ =~= s);
    proof {
        slots_sorted(ev);
    }
    let mut ends: Vec<Option<i64>> = Vec::new();
    let mut lanes_of: Vec<usize> = Vec::new();
    let mut k: usize = 0;
    assert(s.take(0) =~= Seq::<Slot>::empty());
    assert(ends@ =~= lane_ends(s.take(0)));
    while k < order.len()
        invariant
            0 <= k <= order@.len(),
            order@ == s,
            ends@ == lane_ends(s.take(k as int)),
            lanes_of@.len() == k,
            forall|j: int|
                0 <= j < k ==> #[trigger] lanes_of@[j] == last_lane(s.take(j + 1)),
        decreases order@.len() - k,
    {
        let slot = order[k];
        assert(s.take(k as int).push(slot) =~= s.take(k + 1));
        let lane = take_lane(&mut ends, slot, Ghost(s.take(k as int)));
        lanes_of.push(lane);
        k = k + 1;
    }
    assert(s.take(k as int) =~= s);
    let total = ends.len();
    let mut m: usize = 0;
    assert(events.deep_view() =~= with_lanes(ev, s.take(0), total as int));
    while m < order.len()
        invariant
            0 <= m <= order@.len(),
            order@ == s,
            lanes_of@.len() == s.len(),
            events@.len() == n,
            ev.len() == n,
            forall|k: int| 0 <= k < n ==> slots(ev).contains(#[trigger] s[k]),
            s.len() == n,
            forall|j: int|
                0 <= j < s.len() ==> #[trigger] lanes_of@[j] == last_lane(s.take(j + 1)),
            events.deep_view() == with_lanes(ev, s.take(m as int), total as int),
        decreases order@.len() - m,
    {
        let at: usize = order[m].index;
        proof {
            assert(slots(ev).contains(s[m as int]));
            let w = choose|w: int| 0 <= w < n && slots(ev)[w] == s[m as int];
            assert(at == w);
            assert(s.take(m + 1).drop_last() =~= s.take(m as int));
            assert(s.take(m + 1).last() == s[m as int]);
        }
        let ghost before = events.deep_view();
        let mut e = events[at].clone_view();
        e.lane = lanes_of[m];
        e.lanes = total;
        assert(before[at as int] == events@[at as int].deep_view());
        events.set(at, e);
        assert(events.deep_view() =~= before.update(at as int, e.deep_view()));
        m = m + 1;
    }
    assert(s.take(m as int) =~= s);
}

// ---------------------------------------------------------------------------
// Lanes do not overlap
// ---------------------------------------------------------------------------

/// What holds of the lanes once some slots have been given theirs: each of the slots either
/// is over, or still holds its lane.
spec fn lanes_kept(s: Seq<Slot>) -> bool {
    &&& forall|p: int|
        0 <= p < s.len() ==> 0 <= #[trigger] last_lane(s.take(p + 1)) < lane_ends(s).len()
    &&& forall|p: int|
        0 <= p < s.len() ==> s[p].bottom <= s.last().top || lane_ends(s)[#[trigger] last_lane(
            s.take(p + 1),
        )] == Some(s[p].bottom)
}

proof fn lanes_are_kept(s: Seq<Slot>)
    requires
        in_order(s, |a: Slot, b: Slot| Slot::le_view(a, b)),
    ensures
        lanes_kept(s),
        s.len() > 0 ==> forall|p: int|
            0 <= p < s.len() - 1 && #[trigger] last_lane(s.take(p + 1)) == last_lane(s)
                ==> s[p].bottom <= s.last().top,
    decreases s.len(),
{
    if s.len() > 0 {
        let t = s.drop_last();
        let q = s.len() - 1;
        lanes_at_most(s);
        assert forall|i: int, j: int| 0 <= i <= j < t.len() implies (|a: Slot, b: Slot|
            Slot::le_view(a, b))(#[trigger] t[i], #[trigger] t[j]) by {
            assert((|a: Slot, b: Slot| Slot::le_view(a, b))(s[i], s[j]));
        }
        lanes_are_kept(t);
        let was = lane_ends(t);
        let free = freed(was, s.last().top);
        free_lane_bounds(free);
        assert(s.take(q + 1) =~= s);
        if t.len() > 0 {
            assert((|a: Slot, b: Slot| Slot::le_view(a, b))(s[q - 1], s[q]));
            assert(t.last() == s[q - 1]);
        }
        assert forall|p: int| 0 <= p < s.len() implies 0 <= #[trigger] last_lane(s.take(p + 1))
            < lane_ends(s).len() && (s[p].bottom <= s.last().top || lane_ends(s)[last_lane(
            s.take(p + 1),
        )] == Some(s[p].bottom)) && (p < q && last_lane(s.take(p + 1)) == last_lane(s)
            ==> s[p].bottom <= s.last().top) by {
            if p < q {
                assert(t.take(p + 1) =~= s.take(p + 1));
                assert(t[p] == s[p]);
                let l = last_lane(t.take(p + 1));
                assert(0 <= l < was.len());
                if s[p].bottom > s.last().top {
                    assert(was[l] == Some(s[p].bottom));
                    assert(free[l] == Some(s[p].bottom));
                }
            }
        }
    }
}

/// Lanes do not change where events stand.
proof fn lanes_keep_places(events: Seq<EventViewV>, s: Seq<Slot>, lanes: int)
    requires
        forall|k: int| 0 <= k < s.len() ==> (#[trigger] s[k]).index < events.len(),
    ensures
        with_lanes(events, s, lanes).len() == events.len(),
    decreases s.len(),
{
    if s.len() > 0 {
        let t = s.drop_last();
        assert forall|k: int| 0 <= k < t.len() implies (#[trigger] t[k]).index < events.len() by {
            assert(t[k] == s[k]);
        }
        lanes_keep_places(events, t, lanes);
    }
}

/// What [`with_lanes`] writes for a slot stays where no later slot has its index.
proof fn lane_is_written(events: Seq<EventViewV>, s: Seq<Slot>, lanes: int, k: int)
    requires
        0 <= k < s.len(),
        forall|j: int| 0 <= j < s.len() ==> (#[trigger] s[j]).index < events.len(),
        forall|j: int| k < j < s.len() ==> (#[trigger] s[j]).index != s[k].index,
    ensures
        with_lanes(events, s, lanes)[s[k].index as int].lane == last_lane(s.take(k + 1)) as usize,
        with_lanes(events, s, lanes)[s[k].index as int].lanes == lanes as usize,
    decreases s.len(),
{
    let t = s.drop_last();
    assert forall|j: int| 0 <= j < t.len() implies (#[trigger] t[j]).index < events.len() by {
        assert(t[j] == s[j]);
    }
    lanes_keep_places(events, t, lanes);
    if k == s.len() - 1 {
        assert(s.take(k + 1) =~= s);
    } else {
        assert(t[k] == s[k]);
        assert forall|j: int| k < j < t.len() implies (#[trigger] t[j]).index != t[k].index by {
            assert(t[j] == s[j]);
        }
        lane_is_written(events, t, lanes, k);
        assert(t.take(k + 1) =~= s.take(k + 1));
        assert(s[s.len() - 1].index != s[k].index);
    }
}

/// The lane of a slot is one of those there are in the end.
proof fn lane_in_bounds(s: Seq<Slot>, p: int)
    requires
        0 <= p < s.len(),
    ensures
        0 <= last_lane(s.take(p + 1)) < lane_ends(s).len(),
    decreases s.len(),
{
    lanes_at_most(s);
    if p == s.len() - 1 {
        assert(s.take(p + 1) =~= s);
    } else {
        lane_in_bounds(s.drop_last(), p);
        assert(s.drop_last().take(p + 1) =~= s.take(p + 1));
    }
}

proof fn indices_distinct(events: Seq<EventViewV>)
    requires
        events.len() <= usize::MAX,
    ensures
        forall|k: int|
            0 <= k < events.len() ==> (#[trigger] slots_by_top(events)[k]).index < events.len(),
        forall|i: int, j: int|
            0 <= i < j < events.len() ==> (#[trigger] slots_by_top(events)[i]).index != (
            #[trigger] slots_by_top(events)[j]).index,
{
    let s = slots_by_top(events);
    let u = slots(events);
    slots_sorted(events);
    assert forall|k: int| 0 <= k < s.len() implies (#[trigger] s[k]).index < events.len() by {
        assert(u.contains(s[k]));
        let w = choose|w: int| 0 <= w < u.len() && u[w] == s[k];
        assert(u[w].index == w);
    }
    assert forall|i: int, j: int| 0 <= i < j < s.len() implies (#[trigger] s[i]).index != (
    #[trigger] s[j]).index by {
        assert(u.contains(s[i]) && u.contains(s[j]));
        let v = choose|w: int| 0 <= w < u.len() && u[w] == s[i];
        let w = choose|w: int| 0 <= w < u.len() && u[w] == s[j];
        assert(u[v].index == v && u[w].index == w);
        assert(s[i] != s[j]);
    }
}

/// Of two slots in one lane, the upper is over before the lower starts.
proof fn lane_neighbours(s: Seq<Slot>, lo: int, hi: int)
    requires
        in_order(s, |a: Slot, b: Slot| Slot::le_view(a, b)),
        0 <= lo < hi < s.len(),
        last_lane(s.take(lo + 1)) == last_lane(s.take(hi + 1)),
    ensures
        s[lo].bottom <= s[hi].top,
{
    let h = s.take(hi + 1);
    assert forall|i: int, j: int| 0 <= i <= j < h.len() implies (|a: Slot, b: Slot|
        Slot::le_view(a, b))(#[trigger] h[i], #[trigger] h[j]) by {
        assert((|a: Slot, b: Slot| Slot::le_view(a, b))(s[i], s[j]));
    }
    lanes_are_kept(h);
    assert(h.take(lo + 1) =~= s.take(lo + 1));
    assert(h.last() == s[hi]);
    assert(h[lo] == s[lo]);
}

/// Where the slot of an event has come to stand.
proof fn place_of_event(events: Seq<EventViewV>, a: int) -> (p: int)
    requires
        events.len() <= usize::MAX,
        0 <= a < events.len(),
    ensures
        slots_by_top(events).len() == events.len(),
        0 <= p < events.len(),
        slots_by_top(events)[p] == slots(events)[a],
        slots(events)[a].index == a,
        forall|j: int|
            0 <= j < events.len() ==> (#[trigger] slots_by_top(events)[j]).index < events.len(),
        forall|j: int|
            p < j < events.len() ==> (#[trigger] slots_by_top(events)[j]).index
                != slots_by_top(events)[p].index,
{
    let s = slots_by_top(events);
    slots_sorted(events);
    indices_distinct(events);
    assert(s.contains(slots(events)[a]));
    choose|p: int| 0 <= p < s.len() && s[p] == slots(events)[a]
}

/// Where the slot of an event has come to stand, and what it is given.
proof fn lane_of_event(events: Seq<EventViewV>, a: int) -> (p: int)
    requires
        placeable(events),
        events.len() <= usize::MAX,
        0 <= a < events.len(),
    ensures
        0 <= p < events.len(),
        slots_by_top(events)[p] == slots(events)[a],
        laid_out(events).len() == events.len(),
        laid_out(events)[a].lane == last_lane(slots_by_top(events).take(p + 1)),
        laid_out(events)[a].lanes == lane_ends(slots_by_top(events)).len(),
        0 <= last_lane(slots_by_top(events).take(p + 1)) < lane_ends(slots_by_top(events)).len(),
{
    let s = slots_by_top(events);
    let u = slots(events);
    let total = lane_ends(s).len() as int;
    let p = place_of_event(events, a);
    lanes_keep_places(events, s, total);
    lane_is_written(events, s, total, p);
    lanes_at_most(s);
    lane_in_bounds(s, p);
    assert(s[p].index == a);
    p
}

/// Events in the same lane do not overlap: one is over before the other starts. And each
/// event has one of the lanes that it is told of.
pub proof fn same_lane_apart(events: Seq<EventViewV>, a: int, b: int)
    requires
        placeable(events),
        events.len() <= usize::MAX,
        0 <= a < events.len(),
        0 <= b < events.len(),
        a != b,
    ensures
        laid_out(events).len() == events.len(),
        laid_out(events)[a].lane < laid_out(events)[a].lanes,
        laid_out(events)[a].lanes == laid_out(events)[b].lanes,
        laid_out(events)[a].lane == laid_out(events)[b].lane ==> events[a].top_px
            + events[a].height_px <= events[b].top_px || events[b].top_px + events[b].height_px
            <= events[a].top_px,
{
    let s = slots_by_top(events);
    let p = lane_of_event(events, a);
    let q = lane_of_event(events, b);
    assert(slots(events)[a].index == a && slots(events)[b].index == b);
    slots_sorted(events);
    if laid_out(events)[a].lane == laid_out(events)[b].lane {
        if p < q {
            lane_neighbours(s, p, q);
        } else {
            lane_neighbours(s, q, p);
        }
    }
}

proof fn lanes_before_are_taken(ends: Seq<Option<i64>>, j: int)
    requires
        0 <= j < free_lane(ends),
    ensures
        j < ends.len(),
        ends[j] is Some,
    decreases ends.len(),
{
    free_lane_bounds(ends);
    if j > 0 {
        lanes_before_are_taken(ends.skip(1), j - 1);
    }
}

/// A lane that is taken was taken by one of the slots.
proof fn taken_by_slot(s: Seq<Slot>, j: int) -> (p: int)
    requires
        0 <= j < lane_ends(s).len(),
        lane_ends(s)[j] is Some,
    ensures
        0 <= p < s.len(),
        last_lane(s.take(p + 1)) == j,
        lane_ends(s)[j] == Some(s[p].bottom),
    decreases s.len(),
{
    let t = s.drop_last();
    let ends = freed(lane_ends(t), s.last().top);
    free_lane_bounds(ends);
    if j == free_lane(ends) {
        assert(s.take(s.len() as int) =~= s);
        s.len() - 1
    } else {
        assert(lane_ends(s)[j] == ends[j]);
        let p = taken_by_slot(t, j);
        assert(t.take(p + 1) =~= s.take(p + 1));
        p
    }
}

/// Each lane was given to one of the slots.
proof fn given_to_slot(s: Seq<Slot>, j: int) -> (p: int)
    requires
        0 <= j < lane_ends(s).len(),
    ensures
        0 <= p < s.len(),
        last_lane(s.take(p + 1)) == j,
    decreases s.len(),
{
    let t = s.drop_last();
    let ends = freed(lane_ends(t), s.last().top);
    free_lane_bounds(ends);
    if j < lane_ends(t).len() {
        let p = given_to_slot(t, j);
        assert(t.take(p + 1) =~= s.take(p + 1));
        p
    } else {
        assert(s.take(s.len() as int) =~= s);
        s.len() - 1
    }
}

/// The event of a slot has the lane of the slot.
proof fn event_of_slot(events: Seq<EventViewV>, q: int) -> (b: int)
    requires
        placeable(events),
        events.len() <= usize::MAX,
        0 <= q < slots_by_top(events).len(),
    ensures
        0 <= b < events.len(),
        slots(events)[b] == slots_by_top(events)[q],
        laid_out(events)[b].lane == last_lane(slots_by_top(events).take(q + 1)),
{
    let s = slots_by_top(events);
    slots_sorted(events);
    assert(slots(events).contains(s[q]));
    let b = choose|b: int| 0 <= b < events.len() && slots(events)[b] == s[q];
    let p = lane_of_event(events, b);
    assert(s[p] == s[q]);
    assert(p == q);
    b
}

/// No event is moved aside without need: for each lane before its own there is an event in that
/// lane which is still on where it starts.
#[verifier::spinoff_prover]
#[verifier::rlimit(60)]
pub proof fn lanes_before_are_needed(events: Seq<EventViewV>, a: int, j: int)
    requires
        placeable(events),
        events.len() <= usize::MAX,
        0 <= a < events.len(),
        0 <= j < laid_out(events)[a].lane,
    ensures
        exists|b: int|
            0 <= b < events.len() && b != a && (#[trigger] laid_out(events)[b]).lane == j
                && events[b].top_px <= events[a].top_px < events[b].top_px + events[b].height_px,
{
    let s = slots_by_top(events);
    let p = lane_of_event(events, a);
    slots_sorted(events);
    let u = s.take(p + 1);
    let t = u.drop_last();
    assert(u.last() == s[p]);
    let ends = freed(lane_ends(t), s[p].top);
    lanes_before_are_taken(ends, j);
    let q = taken_by_slot(t, j);
    assert(t.take(q + 1) =~= s.take(q + 1));
    assert(t[q] == s[q]);
    let b = event_of_slot(events, q);
    assert((|a: Slot, b: Slot| Slot::le_view(a, b))(s[q], s[p]));
    assert(laid_out(events)[b].lane == j);
}

/// There are as many lanes as are used: an event is in the last one.
#[verifier::spinoff_prover]
#[verifier::rlimit(60)]
pub proof fn last_lane_is_used(events: Seq<EventViewV>, a: int)
    requires
        placeable(events),
        events.len() <= usize::MAX,
        0 <= a < events.len(),
    ensures
        exists|b: int|
            0 <= b < events.len() && (#[trigger] laid_out(events)[b]).lane + 1 == laid_out(
                events,
            )[a].lanes,
{
    let s = slots_by_top(events);
    let p = lane_of_event(events, a);
    let q = given_to_slot(s, lane_ends(s).len() - 1);
    slots_sorted(events);
    let b = event_of_slot(events, q);
    assert(laid_out(events)[b].lane + 1 == laid_out(events)[a].lanes);
}

} // verus!
