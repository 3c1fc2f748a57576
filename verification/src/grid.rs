//! The pages of the calendar: the month, the week, the day and the agenda.

use vstd::prelude::*;
use vstd::string::*;
use crate::calendar::{
    date_less, date_of, date_of_num, day_in_range, nums_ascend, plus_days, NaiveDate,
};
use crate::collections::{
    in_order, sort_items, stable_sorted, stable_sorted_in_order, CloneView, Ordered, StrMap,
};
use crate::jscalendar::{Calendar, CalendarEvent, CalendarEventV, CalendarV};
use crate::jscontact::{BirthdayOccurrence, BirthdayOccurrenceV};
use crate::layout::{
    birthday_event_view, birthday_view, event_view, holiday_event_view, holiday_view, laid_out,
    layout_overlaps, placeable, to_event_view, Style, StyleV,
};
use crate::numbers::dec;
use crate::regions::holidays_valid;
use crate::state::TimeFormat;
use crate::timetext::{
    date_text, format_time, month_day_text, month_name, weekday_abbr, weekday_name,
};
use crate::tz::Tz;
use crate::view::{
    first_of_month, hour_rows_by, hours_by, localization, localize_checked, monday_of, shown_dates,
    spans_valid, try_display_range, try_week_start, DayCell, DayCellV, DayColumn, DayColumnV,
    EventView, EventViewV, HourRow, HourRowV, Localized, LocalizedV, ViewParams, ViewParamsV,
};

verus! {

/// What a page of the calendar is made from.
pub struct BuildInputs<'a> {
    pub events: &'a Vec<CalendarEvent>,
    pub calendars: &'a Vec<Calendar>,
    pub birthdays: &'a Vec<BirthdayOccurrence>,
    pub holidays: &'a Vec<(NaiveDate, String)>,
    /// The colors of the subscriptions, by the ids that stand for them.
    pub ics_colors: &'a StrMap<String>,
    pub viewer_tz: &'a Tz,
    pub time_format: TimeFormat,
    pub params: &'a ViewParams,
    pub today: NaiveDate,
}

/// What [`BuildInputs`] stand for.
#[verifier::ext_equal]
pub struct BuildInputsV {
    pub events: Seq<CalendarEventV>,
    pub calendars: Seq<CalendarV>,
    pub birthdays: Seq<BirthdayOccurrenceV>,
    pub holidays: Seq<(NaiveDate, Seq<char>)>,
    pub ics_colors: Seq<(Seq<char>, Seq<char>)>,
    pub viewer_tz: Seq<char>,
    pub time_format: TimeFormat,
    pub params: ViewParamsV,
    pub today: NaiveDate,
}

impl<'a> DeepView for BuildInputs<'a> {
    type V = BuildInputsV;

    open spec fn deep_view(&self) -> BuildInputsV {
        BuildInputsV {
            events: self.events.deep_view(),
            calendars: self.calendars.deep_view(),
            birthdays: self.birthdays.deep_view(),
            holidays: self.holidays.deep_view(),
            ics_colors: self.ics_colors.deep_view(),
            viewer_tz: self.viewer_tz.deep_view(),
            time_format: self.time_format,
            params: self.params.deep_view(),
            today: self.today,
        }
    }
}

/// The month: whole weeks of days.
#[derive(Debug)]
pub struct MonthView {
    pub weekday_labels: Vec<String>,
    pub weeks: Vec<Vec<DayCell>>,
}

/// What a [`MonthView`] stands for.
#[verifier::ext_equal]
pub struct MonthViewV {
    pub weekday_labels: Seq<Seq<char>>,
    pub weeks: Seq<Seq<DayCellV>>,
}

impl DeepView for MonthView {
    type V = MonthViewV;

    open spec fn deep_view(&self) -> MonthViewV {
        MonthViewV {
            weekday_labels: self.weekday_labels.deep_view(),
            weeks: self.weeks.deep_view(),
        }
    }
}

/// The week: seven columns over the hours.
#[derive(Debug)]
pub struct WeekView {
    pub days: Vec<DayColumn>,
    pub hours: Vec<HourRow>,
}

/// What a [`WeekView`] stands for.
#[verifier::ext_equal]
pub struct WeekViewV {
    pub days: Seq<DayColumnV>,
    pub hours: Seq<HourRowV>,
}

impl DeepView for WeekView {
    type V = WeekViewV;

    open spec fn deep_view(&self) -> WeekViewV {
        WeekViewV {
            days: self.days.deep_view(),
            hours: self.hours.deep_view(),
        }
    }
}

/// The day: one column over the hours.
#[derive(Debug)]
pub struct DayViewModel {
    pub day: DayColumn,
    pub hours: Vec<HourRow>,
}

/// What a [`DayViewModel`] stands for.
#[verifier::ext_equal]
pub struct DayViewModelV {
    pub day: DayColumnV,
    pub hours: Seq<HourRowV>,
}

impl DeepView for DayViewModel {
    type V = DayViewModelV;

    open spec fn deep_view(&self) -> DayViewModelV {
        DayViewModelV {
            day: self.day.deep_view(),
            hours: self.hours.deep_view(),
        }
    }
}

/// A day of the agenda.
#[derive(Debug)]
pub struct AgendaGroup {
    pub date: NaiveDate,
    pub label: String,
    pub events: Vec<EventView>,
}

/// What a [`AgendaGroup`] stands for.
#[verifier::ext_equal]
pub struct AgendaGroupV {
    pub date: NaiveDate,
    pub label: Seq<char>,
    pub events: Seq<EventViewV>,
}

impl DeepView for AgendaGroup {
    type V = AgendaGroupV;

    open spec fn deep_view(&self) -> AgendaGroupV {
        AgendaGroupV {
            date: self.date.deep_view(),
            label: self.label.deep_view(),
            events: self.events.deep_view(),
        }
    }
}

/// The agenda: the days with something on them.
#[derive(Debug)]
pub struct AgendaView {
    pub groups: Vec<AgendaGroup>,
}

/// What a [`AgendaView`] stands for.
#[verifier::ext_equal]
pub struct AgendaViewV {
    pub groups: Seq<AgendaGroupV>,
}

impl DeepView for AgendaView {
    type V = AgendaViewV;

    open spec fn deep_view(&self) -> AgendaViewV {
        AgendaViewV {
            groups: self.groups.deep_view(),
        }
    }
}

/// An event of the agenda with its day.
#[derive(Debug)]
pub struct Dated {
    pub date: NaiveDate,
    pub event: EventView,
}

/// What a [`Dated`] stands for.
#[verifier::ext_equal]
pub struct DatedV {
    pub date: NaiveDate,
    pub event: EventViewV,
}

impl DeepView for Dated {
    type V = DatedV;

    open spec fn deep_view(&self) -> DatedV {
        DatedV {
            date: self.date.deep_view(),
            event: self.event.deep_view(),
        }
    }
}

/// The birthdays of a date.
pub open spec fn birthdays_shown(bs: Seq<BirthdayOccurrenceV>, date: NaiveDate) -> Seq<EventViewV>
    decreases bs.len(),
{
    if bs.len() == 0 {
        Seq::empty()
    } else if bs.last().date == date {
        birthdays_shown(bs.drop_last(), date).push(birthday_view(bs.last()))
    } else {
        birthdays_shown(bs.drop_last(), date)
    }
}

/// The holidays of a date.
pub open spec fn holidays_shown(hs: Seq<(NaiveDate, Seq<char>)>, date: NaiveDate) -> Seq<EventViewV>
    decreases hs.len(),
{
    if hs.len() == 0 {
        Seq::empty()
    } else if hs.last().0 == date {
        holidays_shown(hs.drop_last(), date).push(holiday_view(date, hs.last().1))
    } else {
        holidays_shown(hs.drop_last(), date)
    }
}

/// Whether an occurrence is on a date, where one is given, and lasts all day or not, where
/// that is asked.
pub open spec fn belongs(l: LocalizedV, date: Option<NaiveDate>, all_day: Option<bool>) -> bool {
    &&& date matches Some(d) ==> l.start.date == d
    &&& all_day matches Some(b) ==> l.all_day == b
}

/// The occurrences that belong, as they are drawn.
pub open spec fn views_where(
    ls: Seq<LocalizedV>,
    date: Option<NaiveDate>,
    all_day: Option<bool>,
    style: StyleV,
) -> Seq<EventViewV>
    decreases ls.len(),
{
    if ls.len() == 0 {
        Seq::empty()
    } else if belongs(ls.last(), date, all_day) {
        views_where(ls.drop_last(), date, all_day, style).push(event_view(ls.last(), style))
    } else {
        views_where(ls.drop_last(), date, all_day, style)
    }
}

impl BuildInputsV {
    /// How occurrences look.
    pub open spec fn style(self) -> StyleV {
        StyleV {
            calendars: self.calendars,
            ics_colors: self.ics_colors,
            time_format: self.time_format,
        }
    }

    /// What a date has on it by itself: its birthdays, then its holidays.
    pub open spec fn marks(self, date: NaiveDate) -> Seq<EventViewV> {
        birthdays_shown(self.birthdays, date) + holidays_shown(self.holidays, date)
    }

    /// What is on a date: its birthdays and holidays, then its events in the order of their
    /// starts.
    pub open spec fn events_on(self, ls: Seq<LocalizedV>, date: NaiveDate) -> Seq<EventViewV> {
        self.marks(date) + views_where(ls, Some(date), None, self.style())
    }

    /// The cell of a date in the month that `self.params.date` is in: its first four events
    /// and the number of those left over.
    pub open spec fn day_cell(self, ls: Seq<LocalizedV>, date: NaiveDate) -> DayCellV {
        let events = self.events_on(ls, date);
        DayCellV {
            day_num: date.day,
            in_month: date.month == self.params.date.month,
            is_today: date == self.today,
            iso: date_text(date),
            events: if events.len() > 4 {
                events.take(4)
            } else {
                events
            },
            more_count: if events.len() > 4 {
                (events.len() - 4) as usize
            } else {
                0
            },
        }
    }

    /// The column of a date; where `strict` is false, with all of `ls`.
    pub open spec fn column(
        self,
        ls: Seq<LocalizedV>,
        date: NaiveDate,
        strict: bool,
        label: Seq<char>,
    ) -> DayColumnV {
        let only = if strict {
            Some(date)
        } else {
            None
        };
        DayColumnV {
            iso: date_text(date),
            weekday_label: label,
            is_today: date == self.today,
            all_day_events: self.marks(date) + views_where(ls, only, Some(true), self.style()),
            timed_events: laid_out(views_where(ls, only, Some(false), self.style())),
        }
    }

    /// The occurrences of the visible events from one date to before another.
    pub open spec fn localized(self, from: NaiveDate, to: NaiveDate) -> Option<Seq<LocalizedV>> {
        localization(
            self.events,
            self.params.visible,
            self.viewer_tz,
            from.midnight(),
            to.midnight(),
        )
    }
}

/// The number of weeks that it takes to get from one date to another.
pub open spec fn weeks_up_to(from: NaiveDate, to: NaiveDate) -> int {
    if from.num() < to.num() {
        (to.num() - from.num() + 6) / 7
    } else {
        0
    }
}

/// A week of cells.
pub open spec fn week_row(inputs: BuildInputsV, ls: Seq<LocalizedV>, monday: int) -> Seq<DayCellV> {
    Seq::new(7, |k: int| inputs.day_cell(ls, date_of(monday + k)))
}

/// The labels over the columns of a month.
pub open spec fn weekday_labels() -> Seq<Seq<char>> {
    seq!["Mon"@, "Tue"@, "Wed"@, "Thu"@, "Fri"@, "Sat"@, "Sun"@]
}

/// The page of the month; `None` where it leaves the calendar.
pub open spec fn month_page(inputs: BuildInputsV) -> Option<MonthViewV> {
    match (
        monday_of(first_of_month(inputs.params.date)),
        shown_dates(inputs.params.view, inputs.params.date),
    ) {
        (Some(start), Some(range)) => match inputs.localized(range.0, range.1) {
            Some(ls) => {
                let n = weeks_up_to(start, range.1);
                if n == 0 || day_in_range(start.num() + 7 * n) {
                    Some(
                        MonthViewV {
                            weekday_labels: weekday_labels(),
                            weeks: Seq::new(
                                n as nat,
                                |w: int| week_row(inputs, ls, start.num() + 7 * w),
                            ),
                        },
                    )
                } else {
                    None
                }
            },
            None => None,
        },
        _ => None,
    }
}

/// The label of a day of the week.
pub open spec fn week_day_label(d: NaiveDate) -> Seq<char> {
    weekday_abbr(d.weekday_num()).push(' ') + dec(d.day as nat)
}

/// The label of a day that stands alone.
pub open spec fn long_day_label(d: NaiveDate) -> Seq<char> {
    weekday_name(d.weekday_num()) + seq![',', ' '] + dec(d.day as nat) + seq![' '] + month_name(
        d.month as int,
    )
}

/// The page of the week; `None` where it leaves the calendar.
pub open spec fn week_page(inputs: BuildInputsV) -> Option<WeekViewV> {
    match monday_of(inputs.params.date) {
        Some(start) => match plus_days(start, 7) {
            Some(end) => match inputs.localized(start, end) {
                Some(ls) => Some(
                    WeekViewV {
                        days: Seq::new(
                            7,
                            |k: int|
                                inputs.column(
                                    ls,
                                    date_of(start.num() + k),
                                    true,
                                    week_day_label(date_of(start.num() + k)),
                                ),
                        ),
                        hours: hours_by(inputs.time_format),
                    },
                ),
                None => None,
            },
            None => None,
        },
        None => None,
    }
}

/// The page of the day; `None` where it leaves the calendar. It shows all that the day's
/// range holds, also what started on another date.
pub open spec fn day_page(inputs: BuildInputsV) -> Option<DayViewModelV> {
    let date = inputs.params.date;
    match plus_days(date, 1) {
        Some(end) => match inputs.localized(date, end) {
            Some(ls) => Some(
                DayViewModelV {
                    day: inputs.column(ls, date, false, long_day_label(date)),
                    hours: hours_by(inputs.time_format),
                },
            ),
            None => None,
        },
        None => None,
    }
}

/// The birthdays, each with its day.
pub open spec fn dated_birthdays(bs: Seq<BirthdayOccurrenceV>) -> Seq<DatedV> {
    Seq::new(bs.len(), |i: int| DatedV { date: bs[i].date, event: birthday_view(bs[i]) })
}

/// The holidays, each with its day.
pub open spec fn dated_holidays(hs: Seq<(NaiveDate, Seq<char>)>) -> Seq<DatedV> {
    Seq::new(hs.len(), |i: int| DatedV { date: hs[i].0, event: holiday_view(hs[i].0, hs[i].1) })
}

/// The occurrences, each with its day.
pub open spec fn dated_events(ls: Seq<LocalizedV>, style: StyleV) -> Seq<DatedV> {
    Seq::new(
        ls.len(),
        |i: int| DatedV { date: ls[i].start.date, event: event_view(ls[i], style) },
    )
}

/// All that the agenda lists: birthdays first, then holidays, then events.
pub open spec fn agenda_items(inputs: BuildInputsV, ls: Seq<LocalizedV>) -> Seq<DatedV> {
    dated_birthdays(inputs.birthdays) + dated_holidays(inputs.holidays) + dated_events(
        ls,
        inputs.style(),
    )
}

/// The label of a day of the agenda.
pub open spec fn agenda_label(date: NaiveDate, today: NaiveDate) -> Seq<char> {
    if date == today {
        "Today"@
    } else if Some(date) == plus_days(today, 1) {
        "Tomorrow"@
    } else {
        weekday_name(date.weekday_num()) + seq![',', ' '] + month_day_text(date)
    }
}

/// A list by its days: items of one date that stand next to each other make a group.
pub open spec fn grouped(s: Seq<DatedV>, today: NaiveDate) -> Seq<AgendaGroupV>
    decreases s.len(),
{
    if s.len() == 0 {
        Seq::empty()
    } else {
        let g = grouped(s.drop_last(), today);
        let x = s.last();
        if g.len() > 0 && g.last().date == x.date {
            g.update(
                g.len() - 1,
                AgendaGroupV { events: g.last().events.push(x.event), ..g.last() },
            )
        } else {
            g.push(
                AgendaGroupV {
                    date: x.date,
                    label: agenda_label(x.date, today),
                    events: seq![x.event],
                },
            )
        }
    }
}

/// Whether the days of a list can be labelled: there is a tomorrow, or none is asked for.
pub open spec fn labels_exist(s: Seq<DatedV>, today: NaiveDate) -> bool {
    plus_days(today, 1) is Some || forall|i: int|
        0 <= i < s.len() ==> (#[trigger] s[i]).date == today
}

/// The agenda, ordered by date; `None` where it leaves the calendar.
pub open spec fn agenda_page(inputs: BuildInputsV) -> Option<AgendaViewV> {
    let date = inputs.params.date;
    match plus_days(date, 30) {
        Some(end) => match inputs.localized(date, end) {
            Some(ls) => {
                let items = stable_sorted(
                    agenda_items(inputs, ls),
                    |a: DatedV, b: DatedV| Dated::le_view(a, b),
                );
                if labels_exist(items, inputs.today) {
                    Some(AgendaViewV { groups: grouped(items, inputs.today) })
                } else {
                    None
                }
            },
            None => None,
        },
        None => None,
    }
}

impl Ordered for Dated {
    open spec fn le_view(a: DatedV, b: DatedV) -> bool {
        !date_less(b.date, a.date)
    }

    fn le(&self, other: &Self) -> (r: bool) {
        !other.date.is_before(self.date)
    }
}

fn birthdays_on(birthdays: &Vec<BirthdayOccurrence>, date: NaiveDate) -> (r: Vec<EventView>)
    ensures
        r.deep_view() == birthdays_shown(birthdays.deep_view(), date),
{
    let ghost all = birthdays.deep_view();
    let mut out: Vec<EventView> = Vec::new();
    let mut i: usize = 0;
    assert(all.take(0) =~= Seq::empty());
    assert(out.deep_view() =~= Seq::empty());
    while i < birthdays.len()
        invariant
            0 <= i <= birthdays@.len(),
            all == birthdays.deep_view(),
            out.deep_view() == birthdays_shown(all.take(i as int), date),
        decreases birthdays@.len() - i,
    {
        proof {
            assert(all.take(i + 1).drop_last() =~= all.take(i as int));
            assert(all.take(i + 1).last() == birthdays@[i as int].deep_view());
        }
        if birthdays[i].date == date {
            let ghost before = out.deep_view();
            let v = birthday_event_view(&birthdays[i]);
            out.push(v);
            assert(out.deep_view() =~= before.push(v.deep_view()));
        }
        i = i + 1;
    }
    assert(all.take(i as int) =~= all);
    out
}

fn holidays_on(holidays: &Vec<(NaiveDate, String)>, date: NaiveDate) -> (r: Vec<EventView>)
    requires
        date.valid(),
    ensures
        r.deep_view() == holidays_shown(holidays.deep_view(), date),
{
    let ghost all = holidays.deep_view();
    let mut out: Vec<EventView> = Vec::new();
    let mut i: usize = 0;
    assert(all.take(0) =~= Seq::empty());
    assert(out.deep_view() =~= Seq::empty());
    while i < holidays.len()
        invariant
            0 <= i <= holidays@.len(),
            date.valid(),
            all == holidays.deep_view(),
            out.deep_view() == holidays_shown(all.take(i as int), date),
        decreases holidays@.len() - i,
    {
        proof {
            assert(all.take(i + 1).drop_last() =~= all.take(i as int));
            assert(all.take(i + 1).last() == holidays@[i as int].deep_view());
        }
        if holidays[i].0 == date {
            let ghost before = out.deep_view();
            let v = holiday_event_view(date, holidays[i].1.as_str());
            out.push(v);
            assert(out.deep_view() =~= before.push(v.deep_view()));
        }
        i = i + 1;
    }
    assert(all.take(i as int) =~= all);
    out
}

fn marks_on(inputs: &BuildInputs, date: NaiveDate) -> (r: Vec<EventView>)
    requires
        date.valid(),
    ensures
        r.deep_view() == inputs.deep_view().marks(date),
{
    let mut out = birthdays_on(inputs.birthdays, date);
    append_views(&mut out, holidays_on(inputs.holidays, date));
    out
}

fn style_of<'a>(inputs: &BuildInputs<'a>) -> (r: Style<'a>)
    ensures
        r.deep_view() == inputs.deep_view().style(),
{
    Style {
        calendars: inputs.calendars,
        ics_colors: inputs.ics_colors,
        time_format: inputs.time_format,
    }
}

fn events_where(
    ls: &Vec<Localized>,
    date: Option<NaiveDate>,
    all_day: Option<bool>,
    style: &Style,
) -> (r: Vec<EventView>)
    requires
        spans_valid(ls.deep_view()),
    ensures
        r.deep_view() == views_where(ls.deep_view(), date, all_day, style.deep_view()),
        placeable(r.deep_view()),
{
    let ghost all = ls.deep_view();
    let ghost sv = style.deep_view();
    let mut out: Vec<EventView> = Vec::new();
    let mut i: usize = 0;
    assert(all.take(0) =~= Seq::empty());
    assert(out.deep_view() =~= Seq::empty());
    while i < ls.len()
        invariant
            0 <= i <= ls@.len(),
            all == ls.deep_view(),
            sv == style.deep_view(),
            spans_valid(all),
            out.deep_view() == views_where(all.take(i as int), date, all_day, sv),
            placeable(out.deep_view()),
        decreases ls@.len() - i,
    {
        proof {
            assert(all[i as int] == ls@[i as int].deep_view());
            assert(all.take(i + 1).drop_last() =~= all.take(i as int));
            assert(all.take(i + 1).last() == ls@[i as int].deep_view());
        }
        let l = &ls[i];
        let right_date = match date {
            Some(d) => l.start.date == d,
            None => true,
        };
        let right_kind = match all_day {
            Some(b) => l.all_day == b,
            None => true,
        };
        if right_date && right_kind {
            let ghost before = out.deep_view();
            let v = to_event_view(l, style);
            out.push(v);
            assert(out.deep_view() =~= before.push(v.deep_view()));
        }
        i = i + 1;
    }
    assert(all.take(i as int) =~= all);
    out
}

fn append_views(out: &mut Vec<EventView>, more: Vec<EventView>)
    ensures
        final(out).deep_view() == old(out).deep_view() + more.deep_view(),
{
    let ghost a = out.deep_view();
    let ghost b = more.deep_view();
    let mut more = more;
    out.append(&mut more);
    assert(out.deep_view() =~= a + b);
}

fn make_cell(inputs: &BuildInputs, ls: &Vec<Localized>, date: NaiveDate) -> (r: DayCell)
    requires
        spans_valid(ls.deep_view()),
        date.valid(),
    ensures
        r.deep_view() == inputs.deep_view().day_cell(ls.deep_view(), date),
{
    let mut events = marks_on(inputs, date);
    append_views(&mut events, events_where(ls, Some(date), None, &style_of(inputs)));
    let ghost all = events.deep_view();
    assert(all == inputs.deep_view().events_on(ls.deep_view(), date));
    let more_count: usize = if events.len() > 4 {
        events.len() - 4
    } else {
        0
    };
    if events.len() > 4 {
        events.truncate(4);
    }
    assert(events.deep_view() =~= if all.len() > 4 {
        all.take(4)
    } else {
        all
    });
    let r = DayCell {
        day_num: date.day,
        in_month: date.month == inputs.params.date.month,
        is_today: date == inputs.today,
        iso: format_time(date.at_midnight(), "%Y-%m-%d"),
        events,
        more_count,
    };
    assert(r.deep_view() =~= inputs.deep_view().day_cell(ls.deep_view(), date));
    r
}

fn make_column(
    inputs: &BuildInputs,
    ls: &Vec<Localized>,
    date: NaiveDate,
    strict: bool,
    label: String,
) -> (r: DayColumn)
    requires
        spans_valid(ls.deep_view()),
        date.valid(),
    ensures
        r.deep_view() == inputs.deep_view().column(ls.deep_view(), date, strict, label@),
{
    let only = if strict {
        Some(date)
    } else {
        None
    };
    let style = style_of(inputs);
    let mut all_day = marks_on(inputs, date);
    append_views(&mut all_day, events_where(ls, only, Some(true), &style));
    let mut timed = events_where(ls, only, Some(false), &style);
    layout_overlaps(&mut timed);
    let r = DayColumn {
        iso: format_time(date.at_midnight(), "%Y-%m-%d"),
        weekday_label: label,
        is_today: date == inputs.today,
        all_day_events: all_day,
        timed_events: timed,
    };
    assert(r.deep_view() =~= inputs.deep_view().column(ls.deep_view(), date, strict, label@));
    r
}

fn localized_between(inputs: &BuildInputs, from: NaiveDate, to: NaiveDate) -> (r: Option<
    Vec<Localized>,
>)
    requires
        from.valid(),
        to.valid(),
    ensures
        r.deep_view() == inputs.deep_view().localized(from, to),
        r matches Some(v) ==> spans_valid(v.deep_view()),
{
    localize_checked(
        inputs.events,
        &inputs.params.visible,
        inputs.viewer_tz,
        from.at_midnight(),
        to.at_midnight(),
    )
}

fn make_week(inputs: &BuildInputs, ls: &Vec<Localized>, monday: NaiveDate) -> (r: Option<
    (Vec<DayCell>, NaiveDate),
>)
    requires
        spans_valid(ls.deep_view()),
        monday.valid(),
    ensures
        r is Some == day_in_range(monday.num() + 7),
        r matches Some((week, next)) ==> week.deep_view() == week_row(
            inputs.deep_view(),
            ls.deep_view(),
            monday.num(),
        ) && next.valid() && next.num() == monday.num() + 7,
{
    let ghost iv = inputs.deep_view();
    let ghost lv = ls.deep_view();
    let mut week: Vec<DayCell> = Vec::new();
    let mut cursor = monday;
    let mut k: i64 = 0;
    proof {
        date_of_num(monday);
    }
    while k < 7
        invariant
            0 <= k <= 7,
            monday.valid(),
            cursor.valid(),
            cursor.num() == monday.num() + k,
            spans_valid(ls.deep_view()),
            iv == inputs.deep_view(),
            lv == ls.deep_view(),
            week.deep_view() =~= week_row(iv, lv, monday.num()).take(k as int),
        decreases 7 - k,
    {
        proof {
            date_of_num(cursor);
        }
        let ghost before = week.deep_view();
        let cell = make_cell(inputs, ls, cursor);
        week.push(cell);
        assert(week.deep_view() =~= before.push(cell.deep_view()));
        cursor = match cursor.add_days(1) {
            Some(d) => d,
            None => {
                proof {
                    date_of_num(monday);
                }
                return None;
            },
        };
        k = k + 1;
    }
    assert(week_row(iv, lv, monday.num()).take(7) =~= week_row(iv, lv, monday.num()));
    proof {
        date_of_num(cursor);
    }
    Some((week, cursor))
}

fn make_weekday_labels() -> (r: Vec<String>)
    ensures
        r.deep_view() == weekday_labels(),
{
    let r = vec![
        "Mon".to_string(),
        "Tue".to_string(),
        "Wed".to_string(),
        "Thu".to_string(),
        "Fri".to_string(),
        "Sat".to_string(),
        "Sun".to_string(),
    ];
    assert(r.deep_view() =~= weekday_labels());
    r
}

fn make_weeks(inputs: &BuildInputs, ls: &Vec<Localized>, start: NaiveDate, end: NaiveDate) -> (r:
    Option<Vec<Vec<DayCell>>>)
    requires
        spans_valid(ls.deep_view()),
        start.valid(),
        end.valid(),
    ensures
        ({
            let n = weeks_up_to(start, end);
            &&& r is Some == (n == 0 || day_in_range(start.num() + 7 * n))
            &&& r matches Some(w) ==> w.deep_view() == Seq::new(
                n as nat,
                |w: int| week_row(inputs.deep_view(), ls.deep_view(), start.num() + 7 * w),
            )
        }),
{
    let ghost iv = inputs.deep_view();
    let ghost lv = ls.deep_view();
    let ghost n = weeks_up_to(start, end);
    let ghost rows = Seq::new(n as nat, |w: int| week_row(iv, lv, start.num() + 7 * w));
    let mut weeks: Vec<Vec<DayCell>> = Vec::new();
    let mut cursor = start;
    let ghost mut w = 0int;
    proof {
        nums_ascend(cursor, end);
    }
    while cursor.is_before(end)
        invariant
            spans_valid(ls.deep_view()),
            start.valid(),
            end.valid(),
            cursor.valid(),
            n == weeks_up_to(start, end),
            0 <= w <= n,
            cursor.num() == start.num() + 7 * w,
            date_less(cursor, end) == (cursor.num() < end.num()),
            iv == inputs.deep_view(),
            lv == ls.deep_view(),
            rows == Seq::new(n as nat, |w: int| week_row(iv, lv, start.num() + 7 * w)),
            weeks.deep_view() =~= rows.take(w),
            w > 0 ==> day_in_range(start.num() + 7 * w),
        decreases n - w,
    {
        assert(w < n);
        let (week, next) = match make_week(inputs, ls, cursor) {
            Some(p) => p,
            None => {
                proof {
                    date_of_num(start);
                    date_of_num(cursor);
                }
                return None;
            },
        };
        let ghost before = weeks.deep_view();
        weeks.push(week);
        assert(weeks.deep_view() =~= before.push(week.deep_view()));
        proof {
            assert(rows[w] == week_row(iv, lv, start.num() + 7 * w));
            date_of_num(next);
            w = w + 1;
            nums_ascend(next, end);
        }
        cursor = next;
    }
    assert(w == n);
    assert(rows.take(w) =~= rows);
    Some(weeks)
}

/// The page of the month, or `None` where it leaves the calendar.
pub fn try_build_month(inputs: &BuildInputs) -> (r: Option<MonthView>)
    requires
        inputs.params.date.valid(),
    ensures
        r.deep_view() == month_page(inputs.deep_view()),
{
    let date = inputs.params.date;
    let first = NaiveDate { year: date.year, month: date.month, day: 1 };
    let start = match try_week_start(first) {
        Some(d) => d,
        None => {
            return None;
        },
    };
    let (from, to) = match try_display_range(inputs.params) {
        Some(p) => p,
        None => {
            return None;
        },
    };
    let ls = match localized_between(inputs, from.date, to.date) {
        Some(v) => v,
        None => {
            return None;
        },
    };
    match make_weeks(inputs, &ls, start, to.date) {
        Some(weeks) => {
            let r = MonthView { weekday_labels: make_weekday_labels(), weeks };
            assert(r.deep_view() =~= month_page(inputs.deep_view())->0);
            Some(r)
        },
        None => None,
    }
}

/// The page of the month.
pub fn build_month(inputs: &BuildInputs) -> (r: MonthView)
    requires
        inputs.params.date.valid(),
        month_page(inputs.deep_view()) is Some,
    ensures
        Some(r.deep_view()) == month_page(inputs.deep_view()),
{
    match try_build_month(inputs) {
        Some(v) => v,
        None => MonthView { weekday_labels: Vec::new(), weeks: Vec::new() },
    }
}

/// The page of the week, or `None` where it leaves the calendar.
pub fn try_build_week(inputs: &BuildInputs) -> (r: Option<WeekView>)
    requires
        inputs.params.date.valid(),
    ensures
        r.deep_view() == week_page(inputs.deep_view()),
{
    let ghost iv = inputs.deep_view();
    let start = match try_week_start(inputs.params.date) {
        Some(d) => d,
        None => {
            return None;
        },
    };
    let end = match start.add_days(7) {
        Some(d) => d,
        None => {
            return None;
        },
    };
    let ls = match localized_between(inputs, start, end) {
        Some(v) => v,
        None => {
            return None;
        },
    };
    let ghost lv = ls.deep_view();
    let ghost columns = Seq::new(
        7,
        |k: int|
            iv.column(
                lv,
                date_of(start.num() + k),
                true,
                week_day_label(date_of(start.num() + k)),
            ),
    );
    proof {
        date_of_num(start);
        date_of_num(end);
    }
    let mut days: Vec<DayColumn> = Vec::new();
    let mut k: i64 = 0;
    while k < 7
        invariant
            0 <= k <= 7,
            start.valid(),
            day_in_range(start.num()),
            day_in_range(start.num() + 7),
            spans_valid(ls.deep_view()),
            iv == inputs.deep_view(),
            lv == ls.deep_view(),
            columns == Seq::new(
                7,
                |k: int|
                    iv.column(
                        lv,
                        date_of(start.num() + k),
                        true,
                        week_day_label(date_of(start.num() + k)),
                    ),
            ),
            days.deep_view() =~= columns.take(k as int),
        decreases 7 - k,
    {
        let date = match start.add_days(k) {
            Some(d) => d,
            None => {
                return None;
            },
        };
        let label = format_time(date.at_midnight(), "%a %-d");
        let ghost before = days.deep_view();
        let column = make_column(inputs, &ls, date, true, label);
        days.push(column);
        assert(days.deep_view() =~= before.push(column.deep_view()));
        k = k + 1;
    }
    assert(columns.take(7) =~= columns);
    let r = WeekView { days, hours: hour_rows_by(inputs.time_format) };
    assert(r.deep_view() =~= week_page(iv)->0);
    Some(r)
}

/// The page of the week.
pub fn build_week(inputs: &BuildInputs) -> (r: WeekView)
    requires
        inputs.params.date.valid(),
        week_page(inputs.deep_view()) is Some,
    ensures
        Some(r.deep_view()) == week_page(inputs.deep_view()),
{
    match try_build_week(inputs) {
        Some(v) => v,
        None => WeekView { days: Vec::new(), hours: Vec::new() },
    }
}

/// The page of the day, or `None` where it leaves the calendar.
pub fn try_build_day(inputs: &BuildInputs) -> (r: Option<DayViewModel>)
    requires
        inputs.params.date.valid(),
    ensures
        r.deep_view() == day_page(inputs.deep_view()),
{
    let date = inputs.params.date;
    let end = match date.add_days(1) {
        Some(d) => d,
        None => {
            return None;
        },
    };
    let ls = match localized_between(inputs, date, end) {
        Some(v) => v,
        None => {
            return None;
        },
    };
    let label = format_time(date.at_midnight(), "%A, %-d %B");
    assert(label@ =~= long_day_label(date));
    let r = DayViewModel {
        day: make_column(inputs, &ls, date, false, label),
        hours: hour_rows_by(inputs.time_format),
    };
    assert(r.deep_view() =~= day_page(inputs.deep_view())->0);
    Some(r)
}

/// The page of the day.
pub fn build_day(inputs: &BuildInputs) -> (r: DayViewModel)
    requires
        inputs.params.date.valid(),
        day_page(inputs.deep_view()) is Some,
    ensures
        Some(r.deep_view()) == day_page(inputs.deep_view()),
{
    match try_build_day(inputs) {
        Some(v) => v,
        None => DayViewModel {
            day: DayColumn {
                iso: String::new(),
                weekday_label: String::new(),
                is_today: false,
                all_day_events: Vec::new(),
                timed_events: Vec::new(),
            },
            hours: Vec::new(),
        },
    }
}

/// The dates of a list are in range.
pub open spec fn dates_valid(s: Seq<DatedV>) -> bool {
    forall|i: int| 0 <= i < s.len() ==> (#[trigger] s[i]).date.valid()
}

/// The dates of birthdays are in range.
pub open spec fn birthdays_valid(s: Seq<BirthdayOccurrenceV>) -> bool {
    forall|i: int| 0 <= i < s.len() ==> (#[trigger] s[i]).date.valid()
}

fn list_birthdays(birthdays: &Vec<BirthdayOccurrence>) -> (r: Vec<Dated>)
    ensures
        r.deep_view() == dated_birthdays(birthdays.deep_view()),
{
    let ghost bs = birthdays.deep_view();
    let ghost all = dated_birthdays(bs);
    let mut out: Vec<Dated> = Vec::new();
    let mut i: usize = 0;
    while i < birthdays.len()
        invariant
            0 <= i <= birthdays@.len(),
            bs == birthdays.deep_view(),
            all == dated_birthdays(bs),
            out.deep_view() =~= all.take(i as int),
        decreases birthdays@.len() - i,
    {
        let b = &birthdays[i];
        assert(bs[i as int] == b.deep_view());
        let ghost before = out.deep_view();
        let d = Dated { date: b.date, event: birthday_event_view(b) };
        out.push(d);
        assert(out.deep_view() =~= before.push(d.deep_view()));
        i = i + 1;
    }
    assert(all.take(i as int) =~= all);
    out
}

fn list_holidays(holidays: &Vec<(NaiveDate, String)>) -> (r: Vec<Dated>)
    requires
        holidays_valid(holidays.deep_view()),
    ensures
        r.deep_view() == dated_holidays(holidays.deep_view()),
{
    let ghost hs = holidays.deep_view();
    let ghost all = dated_holidays(hs);
    let mut out: Vec<Dated> = Vec::new();
    let mut i: usize = 0;
    while i < holidays.len()
        invariant
            0 <= i <= holidays@.len(),
            hs == holidays.deep_view(),
            holidays_valid(hs),
            all == dated_holidays(hs),
            out.deep_view() =~= all.take(i as int),
        decreases holidays@.len() - i,
    {
        let h = &holidays[i];
        assert(hs[i as int] == (h.0, h.1@));
        let ghost before = out.deep_view();
        let d = Dated { date: h.0, event: holiday_event_view(h.0, h.1.as_str()) };
        out.push(d);
        assert(out.deep_view() =~= before.push(d.deep_view()));
        i = i + 1;
    }
    assert(all.take(i as int) =~= all);
    out
}

fn list_events(ls: &Vec<Localized>, style: &Style) -> (r: Vec<Dated>)
    requires
        spans_valid(ls.deep_view()),
    ensures
        r.deep_view() == dated_events(ls.deep_view(), style.deep_view()),
{
    let ghost lv = ls.deep_view();
    let ghost sv = style.deep_view();
    let ghost all = dated_events(lv, sv);
    let mut out: Vec<Dated> = Vec::new();
    let mut i: usize = 0;
    while i < ls.len()
        invariant
            0 <= i <= ls@.len(),
            lv == ls.deep_view(),
            sv == style.deep_view(),
            spans_valid(lv),
            all == dated_events(lv, sv),
            out.deep_view() =~= all.take(i as int),
        decreases ls@.len() - i,
    {
        let l = &ls[i];
        assert(lv[i as int] == l.deep_view());
        let ghost before = out.deep_view();
        let d = Dated { date: l.start.date, event: to_event_view(l, style) };
        out.push(d);
        assert(out.deep_view() =~= before.push(d.deep_view()));
        i = i + 1;
    }
    assert(all.take(i as int) =~= all);
    out
}

fn list_items(inputs: &BuildInputs, ls: &Vec<Localized>) -> (r: Vec<Dated>)
    requires
        spans_valid(ls.deep_view()),
        birthdays_valid(inputs.birthdays.deep_view()),
        holidays_valid(inputs.holidays.deep_view()),
    ensures
        r.deep_view() == agenda_items(inputs.deep_view(), ls.deep_view()),
        dates_valid(r.deep_view()),
{
    let ghost iv = inputs.deep_view();
    let ghost lv = ls.deep_view();
    let mut out = list_birthdays(inputs.birthdays);
    let mut holidays = list_holidays(inputs.holidays);
    let mut events = list_events(ls, &style_of(inputs));
    let ghost (a, b, c) = (out.deep_view(), holidays.deep_view(), events.deep_view());
    out.append(&mut holidays);
    assert(out.deep_view() =~= a + b);
    out.append(&mut events);
    assert(out.deep_view() =~= a + b + c);
    assert forall|i: int| 0 <= i < (a + b + c).len() implies (#[trigger] (a + b
        + c)[i]).date.valid() by {
        if i < a.len() {
            assert((a + b + c)[i] == a[i]);
            assert(iv.birthdays[i].date.valid());
        } else if i < a.len() + b.len() {
            assert((a + b + c)[i] == b[i - a.len()]);
            assert(iv.holidays[i - a.len()].0.valid());
        } else {
            let k = i - a.len() - b.len();
            assert((a + b + c)[i] == c[k]);
            assert(lv[k].start.valid());
        }
    }
    out
}

fn group_items(items: Vec<Dated>, today: NaiveDate) -> (r: Option<Vec<AgendaGroup>>)
    requires
        today.valid(),
        dates_valid(items.deep_view()),
    ensures
        r is Some == labels_exist(items.deep_view(), today),
        r matches Some(v) ==> v.deep_view() == grouped(items.deep_view(), today),
{
    let ghost all = items.deep_view();
    let tomorrow = today.add_days(1);
    let mut groups: Vec<AgendaGroup> = Vec::new();
    let mut i: usize = 0;
    assert(all.take(0) =~= Seq::empty());
    assert(groups.deep_view() =~= Seq::empty());
    while i < items.len()
        invariant
            0 <= i <= items@.len(),
            all == items.deep_view(),
            today.valid(),
            tomorrow == plus_days(today, 1),
            dates_valid(all),
            groups.deep_view() == grouped(all.take(i as int), today),
            tomorrow is None ==> forall|k: int|
                0 <= k < i ==> (#[trigger] all[k]).date == today,
        decreases items@.len() - i,
    {
        let item = &items[i];
        let ghost so_far = all.take(i as int);
        let ghost g = groups.deep_view();
        proof {
            assert(all.take(i + 1).drop_last() =~= so_far);
            assert(all.take(i + 1).last() == item.deep_view());
            assert(all[i as int] == item.deep_view());
        }
        if item.date != today && tomorrow.is_none() {
            assert(all[i as int].date != today);
            return None;
        }
        let n = groups.len();
        if n > 0 && groups[n - 1].date == item.date {
            assert(g.last() == groups@[n - 1].deep_view());
            let mut last = match groups.pop() {
                Some(x) => x,
                None => {
                    return None;
                },
            };
            let ghost events = last.events.deep_view();
            let v = item.event.clone_view();
            last.events.push(v);
            assert(last.events.deep_view() =~= events.push(v.deep_view()));
            groups.push(last);
            assert(groups.deep_view() =~= g.update(g.len() - 1, last.deep_view()));
        } else {
            if n > 0 {
                assert(g.last() == groups@[n - 1].deep_view());
            }
            let label = if item.date == today {
                "Today".to_string()
            } else if tomorrow == Some(item.date) {
                "Tomorrow".to_string()
            } else {
                format_time(item.date.at_midnight(), "%A, %B %-d")
            };
            let events = vec![item.event.clone_view()];
            assert(events.deep_view() =~= seq![item.event.deep_view()]);
            let group = AgendaGroup { date: item.date, label, events };
            groups.push(group);
            assert(groups.deep_view() =~= g.push(group.deep_view()));
        }
        i = i + 1;
    }
    assert(all.take(i as int) =~= all);
    Some(groups)
}

proof fn sorting_keeps_dates(s: Seq<DatedV>)
    requires
        dates_valid(s),
    ensures
        dates_valid(stable_sorted(s, |a: DatedV, b: DatedV| Dated::le_view(a, b))),
{
    broadcast use vstd::seq_lib::group_to_multiset_ensures;

    let le = |a: DatedV, b: DatedV| Dated::le_view(a, b);
    let t = stable_sorted(s, le);
    stable_sorted_in_order(s, le);
    assert forall|i: int| 0 <= i < t.len() implies (#[trigger] t[i]).date.valid() by {
        assert(t.contains(t[i]));
        assert(t.to_multiset().count(t[i]) > 0);
        assert(s.contains(t[i]));
    }
}

/// The agenda, or `None` where it leaves the calendar.
pub fn try_build_agenda(inputs: &BuildInputs) -> (r: Option<AgendaView>)
    requires
        inputs.params.date.valid(),
        inputs.today.valid(),
        birthdays_valid(inputs.birthdays.deep_view()),
        holidays_valid(inputs.holidays.deep_view()),
    ensures
        r.deep_view() == agenda_page(inputs.deep_view()),
{
    let date = inputs.params.date;
    let end = match date.add_days(30) {
        Some(d) => d,
        None => {
            return None;
        },
    };
    let ls = match localized_between(inputs, date, end) {
        Some(v) => v,
        None => {
            return None;
        },
    };
    let items = list_items(inputs, &ls);
    proof {
        sorting_keeps_dates(items.deep_view());
    }
    match group_items(sort_items(items), inputs.today) {
        Some(groups) => {
            let r = AgendaView { groups };
            assert(r.deep_view() =~= agenda_page(inputs.deep_view())->0);
            Some(r)
        },
        None => None,
    }
}

/// The agenda.
pub fn build_agenda(inputs: &BuildInputs) -> (r: AgendaView)
    requires
        inputs.params.date.valid(),
        inputs.today.valid(),
        birthdays_valid(inputs.birthdays.deep_view()),
        holidays_valid(inputs.holidays.deep_view()),
        agenda_page(inputs.deep_view()) is Some,
    ensures
        Some(r.deep_view()) == agenda_page(inputs.deep_view()),
{
    match try_build_agenda(inputs) {
        Some(v) => v,
        None => AgendaView { groups: Vec::new() },
    }
}

// ---------------------------------------------------------------------------
// What the agenda promises
// ---------------------------------------------------------------------------

/// The groups of an ordered list stand in the order of their dates, and no date has two.
pub proof fn groups_ascend(s: Seq<DatedV>, today: NaiveDate)
    requires
        in_order(s, |a: DatedV, b: DatedV| Dated::le_view(a, b)),
    ensures
        s.len() > 0 ==> grouped(s, today).len() > 0 && grouped(s, today).last().date
            == s.last().date,
        forall|i: int, j: int|
            0 <= i < j < grouped(s, today).len() ==> date_less(
                (#[trigger] grouped(s, today)[i]).date,
                (#[trigger] grouped(s, today)[j]).date,
            ),
    decreases s.len(),
{
    if s.len() > 0 {
        let t = s.drop_last();
        assert forall|i: int, j: int| 0 <= i <= j < t.len() implies (|a: DatedV, b: DatedV|
            Dated::le_view(a, b))(#[trigger] t[i], #[trigger] t[j]) by {
            assert((|a: DatedV, b: DatedV| Dated::le_view(a, b))(s[i], s[j]));
        }
        groups_ascend(t, today);
        let g = grouped(t, today);
        let n = s.len();
        if t.len() > 0 {
            assert((|a: DatedV, b: DatedV| Dated::le_view(a, b))(s[n - 2], s[n - 1]));
            assert(t.last() == s[n - 2]);
        }
        let h = grouped(s, today);
        assert forall|i: int, j: int| 0 <= i < j < h.len() implies date_less(
            (#[trigger] h[i]).date,
            (#[trigger] h[j]).date,
        ) by {
            if j < g.len() {
                assert(date_less(g[i].date, g[j].date));
            } else {
                assert(g.last().date != s.last().date);
                if i < g.len() - 1 {
                    assert(date_less(g[i].date, g[g.len() - 1].date));
                }
            }
        }
    }
}

/// The days of the agenda stand in the order of their dates, each once.
pub proof fn agenda_in_order(inputs: BuildInputsV, i: int, j: int)
    requires
        agenda_page(inputs) is Some,
        0 <= i < j < agenda_page(inputs)->0.groups.len(),
    ensures
        date_less(agenda_page(inputs)->0.groups[i].date, agenda_page(inputs)->0.groups[j].date),
{
    let ls = inputs.localized(inputs.params.date, plus_days(inputs.params.date, 30)->0)->0;
    let le = |a: DatedV, b: DatedV| Dated::le_view(a, b);
    let items = agenda_items(inputs, ls);
    stable_sorted_in_order(items, le);
    groups_ascend(stable_sorted(items, le), inputs.today);
}

} // verus!
