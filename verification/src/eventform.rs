//! The form for an event: what it shows of one, and the event that it asks for.

use vstd::prelude::*;
use vstd::string::*;
use crate::calendar::{
    date_of_num, plus_secs, plus_secs_between, range_bounds, seconds_between, secs_between,
    NaiveDate, NaiveDateTime,
};
use crate::collections::StrMap;
use crate::duration::{
    duration_secs, duration_text, duration_text_reads_back, format_duration, secs_fit,
    try_parse_duration, Duration,
};
use crate::jscalendar::{
    local_time, local_time_of_text, local_time_on_clock, Calendar, CalendarEvent, CalendarEventV,
    CalendarV, Frequency, LocalDateTime, Location, LocationV, RecurrenceRule, RecurrenceRuleV,
};
use crate::options::{
    calendar_options, chosen_calendar, options_with, tz_options, zone_options, CalendarOption,
    CalendarOptionV, SelectOption, SelectOptionV,
};
use crate::text::{str_eq, trim, trim_str};
use crate::timetext::{
    date_text, format_time, iso_text, no_leap_at_zero_seconds, read_date, read_iso, read_iso_date,
    read_time, two,
};
use crate::tz::Tz;
use crate::users::{is_blank, is_uuid, new_id};
use crate::view::{view_word, ViewParams, ViewParamsV};

verus! {

/// What the form for an event holds when it is sent.
#[derive(Debug)]
pub struct EventFormBody {
    pub back_view: String,
    pub back_date: String,
    pub back_cal: String,
    pub title: String,
    pub calendar_id: String,
    pub all_day: Option<String>,
    pub start_date: String,
    pub start_time: String,
    pub end_date: String,
    pub end_time: String,
    pub timezone: String,
    pub location: String,
    pub description: String,
    pub repeat_freq: String,
    pub repeat_interval: u32,
    pub repeat_end_mode: String,
    pub repeat_count: u32,
    pub repeat_until: String,
}

/// What a [`EventFormBody`] stands for.
#[verifier::ext_equal]
pub struct EventFormBodyV {
    pub back_view: Seq<char>,
    pub back_date: Seq<char>,
    pub back_cal: Seq<char>,
    pub title: Seq<char>,
    pub calendar_id: Seq<char>,
    pub all_day: Option<Seq<char>>,
    pub start_date: Seq<char>,
    pub start_time: Seq<char>,
    pub end_date: Seq<char>,
    pub end_time: Seq<char>,
    pub timezone: Seq<char>,
    pub location: Seq<char>,
    pub description: Seq<char>,
    pub repeat_freq: Seq<char>,
    pub repeat_interval: u32,
    pub repeat_end_mode: Seq<char>,
    pub repeat_count: u32,
    pub repeat_until: Seq<char>,
}

impl DeepView for EventFormBody {
    type V = EventFormBodyV;

    open spec fn deep_view(&self) -> EventFormBodyV {
        EventFormBodyV {
            back_view: self.back_view.deep_view(),
            back_date: self.back_date.deep_view(),
            back_cal: self.back_cal.deep_view(),
            title: self.title.deep_view(),
            calendar_id: self.calendar_id.deep_view(),
            all_day: self.all_day.deep_view(),
            start_date: self.start_date.deep_view(),
            start_time: self.start_time.deep_view(),
            end_date: self.end_date.deep_view(),
            end_time: self.end_time.deep_view(),
            timezone: self.timezone.deep_view(),
            location: self.location.deep_view(),
            description: self.description.deep_view(),
            repeat_freq: self.repeat_freq.deep_view(),
            repeat_interval: self.repeat_interval.deep_view(),
            repeat_end_mode: self.repeat_end_mode.deep_view(),
            repeat_count: self.repeat_count.deep_view(),
            repeat_until: self.repeat_until.deep_view(),
        }
    }
}

/// What is sent to delete an event.
#[derive(Debug)]
pub struct DeleteFormBody {
    pub back_view: String,
    pub back_date: String,
    pub back_cal: String,
}

/// What a [`DeleteFormBody`] stands for.
#[verifier::ext_equal]
pub struct DeleteFormBodyV {
    pub back_view: Seq<char>,
    pub back_date: Seq<char>,
    pub back_cal: Seq<char>,
}

impl DeepView for DeleteFormBody {
    type V = DeleteFormBodyV;

    open spec fn deep_view(&self) -> DeleteFormBodyV {
        DeleteFormBodyV {
            back_view: self.back_view.deep_view(),
            back_date: self.back_date.deep_view(),
            back_cal: self.back_cal.deep_view(),
        }
    }
}

/// The form for an event, as it is shown.
#[derive(Debug)]
pub struct EventForm {
    pub is_edit: bool,
    pub event_id: String,
    pub back_view: String,
    pub back_date: String,
    pub back_cal: String,
    pub calendars: Vec<CalendarOption>,
    pub title: String,
    pub description: String,
    pub location: String,
    pub all_day: bool,
    pub start_date: String,
    pub start_time: String,
    pub end_date: String,
    pub end_time: String,
    pub timezones: Vec<SelectOption>,
    pub repeat_freq: String,
    pub repeat_interval: u32,
    pub repeat_end_mode: String,
    pub repeat_until: String,
    pub repeat_count: u32,
    pub error: Option<String>,
}

/// What a [`EventForm`] stands for.
#[verifier::ext_equal]
pub struct EventFormV {
    pub is_edit: bool,
    pub event_id: Seq<char>,
    pub back_view: Seq<char>,
    pub back_date: Seq<char>,
    pub back_cal: Seq<char>,
    pub calendars: Seq<CalendarOptionV>,
    pub title: Seq<char>,
    pub description: Seq<char>,
    pub location: Seq<char>,
    pub all_day: bool,
    pub start_date: Seq<char>,
    pub start_time: Seq<char>,
    pub end_date: Seq<char>,
    pub end_time: Seq<char>,
    pub timezones: Seq<SelectOptionV>,
    pub repeat_freq: Seq<char>,
    pub repeat_interval: u32,
    pub repeat_end_mode: Seq<char>,
    pub repeat_until: Seq<char>,
    pub repeat_count: u32,
    pub error: Option<Seq<char>>,
}

impl DeepView for EventForm {
    type V = EventFormV;

    open spec fn deep_view(&self) -> EventFormV {
        EventFormV {
            is_edit: self.is_edit.deep_view(),
            event_id: self.event_id.deep_view(),
            back_view: self.back_view.deep_view(),
            back_date: self.back_date.deep_view(),
            back_cal: self.back_cal.deep_view(),
            calendars: self.calendars.deep_view(),
            title: self.title.deep_view(),
            description: self.description.deep_view(),
            location: self.location.deep_view(),
            all_day: self.all_day.deep_view(),
            start_date: self.start_date.deep_view(),
            start_time: self.start_time.deep_view(),
            end_date: self.end_date.deep_view(),
            end_time: self.end_time.deep_view(),
            timezones: self.timezones.deep_view(),
            repeat_freq: self.repeat_freq.deep_view(),
            repeat_interval: self.repeat_interval.deep_view(),
            repeat_end_mode: self.repeat_end_mode.deep_view(),
            repeat_until: self.repeat_until.deep_view(),
            repeat_count: self.repeat_count.deep_view(),
            error: self.error.deep_view(),
        }
    }
}

/// The time of a day on a 24-hour clock.
pub open spec fn hour_minute(t: NaiveDateTime) -> Seq<char> {
    two(t.hour()).push(':') + two(t.minute())
}

/// A form with nothing filled in: an hour in the morning of the date that is shown.
pub open spec fn blank_event_form(
    calendars: Seq<CalendarV>,
    p: ViewParamsV,
    viewer_tz: Seq<char>,
    error: Option<Seq<char>>,
) -> EventFormV {
    EventFormV {
        is_edit: false,
        event_id: Seq::empty(),
        back_view: view_word(p.view),
        back_date: date_text(p.date),
        back_cal: p.cal_param(),
        calendars: options_with(calendars, chosen_calendar(calendars, None)),
        title: Seq::empty(),
        description: Seq::empty(),
        location: Seq::empty(),
        all_day: false,
        start_date: date_text(p.date),
        start_time: "09:00"@,
        end_date: date_text(p.date),
        end_time: "10:00"@,
        timezones: zone_options(viewer_tz, "Floating (no time zone)"@),
        repeat_freq: "none"@,
        repeat_interval: 1,
        repeat_end_mode: "never"@,
        repeat_until: date_text(p.date),
        repeat_count: 5,
        error,
    }
}

/// The form for a new event.
pub fn blank_form(
    calendars: &Vec<Calendar>,
    params: &ViewParams,
    viewer_tz: &Tz,
    error: Option<String>,
) -> (r: EventForm)
    requires
        params.date.valid(),
    ensures
        r.deep_view() == blank_event_form(
            calendars.deep_view(),
            params.deep_view(),
            viewer_tz.deep_view(),
            error.deep_view(),
        ),
{
    let r = EventForm {
        is_edit: false,
        event_id: String::new(),
        back_view: params.view.as_str().to_string(),
        back_date: format_time(params.date.at_midnight(), "%Y-%m-%d"),
        back_cal: params.cal_param(),
        calendars: calendar_options(calendars, None),
        title: String::new(),
        description: String::new(),
        location: String::new(),
        all_day: false,
        start_date: format_time(params.date.at_midnight(), "%Y-%m-%d"),
        start_time: "09:00".to_string(),
        end_date: format_time(params.date.at_midnight(), "%Y-%m-%d"),
        end_time: "10:00".to_string(),
        timezones: tz_options(viewer_tz.name()),
        repeat_freq: "none".to_string(),
        repeat_interval: 1,
        repeat_end_mode: "never".to_string(),
        repeat_until: format_time(params.date.at_midnight(), "%Y-%m-%d"),
        repeat_count: 5,
        error,
    };
    assert(r.deep_view() =~= blank_event_form(
        calendars.deep_view(),
        params.deep_view(),
        viewer_tz.deep_view(),
        error.deep_view(),
    ));
    r
}

/// How a rule is shown: how often, and when it ends.
#[verifier::ext_equal]
pub struct RepeatV {
    pub freq: Seq<char>,
    pub interval: u32,
    pub end_mode: Seq<char>,
    pub until: Seq<char>,
    pub count: u32,
}

/// The word for how often a rule repeats; those that the form has no word for are shown as none.
pub open spec fn frequency_word(f: Frequency) -> Seq<char> {
    match f {
        Frequency::Daily => "daily"@,
        Frequency::Weekly => "weekly"@,
        Frequency::Monthly => "monthly"@,
        Frequency::Yearly => "yearly"@,
        _ => "none"@,
    }
}

/// How the rules of an event are shown: by the first of them.
pub open spec fn repeat_shown(rules: Option<Seq<RecurrenceRuleV>>, date: NaiveDate) -> RepeatV {
    match rules {
        Some(rs) => if rs.len() > 0 {
            let rule = rs[0];
            RepeatV {
                freq: frequency_word(rule.frequency),
                interval: match rule.interval {
                    Some(n) => n,
                    None => 1,
                },
                end_mode: if rule.until is Some {
                    "until"@
                } else if rule.count is Some {
                    "count"@
                } else {
                    "never"@
                },
                until: match rule.until {
                    Some(u) => match local_time(u) {
                        Some(t) => date_text(t.date),
                        None => Seq::empty(),
                    },
                    None => date_text(date),
                },
                count: match (rule.until, rule.count) {
                    (None, Some(c)) => c,
                    _ => 5,
                },
            }
        } else {
            no_repeat(date)
        },
        None => no_repeat(date),
    }
}

/// How an event without rules is shown.
pub open spec fn no_repeat(date: NaiveDate) -> RepeatV {
    RepeatV {
        freq: "none"@,
        interval: 1,
        end_mode: "never"@,
        until: date_text(date),
        count: 5,
    }
}

/// When an event starts; one whose start cannot be read is shown at the start of 1970.
pub open spec fn start_shown(start: Seq<char>) -> NaiveDateTime {
    match local_time(start) {
        Some(t) => t,
        None => NaiveDate { year: 1970, month: 1, day: 1 }.midnight(),
    }
}

/// When an event ends; `None` where that leaves the calendar.
pub open spec fn end_shown(event: CalendarEventV) -> Option<NaiveDateTime> {
    match duration_secs(event.duration) {
        Some(d) => plus_secs(
            start_shown(event.start),
            match d {
                Some(n) => n,
                None => 0,
            },
        ),
        None => None,
    }
}

/// A text, or none.
pub open spec fn or_empty(s: Option<Seq<char>>) -> Seq<char> {
    match s {
        Some(t) => t,
        None => Seq::empty(),
    }
}

/// The name of the first place of an event.
pub open spec fn place_shown(locations: Option<Seq<(Seq<char>, LocationV)>>) -> Seq<char> {
    match locations {
        Some(m) => if m.len() > 0 {
            or_empty(m[0].1.name)
        } else {
            Seq::empty()
        },
        None => Seq::empty(),
    }
}

/// The calendar that is chosen for an event: its first, if any.
pub open spec fn calendar_shown(event: CalendarEventV) -> Option<Seq<char>> {
    match event.calendar_ids {
        Some(m) => if m.len() > 0 {
            Some(m[0].0)
        } else {
            None
        },
        None => None,
    }
}

/// The form for an event that is there; `None` where its end leaves the calendar.
pub open spec fn event_form(
    event: CalendarEventV,
    calendars: Seq<CalendarV>,
    p: ViewParamsV,
    error: Option<Seq<char>>,
) -> Option<EventFormV> {
    let start = start_shown(event.start);
    let repeat = repeat_shown(event.recurrence_rules, p.date);
    match end_shown(event) {
        Some(end) => Some(
            EventFormV {
                is_edit: true,
                event_id: or_empty(event.id),
                back_view: view_word(p.view),
                back_date: date_text(p.date),
                back_cal: p.cal_param(),
                calendars: options_with(
                    calendars,
                    chosen_calendar(calendars, calendar_shown(event)),
                ),
                title: or_empty(event.title),
                description: or_empty(event.description),
                location: place_shown(event.locations),
                all_day: event.show_without_time,
                start_date: date_text(start.date),
                start_time: hour_minute(start),
                end_date: date_text(end.date),
                end_time: hour_minute(end),
                timezones: zone_options(or_empty(event.time_zone), "Floating (no time zone)"@),
                repeat_freq: repeat.freq,
                repeat_interval: repeat.interval,
                repeat_end_mode: repeat.end_mode,
                repeat_until: repeat.until,
                repeat_count: repeat.count,
                error,
            },
        ),
        None => None,
    }
}

struct Repeat {
    freq: String,
    interval: u32,
    end_mode: String,
    until: String,
    count: u32,
}

impl DeepView for Repeat {
    type V = RepeatV;

    closed spec fn deep_view(&self) -> RepeatV {
        RepeatV {
            freq: self.freq@,
            interval: self.interval,
            end_mode: self.end_mode@,
            until: self.until@,
            count: self.count,
        }
    }
}

fn show_repeat(rules: &Option<Vec<RecurrenceRule>>, date: NaiveDate) -> (r: Repeat)
    requires
        date.valid(),
    ensures
        r.deep_view() == repeat_shown(rules.deep_view(), date),
{
    let today = format_time(date.at_midnight(), "%Y-%m-%d");
    if let Some(rs) = rules {
        if rs.len() > 0 {
            let rule = &rs[0];
            assert(rules.deep_view()->0[0] == rule.deep_view());
            let freq = match rule.frequency {
                Frequency::Daily => "daily",
                Frequency::Weekly => "weekly",
                Frequency::Monthly => "monthly",
                Frequency::Yearly => "yearly",
                _ => "none",
            };
            let interval: u32 = match rule.interval {
                Some(n) => n,
                None => 1,
            };
            let (end_mode, until, count) = if let Some(u) = &rule.until {
                let text = match u.to_naive() {
                    Some(t) => format_time(t.date.at_midnight(), "%Y-%m-%d"),
                    None => String::new(),
                };
                ("until", text, 5u32)
            } else if let Some(c) = rule.count {
                ("count", today, c)
            } else {
                ("never", today, 5u32)
            };
            let r = Repeat {
                freq: freq.to_string(),
                interval,
                end_mode: end_mode.to_string(),
                until,
                count,
            };
            assert(r.deep_view() =~= repeat_shown(rules.deep_view(), date));
            return r;
        }
    }
    Repeat {
        freq: "none".to_string(),
        interval: 1,
        end_mode: "never".to_string(),
        until: today,
        count: 5,
    }
}

fn text_or_empty(s: &Option<String>) -> (r: String)
    ensures
        r@ == or_empty(s.deep_view()),
{
    match s {
        Some(t) => t.clone(),
        None => String::new(),
    }
}

fn show_place(locations: &Option<StrMap<Location>>) -> (r: String)
    ensures
        r@ == place_shown(locations.deep_view()),
{
    match locations {
        Some(m) => {
            if m.entries.len() > 0 {
                assert(m.deep_view()[0] == m.entries@[0].deep_view());
                text_or_empty(&m.entries[0].1.name)
            } else {
                String::new()
            }
        },
        None => String::new(),
    }
}

fn show_calendars(event: &CalendarEvent, calendars: &Vec<Calendar>) -> (r: Vec<CalendarOption>)
    ensures
        r.deep_view() == options_with(
            calendars.deep_view(),
            chosen_calendar(calendars.deep_view(), calendar_shown(event.deep_view())),
        ),
{
    if let Some(m) = &event.calendar_ids {
        if m.entries.len() > 0 {
            assert(m.deep_view()[0] == m.entries@[0].deep_view());
            return calendar_options(calendars, Some(m.entries[0].0.as_str()));
        }
    }
    calendar_options(calendars, None)
}

fn shown_start(start: &LocalDateTime) -> (r: NaiveDateTime)
    ensures
        r == start_shown(start.deep_view()),
        r.valid(),
{
    match start.to_naive() {
        Some(t) => t,
        None => NaiveDate { year: 1970, month: 1, day: 1 }.at_midnight(),
    }
}

fn shown_end(event: &CalendarEvent) -> (r: Option<NaiveDateTime>)
    ensures
        r == end_shown(event.deep_view()),
        r is Some ==> r->0.valid(),
{
    match try_parse_duration(event.duration.as_str()) {
        Some(d) => {
            let secs: i64 = match d {
                Some(d) => d.secs,
                None => 0,
            };
            shown_start(&event.start).plus(secs)
        },
        None => None,
    }
}

pub(crate) fn form_of_event(
    event: &CalendarEvent,
    calendars: &Vec<Calendar>,
    params: &ViewParams,
    error: Option<String>,
) -> (r: Option<EventForm>)
    requires
        params.date.valid(),
    ensures
        r.deep_view() == event_form(
            event.deep_view(),
            calendars.deep_view(),
            params.deep_view(),
            error.deep_view(),
        ),
{
    let start = shown_start(&event.start);
    let end = match shown_end(event) {
        Some(t) => t,
        None => {
            return None;
        },
    };
    let repeat = show_repeat(&event.recurrence_rules, params.date);
    let zone = text_or_empty(&event.time_zone);
    let r = EventForm {
        is_edit: true,
        event_id: text_or_empty(&event.id),
        back_view: params.view.as_str().to_string(),
        back_date: format_time(params.date.at_midnight(), "%Y-%m-%d"),
        back_cal: params.cal_param(),
        calendars: show_calendars(event, calendars),
        title: text_or_empty(&event.title),
        description: text_or_empty(&event.description),
        location: show_place(&event.locations),
        all_day: event.show_without_time,
        start_date: format_time(start, "%Y-%m-%d"),
        start_time: format_time(start, "%H:%M"),
        end_date: format_time(end, "%Y-%m-%d"),
        end_time: format_time(end, "%H:%M"),
        timezones: tz_options(zone.as_str()),
        repeat_freq: repeat.freq,
        repeat_interval: repeat.interval,
        repeat_end_mode: repeat.end_mode,
        repeat_until: repeat.until,
        repeat_count: repeat.count,
        error,
    };
    assert(r.deep_view() =~= event_form(
        event.deep_view(),
        calendars.deep_view(),
        params.deep_view(),
        error.deep_view(),
    )->0);
    Some(r)
}

/// The form for an event that is there.
pub fn event_to_form(
    event: &CalendarEvent,
    calendars: &Vec<Calendar>,
    params: &ViewParams,
    error: Option<String>,
) -> (r: EventForm)
    requires
        params.date.valid(),
        end_shown(event.deep_view()) is Some,
    ensures
        Some(r.deep_view()) == event_form(
            event.deep_view(),
            calendars.deep_view(),
            params.deep_view(),
            error.deep_view(),
        ),
{
    match form_of_event(event, calendars, params, error) {
        Some(f) => f,
        None => blank_form(calendars, params, &Tz::utc(), None),
    }
}

/// Like [`event_to_form`], but `None` where the end of the event leaves the calendar.
pub fn try_event_to_form(
    event: &CalendarEvent,
    calendars: &Vec<Calendar>,
    params: &ViewParams,
    error: Option<String>,
) -> (r: Option<EventForm>)
    requires
        params.date.valid(),
    ensures
        r.deep_view() == event_form(
            event.deep_view(),
            calendars.deep_view(),
            params.deep_view(),
            error.deep_view(),
        ),
{
    form_of_event(event, calendars, params, error)
}

/// The form again with what was sent in it, and what is wrong with that.
pub open spec fn event_form_again(
    form: EventFormBodyV,
    is_edit: bool,
    event_id: Option<Seq<char>>,
    calendars: Seq<CalendarV>,
    p: ViewParamsV,
    message: Seq<char>,
) -> EventFormV {
    EventFormV {
        is_edit,
        event_id: or_empty(event_id),
        back_view: view_word(p.view),
        back_date: date_text(p.date),
        back_cal: p.cal_param(),
        calendars: options_with(calendars, Some(form.calendar_id)),
        title: form.title,
        description: form.description,
        location: form.location,
        all_day: form.all_day is Some,
        start_date: form.start_date,
        start_time: form.start_time,
        end_date: form.end_date,
        end_time: form.end_time,
        timezones: zone_options(form.timezone, "Floating (no time zone)"@),
        repeat_freq: form.repeat_freq,
        repeat_interval: form.repeat_interval,
        repeat_end_mode: form.repeat_end_mode,
        repeat_until: form.repeat_until,
        repeat_count: form.repeat_count,
        error: Some(message),
    }
}

/// The form again with what was sent in it, and what is wrong with that.
pub fn form_with_error(
    form: &EventFormBody,
    is_edit: bool,
    event_id: Option<String>,
    calendars: &Vec<Calendar>,
    params: &ViewParams,
    message: String,
) -> (r: EventForm)
    requires
        params.date.valid(),
    ensures
        r.deep_view() == event_form_again(
            form.deep_view(),
            is_edit,
            event_id.deep_view(),
            calendars.deep_view(),
            params.deep_view(),
            message@,
        ),
{
    let r = EventForm {
        is_edit,
        event_id: text_or_empty(&event_id),
        back_view: params.view.as_str().to_string(),
        back_date: format_time(params.date.at_midnight(), "%Y-%m-%d"),
        back_cal: params.cal_param(),
        calendars: calendar_options(calendars, Some(form.calendar_id.as_str())),
        title: form.title.clone(),
        description: form.description.clone(),
        location: form.location.clone(),
        all_day: form.all_day.is_some(),
        start_date: form.start_date.clone(),
        start_time: form.start_time.clone(),
        end_date: form.end_date.clone(),
        end_time: form.end_time.clone(),
        timezones: tz_options(form.timezone.as_str()),
        repeat_freq: form.repeat_freq.clone(),
        repeat_interval: form.repeat_interval,
        repeat_end_mode: form.repeat_end_mode.clone(),
        repeat_until: form.repeat_until.clone(),
        repeat_count: form.repeat_count,
        error: Some(message),
    };
    assert(r.deep_view() =~= event_form_again(
        form.deep_view(),
        is_edit,
        event_id.deep_view(),
        calendars.deep_view(),
        params.deep_view(),
        message@,
    ));
    r
}

// ---------------------------------------------------------------------------
// The event that a form asks for
// ---------------------------------------------------------------------------

/// The time that a date and a time of the day make.
pub open spec fn time_of_fields(date: Seq<char>, time: Seq<char>) -> Option<NaiveDateTime> {
    read_time(date + "T"@ + time + ":00"@, "%Y-%m-%dT%H:%M:%S"@)
}

impl EventFormBodyV {
    /// When the event is to start.
    pub open spec fn start(self) -> Option<NaiveDateTime> {
        time_of_fields(
            self.start_date,
            if self.all_day is Some {
                "00:00"@
            } else {
                self.start_time
            },
        )
    }

    /// How many seconds the event is to last, once it starts: whole days and at least one where
    /// it lasts all day, else at least a minute.
    pub open spec fn lasts(self, start: NaiveDateTime) -> Result<int, Seq<char>> {
        if self.all_day is Some {
            match read_date(self.start_date, "%Y-%m-%d"@) {
                Some(a) => match read_date(self.end_date, "%Y-%m-%d"@) {
                    Some(b) => if b.num() - a.num() < 1 {
                        Ok(86400)
                    } else {
                        Ok((b.num() - a.num()) * 86400)
                    },
                    None => Err("invalid end date"@),
                },
                None => Err("invalid start date"@),
            }
        } else {
            match time_of_fields(self.end_date, self.end_time) {
                Some(end) => if secs_between(end, start) < 60 {
                    Err("end must be after start"@)
                } else {
                    Ok(secs_between(end, start))
                },
                None => Err("invalid end date/time"@),
            }
        }
    }

    /// How the event is to repeat, if it is.
    pub open spec fn rule(self) -> Result<Option<RecurrenceRuleV>, Seq<char>> {
        let rule = RecurrenceRuleV {
            frequency: frequency_of_word(self.repeat_freq),
            interval: Some(at_least_one(self.repeat_interval)),
            ..RecurrenceRuleV::blank()
        };
        if self.repeat_freq == "none"@ {
            Ok(None)
        } else if self.repeat_end_mode == "count"@ {
            Ok(Some(RecurrenceRuleV { count: Some(at_least_one(self.repeat_count)), ..rule }))
        } else if self.repeat_end_mode == "until"@ {
            match read_date(self.repeat_until, "%Y-%m-%d"@) {
                Some(d) => Ok(Some(RecurrenceRuleV { until: Some(iso_text(end_of_day(d))), ..rule })),
                None => Err("invalid repeat end date"@),
            }
        } else {
            Ok(Some(rule))
        }
    }

    /// The event that the form asks for.
    pub open spec fn event(
        self,
        uid: Seq<char>,
        start: NaiveDateTime,
        secs: int,
        rule: Option<RecurrenceRuleV>,
    ) -> CalendarEventV {
        CalendarEventV {
            title: unless_empty(trim(self.title)),
            description: unless_empty(self.description),
            show_without_time: self.all_day is Some,
            time_zone: unless_empty(self.timezone),
            duration: duration_text(secs),
            calendar_ids: Some(seq![(self.calendar_id, true)]),
            locations: if self.location.len() > 0 {
                Some(
                    seq![
                        ("loc1"@, LocationV { name: Some(self.location), ..LocationV::blank() }),
                    ],
                )
            } else {
                None
            },
            recurrence_rules: match rule {
                Some(r) => Some(seq![r]),
                None => None,
            },
            ..CalendarEventV::bare(uid, iso_text(start))
        }
    }

    /// The event that the form asks for, or the first thing that is wrong with it.
    pub open spec fn built(self, uid: Seq<char>) -> Result<CalendarEventV, Seq<char>> {
        match self.start() {
            Some(start) => match self.lasts(start) {
                Ok(secs) => match self.rule() {
                    Ok(rule) => Ok(self.event(uid, start, secs, rule)),
                    Err(e) => Err(e),
                },
                Err(e) => Err(e),
            },
            None => Err("invalid start date/time"@),
        }
    }
}

/// The last second of a day.
pub open spec fn end_of_day(d: NaiveDate) -> NaiveDateTime {
    NaiveDateTime { date: d, secs: 86399, leap: false }
}

/// A number, but at least one.
pub open spec fn at_least_one(n: u32) -> u32 {
    if n == 0 {
        1
    } else {
        n
    }
}

/// A text, where it is not empty.
pub open spec fn unless_empty(s: Seq<char>) -> Option<Seq<char>> {
    if s.len() > 0 {
        Some(s)
    } else {
        None
    }
}

/// How often a word asks to repeat; a word that is not known asks for every day.
pub open spec fn frequency_of_word(s: Seq<char>) -> Frequency {
    if s == "weekly"@ {
        Frequency::Weekly
    } else if s == "monthly"@ {
        Frequency::Monthly
    } else if s == "yearly"@ {
        Frequency::Yearly
    } else {
        Frequency::Daily
    }
}

fn parse_dt(date: &str, time: &str) -> (r: Option<NaiveDateTime>)
    ensures
        r == time_of_fields(date@, time@),
        r is Some ==> r->0.valid(),
{
    let mut s = date.to_string();
    s.append("T");
    s.append(time);
    s.append(":00");
    read_iso(s.as_str())
}

fn form_start(form: &EventFormBody) -> (r: Option<NaiveDateTime>)
    ensures
        r == form.deep_view().start(),
        r is Some ==> r->0.valid(),
{
    if form.all_day.is_some() {
        parse_dt(form.start_date.as_str(), "00:00")
    } else {
        parse_dt(form.start_date.as_str(), form.start_time.as_str())
    }
}

fn form_lasts(form: &EventFormBody, start: NaiveDateTime) -> (r: Result<i64, &'static str>)
    requires
        start.valid(),
    ensures
        match form.deep_view().lasts(start) {
            Ok(n) => r is Ok && r->Ok_0 == n && secs_fit(n),
            Err(e) => r is Err && r->Err_0@ == e,
        },
{
    if form.all_day.is_some() {
        let a = match read_iso_date(form.start_date.as_str()) {
            Some(d) => d,
            None => {
                return Err("invalid start date");
            },
        };
        let b = match read_iso_date(form.end_date.as_str()) {
            Some(d) => d,
            None => {
                return Err("invalid end date");
            },
        };
        let secs: i64 = seconds_between(b.at_midnight(), a.at_midnight());
        assert(secs == (b.num() - a.num()) * 86400);
        if secs < 86400 {
            Ok(86400)
        } else {
            Ok(secs)
        }
    } else {
        match parse_dt(form.end_date.as_str(), form.end_time.as_str()) {
            Some(end) => {
                let secs: i64 = seconds_between(end, start);
                if secs < 60 {
                    Err("end must be after start")
                } else {
                    Ok(secs)
                }
            },
            None => Err("invalid end date/time"),
        }
    }
}

fn form_rule(form: &EventFormBody) -> (r: Result<Option<RecurrenceRule>, &'static str>)
    ensures
        match form.deep_view().rule() {
            Ok(rule) => r is Ok && r->Ok_0.deep_view() == rule,
            Err(e) => r is Err && r->Err_0@ == e,
        },
{
    if str_eq(form.repeat_freq.as_str(), "none") {
        return Ok(None);
    }
    let frequency = if str_eq(form.repeat_freq.as_str(), "weekly") {
        Frequency::Weekly
    } else if str_eq(form.repeat_freq.as_str(), "monthly") {
        Frequency::Monthly
    } else if str_eq(form.repeat_freq.as_str(), "yearly") {
        Frequency::Yearly
    } else {
        Frequency::Daily
    };
    let interval: u32 = if form.repeat_interval == 0 {
        1
    } else {
        form.repeat_interval
    };
    let mut rule = RecurrenceRule::default();
    rule.frequency = frequency;
    rule.interval = Some(interval);
    if str_eq(form.repeat_end_mode.as_str(), "count") {
        let count: u32 = if form.repeat_count == 0 {
            1
        } else {
            form.repeat_count
        };
        rule.count = Some(count);
    } else if str_eq(form.repeat_end_mode.as_str(), "until") {
        match read_iso_date(form.repeat_until.as_str()) {
            Some(d) => {
                rule.until = Some(
                    LocalDateTime::from_naive(NaiveDateTime { date: d, secs: 86399, leap: false }),
                );
            },
            None => {
                return Err("invalid repeat end date");
            },
        }
    }
    Ok(Some(rule))
}

fn some_text(s: String) -> (r: Option<String>)
    ensures
        r.deep_view() == unless_empty(s@),
{
    if is_blank(s.as_str()) {
        None
    } else {
        Some(s)
    }
}

fn one_location(name: &str) -> (r: Option<StrMap<Location>>)
    ensures
        r.deep_view() == (if name@.len() > 0 {
            Some(seq![("loc1"@, LocationV { name: Some(name@), ..LocationV::blank() })])
        } else {
            None
        }),
{
    if is_blank(name) {
        return None;
    }
    let mut place = Location::default();
    place.name = Some(name.to_string());
    let mut m: StrMap<Location> = StrMap::new();
    m.insert("loc1".to_string(), place);
    assert(m.deep_view() =~= seq![("loc1"@, place.deep_view())]);
    Some(m)
}

fn one_calendar(id: &str) -> (r: StrMap<bool>)
    ensures
        r.deep_view() == seq![(id@, true)],
{
    let mut m: StrMap<bool> = StrMap::new();
    m.insert(id.to_string(), true);
    assert(m.deep_view() =~= seq![(id@, true)]);
    m
}

fn one_rule(rule: Option<RecurrenceRule>) -> (r: Option<Vec<RecurrenceRule>>)
    ensures
        r.deep_view() == (match rule.deep_view() {
            Some(x) => Some(seq![x]),
            None => None,
        }),
{
    match rule {
        Some(x) => {
            let v = vec![x];
            assert(v.deep_view() =~= seq![x.deep_view()]);
            Some(v)
        },
        None => None,
    }
}

/// The event that a form asks for, or what is wrong with it.
pub fn build_event_from_form(form: &EventFormBody, uid: &str) -> (r: Result<CalendarEvent, String>)
    ensures
        match form.deep_view().built(uid@) {
            Ok(e) => r is Ok && r->Ok_0.deep_view() == e,
            Err(e) => r is Err && r->Err_0@ == e,
        },
{
    let start = match form_start(form) {
        Some(t) => t,
        None => {
            return Err("invalid start date/time".to_string());
        },
    };
    let secs: i64 = match form_lasts(form, start) {
        Ok(n) => n,
        Err(e) => {
            return Err(e.to_string());
        },
    };
    let rule = match form_rule(form) {
        Ok(x) => x,
        Err(e) => {
            return Err(e.to_string());
        },
    };
    let ghost rv = rule.deep_view();
    let mut event = CalendarEvent::new(uid, LocalDateTime::from_naive(start));
    event.title = some_text(trim_str(form.title.as_str()));
    event.description = some_text(form.description.clone());
    event.show_without_time = form.all_day.is_some();
    event.time_zone = some_text(form.timezone.clone());
    event.duration = format_duration(Duration { secs });
    event.calendar_ids = Some(one_calendar(form.calendar_id.as_str()));
    event.locations = one_location(form.location.as_str());
    event.recurrence_rules = one_rule(rule);
    assert(event.deep_view() =~= form.deep_view().event(uid@, start, secs as int, rv));
    Ok(event)
}

/// The new event that a form asks for, with an id of its own.
pub fn new_event_from_form(form: &EventFormBody) -> (r: Result<CalendarEvent, String>)
    ensures
        match r {
            Ok(e) => is_uuid(e.uid@) && form.deep_view().built(e.uid@) == Ok::<
                CalendarEventV,
                Seq<char>,
            >(e.deep_view()),
            Err(e) => forall|uid: Seq<char>| #[trigger]
                form.deep_view().built(uid) == Err::<CalendarEventV, Seq<char>>(e@),
        },
{
    build_event_from_form(form, new_id().as_str())
}

// ---------------------------------------------------------------------------
// What was saved is shown again
// ---------------------------------------------------------------------------

proof fn unless_empty_shows(s: Seq<char>)
    ensures
        or_empty(unless_empty(s)) == s,
{
    if s.len() == 0 {
        assert(s =~= Seq::empty());
    }
}

/// How often an event repeats is shown again, and when that ends.
pub proof fn saved_rule_is_shown(form: EventFormBodyV, date: NaiveDate)
    requires
        form.rule() is Ok,
        form.repeat_freq == "none"@ || form.repeat_freq == "daily"@ || form.repeat_freq
            == "weekly"@ || form.repeat_freq == "monthly"@ || form.repeat_freq == "yearly"@,
    ensures
        ({
            let shown = repeat_shown(
                match form.rule()->Ok_0 {
                    Some(r) => Some(seq![r]),
                    None => None,
                },
                date,
            );
            &&& shown.freq == form.repeat_freq
            &&& form.repeat_freq != "none"@ ==> {
                &&& shown.interval == at_least_one(form.repeat_interval)
                &&& form.repeat_end_mode == "count"@ ==> shown.end_mode == "count"@ && shown.count
                    == at_least_one(form.repeat_count)
                &&& form.repeat_end_mode == "until"@ ==> shown.end_mode == "until"@
                    && read_date(form.repeat_until, "%Y-%m-%d"@) is Some && shown.until
                    == date_text(read_date(form.repeat_until, "%Y-%m-%d"@)->0)
                &&& form.repeat_end_mode == "never"@ ==> shown.end_mode == "never"@
            }
        }),
{
    reveal_strlit("none");
    reveal_strlit("daily");
    reveal_strlit("weekly");
    reveal_strlit("monthly");
    reveal_strlit("yearly");
    reveal_strlit("count");
    reveal_strlit("until");
    reveal_strlit("never");
    assert("daily"@.len() != "weekly"@.len());
    assert("daily"@.len() != "monthly"@.len());
    assert("daily"@.len() != "yearly"@.len());
    assert("weekly"@[0] != "yearly"@[0]);
    assert("weekly"@.len() != "monthly"@.len());
    assert("yearly"@.len() != "monthly"@.len());
    assert("none"@.len() != "daily"@.len());
    assert("none"@.len() != "weekly"@.len());
    assert("none"@.len() != "monthly"@.len());
    assert("none"@.len() != "yearly"@.len());
    assert("count"@[0] != "until"@[0]);
    assert("count"@[0] != "never"@[0]);
    assert("until"@[0] != "never"@[0]);
    if form.repeat_freq != "none"@ {
        let rule = form.rule()->Ok_0->0;
        assert(seq![rule][0] == rule);
        if form.repeat_end_mode == "until"@ {
            let d = read_date(form.repeat_until, "%Y-%m-%d"@)->0;
            assert(d.valid());
            local_time_of_text(end_of_day(d));
        }
    }
}

proof fn field_time_ends(date: Seq<char>, time: Seq<char>)
    ensures
        time_of_fields(date, time) is Some ==> time_of_fields(date, time)->0.on_clock()
            && !time_of_fields(date, time)->0.leap,
{
    let s = date + "T"@ + time + ":00"@;
    assert(s.skip(s.len() - ":00"@.len()) =~= ":00"@);
    no_leap_at_zero_seconds(s, "%Y-%m-%dT%H:%M:%S"@);
    local_time_on_clock(s);
}

/// An event that was saved is shown with the start that was asked for.
proof fn saved_start(form: EventFormBodyV, uid: Seq<char>)
    requires
        form.built(uid) is Ok,
    ensures
        start_shown(form.built(uid)->Ok_0.start) == form.start()->0,
        form.start()->0.on_clock(),
        !form.start()->0.leap,
{
    if form.all_day is Some {
        field_time_ends(form.start_date, "00:00"@);
    } else {
        field_time_ends(form.start_date, form.start_time);
    }
    local_time_of_text(form.start()->0);
}

/// A timed event that was saved is shown with the end that was asked for.
proof fn saved_end(form: EventFormBodyV, uid: Seq<char>)
    requires
        form.built(uid) is Ok,
        form.all_day is None,
    ensures
        end_shown(form.built(uid)->Ok_0) == Some(
            time_of_fields(form.end_date, form.end_time)->0,
        ),
{
    let start = form.start()->0;
    let end = time_of_fields(form.end_date, form.end_time)->0;
    saved_start(form, uid);
    field_time_ends(form.end_date, form.end_time);
    secs_between_fits(end, start);
    duration_text_reads_back(secs_between(end, start));
    plus_secs_between(end, start);
}

/// What a form saves is what the form for the event shows: its texts, its times, and whether
/// it lasts all day. A timed event is shown with the start and the end that were asked for.
pub proof fn saved_event_is_shown(
    form: EventFormBodyV,
    uid: Seq<char>,
    calendars: Seq<CalendarV>,
    p: ViewParamsV,
)
    requires
        form.built(uid) is Ok,
    ensures
        ({
            let event = form.built(uid)->Ok_0;
            let start = form.start()->0;
            let end = time_of_fields(form.end_date, form.end_time);
            &&& form.all_day is None ==> event_form(event, calendars, p, None) is Some
            &&& event_form(event, calendars, p, None) matches Some(shown) ==> {
                &&& shown.title == trim(form.title)
                &&& shown.description == form.description
                &&& shown.location == form.location
                &&& shown.all_day == (form.all_day is Some)
                &&& shown.timezones == zone_options(form.timezone, "Floating (no time zone)"@)
                &&& shown.calendars == options_with(calendars, Some(form.calendar_id))
                &&& shown.start_date == date_text(start.date)
                &&& shown.start_time == hour_minute(start)
                &&& form.all_day is None ==> shown.end_date == date_text(end->0.date)
                    && shown.end_time == hour_minute(end->0)
            }
        }),
{
    saved_start(form, uid);
    if form.all_day is None {
        saved_end(form, uid);
    }
    unless_empty_shows(trim(form.title));
    unless_empty_shows(form.description);
    unless_empty_shows(form.timezone);
    if form.location.len() == 0 {
        assert(form.location =~= Seq::empty());
    }
}

proof fn secs_between_fits(a: NaiveDateTime, b: NaiveDateTime)
    requires
        a.valid(),
        b.valid(),
    ensures
        secs_fit(secs_between(a, b)),
{
    range_bounds();
    date_of_num(a.date);
    date_of_num(b.date);
}

} // verus!
