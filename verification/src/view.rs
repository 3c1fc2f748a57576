//! The calendar views: which dates they show, and what stands where.

use vstd::prelude::*;
use vstd::string::*;
use vstd::utf8::encode_utf8;
use crate::calendar::{
    date_less, date_minus_months, date_plus_months, nums_ascend, plus_days, plus_months, plus_secs,
    time_less, NaiveDate, NaiveDateTime,
};
use crate::collections::{sort_items, stable_sorted, CloneView, Ordered, StrSet};
use crate::duration::{duration_secs, try_parse_duration};
use crate::jscalendar::{Calendar, CalendarEvent, CalendarEventV, CalendarV};
use crate::numbers::{dec, i64_text, int_text, padded_text, u64_text, zero_fill};
use crate::state::TimeFormat;
use crate::recurrence::{expand_checked, expansion, starts_valid, OccurrenceV};
use crate::text::{join, join_str, str_eq};
use crate::timetext::{
    date_text, format_time, month_abbr, month_day_text, month_name, weekday_name, year_text,
};
use crate::tz::{convert_checked, converted, is_zone, parse_tz, Tz};
use crate::webutil::{urlencode, urlencoded};

verus! {

/// The height of an hour in the time grids, in pixels.
pub const HOUR_HEIGHT_PX: i64 = 48;

pub const BIRTHDAY_COLOR: &'static str = "#f43f5e";

/// The id that stands for birthdays among those of calendars. Birthdays are not in a real
/// calendar, but they are shown and hidden like one.
pub const BIRTHDAY_PSEUDO_ID: &'static str = "birthdays";

/// A way to look at the calendar.
#[derive(Debug, Clone, Copy, PartialEq, Eq, Structural)]
pub enum ViewKind {
    Month,
    Week,
    Day,
    Agenda,
    Contacts,
}

impl DeepView for ViewKind {
    type V = ViewKind;

    open spec fn deep_view(&self) -> ViewKind {
        *self
    }
}

impl CloneView for ViewKind {
    fn clone_view(&self) -> (r: Self) {
        *self
    }
}

/// The name of a view.
pub open spec fn view_word(v: ViewKind) -> Seq<char> {
    match v {
        ViewKind::Month => "month"@,
        ViewKind::Week => "week"@,
        ViewKind::Day => "day"@,
        ViewKind::Agenda => "agenda"@,
        ViewKind::Contacts => "contacts"@,
    }
}

/// The view with a name; the month view for any other text.
pub open spec fn view_of(s: Seq<char>) -> ViewKind {
    if s == "week"@ {
        ViewKind::Week
    } else if s == "day"@ {
        ViewKind::Day
    } else if s == "agenda"@ {
        ViewKind::Agenda
    } else if s == "contacts"@ {
        ViewKind::Contacts
    } else {
        ViewKind::Month
    }
}

impl ViewKind {
    pub fn as_str(&self) -> (r: &'static str)
        ensures
            r@ == view_word(*self),
    {
        match self {
            ViewKind::Month => "month",
            ViewKind::Week => "week",
            ViewKind::Day => "day",
            ViewKind::Agenda => "agenda",
            ViewKind::Contacts => "contacts",
        }
    }

    pub fn parse(s: &str) -> (r: Self)
        ensures
            r == view_of(s@),
    {
        if str_eq(s, "week") {
            ViewKind::Week
        } else if str_eq(s, "day") {
            ViewKind::Day
        } else if str_eq(s, "agenda") {
            ViewKind::Agenda
        } else if str_eq(s, "contacts") {
            ViewKind::Contacts
        } else {
            ViewKind::Month
        }
    }

    /// Whether the view is anchored to a date, as opposed to a flat list like the contacts.
    pub fn is_dated(&self) -> (r: bool)
        ensures
            r == (*self != ViewKind::Contacts),
    {
        match self {
            ViewKind::Contacts => false,
            _ => true,
        }
    }
}

/// The name of a view leads back to it.
pub proof fn view_words_read_back(v: ViewKind)
    ensures
        view_of(view_word(v)) == v,
{
    reveal_strlit("month");
    reveal_strlit("week");
    reveal_strlit("day");
    reveal_strlit("agenda");
    reveal_strlit("contacts");
    assert("month"@.len() != "week"@.len());
    assert("month"@.len() != "day"@.len());
    assert("month"@.len() != "agenda"@.len());
    assert("month"@.len() != "contacts"@.len());
    assert("day"@.len() != "week"@.len());
    assert("agenda"@.len() != "week"@.len());
    assert("agenda"@.len() != "day"@.len());
    assert("contacts"@.len() != "week"@.len());
    assert("contacts"@.len() != "day"@.len());
    assert("contacts"@.len() != "agenda"@.len());
}

/// The state of the query string that drives every view: which view, which date, and which
/// calendars are visible. All of it is in the URL, so that views can be bookmarked.
#[derive(Debug)]
pub struct ViewParams {
    pub view: ViewKind,
    pub date: NaiveDate,
    pub visible: StrSet,
    pub all_calendar_ids: Vec<String>,
    /// The text that filters contacts; it matters only for the contacts view.
    pub q: Option<String>,
}

/// What [`ViewParams`] stand for.
#[verifier::ext_equal]
pub struct ViewParamsV {
    pub view: ViewKind,
    pub date: NaiveDate,
    pub visible: Set<Seq<char>>,
    pub all_calendar_ids: Seq<Seq<char>>,
    pub q: Option<Seq<char>>,
}

impl DeepView for ViewParams {
    type V = ViewParamsV;

    open spec fn deep_view(&self) -> ViewParamsV {
        ViewParamsV {
            view: self.view,
            date: self.date,
            visible: self.visible.deep_view(),
            all_calendar_ids: self.all_calendar_ids.deep_view(),
            q: self.q.deep_view(),
        }
    }
}

/// Those of `ids` that are in `visible`, with commas between them.
pub open spec fn visible_list(ids: Seq<Seq<char>>, visible: Set<Seq<char>>) -> Seq<char> {
    join(ids.filter(|id: Seq<char>| visible.contains(id)), ","@)
}

/// `set` with `id` taken out where it is in, and put in where it is not.
pub open spec fn toggled(set: Set<Seq<char>>, id: Seq<char>) -> Set<Seq<char>> {
    if set.contains(id) {
        set.remove(id)
    } else {
        set.insert(id)
    }
}

/// Toggling an id twice changes nothing.
pub proof fn toggle_twice(set: Set<Seq<char>>, id: Seq<char>)
    ensures
        toggled(toggled(set, id), id) == set,
{
    assert(toggled(toggled(set, id), id) =~= set);
}

/// The part of a query string that keeps the filter, for the contacts view.
pub open spec fn filter_suffix(view: ViewKind, q: Option<Seq<char>>) -> Seq<char> {
    if view == ViewKind::Contacts && q is Some && q->0.len() > 0 {
        "&q="@ + urlencoded(q->0)
    } else {
        Seq::empty()
    }
}

/// A query string for a view of a date with some calendars.
pub open spec fn query_text(
    view: ViewKind,
    date: NaiveDate,
    cal: Seq<char>,
    q: Option<Seq<char>>,
) -> Seq<char> {
    "view="@ + view_word(view) + "&date="@ + date_text(date) + "&cal="@ + cal + filter_suffix(
        view,
        q,
    )
}

impl ViewParamsV {
    pub open spec fn cal_param(self) -> Seq<char> {
        visible_list(self.all_calendar_ids, self.visible)
    }

    pub open spec fn query_string(self, view: ViewKind, date: NaiveDate) -> Seq<char> {
        query_text(view, date, self.cal_param(), self.q)
    }

    /// The link that shows or hides a calendar.
    pub open spec fn toggle_href(self, id: Seq<char>) -> Seq<char> {
        "/app?"@ + query_text(
            self.view,
            self.date,
            visible_list(self.all_calendar_ids, toggled(self.visible, id)),
            self.q,
        )
    }

    /// How many days a step back or forth goes, where it goes by days.
    pub open spec fn step_days(self) -> int {
        match self.view {
            ViewKind::Week => 7,
            ViewKind::Day => 1,
            ViewKind::Agenda => 30,
            _ => 0,
        }
    }

    /// The date that the view shows one step on, where it is in the calendar. A month goes
    /// to the same day of the next one, and stays at the end of the calendar.
    pub open spec fn stepped(self, sign: int) -> Option<NaiveDate> {
        match self.view {
            ViewKind::Month => match plus_months(self.date, sign) {
                Some(d) => Some(d),
                None => Some(self.date),
            },
            ViewKind::Contacts => Some(self.date),
            _ => plus_days(self.date, sign * self.step_days()),
        }
    }
}

/// The Monday of a date's week.
pub open spec fn monday_of(d: NaiveDate) -> Option<NaiveDate> {
    plus_days(d, -d.weekday_num())
}

/// The title of the week from `start` to `end`.
pub open spec fn week_title(start: NaiveDate, end: NaiveDate) -> Seq<char> {
    if start.month == end.month {
        month_abbr(start.month as int) + " "@ + dec(start.day as nat) + "\u{2013}"@ + dec(
            end.day as nat,
        ) + " "@ + int_text(end.year as int)
    } else {
        month_abbr(start.month as int).push(' ') + dec(start.day as nat) + " \u{2013} "@ + (
        month_abbr(end.month as int).push(' ') + dec(end.day as nat) + seq![',', ' '] + year_text(
            end.year as int,
        ))
    }
}

/// The title of a view; `None` where its week leaves the calendar.
pub open spec fn title_text(p: ViewParamsV, today: NaiveDate) -> Option<Seq<char>> {
    match p.view {
        ViewKind::Month => Some(
            month_name(p.date.month as int).push(' ') + year_text(p.date.year as int),
        ),
        ViewKind::Week => match monday_of(p.date) {
            Some(start) => match plus_days(start, 6) {
                Some(end) => Some(week_title(start, end)),
                None => None,
            },
            None => None,
        },
        ViewKind::Day => Some(
            if p.date == today {
                "Today \u{2013} "@ + (weekday_name(p.date.weekday_num()) + seq![',', ' ']
                    + month_day_text(p.date))
            } else {
                weekday_name(p.date.weekday_num()) + seq![',', ' '] + month_day_text(p.date)
                    + seq![',', ' '] + year_text(p.date.year as int)
            },
        ),
        ViewKind::Agenda => Some("Agenda"@),
        ViewKind::Contacts => Some("Contacts"@),
    }
}

fn push_query(out: &mut String, view: ViewKind, date: NaiveDate, cal: &str, q: &Option<String>)
    requires
        date.valid(),
    ensures
        final(out)@ == old(out)@ + query_text(view, date, cal@, q.deep_view()),
{
    let ghost before = out@;
    out.append("view=");
    out.append(view.as_str());
    out.append("&date=");
    let d = format_time(date.at_midnight(), "%Y-%m-%d");
    out.append(d.as_str());
    out.append("&cal=");
    out.append(cal);
    if let Some(q) = q {
        if view == ViewKind::Contacts && q.as_str().unicode_len() > 0 {
            out.append("&q=");
            let t = urlencode(q.as_str());
            out.append(t.as_str());
        }
    }
    assert(out@ =~= before + query_text(view, date, cal@, q.deep_view()));
}

fn list_visible(ids: &Vec<String>, visible: &StrSet) -> (r: String)
    ensures
        r@ == visible_list(ids.deep_view(), visible.deep_view()),
{
    let ghost iv = ids.deep_view();
    let ghost keep = |id: Seq<char>| visible.deep_view().contains(id);
    let mut out: Vec<String> = Vec::new();
    let mut i: usize = 0;
    assert(iv.take(0).filter(keep) =~= Seq::empty()) by {
        reveal(Seq::filter);
    }
    assert(out.deep_view() =~= Seq::empty());
    while i < ids.len()
        invariant
            0 <= i <= ids@.len(),
            iv == ids.deep_view(),
            keep == (|id: Seq<char>| visible.deep_view().contains(id)),
            out.deep_view() == iv.take(i as int).filter(keep),
        decreases ids@.len() - i,
    {
        let ghost before = out.deep_view();
        proof {
            reveal(Seq::filter);
            assert(iv.take(i + 1).drop_last() =~= iv.take(i as int));
            assert(iv.take(i + 1).last() == ids@[i as int]@);
        }
        if visible.contains(ids[i].as_str()) {
            let c = ids[i].clone();
            out.push(c);
            assert(out.deep_view() =~= before.push(ids@[i as int]@));
        }
        i = i + 1;
    }
    assert(iv.take(i as int) =~= iv);
    join_str(&out, ",")
}

impl ViewParams {
    pub fn query_string(&self, view: ViewKind, date: NaiveDate) -> (r: String)
        requires
            date.valid(),
        ensures
            r@ == self.deep_view().query_string(view, date),
    {
        let cal = self.cal_param();
        let mut out = String::new();
        push_query(&mut out, view, date, cal.as_str(), &self.q);
        assert(out@ =~= self.deep_view().query_string(view, date));
        out
    }

    /// The visible calendars, with commas between their ids.
    pub fn cal_param(&self) -> (r: String)
        ensures
            r@ == self.deep_view().cal_param(),
    {
        list_visible(&self.all_calendar_ids, &self.visible)
    }

    /// The link that shows or hides a calendar.
    pub fn toggle_href(&self, calendar_id: &str) -> (r: String)
        requires
            self.date.valid(),
        ensures
            r@ == self.deep_view().toggle_href(calendar_id@),
    {
        let mut set = self.visible.clone_view();
        if set.contains(calendar_id) {
            set.remove(calendar_id);
        } else {
            set.insert(calendar_id.to_string());
        }
        let cal = list_visible(&self.all_calendar_ids, &set);
        let mut out = String::new();
        out.append("/app?");
        push_query(&mut out, self.view, self.date, cal.as_str(), &self.q);
        assert(out@ =~= self.deep_view().toggle_href(calendar_id@));
        out
    }

    pub fn nav_href(&self, view: ViewKind, date: NaiveDate) -> (r: String)
        requires
            date.valid(),
        ensures
            r@ == "/app?"@ + self.deep_view().query_string(view, date),
    {
        let q = self.query_string(view, date);
        let mut out = String::new();
        out.append("/app?");
        out.append(q.as_str());
        assert(out@ =~= "/app?"@ + self.deep_view().query_string(view, date));
        out
    }

    /// The date one step back, or `None` where it is not in the calendar.
    pub fn try_prev_date(&self) -> (r: Option<NaiveDate>)
        requires
            self.date.valid(),
        ensures
            r == self.deep_view().stepped(-1),
            r is Some ==> r->0.valid(),
    {
        match self.view {
            ViewKind::Month => match date_minus_months(self.date, 1) {
                Some(d) => Some(d),
                None => Some(self.date),
            },
            ViewKind::Week => self.date.add_days(-7),
            ViewKind::Day => self.date.add_days(-1),
            ViewKind::Agenda => self.date.add_days(-30),
            ViewKind::Contacts => Some(self.date),
        }
    }

    /// The date one step on, or `None` where it is not in the calendar.
    pub fn try_next_date(&self) -> (r: Option<NaiveDate>)
        requires
            self.date.valid(),
        ensures
            r == self.deep_view().stepped(1),
            r is Some ==> r->0.valid(),
    {
        match self.view {
            ViewKind::Month => match date_plus_months(self.date, 1) {
                Some(d) => Some(d),
                None => Some(self.date),
            },
            ViewKind::Week => self.date.add_days(7),
            ViewKind::Day => self.date.add_days(1),
            ViewKind::Agenda => self.date.add_days(30),
            ViewKind::Contacts => Some(self.date),
        }
    }

    /// The date one step back.
    pub fn prev_date(&self) -> (r: NaiveDate)
        requires
            self.date.valid(),
            self.deep_view().stepped(-1) is Some,
        ensures
            Some(r) == self.deep_view().stepped(-1),
            r.valid(),
    {
        match self.try_prev_date() {
            Some(d) => d,
            None => self.date,
        }
    }

    /// The date one step on.
    pub fn next_date(&self) -> (r: NaiveDate)
        requires
            self.date.valid(),
            self.deep_view().stepped(1) is Some,
        ensures
            Some(r) == self.deep_view().stepped(1),
            r.valid(),
    {
        match self.try_next_date() {
            Some(d) => d,
            None => self.date,
        }
    }

    /// The title of the view, or `None` where its week leaves the calendar.
    pub fn try_title(&self, today: NaiveDate) -> (r: Option<String>)
        requires
            self.date.valid(),
        ensures
            r.deep_view() == title_text(self.deep_view(), today),
    {
        let ghost want = title_text(self.deep_view(), today);
        match self.view {
            ViewKind::Month => Some(format_time(self.date.at_midnight(), "%B %Y")),
            ViewKind::Week => {
                let start = match try_week_start(self.date) {
                    Some(d) => d,
                    None => {
                        return None;
                    },
                };
                let end = match start.add_days(6) {
                    Some(d) => d,
                    None => {
                        return None;
                    },
                };
                let mut out = String::new();
                if start.month == end.month {
                    let m = format_time(start.at_midnight(), "%b");
                    out.append(m.as_str());
                    out.append(" ");
                    let a = u64_text(start.day as u64);
                    out.append(a.as_str());
                    out.append("\u{2013}");
                    let b = u64_text(end.day as u64);
                    out.append(b.as_str());
                    out.append(" ");
                    let y = i64_text(end.year as i64);
                    out.append(y.as_str());
                } else {
                    let a = format_time(start.at_midnight(), "%b %-d");
                    out.append(a.as_str());
                    out.append(" \u{2013} ");
                    let b = format_time(end.at_midnight(), "%b %-d, %Y");
                    out.append(b.as_str());
                }
                assert(out@ =~= week_title(start, end));
                Some(out)
            },
            ViewKind::Day => {
                if self.date == today {
                    let mut out = String::new();
                    out.append("Today \u{2013} ");
                    let d = format_time(self.date.at_midnight(), "%A, %B %-d");
                    out.append(d.as_str());
                    assert(out@ =~= want->0);
                    Some(out)
                } else {
                    Some(format_time(self.date.at_midnight(), "%A, %B %-d, %Y"))
                }
            },
            ViewKind::Agenda => Some("Agenda".to_string()),
            ViewKind::Contacts => Some("Contacts".to_string()),
        }
    }

    /// The title of the view.
    pub fn title(&self, today: NaiveDate) -> (r: String)
        requires
            self.date.valid(),
            title_text(self.deep_view(), today) is Some,
        ensures
            Some(r@) == title_text(self.deep_view(), today),
    {
        match self.try_title(today) {
            Some(t) => t,
            None => String::new(),
        }
    }
}

/// The Monday of a date's week, or `None` where it is not in the calendar.
pub fn try_week_start(date: NaiveDate) -> (r: Option<NaiveDate>)
    requires
        date.valid(),
    ensures
        r == monday_of(date),
        r is Some ==> r->0.valid() && r->0.num() == date.num() - date.weekday_num(),
{
    date.add_days(-(date.weekday() as i64))
}

/// The Monday of a date's week.
pub fn week_start(date: NaiveDate) -> (r: NaiveDate)
    requires
        date.valid(),
        monday_of(date) is Some,
    ensures
        Some(r) == monday_of(date),
        r.valid(),
{
    match try_week_start(date) {
        Some(d) => d,
        None => date,
    }
}

/// A week starts on a Monday, at most six days before each of its dates.
pub proof fn week_starts_on_monday(d: NaiveDate)
    requires
        d.valid(),
        monday_of(d) is Some,
    ensures
        monday_of(d)->0.valid(),
        monday_of(d)->0.weekday_num() == 0,
        monday_of(d)->0.num() <= d.num() < monday_of(d)->0.num() + 7,
{
    let n = d.num() - d.weekday_num();
    crate::calendar::date_of_exists(n);
    assert((n - 1) % 7 == 0);
}

/// The first day of a date's month.
pub open spec fn first_of_month(d: NaiveDate) -> NaiveDate {
    NaiveDate { year: d.year, month: d.month, day: 1 }
}

/// The first Monday on or after a date.
pub open spec fn monday_from(d: NaiveDate) -> Option<NaiveDate> {
    match monday_of(d) {
        Some(m) => if date_less(m, d) {
            plus_days(m, 7)
        } else {
            Some(m)
        },
        None => None,
    }
}

/// The dates that a view shows: from the first to before the second. `None` where they leave
/// the calendar. A month is shown in whole weeks.
pub open spec fn shown_dates(view: ViewKind, date: NaiveDate) -> Option<(NaiveDate, NaiveDate)> {
    let (start, end) = match view {
        ViewKind::Month => (
            monday_of(first_of_month(date)),
            match plus_months(first_of_month(date), 1) {
                Some(next) => monday_from(next),
                None => None,
            },
        ),
        ViewKind::Week => (
            monday_of(date),
            match monday_of(date) {
                Some(m) => plus_days(m, 7),
                None => None,
            },
        ),
        ViewKind::Day => (Some(date), plus_days(date, 1)),
        ViewKind::Agenda => (Some(date), plus_days(date, 30)),
        ViewKind::Contacts => (Some(date), Some(date)),
    };
    match (start, end) {
        (Some(a), Some(b)) => Some((a, b)),
        _ => None,
    }
}

/// The dates that a view shows, from the first to before the second.
fn dates_shown(view: ViewKind, date: NaiveDate) -> (r: Option<(NaiveDate, NaiveDate)>)
    requires
        date.valid(),
    ensures
        r == shown_dates(view, date),
        r is Some ==> (r->0).0.valid() && (r->0).1.valid(),
{
    match view {
        ViewKind::Month => {
            let first = NaiveDate { year: date.year, month: date.month, day: 1 };
            let start = match try_week_start(first) {
                Some(d) => d,
                None => {
                    return None;
                },
            };
            let next = match date_plus_months(first, 1) {
                Some(d) => d,
                None => {
                    return None;
                },
            };
            let monday = match try_week_start(next) {
                Some(d) => d,
                None => {
                    return None;
                },
            };
            if monday.is_before(next) {
                match monday.add_days(7) {
                    Some(end) => Some((start, end)),
                    None => None,
                }
            } else {
                Some((start, monday))
            }
        },
        ViewKind::Week => match try_week_start(date) {
            Some(start) => match start.add_days(7) {
                Some(end) => Some((start, end)),
                None => None,
            },
            None => None,
        },
        ViewKind::Day => match date.add_days(1) {
            Some(end) => Some((date, end)),
            None => None,
        },
        ViewKind::Agenda => match date.add_days(30) {
            Some(end) => Some((date, end)),
            None => None,
        },
        ViewKind::Contacts => Some((date, date)),
    }
}

/// The wall-clock window `[start, end)` that a view shows, or `None` where it leaves the
/// calendar.
pub fn try_display_range(params: &ViewParams) -> (r: Option<(NaiveDateTime, NaiveDateTime)>)
    requires
        params.date.valid(),
    ensures
        r == (match shown_dates(params.view, params.date) {
            Some(p) => Some((p.0.midnight(), p.1.midnight())),
            None => None,
        }),
        r is Some ==> (r->0).0.valid() && (r->0).1.valid(),
{
    match dates_shown(params.view, params.date) {
        Some(p) => Some((p.0.at_midnight(), p.1.at_midnight())),
        None => None,
    }
}

/// The wall-clock window `[start, end)` that a view shows. The contacts view shows none.
pub fn display_range(params: &ViewParams) -> (r: (NaiveDateTime, NaiveDateTime))
    requires
        params.date.valid(),
        shown_dates(params.view, params.date) is Some,
    ensures
        shown_dates(params.view, params.date) == Some((r.0.date, r.1.date)),
        r.0 == r.0.date.midnight(),
        r.1 == r.1.date.midnight(),
{
    match try_display_range(params) {
        Some(p) => p,
        None => (params.date.at_midnight(), params.date.at_midnight()),
    }
}

pub proof fn next_month_follows(date: NaiveDate)
    requires
        date.valid(),
        plus_months(first_of_month(date), 1) is Some,
    ensures
        first_of_month(date).valid(),
        first_of_month(date).num() <= date.num(),
        plus_months(first_of_month(date), 1)->0.valid(),
        date.num() < plus_months(first_of_month(date), 1)->0.num(),
{
    let f = first_of_month(date);
    let next = plus_months(f, 1)->0;
    let t = f.year * 12 + (f.month - 1) + 1;
    if f.month == 12 {
        assert(t / 12 == f.year + 1 && t % 12 == 0);
    } else {
        assert(t / 12 == f.year && t % 12 == f.month);
    }
    assert(next.valid());
    nums_ascend(date, next);
    nums_ascend(date, f);
}

pub proof fn monday_follows(d: NaiveDate)
    requires
        d.valid(),
        monday_from(d) is Some,
    ensures
        monday_from(d)->0.valid(),
        monday_from(d)->0.weekday_num() == 0,
        d.num() <= monday_from(d)->0.num() < d.num() + 7,
{
    week_starts_on_monday(d);
    let m = monday_of(d)->0;
    nums_ascend(m, d);
    nums_ascend(d, m);
    if date_less(m, d) {
        crate::calendar::date_of_exists(m.num() + 7);
        assert((m.num() + 7 - 1) % 7 == 0);
    }
}

proof fn weeks_apart(a: int, b: int)
    requires
        (a - 1) % 7 == 0,
        (b - 1) % 7 == 0,
    ensures
        (b - a) % 7 == 0,
{
}

/// A dated view shows the date it is anchored to. Months are shown in whole weeks that hold
/// the whole month, weeks from Monday to Sunday.
pub proof fn shown_dates_hold_date(view: ViewKind, date: NaiveDate)
    requires
        date.valid(),
        view != ViewKind::Contacts,
        shown_dates(view, date) is Some,
    ensures
        ({
            let (a, b) = shown_dates(view, date)->0;
            &&& a.valid() && b.valid()
            &&& a.num() <= date.num() < b.num()
            &&& view == ViewKind::Month ==> a.num() <= first_of_month(date).num() && (b.num()
                - a.num()) % 7 == 0 && a.weekday_num() == 0
            &&& view == ViewKind::Week ==> b.num() == a.num() + 7 && a.weekday_num() == 0
        }),
{
    let (a, b) = shown_dates(view, date)->0;
    match view {
        ViewKind::Month => {
            next_month_follows(date);
            week_starts_on_monday(first_of_month(date));
            monday_follows(plus_months(first_of_month(date), 1)->0);
            weeks_apart(a.num(), b.num());
        },
        ViewKind::Week => {
            week_starts_on_monday(date);
            crate::calendar::date_of_exists(a.num() + 7);
        },
        ViewKind::Day => {
            crate::calendar::date_of_exists(date.num() + 1);
        },
        _ => {
            crate::calendar::date_of_exists(date.num() + 30);
        },
    }
}

// ---------------------------------------------------------------------------
// Events in a view
// ---------------------------------------------------------------------------

/// An event as a view shows it.
#[derive(Debug)]
pub struct EventView {
    pub id: String,
    pub title: String,
    pub color: String,
    pub all_day: bool,
    /// Birthdays are shown beside events but cannot be edited: they come from contacts.
    pub is_birthday: bool,
    pub time_label: String,
    pub edit_href: String,
    pub top_px: i64,
    pub height_px: i64,
    /// Which of `lanes` side-by-side lanes the event is in; it takes the whole width where
    /// `lanes` is zero.
    pub lane: usize,
    pub lanes: usize,
}

/// What a [`EventView`] stands for.
#[verifier::ext_equal]
pub struct EventViewV {
    pub id: Seq<char>,
    pub title: Seq<char>,
    pub color: Seq<char>,
    pub all_day: bool,
    pub is_birthday: bool,
    pub time_label: Seq<char>,
    pub edit_href: Seq<char>,
    pub top_px: i64,
    pub height_px: i64,
    pub lane: usize,
    pub lanes: usize,
}

impl DeepView for EventView {
    type V = EventViewV;

    open spec fn deep_view(&self) -> EventViewV {
        EventViewV {
            id: self.id.deep_view(),
            title: self.title.deep_view(),
            color: self.color.deep_view(),
            all_day: self.all_day.deep_view(),
            is_birthday: self.is_birthday.deep_view(),
            time_label: self.time_label.deep_view(),
            edit_href: self.edit_href.deep_view(),
            top_px: self.top_px.deep_view(),
            height_px: self.height_px.deep_view(),
            lane: self.lane.deep_view(),
            lanes: self.lanes.deep_view(),
        }
    }
}

impl CloneView for EventView {
    fn clone_view(&self) -> (r: Self) {
        EventView {
            id: self.id.clone_view(),
            title: self.title.clone_view(),
            color: self.color.clone_view(),
            all_day: self.all_day.clone_view(),
            is_birthday: self.is_birthday.clone_view(),
            time_label: self.time_label.clone_view(),
            edit_href: self.edit_href.clone_view(),
            top_px: self.top_px.clone_view(),
            height_px: self.height_px.clone_view(),
            lane: self.lane.clone_view(),
            lanes: self.lanes.clone_view(),
        }
    }
}

impl Clone for EventView {
    fn clone(&self) -> (r: Self)
        ensures
            r.deep_view() == self.deep_view(),
    {
        self.clone_view()
    }
}

/// A day in the month view.
#[derive(Debug)]
pub struct DayCell {
    pub day_num: u32,
    pub in_month: bool,
    pub is_today: bool,
    pub iso: String,
    pub events: Vec<EventView>,
    pub more_count: usize,
}

/// What a [`DayCell`] stands for.
#[verifier::ext_equal]
pub struct DayCellV {
    pub day_num: u32,
    pub in_month: bool,
    pub is_today: bool,
    pub iso: Seq<char>,
    pub events: Seq<EventViewV>,
    pub more_count: usize,
}

impl DeepView for DayCell {
    type V = DayCellV;

    open spec fn deep_view(&self) -> DayCellV {
        DayCellV {
            day_num: self.day_num.deep_view(),
            in_month: self.in_month.deep_view(),
            is_today: self.is_today.deep_view(),
            iso: self.iso.deep_view(),
            events: self.events.deep_view(),
            more_count: self.more_count.deep_view(),
        }
    }
}

/// A day in a time grid.
#[derive(Debug)]
pub struct DayColumn {
    pub iso: String,
    pub weekday_label: String,
    pub is_today: bool,
    pub all_day_events: Vec<EventView>,
    pub timed_events: Vec<EventView>,
}

/// What a [`DayColumn`] stands for.
#[verifier::ext_equal]
pub struct DayColumnV {
    pub iso: Seq<char>,
    pub weekday_label: Seq<char>,
    pub is_today: bool,
    pub all_day_events: Seq<EventViewV>,
    pub timed_events: Seq<EventViewV>,
}

impl DeepView for DayColumn {
    type V = DayColumnV;

    open spec fn deep_view(&self) -> DayColumnV {
        DayColumnV {
            iso: self.iso.deep_view(),
            weekday_label: self.weekday_label.deep_view(),
            is_today: self.is_today.deep_view(),
            all_day_events: self.all_day_events.deep_view(),
            timed_events: self.timed_events.deep_view(),
        }
    }
}

/// An hour in a time grid.
#[derive(Debug)]
pub struct HourRow {
    pub hour: u32,
    pub label: String,
}

/// What a [`HourRow`] stands for.
#[verifier::ext_equal]
pub struct HourRowV {
    pub hour: u32,
    pub label: Seq<char>,
}

impl DeepView for HourRow {
    type V = HourRowV;

    open spec fn deep_view(&self) -> HourRowV {
        HourRowV {
            hour: self.hour.deep_view(),
            label: self.label.deep_view(),
        }
    }
}

/// An occurrence in the time zone of the viewer.
#[derive(Debug)]
pub struct Localized {
    pub start: NaiveDateTime,
    pub end: NaiveDateTime,
    pub all_day: bool,
    pub event: CalendarEvent,
    pub calendar_id: String,
}

/// What a [`Localized`] stands for.
#[verifier::ext_equal]
pub struct LocalizedV {
    pub start: NaiveDateTime,
    pub end: NaiveDateTime,
    pub all_day: bool,
    pub event: CalendarEventV,
    pub calendar_id: Seq<char>,
}

impl DeepView for Localized {
    type V = LocalizedV;

    open spec fn deep_view(&self) -> LocalizedV {
        LocalizedV {
            start: self.start.deep_view(),
            end: self.end.deep_view(),
            all_day: self.all_day.deep_view(),
            event: self.event.deep_view(),
            calendar_id: self.calendar_id.deep_view(),
        }
    }
}

/// The label of an hour on the twelve-hour clock.
pub open spec fn hour_label(h: int) -> Seq<char> {
    if h == 0 {
        "12 AM"@
    } else if h < 12 {
        dec(h as nat) + " AM"@
    } else if h == 12 {
        "12 PM"@
    } else {
        dec((h - 12) as nat) + " PM"@
    }
}

/// The hours of a day.
pub open spec fn hours_of_day() -> Seq<HourRowV> {
    Seq::new(24, |h: int| HourRowV { hour: h as u32, label: hour_label(h) })
}

/// The label of an hour on a clock.
pub open spec fn hour_label_by(h: int, format: TimeFormat) -> Seq<char> {
    match format {
        TimeFormat::Twelve => hour_label(h),
        TimeFormat::TwentyFour => zero_fill(dec(h as nat), 2) + ":00"@,
    }
}

/// The hours of a day, labelled by a clock.
pub open spec fn hours_by(format: TimeFormat) -> Seq<HourRowV> {
    Seq::new(24, |h: int| HourRowV { hour: h as u32, label: hour_label_by(h, format) })
}

fn label_for_hour(h: u32) -> (r: String)
    ensures
        r@ == hour_label(h as int),
{
    if h == 0 {
        "12 AM".to_string()
    } else if h < 12 {
        let mut out = u64_text(h as u64);
        out.append(" AM");
        out
    } else if h == 12 {
        "12 PM".to_string()
    } else {
        let mut out = u64_text((h - 12) as u64);
        out.append(" PM");
        out
    }
}

/// The rows of a time grid.
pub fn hour_rows() -> (r: Vec<HourRow>)
    ensures
        r.deep_view() == hours_of_day(),
{
    let mut out: Vec<HourRow> = Vec::new();
    let mut h: u32 = 0;
    while h < 24
        invariant
            h <= 24,
            out.deep_view() =~= hours_of_day().take(h as int),
        decreases 24 - h,
    {
        let ghost before = out.deep_view();
        let row = HourRow { hour: h, label: label_for_hour(h) };
        out.push(row);
        assert(out.deep_view() =~= before.push(hours_of_day()[h as int]));
        h = h + 1;
    }
    assert(hours_of_day().take(24) =~= hours_of_day());
    out
}

/// The rows of a time grid, labelled by a clock.
pub fn hour_rows_by(format: TimeFormat) -> (r: Vec<HourRow>)
    ensures
        r.deep_view() == hours_by(format),
{
    let mut out: Vec<HourRow> = Vec::new();
    let mut h: u32 = 0;
    while h < 24
        invariant
            h <= 24,
            out.deep_view() =~= hours_by(format).take(h as int),
        decreases 24 - h,
    {
        let ghost before = out.deep_view();
        let label = match format {
            TimeFormat::Twelve => label_for_hour(h),
            TimeFormat::TwentyFour => {
                let mut out = padded_text(h as i64, 2);
                out.append(":00");
                out
            },
        };
        let row = HourRow { hour: h, label };
        out.push(row);
        assert(row.deep_view() == hours_by(format)[h as int]);
        assert(out.deep_view() =~= before.push(hours_by(format)[h as int]));
        h = h + 1;
    }
    assert(hours_by(format).take(24) =~= hours_by(format));
    out
}

/// The color of the calendars without one, by the number of the palette's entry.
pub open spec fn palette(i: int) -> Seq<char> {
    if i == 0 {
        "#6366f1"@
    } else if i == 1 {
        "#0ea5e9"@
    } else if i == 2 {
        "#10b981"@
    } else if i == 3 {
        "#f59e0b"@
    } else if i == 4 {
        "#ef4444"@
    } else if i == 5 {
        "#8b5cf6"@
    } else if i == 6 {
        "#ec4899"@
    } else {
        "#14b8a6"@
    }
}

/// The sum of bytes.
pub open spec fn byte_sum(s: Seq<u8>) -> int
    decreases s.len(),
{
    if s.len() == 0 {
        0
    } else {
        byte_sum(s.drop_last()) + s.last()
    }
}

/// The color of a calendar: its own, or one of the palette by its id.
pub open spec fn color_of(calendar: Option<CalendarV>, id: Seq<char>) -> Seq<char> {
    match calendar {
        Some(c) => match c.color {
            Some(color) => color,
            None => palette(byte_sum(encode_utf8(id)) % 8),
        },
        None => palette(byte_sum(encode_utf8(id)) % 8),
    }
}

fn palette_entry(i: u8) -> (r: String)
    ensures
        r@ == palette(i as int),
{
    match i {
        0 => "#6366f1".to_string(),
        1 => "#0ea5e9".to_string(),
        2 => "#10b981".to_string(),
        3 => "#f59e0b".to_string(),
        4 => "#ef4444".to_string(),
        5 => "#8b5cf6".to_string(),
        6 => "#ec4899".to_string(),
        _ => "#14b8a6".to_string(),
    }
}

/// The color of a calendar.
pub fn calendar_color(calendar: Option<&Calendar>, calendar_id: &str) -> (r: String)
    ensures
        r@ == color_of(calendar.deep_view(), calendar_id@),
{
    if let Some(c) = calendar {
        if let Some(color) = &c.color {
            return color.clone();
        }
    }
    let bytes = calendar_id.as_bytes();
    let ghost all = bytes@;
    let mut sum: u8 = 0;
    let mut i: usize = 0;
    assert(all.take(0) =~= Seq::empty());
    while i < bytes.len()
        invariant
            0 <= i <= bytes@.len(),
            all == bytes@,
            sum < 8,
            sum == byte_sum(all.take(i as int)) % 8,
        decreases bytes@.len() - i,
    {
        proof {
            assert(all.take(i + 1).drop_last() =~= all.take(i as int));
            assert(all.take(i + 1).last() == bytes@[i as int]);
        }
        sum = (sum + bytes[i] % 8) % 8;
        i = i + 1;
    }
    assert(all.take(i as int) =~= all);
    palette_entry(sum)
}

/// What the items of a list hold.
pub open spec fn unwrapped<T>(s: Seq<Option<T>>) -> Seq<T> {
    Seq::new(s.len(), |i: int| s[i]->0)
}

/// The items of a list, where every one could be computed.
pub open spec fn all_some<T>(s: Seq<Option<T>>) -> Option<Seq<T>> {
    if forall|i: int| 0 <= i < s.len() ==> #[trigger] s[i] is Some {
        Some(unwrapped(s))
    } else {
        None
    }
}

/// Lists one after the other.
pub open spec fn concat_lists<T>(s: Seq<Seq<T>>) -> Seq<T>
    decreases s.len(),
{
    if s.len() == 0 {
        Seq::empty()
    } else {
        concat_lists(s.drop_last()) + s.last()
    }
}

proof fn concat_step<T>(list: Seq<Option<Seq<T>>>, i: int)
    requires
        0 <= i < list.len(),
    ensures
        concat_lists(unwrapped(list.take(i + 1))) == concat_lists(unwrapped(list.take(i)))
            + list[i]->0,
{
    let a = unwrapped(list.take(i + 1));
    assert(a.drop_last() =~= unwrapped(list.take(i)));
    assert(a.last() == list[i]->0);
}

/// The id of the first calendar of an event, empty where it has none.
pub open spec fn event_calendar(event: CalendarEventV) -> Seq<char> {
    match event.calendar_ids {
        Some(m) => if m.len() > 0 {
            m[0].0
        } else {
            Seq::empty()
        },
        None => Seq::empty(),
    }
}

/// The time zone of an event, where it is one that is known.
pub open spec fn event_zone(event: CalendarEventV) -> Option<Seq<char>> {
    match event.time_zone {
        Some(z) => if is_zone(z) {
            Some(z)
        } else {
            None
        },
        None => None,
    }
}

/// An occurrence in the time zone of the viewer; `None` where it leaves the calendar.
pub open spec fn localize_occurrence(
    o: OccurrenceV,
    zone: Option<Seq<char>>,
    viewer: Seq<char>,
    calendar_id: Seq<char>,
) -> Option<LocalizedV> {
    match (converted(o.start, zone, viewer), duration_secs(o.event.duration)) {
        (Some(start), Some(d)) => match plus_secs(
            start,
            match d {
                Some(n) => n,
                None => 0,
            },
        ) {
            Some(end) => Some(
                LocalizedV {
                    start,
                    end,
                    all_day: o.event.show_without_time,
                    event: o.event,
                    calendar_id,
                },
            ),
            None => None,
        },
        _ => None,
    }
}

/// The start and end of a range in the zone of an event.
pub open spec fn range_in_zone(
    t: NaiveDateTime,
    zone: Option<Seq<char>>,
    viewer: Seq<char>,
) -> Option<NaiveDateTime> {
    match zone {
        Some(z) => converted(t, Some(viewer), z),
        None => Some(t),
    }
}

/// The occurrences of an event in a range of the viewer's clock; none where its calendar is
/// hidden.
pub open spec fn localize_event(
    event: CalendarEventV,
    visible: Set<Seq<char>>,
    viewer: Seq<char>,
    range_start: NaiveDateTime,
    range_end: NaiveDateTime,
) -> Option<Seq<LocalizedV>> {
    let id = event_calendar(event);
    let zone = event_zone(event);
    if !visible.contains(id) {
        Some(Seq::empty())
    } else {
        match (
            range_in_zone(range_start, zone, viewer),
            range_in_zone(range_end, zone, viewer),
        ) {
            (Some(a), Some(b)) => match expansion(event, a, b) {
                Some(occs) => all_some(
                    Seq::new(occs.len(), |i: int| localize_occurrence(occs[i], zone, viewer, id)),
                ),
                None => None,
            },
            _ => None,
        }
    }
}

/// The occurrences of all the visible events in a range of the viewer's clock, in the order
/// of their starts; `None` where one leaves the calendar.
pub open spec fn localization(
    events: Seq<CalendarEventV>,
    visible: Set<Seq<char>>,
    viewer: Seq<char>,
    range_start: NaiveDateTime,
    range_end: NaiveDateTime,
) -> Option<Seq<LocalizedV>> {
    match all_some(
        Seq::new(
            events.len(),
            |i: int| localize_event(events[i], visible, viewer, range_start, range_end),
        ),
    ) {
        Some(lists) => Some(
            stable_sorted(
                concat_lists(lists),
                |a: LocalizedV, b: LocalizedV| Localized::le_view(a, b),
            ),
        ),
        None => None,
    }
}

impl Ordered for Localized {
    open spec fn le_view(a: LocalizedV, b: LocalizedV) -> bool {
        !time_less(b.start, a.start)
    }

    fn le(&self, other: &Self) -> (r: bool) {
        !other.start.is_before(self.start)
    }
}

/// The times of an occurrence are in range.
pub open spec fn spans_valid(s: Seq<LocalizedV>) -> bool {
    forall|i: int| 0 <= i < s.len() ==> (#[trigger] s[i]).start.valid() && s[i].end.valid()
}

#[verifier::opaque]
spec fn event_part(
    event: CalendarEventV,
    visible: Set<Seq<char>>,
    viewer: Seq<char>,
    range_start: NaiveDateTime,
    range_end: NaiveDateTime,
) -> Option<Seq<LocalizedV>> {
    localize_event(event, visible, viewer, range_start, range_end)
}

proof fn parts_make_up_localization(
    events: Seq<CalendarEventV>,
    visible: Set<Seq<char>>,
    viewer: Seq<char>,
    range_start: NaiveDateTime,
    range_end: NaiveDateTime,
)
    ensures
        localization(events, visible, viewer, range_start, range_end) == match all_some(
            Seq::new(
                events.len(),
                |i: int| event_part(events[i], visible, viewer, range_start, range_end),
            ),
        ) {
            Some(lists) => Some(
                stable_sorted(
                    concat_lists(lists),
                    |a: LocalizedV, b: LocalizedV| Localized::le_view(a, b),
                ),
            ),
            None => None,
        },
{
    reveal(event_part);
    assert(Seq::new(
        events.len(),
        |i: int| event_part(events[i], visible, viewer, range_start, range_end),
    ) =~= Seq::new(
        events.len(),
        |i: int| localize_event(events[i], visible, viewer, range_start, range_end),
    ));
}

fn add_localized(
    out: &mut Vec<Localized>,
    event: &CalendarEvent,
    visible: &StrSet,
    viewer_tz: &Tz,
    range_start: NaiveDateTime,
    range_end: NaiveDateTime,
) -> (r: bool)
    requires
        range_start.valid(),
        range_end.valid(),
        spans_valid(old(out).deep_view()),
    ensures
        ({
            let found = event_part(
                event.deep_view(),
                visible.deep_view(),
                viewer_tz.deep_view(),
                range_start,
                range_end,
            );
            &&& r == (found is Some)
            &&& r ==> final(out).deep_view() == old(out).deep_view() + found->0
            &&& r ==> spans_valid(final(out).deep_view())
        }),
{
    let ghost ev = event.deep_view();
    let ghost viewer = viewer_tz.deep_view();
    let ghost base = out.deep_view();
    let ghost found = event_part(ev, visible.deep_view(), viewer, range_start, range_end);
    assert(found == localize_event(ev, visible.deep_view(), viewer, range_start, range_end)) by {
        reveal(event_part);
    }
    let id = match &event.calendar_ids {
        Some(m) => {
            if m.entries.len() > 0 {
                assert(m.deep_view()[0] == m.entries@[0].deep_view());
                m.entries[0].0.clone()
            } else {
                String::new()
            }
        },
        None => String::new(),
    };
    assert(id@ =~= event_calendar(ev));
    if !visible.contains(id.as_str()) {
        assert(base + Seq::empty() =~= base);
        return true;
    }
    let zone = match &event.time_zone {
        Some(z) => parse_tz(z.as_str()),
        None => None,
    };
    let ghost zv = event_zone(ev);
    assert(zone.deep_view() == zv);
    let (from, to) = match &zone {
        Some(z) => (
            convert_checked(range_start, Some(viewer_tz), z),
            convert_checked(range_end, Some(viewer_tz), z),
        ),
        None => (Some(range_start), Some(range_end)),
    };
    let (from, to) = match (from, to) {
        (Some(a), Some(b)) => (a, b),
        _ => {
            return false;
        },
    };
    let occs = match expand_checked(event, from, to) {
        Some(v) => v,
        None => {
            return false;
        },
    };
    let ghost ov = occs.deep_view();
    let ghost list = Seq::new(
        ov.len(),
        |i: int| localize_occurrence(ov[i], zv, viewer, event_calendar(ev)),
    );
    let mut i: usize = 0;
    assert(base + Seq::<LocalizedV>::empty() =~= base);
    while i < occs.len()
        invariant
            0 <= i <= occs@.len(),
            ov == occs.deep_view(),
            starts_valid(occs@),
            viewer == viewer_tz.deep_view(),
            zone.deep_view() == zv,
            id@ == event_calendar(ev),
            list == Seq::new(
                ov.len(),
                |i: int| localize_occurrence(ov[i], zv, viewer, event_calendar(ev)),
            ),
            forall|j: int| 0 <= j < i ==> #[trigger] list[j] is Some,
            out.deep_view() =~= base + Seq::new(i as nat, |j: int| list[j]->0),
            spans_valid(out.deep_view()),
            found == all_some(list),
            found == event_part(ev, visible.deep_view(), viewer, range_start, range_end),
            ev == event.deep_view(),
        decreases occs@.len() - i,
    {
        let o = &occs[i];
        assert(ov[i as int] == o.deep_view());
        assert(list[i as int] == localize_occurrence(ov[i as int], zv, viewer, event_calendar(ev)));
        let start = match &zone {
            Some(z) => convert_checked(o.start, Some(z), viewer_tz),
            None => Some(o.start),
        };
        let start = match start {
            Some(t) => t,
            None => {
                return false;
            },
        };
        let secs: i64 = match try_parse_duration(o.event.duration.as_str()) {
            Some(Some(d)) => d.secs,
            Some(None) => 0,
            None => {
                return false;
            },
        };
        let end = match start.plus(secs) {
            Some(t) => t,
            None => {
                return false;
            },
        };
        let l = Localized {
            start,
            end,
            all_day: o.event.show_without_time,
            event: o.event.clone_view(),
            calendar_id: id.clone(),
        };
        let ghost before = out.deep_view();
        out.push(l);
        assert(out.deep_view() =~= before.push(l.deep_view()));
        i = i + 1;
    }
    true
}

proof fn sorting_keeps_spans(s: Seq<LocalizedV>, le: spec_fn(LocalizedV, LocalizedV) -> bool)
    requires
        spans_valid(s),
    ensures
        spans_valid(stable_sorted(s, le)),
    decreases s.len(),
{
    if s.len() > 0 {
        sorting_keeps_spans(s.drop_last(), le);
        inserting_keeps_spans(stable_sorted(s.drop_last(), le), s.last(), le);
    }
}

proof fn inserting_keeps_spans(
    s: Seq<LocalizedV>,
    x: LocalizedV,
    le: spec_fn(LocalizedV, LocalizedV) -> bool,
)
    requires
        spans_valid(s),
        x.start.valid(),
        x.end.valid(),
    ensures
        spans_valid(crate::collections::insert_sorted(s, x, le)),
    decreases s.len(),
{
    if s.len() > 0 && !le(s.last(), x) {
        inserting_keeps_spans(s.drop_last(), x, le);
    }
}

#[verifier::rlimit(60)]
pub(crate) fn localize_checked(
    events: &Vec<CalendarEvent>,
    visible: &StrSet,
    viewer_tz: &Tz,
    range_start: NaiveDateTime,
    range_end: NaiveDateTime,
) -> (r: Option<Vec<Localized>>)
    requires
        range_start.valid(),
        range_end.valid(),
    ensures
        r.deep_view() == localization(
            events.deep_view(),
            visible.deep_view(),
            viewer_tz.deep_view(),
            range_start,
            range_end,
        ),
        r matches Some(v) ==> spans_valid(v.deep_view()),
{
    let ghost ev = events.deep_view();
    let ghost vis = visible.deep_view();
    let ghost viewer = viewer_tz.deep_view();
    let ghost list = Seq::new(
        ev.len(),
        |i: int| event_part(ev[i], vis, viewer, range_start, range_end),
    );
    let mut out: Vec<Localized> = Vec::new();
    let mut i: usize = 0;
    assert(unwrapped(list.take(0)) =~= Seq::<Seq<LocalizedV>>::empty());
    assert(out.deep_view() =~= concat_lists(unwrapped(list.take(0))));
    while i < events.len()
        invariant
            0 <= i <= events@.len(),
            range_start.valid(),
            range_end.valid(),
            ev == events.deep_view(),
            vis == visible.deep_view(),
            viewer == viewer_tz.deep_view(),
            list == Seq::new(
                ev.len(),
                |i: int| event_part(ev[i], vis, viewer, range_start, range_end),
            ),
            forall|j: int| 0 <= j < i ==> #[trigger] list[j] is Some,
            out.deep_view() == concat_lists(unwrapped(list.take(i as int))),
            spans_valid(out.deep_view()),
        decreases events@.len() - i,
    {
        proof {
            assert(ev[i as int] == events@[i as int].deep_view());
            assert(list[i as int] == event_part(ev[i as int], vis, viewer, range_start, range_end));
        }
        if !add_localized(&mut out, &events[i], visible, viewer_tz, range_start, range_end) {
            proof {
                parts_make_up_localization(ev, vis, viewer, range_start, range_end);
                assert(all_some(list) is None);
            }
            return None;
        }
        proof {
            concat_step(list, i as int);
        }
        i = i + 1;
    }
    proof {
        parts_make_up_localization(ev, vis, viewer, range_start, range_end);
        assert(list.take(i as int) =~= list);
        sorting_keeps_spans(
            out.deep_view(),
            |a: LocalizedV, b: LocalizedV| Localized::le_view(a, b),
        );
    }
    Some(sort_items(out))
}

/// The occurrences of all the visible events in a range `[range_start, range_end)` of the
/// viewer's clock, in the order of their starts.
pub fn localize_events(
    events: &Vec<CalendarEvent>,
    visible: &StrSet,
    viewer_tz: &Tz,
    range_start: NaiveDateTime,
    range_end: NaiveDateTime,
) -> (r: Vec<Localized>)
    requires
        range_start.valid(),
        range_end.valid(),
        localization(
            events.deep_view(),
            visible.deep_view(),
            viewer_tz.deep_view(),
            range_start,
            range_end,
        ) is Some,
    ensures
        Some(r.deep_view()) == localization(
            events.deep_view(),
            visible.deep_view(),
            viewer_tz.deep_view(),
            range_start,
            range_end,
        ),
{
    match localize_checked(events, visible, viewer_tz, range_start, range_end) {
        Some(v) => v,
        None => Vec::new(),
    }
}

/// Like [`localize_events`], but `None` where an occurrence leaves the calendar.
pub fn try_localize_events(
    events: &Vec<CalendarEvent>,
    visible: &StrSet,
    viewer_tz: &Tz,
    range_start: NaiveDateTime,
    range_end: NaiveDateTime,
) -> (r: Option<Vec<Localized>>)
    requires
        range_start.valid(),
        range_end.valid(),
    ensures
        r.deep_view() == localization(
            events.deep_view(),
            visible.deep_view(),
            viewer_tz.deep_view(),
            range_start,
            range_end,
        ),
{
    localize_checked(events, visible, viewer_tz, range_start, range_end)
}

} // verus!
