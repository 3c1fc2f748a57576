//! What a page is put together from.

use vstd::prelude::*;
use vstd::string::*;
use crate::calendar::NaiveDate;
use crate::collections::{
    get_after_insert, map_get, map_insert, stable_sorted, CloneView, Ordered, StrMap,
};
use crate::contacts::{contact_rows, sought_rows, ContactRow, ContactRowV};
use crate::grid::{
    agenda_page, birthdays_valid, day_page, month_page, try_build_agenda, try_build_day,
    try_build_month, try_build_week, week_page, AgendaView, BuildInputs, DayViewModel, MonthView,
    WeekView,
};
use crate::ics::pseudo_calendar_id;
use crate::jscalendar::{Calendar, CalendarV};
use crate::jscontact::{
    birthday_expansion, birthdays_in_order, try_expand_birthdays, BirthdayOccurrence,
    BirthdayOccurrenceV, Card, CardV,
};
use crate::layout::StyleV;
use crate::regions::holidays_valid;
use crate::sidebar::{
    calendar_rows, links, sidebar_calendars, view_links, SidebarCalendarVM, SidebarCalendarVMV,
    ViewLink, ViewLinkV,
};
use crate::timetext::{format_time, iso_text};
use crate::tz::{convert_checked, converted, Tz};
use crate::users::{IcsSubscription, IcsSubscriptionV, Role};
use crate::view::{
    shown_dates, title_text, try_display_range, ViewKind, ViewParams, ViewParamsV,
    BIRTHDAY_PSEUDO_ID,
};

verus! {

/// What stands round a view: it is drawn anew with every step, since all of it depends on what is
/// shown.
#[derive(Debug)]
pub struct ShellParts {
    pub title: String,
    pub username: String,
    pub is_admin: bool,
    pub is_dated_view: bool,
    pub calendars: Vec<SidebarCalendarVM>,
    pub view_links: Vec<ViewLink>,
    pub prev_href: String,
    pub next_href: String,
    pub today_href: String,
    pub back_qs: String,
}

/// What a [`ShellParts`] stands for.
#[verifier::ext_equal]
pub struct ShellPartsV {
    pub title: Seq<char>,
    pub username: Seq<char>,
    pub is_admin: bool,
    pub is_dated_view: bool,
    pub calendars: Seq<SidebarCalendarVMV>,
    pub view_links: Seq<ViewLinkV>,
    pub prev_href: Seq<char>,
    pub next_href: Seq<char>,
    pub today_href: Seq<char>,
    pub back_qs: Seq<char>,
}

impl DeepView for ShellParts {
    type V = ShellPartsV;

    open spec fn deep_view(&self) -> ShellPartsV {
        ShellPartsV {
            title: self.title.deep_view(),
            username: self.username.deep_view(),
            is_admin: self.is_admin.deep_view(),
            is_dated_view: self.is_dated_view.deep_view(),
            calendars: self.calendars.deep_view(),
            view_links: self.view_links.deep_view(),
            prev_href: self.prev_href.deep_view(),
            next_href: self.next_href.deep_view(),
            today_href: self.today_href.deep_view(),
            back_qs: self.back_qs.deep_view(),
        }
    }
}

/// What stands round a view; `None` where a step from it leaves the calendar.
pub open spec fn shell(
    p: ViewParamsV,
    calendars: Seq<CalendarV>,
    has_contacts: bool,
    has_holidays: bool,
    username: Seq<char>,
    role: Role,
    today: NaiveDate,
) -> Option<ShellPartsV> {
    match (title_text(p, today), p.stepped(-1), p.stepped(1)) {
        (Some(title), Some(prev), Some(next)) => Some(
            ShellPartsV {
                title,
                username,
                is_admin: role == Role::Admin,
                is_dated_view: p.view != ViewKind::Contacts,
                calendars: calendar_rows(calendars, p, has_contacts, has_holidays),
                view_links: links(p, has_contacts),
                prev_href: "/app?"@ + p.query_string(p.view, prev),
                next_href: "/app?"@ + p.query_string(p.view, next),
                today_href: "/app?"@ + p.query_string(p.view, today),
                back_qs: p.back_query(),
            },
        ),
        _ => None,
    }
}

/// What stands round a view, or `None` where a step from it leaves the calendar.
pub fn build_shell(
    params: &ViewParams,
    calendars: &Vec<Calendar>,
    has_contacts: bool,
    has_holidays: bool,
    username: &str,
    role: Role,
    today: NaiveDate,
) -> (r: Option<ShellParts>)
    requires
        params.date.valid(),
        today.valid(),
    ensures
        r.deep_view() == shell(
            params.deep_view(),
            calendars.deep_view(),
            has_contacts,
            has_holidays,
            username@,
            role,
            today,
        ),
{
    let title = match params.try_title(today) {
        Some(t) => t,
        None => {
            return None;
        },
    };
    let prev = match params.try_prev_date() {
        Some(d) => d,
        None => {
            return None;
        },
    };
    let next = match params.try_next_date() {
        Some(d) => d,
        None => {
            return None;
        },
    };
    let r = ShellParts {
        title,
        username: username.to_string(),
        is_admin: role == Role::Admin,
        is_dated_view: params.view.is_dated(),
        calendars: sidebar_calendars(calendars, params, has_contacts, has_holidays),
        view_links: view_links(params, has_contacts),
        prev_href: params.nav_href(params.view, prev),
        next_href: params.nav_href(params.view, next),
        today_href: params.nav_href(params.view, today),
        back_qs: params.query_string(params.view, params.date),
    };
    assert(r.deep_view() =~= shell(
        params.deep_view(),
        calendars.deep_view(),
        has_contacts,
        has_holidays,
        username@,
        role,
        today,
    )->0);
    Some(r)
}

// ---------------------------------------------------------------------------
// What is fetched
// ---------------------------------------------------------------------------

/// The instants of UTC between which events are asked for: those of the range that a view
/// shows in the zone of the viewer. `None` where one is out of range.
pub open spec fn query_range(p: ViewParamsV, viewer: Seq<char>) -> Option<(Seq<char>, Seq<char>)> {
    match shown_dates(p.view, p.date) {
        Some(range) => match (
            converted(range.0.midnight(), Some(viewer), "UTC"@),
            converted(range.1.midnight(), Some(viewer), "UTC"@),
        ) {
            (Some(after), Some(before)) => Some(
                (iso_text(after).push('Z'), iso_text(before).push('Z')),
            ),
            _ => None,
        },
        None => None,
    }
}

/// The instants of UTC between which events are asked for.
pub fn event_query_range(params: &ViewParams, viewer_tz: &Tz) -> (r: Option<(String, String)>)
    requires
        params.date.valid(),
    ensures
        match query_range(params.deep_view(), viewer_tz.deep_view()) {
            Some(p) => r is Some && (r->0).0@ == p.0 && (r->0).1@ == p.1,
            None => r is None,
        },
{
    let (start, end) = match try_display_range(params) {
        Some(p) => p,
        None => {
            return None;
        },
    };
    let utc = Tz::utc();
    match (
        convert_checked(start, Some(viewer_tz), &utc),
        convert_checked(end, Some(viewer_tz), &utc),
    ) {
        (Some(a), Some(b)) => Some(
            (format_time(a, "%Y-%m-%dT%H:%M:%SZ"), format_time(b, "%Y-%m-%dT%H:%M:%SZ")),
        ),
        _ => None,
    }
}

/// The ids of some subscriptions among those of calendars.
pub fn ics_subscription_ids(subs: &Vec<IcsSubscription>) -> (r: Vec<String>)
    ensures
        r.deep_view() == Seq::new(subs@.len(), |i: int| "ics:"@ + subs.deep_view()[i].id),
{
    let ghost all = subs.deep_view();
    let ghost ids = Seq::new(subs@.len(), |i: int| "ics:"@ + all[i].id);
    let mut out: Vec<String> = Vec::new();
    let mut i: usize = 0;
    while i < subs.len()
        invariant
            0 <= i <= subs@.len(),
            all == subs.deep_view(),
            ids == Seq::new(subs@.len(), |i: int| "ics:"@ + all[i].id),
            out.deep_view() =~= ids.take(i as int),
        decreases subs@.len() - i,
    {
        assert(all[i as int] == subs@[i as int].deep_view());
        let ghost before = out.deep_view();
        let id = pseudo_calendar_id(subs[i].id.as_str());
        out.push(id);
        assert(out.deep_view() =~= before.push(id@));
        i = i + 1;
    }
    assert(ids.take(i as int) =~= ids);
    out
}

/// Those of some subscriptions that a page shows.
pub open spec fn shown_subscriptions(subs: Seq<IcsSubscriptionV>, visible: Set<Seq<char>>) -> Seq<
    IcsSubscriptionV,
>
    decreases subs.len(),
{
    if subs.len() == 0 {
        Seq::empty()
    } else if visible.contains("ics:"@ + subs.last().id) {
        shown_subscriptions(subs.drop_last(), visible).push(subs.last())
    } else {
        shown_subscriptions(subs.drop_last(), visible)
    }
}

/// Those of some subscriptions that a page shows, which are the ones to fetch.
pub fn visible_subscriptions(subs: &Vec<IcsSubscription>, params: &ViewParams) -> (r: Vec<
    IcsSubscription,
>)
    ensures
        r.deep_view() == shown_subscriptions(subs.deep_view(), params.visible.deep_view()),
{
    let ghost all = subs.deep_view();
    let ghost visible = params.visible.deep_view();
    let mut out: Vec<IcsSubscription> = Vec::new();
    let mut i: usize = 0;
    assert(all.take(0) =~= Seq::empty());
    assert(out.deep_view() =~= Seq::empty());
    while i < subs.len()
        invariant
            0 <= i <= subs@.len(),
            all == subs.deep_view(),
            visible == params.visible.deep_view(),
            out.deep_view() == shown_subscriptions(all.take(i as int), visible),
        decreases subs@.len() - i,
    {
        proof {
            assert(all.take(i + 1).drop_last() =~= all.take(i as int));
            assert(all.take(i + 1).last() == subs@[i as int].deep_view());
        }
        if params.visible.contains(pseudo_calendar_id(subs[i].id.as_str()).as_str()) {
            let ghost before = out.deep_view();
            let s = subs[i].clone_view();
            out.push(s);
            assert(out.deep_view() =~= before.push(s.deep_view()));
        }
        i = i + 1;
    }
    assert(all.take(i as int) =~= all);
    out
}

/// The colors of some subscriptions, by the calendar ids that stand for them.
pub open spec fn subscription_colors(subs: Seq<IcsSubscriptionV>) -> Seq<(Seq<char>, Seq<char>)>
    decreases subs.len(),
{
    if subs.len() == 0 {
        Seq::empty()
    } else {
        map_insert(
            subscription_colors(subs.drop_last()),
            "ics:"@ + subs.last().id,
            subs.last().color,
        )
    }
}

/// The colors of some subscriptions, by the calendar ids that stand for them.
pub fn ics_colors_for(subs: &Vec<IcsSubscription>) -> (r: StrMap<String>)
    ensures
        r.deep_view() == subscription_colors(subs.deep_view()),
        r.wf(),
{
    let ghost all = subs.deep_view();
    let mut out: StrMap<String> = StrMap::new();
    let mut i: usize = 0;
    assert(all.take(0) =~= Seq::empty());
    while i < subs.len()
        invariant
            0 <= i <= subs@.len(),
            all == subs.deep_view(),
            out.deep_view() == subscription_colors(all.take(i as int)),
            out.wf(),
        decreases subs@.len() - i,
    {
        proof {
            assert(all.take(i + 1).drop_last() =~= all.take(i as int));
            assert(all.take(i + 1).last() == subs@[i as int].deep_view());
        }
        out.insert(pseudo_calendar_id(subs[i].id.as_str()), subs[i].color.clone());
        i = i + 1;
    }
    assert(all.take(i as int) =~= all);
    out
}

/// What comes from a subscription is drawn in the subscription's color, whatever color a calendar
/// has.
pub proof fn subscriptions_have_their_color(subs: Seq<IcsSubscriptionV>, i: int, style: StyleV)
    requires
        0 <= i < subs.len(),
        forall|j: int| i < j < subs.len() ==> (#[trigger] subs[j]).id != subs[i].id,
        style.ics_colors == subscription_colors(subs),
    ensures
        style.color("ics:"@ + subs[i].id) == subs[i].color,
{
    color_is_kept(subs, i);
}

proof fn color_is_kept(subs: Seq<IcsSubscriptionV>, i: int)
    requires
        0 <= i < subs.len(),
        forall|j: int| i < j < subs.len() ==> (#[trigger] subs[j]).id != subs[i].id,
    ensures
        map_get(subscription_colors(subs), "ics:"@ + subs[i].id) == Some(subs[i].color),
    decreases subs.len(),
{
    let k = "ics:"@ + subs[i].id;
    let last = "ics:"@ + subs.last().id;
    get_after_insert(subscription_colors(subs.drop_last()), last, subs.last().color, k);
    if i < subs.len() - 1 {
        color_is_kept(subs.drop_last(), i);
        if last == k {
            assert(subs.last().id =~= last.skip("ics:"@.len() as int));
            assert(subs[i].id =~= k.skip("ics:"@.len() as int));
        }
    }
}

/// The birthdays that a page shows: none where they are hidden, or where there are no contacts.
/// `None` where one leaves the calendar.
pub open spec fn birthdays_for(p: ViewParamsV, cards: Option<Seq<CardV>>) -> Option<
    Seq<BirthdayOccurrenceV>,
> {
    if !p.visible.contains(BIRTHDAY_PSEUDO_ID@) || cards is None {
        Some(Seq::empty())
    } else {
        match shown_dates(p.view, p.date) {
            Some(range) => birthday_expansion(cards->0, range.0, range.1),
            None => None,
        }
    }
}

/// The birthdays that a page shows.
pub fn fetch_birthdays(params: &ViewParams, cards: Option<&Vec<Card>>) -> (r: Option<
    Vec<BirthdayOccurrence>,
>)
    requires
        params.date.valid(),
    ensures
        r.deep_view() == birthdays_for(
            params.deep_view(),
            match cards {
                Some(c) => Some(c.deep_view()),
                None => None,
            },
        ),
        r matches Some(v) ==> birthdays_valid(v.deep_view()),
{
    let none: Vec<BirthdayOccurrence> = Vec::new();
    assert(none.deep_view() =~= Seq::empty());
    if !params.visible.contains(BIRTHDAY_PSEUDO_ID) {
        return Some(none);
    }
    match cards {
        Some(cards) => match try_display_range(params) {
            Some((start, end)) => {
                let r = try_expand_birthdays(cards, start.date, end.date);
                proof {
                    if r is Some {
                        birthdays_in_order(cards.deep_view(), start.date, end.date);
                    }
                }
                r
            },
            None => None,
        },
        None => Some(none),
    }
}

// ---------------------------------------------------------------------------
// The view itself
// ---------------------------------------------------------------------------

/// What a view shows.
pub enum Page {
    Contacts(Vec<ContactRow>),
    Month(MonthView),
    Week(WeekView),
    Day(DayViewModel),
    Agenda(AgendaView),
}

/// What the view that is asked for shows, or `None` where it leaves the calendar. The contacts
/// view lists `cards`; the others show what is in `inputs`.
pub fn build_page(inputs: &BuildInputs, cards: &Vec<Card>) -> (r: Option<Page>)
    requires
        inputs.params.date.valid(),
        inputs.today.valid(),
        birthdays_valid(inputs.birthdays.deep_view()),
        holidays_valid(inputs.holidays.deep_view()),
    ensures
        match inputs.params.view {
            ViewKind::Contacts => r matches Some(Page::Contacts(rows)) && rows.deep_view()
                == stable_sorted(
                sought_rows(cards.deep_view(), inputs.params.deep_view()),
                |a: ContactRowV, b: ContactRowV| ContactRow::le_view(a, b),
            ),
            ViewKind::Month => match month_page(inputs.deep_view()) {
                Some(v) => r matches Some(Page::Month(m)) && m.deep_view() == v,
                None => r is None,
            },
            ViewKind::Week => match week_page(inputs.deep_view()) {
                Some(v) => r matches Some(Page::Week(w)) && w.deep_view() == v,
                None => r is None,
            },
            ViewKind::Day => match day_page(inputs.deep_view()) {
                Some(v) => r matches Some(Page::Day(d)) && d.deep_view() == v,
                None => r is None,
            },
            ViewKind::Agenda => match agenda_page(inputs.deep_view()) {
                Some(v) => r matches Some(Page::Agenda(a)) && a.deep_view() == v,
                None => r is None,
            },
        },
{
    match inputs.params.view {
        ViewKind::Contacts => Some(Page::Contacts(contact_rows(cards, inputs.params))),
        ViewKind::Month => match try_build_month(inputs) {
            Some(v) => Some(Page::Month(v)),
            None => None,
        },
        ViewKind::Week => match try_build_week(inputs) {
            Some(v) => Some(Page::Week(v)),
            None => None,
        },
        ViewKind::Day => match try_build_day(inputs) {
            Some(v) => Some(Page::Day(v)),
            None => None,
        },
        ViewKind::Agenda => match try_build_agenda(inputs) {
            Some(v) => Some(Page::Agenda(v)),
            None => None,
        },
    }
}

/// A list in the sidebar that can change with what is done.
#[derive(Debug, Clone, Copy, PartialEq, Eq, Structural)]
pub enum SidebarList {
    Calendars,
    Subscriptions,
}

/// The id that a list of the sidebar has on the page.
pub open spec fn list_id(list: SidebarList) -> Seq<char> {
    match list {
        SidebarList::Calendars => "calendar-list"@,
        SidebarList::Subscriptions => "ics-subscription-list"@,
    }
}

/// What replaces the parts of a page that a change can touch: the view, and the list of the
/// sidebar where the change is one to it.
pub open spec fn swapped(view: Seq<char>, list: Option<(SidebarList, Seq<char>)>) -> Seq<char> {
    "<div id=\"view\" class=\"view-container\" hx-swap-oob=\"true\">"@ + view + "</div>"@ + match list {
        Some(l) => "<ul id=\""@ + list_id(l.0)
            + "\" class=\"calendar-list\" hx-swap-oob=\"true\">"@ + l.1 + "</ul>"@,
        None => Seq::empty(),
    }
}

/// What replaces the parts of a page that a change can touch.
pub fn swap_in(view: &str, list: Option<(SidebarList, &str)>) -> (r: String)
    ensures
        r@ == swapped(
            view@,
            match list {
                Some(l) => Some((l.0, l.1@)),
                None => None,
            },
        ),
{
    let mut out = "<div id=\"view\" class=\"view-container\" hx-swap-oob=\"true\">".to_string();
    out.append(view);
    out.append("</div>");
    let ghost first = out@;
    if let Some((which, html)) = list {
        let id = match which {
            SidebarList::Calendars => "calendar-list",
            SidebarList::Subscriptions => "ics-subscription-list",
        };
        out.append("<ul id=\"");
        out.append(id);
        out.append("\" class=\"calendar-list\" hx-swap-oob=\"true\">");
        out.append(html);
        out.append("</ul>");
        assert(out@ =~= first + ("<ul id=\""@ + list_id(which)
            + "\" class=\"calendar-list\" hx-swap-oob=\"true\">"@ + html@ + "</ul>"@));
    } else {
        assert(out@ =~= first + Seq::<char>::empty());
    }
    out
}

} // verus!
