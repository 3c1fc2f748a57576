//! What stands beside every view: the calendars to show and hide, and the ways to look.

use vstd::prelude::*;
use vstd::string::*;
use crate::collections::{sort_items, stable_sorted, CloneView, Ordered};
use crate::ics::pseudo_calendar_id;
use crate::jscalendar::{Calendar, CalendarV};
use crate::state::{HOLIDAYS_COLOR, HOLIDAYS_PSEUDO_ID};
use crate::text::{str_less, text_less};
use crate::users::{IcsSubscription, IcsSubscriptionV};
use crate::view::{
    calendar_color, color_of, ViewKind, ViewParams, ViewParamsV, BIRTHDAY_COLOR, BIRTHDAY_PSEUDO_ID,
};

verus! {

/// A way to look at the calendar.
#[derive(Debug)]
pub struct ViewLink {
    pub label: String,
    pub href: String,
    pub active: bool,
}

/// What a [`ViewLink`] stands for.
#[verifier::ext_equal]
pub struct ViewLinkV {
    pub label: Seq<char>,
    pub href: Seq<char>,
    pub active: bool,
}

impl DeepView for ViewLink {
    type V = ViewLinkV;

    open spec fn deep_view(&self) -> ViewLinkV {
        ViewLinkV {
            label: self.label.deep_view(),
            href: self.href.deep_view(),
            active: self.active.deep_view(),
        }
    }
}

/// A calendar that can be shown and hidden.
#[derive(Debug)]
pub struct SidebarCalendarVM {
    pub id: String,
    pub name: String,
    pub color: String,
    pub visible: bool,
    pub toggle_href: String,
    pub edit_href: Option<String>,
    /// Why the last fetch of a subscription failed, where it did.
    pub error: Option<String>,
}

/// What a [`SidebarCalendarVM`] stands for.
#[verifier::ext_equal]
pub struct SidebarCalendarVMV {
    pub id: Seq<char>,
    pub name: Seq<char>,
    pub color: Seq<char>,
    pub visible: bool,
    pub toggle_href: Seq<char>,
    pub edit_href: Option<Seq<char>>,
    pub error: Option<Seq<char>>,
}

impl DeepView for SidebarCalendarVM {
    type V = SidebarCalendarVMV;

    open spec fn deep_view(&self) -> SidebarCalendarVMV {
        SidebarCalendarVMV {
            id: self.id.deep_view(),
            name: self.name.deep_view(),
            color: self.color.deep_view(),
            visible: self.visible.deep_view(),
            toggle_href: self.toggle_href.deep_view(),
            edit_href: self.edit_href.deep_view(),
            error: self.error.deep_view(),
        }
    }
}

impl Ordered for SidebarCalendarVM {
    open spec fn le_view(a: SidebarCalendarVMV, b: SidebarCalendarVMV) -> bool {
        !text_less(b.name, a.name)
    }

    fn le(&self, other: &Self) -> (r: bool) {
        !str_less(other.name.as_str(), self.name.as_str())
    }
}

impl ViewParamsV {
    /// The query of the page that is shown.
    pub open spec fn back_query(self) -> Seq<char> {
        self.query_string(self.view, self.date)
    }
}

/// A calendar of the server in the sidebar.
pub open spec fn calendar_entry(c: CalendarV, id: Seq<char>, p: ViewParamsV) -> SidebarCalendarVMV {
    SidebarCalendarVMV {
        id,
        name: c.name,
        color: color_of(Some(c), id),
        visible: p.visible.contains(id),
        toggle_href: p.toggle_href(id),
        edit_href: Some("/app/calendar/"@ + id + "/edit?"@ + p.back_query()),
        error: None,
    }
}

/// The calendars of the server that have an id, as they stand in the sidebar.
pub open spec fn calendar_entries(calendars: Seq<CalendarV>, p: ViewParamsV) -> Seq<
    SidebarCalendarVMV,
>
    decreases calendars.len(),
{
    if calendars.len() == 0 {
        Seq::empty()
    } else {
        let before = calendar_entries(calendars.drop_last(), p);
        match calendars.last().id {
            Some(id) => before.push(calendar_entry(calendars.last(), id, p)),
            None => before,
        }
    }
}

/// Something that is shown and hidden like a calendar, but that cannot be edited.
pub open spec fn pseudo_entry(
    id: Seq<char>,
    name: Seq<char>,
    color: Seq<char>,
    p: ViewParamsV,
) -> SidebarCalendarVMV {
    SidebarCalendarVMV {
        id,
        name,
        color,
        visible: p.visible.contains(id),
        toggle_href: p.toggle_href(id),
        edit_href: None,
        error: None,
    }
}

/// The calendars in the sidebar: those of the server by their names, then birthdays, then
/// public holidays.
pub open spec fn calendar_rows(
    calendars: Seq<CalendarV>,
    p: ViewParamsV,
    has_contacts: bool,
    has_holidays: bool,
) -> Seq<SidebarCalendarVMV> {
    stable_sorted(
        calendar_entries(calendars, p),
        |a: SidebarCalendarVMV, b: SidebarCalendarVMV| SidebarCalendarVM::le_view(a, b),
    ) + (if has_contacts {
        seq![pseudo_entry(BIRTHDAY_PSEUDO_ID@, "Birthdays"@, BIRTHDAY_COLOR@, p)]
    } else {
        Seq::empty()
    }) + (if has_holidays {
        seq![pseudo_entry(HOLIDAYS_PSEUDO_ID@, "Public Holidays"@, HOLIDAYS_COLOR@, p)]
    } else {
        Seq::empty()
    })
}

fn edit_link(kind: &str, id: &str, query: &str) -> (r: String)
    ensures
        r@ == kind@ + id@ + "/edit?"@ + query@,
{
    let mut out = kind.to_string();
    out.append(id);
    out.append("/edit?");
    out.append(query);
    out
}

fn list_calendars(calendars: &Vec<Calendar>, params: &ViewParams) -> (r: Vec<SidebarCalendarVM>)
    requires
        params.date.valid(),
    ensures
        r.deep_view() == calendar_entries(calendars.deep_view(), params.deep_view()),
{
    let ghost all = calendars.deep_view();
    let ghost p = params.deep_view();
    let back = params.query_string(params.view, params.date);
    let mut out: Vec<SidebarCalendarVM> = Vec::new();
    let mut i: usize = 0;
    assert(all.take(0) =~= Seq::empty());
    assert(out.deep_view() =~= Seq::empty());
    while i < calendars.len()
        invariant
            0 <= i <= calendars@.len(),
            params.date.valid(),
            all == calendars.deep_view(),
            p == params.deep_view(),
            back@ == p.back_query(),
            out.deep_view() == calendar_entries(all.take(i as int), p),
        decreases calendars@.len() - i,
    {
        let c = &calendars[i];
        proof {
            assert(all.take(i + 1).drop_last() =~= all.take(i as int));
            assert(all.take(i + 1).last() == c.deep_view());
        }
        if let Some(id) = &c.id {
            let ghost before = out.deep_view();
            let entry = SidebarCalendarVM {
                id: id.clone(),
                name: c.name.clone(),
                color: calendar_color(Some(c), id.as_str()),
                visible: params.visible.contains(id.as_str()),
                toggle_href: params.toggle_href(id.as_str()),
                edit_href: Some(edit_link("/app/calendar/", id.as_str(), back.as_str())),
                error: None,
            };
            assert(entry.deep_view() =~= calendar_entry(c.deep_view(), id@, p));
            out.push(entry);
            assert(out.deep_view() =~= before.push(entry.deep_view()));
        }
        i = i + 1;
    }
    assert(all.take(i as int) =~= all);
    out
}

fn pseudo(id: &str, name: &str, color: &str, params: &ViewParams) -> (r: SidebarCalendarVM)
    requires
        params.date.valid(),
    ensures
        r.deep_view() == pseudo_entry(id@, name@, color@, params.deep_view()),
{
    let r = SidebarCalendarVM {
        id: id.to_string(),
        name: name.to_string(),
        color: color.to_string(),
        visible: params.visible.contains(id),
        toggle_href: params.toggle_href(id),
        edit_href: None,
        error: None,
    };
    assert(r.deep_view() =~= pseudo_entry(id@, name@, color@, params.deep_view()));
    r
}

/// The calendars in the sidebar.
pub fn sidebar_calendars(
    calendars: &Vec<Calendar>,
    params: &ViewParams,
    has_contacts: bool,
    has_holidays: bool,
) -> (r: Vec<SidebarCalendarVM>)
    requires
        params.date.valid(),
    ensures
        r.deep_view() == calendar_rows(
            calendars.deep_view(),
            params.deep_view(),
            has_contacts,
            has_holidays,
        ),
{
    let mut items = sort_items(list_calendars(calendars, params));
    let ghost sorted = items.deep_view();
    if has_contacts {
        let b = pseudo(BIRTHDAY_PSEUDO_ID, "Birthdays", BIRTHDAY_COLOR, params);
        items.push(b);
        assert(items.deep_view() =~= sorted.push(b.deep_view()));
    }
    let ghost with_birthdays = items.deep_view();
    if has_holidays {
        let h = pseudo(HOLIDAYS_PSEUDO_ID, "Public Holidays", HOLIDAYS_COLOR, params);
        items.push(h);
        assert(items.deep_view() =~= with_birthdays.push(h.deep_view()));
    }
    assert(items.deep_view() =~= calendar_rows(
        calendars.deep_view(),
        params.deep_view(),
        has_contacts,
        has_holidays,
    ));
    items
}

/// A subscription in the sidebar.
pub open spec fn subscription_entry(
    s: IcsSubscriptionV,
    error: Option<Seq<char>>,
    p: ViewParamsV,
) -> SidebarCalendarVMV {
    let id = "ics:"@ + s.id;
    SidebarCalendarVMV {
        id,
        name: s.name,
        color: s.color,
        visible: p.visible.contains(id),
        toggle_href: p.toggle_href(id),
        edit_href: Some("/app/ics/"@ + s.id + "/edit?"@ + p.back_query()),
        error,
    }
}

/// The subscriptions in the sidebar, by their names; `errors` tells of each why its last fetch
/// failed.
pub fn sidebar_ics_subscriptions(
    subs: &Vec<IcsSubscription>,
    errors: &Vec<Option<String>>,
    params: &ViewParams,
) -> (r: Vec<SidebarCalendarVM>)
    requires
        params.date.valid(),
        errors@.len() == subs@.len(),
    ensures
        r.deep_view() == stable_sorted(
            Seq::new(
                subs@.len(),
                |i: int|
                    subscription_entry(
                        subs.deep_view()[i],
                        errors.deep_view()[i],
                        params.deep_view(),
                    ),
            ),
            |a: SidebarCalendarVMV, b: SidebarCalendarVMV| SidebarCalendarVM::le_view(a, b),
        ),
{
    let ghost all = subs.deep_view();
    let ghost errs = errors.deep_view();
    let ghost p = params.deep_view();
    let ghost rows = Seq::new(all.len(), |i: int| subscription_entry(all[i], errs[i], p));
    let back = params.query_string(params.view, params.date);
    let mut out: Vec<SidebarCalendarVM> = Vec::new();
    let mut i: usize = 0;
    while i < subs.len()
        invariant
            0 <= i <= subs@.len(),
            params.date.valid(),
            errors@.len() == subs@.len(),
            all == subs.deep_view(),
            errs == errors.deep_view(),
            p == params.deep_view(),
            back@ == p.back_query(),
            rows == Seq::new(all.len(), |i: int| subscription_entry(all[i], errs[i], p)),
            out.deep_view() =~= rows.take(i as int),
        decreases subs@.len() - i,
    {
        let s = &subs[i];
        assert(all[i as int] == s.deep_view());
        assert(errs[i as int] == errors@[i as int].deep_view());
        let id = pseudo_calendar_id(s.id.as_str());
        let ghost before = out.deep_view();
        let visible = params.visible.contains(id.as_str());
        let toggle_href = params.toggle_href(id.as_str());
        let entry = SidebarCalendarVM {
            id,
            name: s.name.clone(),
            color: s.color.clone(),
            visible,
            toggle_href,
            edit_href: Some(edit_link("/app/ics/", s.id.as_str(), back.as_str())),
            error: errors[i].clone_view(),
        };
        assert(entry.deep_view() =~= subscription_entry(all[i as int], errs[i as int], p));
        out.push(entry);
        assert(out.deep_view() =~= before.push(entry.deep_view()));
        i = i + 1;
    }
    assert(rows.take(i as int) =~= rows);
    sort_items(out)
}

/// A way to look at the calendar, from where the user is.
pub open spec fn view_link(kind: ViewKind, label: Seq<char>, p: ViewParamsV) -> ViewLinkV {
    ViewLinkV {
        label,
        href: "/app?"@ + p.query_string(kind, p.date),
        active: kind == p.view,
    }
}

/// The ways to look: the contacts only where the server has them.
pub open spec fn links(p: ViewParamsV, has_contacts: bool) -> Seq<ViewLinkV> {
    seq![
        view_link(ViewKind::Month, "Month"@, p),
        view_link(ViewKind::Week, "Week"@, p),
        view_link(ViewKind::Day, "Day"@, p),
        view_link(ViewKind::Agenda, "Agenda"@, p),
    ] + (if has_contacts {
        seq![view_link(ViewKind::Contacts, "Contacts"@, p)]
    } else {
        Seq::empty()
    })
}

fn link(kind: ViewKind, label: &str, params: &ViewParams) -> (r: ViewLink)
    requires
        params.date.valid(),
    ensures
        r.deep_view() == view_link(kind, label@, params.deep_view()),
{
    let r = ViewLink {
        label: label.to_string(),
        href: params.nav_href(kind, params.date),
        active: kind == params.view,
    };
    assert(r.deep_view() =~= view_link(kind, label@, params.deep_view()));
    r
}

/// The ways to look at the calendar.
pub fn view_links(params: &ViewParams, has_contacts: bool) -> (r: Vec<ViewLink>)
    requires
        params.date.valid(),
    ensures
        r.deep_view() == links(params.deep_view(), has_contacts),
{
    let mut out = vec![
        link(ViewKind::Month, "Month", params),
        link(ViewKind::Week, "Week", params),
        link(ViewKind::Day, "Day", params),
        link(ViewKind::Agenda, "Agenda", params),
    ];
    if has_contacts {
        out.push(link(ViewKind::Contacts, "Contacts", params));
    }
    assert(out.deep_view() =~= links(params.deep_view(), has_contacts));
    out
}

} // verus!
