//! What a query shows, what the sidebar lists, and where the links round a view lead.

use vstd::prelude::*;
use vstd::string::*;
use crate::calendar::{date_of_num, NaiveDate};
use crate::collections::{
    stable_sorted, stable_sorted_in_order, text_less_irreflexive, text_less_total,
    text_less_transitive, total_preorder, Ordered,
};
use crate::jscalendar::CalendarV;
use crate::jscontact::{birthday_expansion, CardV};
use crate::numbers::{dec, int_text};
use crate::params::{ids_of, not_empty, resolved, shown_ids, RawViewQueryV};
use crate::shell::{birthdays_for, query_range, shell, shown_subscriptions};
use crate::sidebar::{
    calendar_entries, calendar_rows, links, subscription_entry, SidebarCalendarVM,
    SidebarCalendarVMV,
};
use crate::state::HOLIDAYS_PSEUDO_ID;
use crate::text::{split, text_less};
use crate::timetext::{
    iso_text, month_abbr, month_day_text, month_name, read_date, weekday_name, year_text,
};
use crate::tz::converted;
use crate::users::{IcsSubscriptionV, Role};
use crate::view::{shown_dates, title_text, toggled, ViewKind, ViewParamsV, BIRTHDAY_PSEUDO_ID};
use crate::view_laws::step_goes_by_view;

verus! {

// ---------------------------------------------------------------------------
// What a query shows
// ---------------------------------------------------------------------------

proof fn not_empty_are(s: Seq<Seq<char>>, id: Seq<char>)
    ensures
        not_empty(s).contains(id) <==> id.len() > 0 && s.contains(id),
    decreases s.len(),
{
    if s.len() > 0 {
        let t = s.drop_last();
        let a = not_empty(t);
        let b = not_empty(s);
        not_empty_are(t, id);
        if b.contains(id) {
            let i = choose|i: int| 0 <= i < b.len() && b[i] == id;
            if i < a.len() {
                assert(a[i] == id);
                let k = choose|k: int| 0 <= k < t.len() && t[k] == id;
                assert(s[k] == id);
            } else {
                assert(s[s.len() - 1] == id);
            }
        }
        if id.len() > 0 && s.contains(id) {
            let k = choose|k: int| 0 <= k < s.len() && s[k] == id;
            if k < t.len() {
                assert(t[k] == id);
                let i = choose|i: int| 0 <= i < a.len() && a[i] == id;
                assert(b[i] == id);
            } else {
                assert(b[b.len() - 1] == id);
            }
        }
    }
}

proof fn ids_are(calendars: Seq<CalendarV>, only_visible: bool, id: Seq<char>)
    ensures
        ids_of(calendars, only_visible).contains(id) <==> exists|i: int|
            0 <= i < calendars.len() && (#[trigger] calendars[i]).id == Some(id) && (only_visible
                ==> calendars[i].is_visible),
    decreases calendars.len(),
{
    if calendars.len() > 0 {
        let t = calendars.drop_last();
        let a = ids_of(t, only_visible);
        let b = ids_of(calendars, only_visible);
        ids_are(t, only_visible, id);
        if b.contains(id) {
            let i = choose|i: int| 0 <= i < b.len() && b[i] == id;
            if i < a.len() {
                assert(a[i] == id);
                let k = choose|k: int|
                    0 <= k < t.len() && (#[trigger] t[k]).id == Some(id) && (only_visible
                        ==> t[k].is_visible);
                assert(calendars[k] == t[k]);
            } else {
                assert(calendars[calendars.len() - 1].id == Some(id));
            }
        }
        if exists|i: int|
            0 <= i < calendars.len() && (#[trigger] calendars[i]).id == Some(id) && (only_visible
                ==> calendars[i].is_visible) {
            let k = choose|i: int|
                0 <= i < calendars.len() && (#[trigger] calendars[i]).id == Some(id) && (
                only_visible ==> calendars[i].is_visible);
            if k < t.len() {
                assert(t[k] == calendars[k]);
                let i = choose|i: int| 0 <= i < a.len() && a[i] == id;
                assert(b[i] == id);
            } else {
                assert(b[b.len() - 1] == id);
            }
        }
    }
}

proof fn sum_contains(a: Seq<Seq<char>>, b: Seq<Seq<char>>, id: Seq<char>)
    ensures
        (a + b).contains(id) <==> a.contains(id) || b.contains(id),
{
    let s = a + b;
    if s.contains(id) {
        let i = choose|i: int| 0 <= i < s.len() && s[i] == id;
        if i < a.len() {
            assert(a[i] == id);
        } else {
            assert(b[i - a.len()] == id);
        }
    }
    if a.contains(id) {
        let i = choose|i: int| 0 <= i < a.len() && a[i] == id;
        assert(s[i] == id);
    }
    if b.contains(id) {
        let i = choose|i: int| 0 <= i < b.len() && b[i] == id;
        assert(s[a.len() + i] == id);
    }
}

proof fn push_contains(a: Seq<Seq<char>>, x: Seq<char>, id: Seq<char>)
    ensures
        a.push(x).contains(id) <==> a.contains(id) || x == id,
{
    let s = a.push(x);
    if s.contains(id) {
        let i = choose|i: int| 0 <= i < s.len() && s[i] == id;
        if i < a.len() {
            assert(a[i] == id);
        }
    }
    if a.contains(id) {
        let i = choose|i: int| 0 <= i < a.len() && a[i] == id;
        assert(s[i] == id);
    }
    assert(s[a.len() as int] == x);
}

/// A query that lists calendars shows just those that it lists.
pub proof fn listed_are_shown(
    raw: RawViewQueryV,
    calendars: Seq<CalendarV>,
    today: NaiveDate,
    has_contacts: bool,
    ics_ids: Seq<Seq<char>>,
    has_holidays: bool,
    id: Seq<char>,
)
    requires
        raw.cal is Some,
    ensures
        resolved(raw, calendars, today, has_contacts, ics_ids, has_holidays).visible.contains(id)
            <==> id.len() > 0 && split(raw.cal->0, ',').contains(id),
{
    not_empty_are(split(raw.cal->0, ','), id);
}

/// A query that lists none shows the calendars that are visible by themselves, the birthdays where
/// there are contacts, and every subscription.
#[verifier::spinoff_prover]
#[verifier::rlimit(60)]
pub proof fn visible_are_shown(
    raw: RawViewQueryV,
    calendars: Seq<CalendarV>,
    today: NaiveDate,
    has_contacts: bool,
    ics_ids: Seq<Seq<char>>,
    has_holidays: bool,
    id: Seq<char>,
)
    requires
        raw.cal is None,
    ensures
        resolved(raw, calendars, today, has_contacts, ics_ids, has_holidays).visible.contains(id)
            <==> ({
            ||| exists|i: int|
                0 <= i < calendars.len() && (#[trigger] calendars[i]).id == Some(id)
                    && calendars[i].is_visible
            ||| has_contacts && id == BIRTHDAY_PSEUDO_ID@
            ||| ics_ids.contains(id)
        }),
{
    let own = ids_of(calendars, true);
    ids_are(calendars, true, id);
    push_contains(own, BIRTHDAY_PSEUDO_ID@, id);
    if has_contacts {
        sum_contains(own.push(BIRTHDAY_PSEUDO_ID@), ics_ids, id);
    } else {
        sum_contains(own, ics_ids, id);
    }
    assert(shown_ids(None, calendars, has_contacts, ics_ids).contains(id) <==> resolved(
        raw,
        calendars,
        today,
        has_contacts,
        ics_ids,
        has_holidays,
    ).visible.contains(id));
}

/// What can be shown: every calendar with an id, birthdays where there are contacts, every
/// subscription, and public holidays where there are any.
#[verifier::spinoff_prover]
#[verifier::rlimit(60)]
pub proof fn all_can_be_shown(
    raw: RawViewQueryV,
    calendars: Seq<CalendarV>,
    today: NaiveDate,
    has_contacts: bool,
    ics_ids: Seq<Seq<char>>,
    has_holidays: bool,
    id: Seq<char>,
)
    ensures
        resolved(
            raw,
            calendars,
            today,
            has_contacts,
            ics_ids,
            has_holidays,
        ).all_calendar_ids.contains(id) <==> ({
            ||| exists|i: int|
                0 <= i < calendars.len() && (#[trigger] calendars[i]).id == Some(id)
            ||| has_contacts && id == BIRTHDAY_PSEUDO_ID@
            ||| ics_ids.contains(id)
            ||| has_holidays && id == HOLIDAYS_PSEUDO_ID@
        }),
{
    let own = ids_of(calendars, false);
    ids_are(calendars, false, id);
    push_contains(own, BIRTHDAY_PSEUDO_ID@, id);
    let with_births = if has_contacts {
        own.push(BIRTHDAY_PSEUDO_ID@)
    } else {
        own
    };
    sum_contains(with_births, ics_ids, id);
    push_contains(with_births + ics_ids, HOLIDAYS_PSEUDO_ID@, id);
}

/// Each view goes by its own word; a query names the view, the date and the filter.
pub proof fn query_says_view_and_date(
    raw: RawViewQueryV,
    calendars: Seq<CalendarV>,
    today: NaiveDate,
    has_contacts: bool,
    ics_ids: Seq<Seq<char>>,
    has_holidays: bool,
)
    ensures
        ({
            let p = resolved(raw, calendars, today, has_contacts, ics_ids, has_holidays);
            &&& raw.view == Some("week"@) ==> p.view is Week
            &&& raw.view == Some("day"@) ==> p.view is Day
            &&& raw.view == Some("agenda"@) ==> p.view is Agenda
            &&& raw.view == Some("contacts"@) ==> p.view is Contacts
            &&& raw.view == Some("month"@) || raw.view is None ==> p.view is Month
            &&& raw.date matches Some(t) ==> (read_date(t, "%Y-%m-%d"@) matches Some(d) ==> p.date
                == d)
            &&& raw.date is None ==> p.date == today
            &&& raw.date matches Some(t) ==> (read_date(t, "%Y-%m-%d"@) is None ==> p.date == today)
            &&& raw.q matches Some(q) ==> (q.len() > 0 ==> p.q == Some(q))
            &&& raw.q is None ==> p.q is None
        }),
{
    reveal_strlit("month");
    reveal_strlit("week");
    reveal_strlit("day");
    reveal_strlit("agenda");
    reveal_strlit("contacts");
    assert("month"@.len() == 5 && "week"@.len() == 4 && "day"@.len() == 3 && "agenda"@.len() == 6
        && "contacts"@.len() == 8);
}

/// A switch shows what was hidden and hides what was shown, and leaves the rest.
pub proof fn switch_changes_one(set: Set<Seq<char>>, id: Seq<char>, other: Seq<char>)
    ensures
        toggled(set, id).contains(id) == !set.contains(id),
        other != id ==> toggled(set, id).contains(other) == set.contains(other),
{
}

// ---------------------------------------------------------------------------
// The sidebar
// ---------------------------------------------------------------------------

proof fn entry_of_calendar(calendars: Seq<CalendarV>, p: ViewParamsV, i: int) -> (j: int)
    requires
        0 <= i < calendars.len(),
        calendars[i].id is Some,
    ensures
        0 <= j < calendar_entries(calendars, p).len(),
        ({
            let e = calendar_entries(calendars, p)[j];
            let id = calendars[i].id->0;
            &&& e.id == id
            &&& e.name == calendars[i].name
            &&& e.visible == p.visible.contains(id)
            &&& calendars[i].color matches Some(c) ==> e.color == c
            &&& e.toggle_href == p.toggle_href(id)
        }),
    decreases calendars.len(),
{
    let t = calendars.drop_last();
    if i < t.len() {
        assert(t[i] == calendars[i]);
        entry_of_calendar(t, p, i)
    } else {
        calendar_entries(calendars, p).len() - 1
    }
}

proof fn entries_have_order()
    ensures
        total_preorder(
            |a: SidebarCalendarVMV, b: SidebarCalendarVMV| SidebarCalendarVM::le_view(a, b),
        ),
{
    let le = |a: SidebarCalendarVMV, b: SidebarCalendarVMV| SidebarCalendarVM::le_view(a, b);
    assert forall|a: SidebarCalendarVMV| #[trigger] le(a, a) by {
        text_less_irreflexive(a.name);
    }
    assert forall|a: SidebarCalendarVMV, b: SidebarCalendarVMV| #[trigger] le(a, b) || le(b, a) by {
        if text_less(b.name, a.name) && text_less(a.name, b.name) {
            text_less_transitive(a.name, b.name, a.name);
            text_less_irreflexive(a.name);
        }
    }
    assert forall|a: SidebarCalendarVMV, b: SidebarCalendarVMV, c: SidebarCalendarVMV|
        #[trigger] le(a, b) && #[trigger] le(b, c) implies le(a, c) by {
        text_less_total(a.name, b.name);
        if text_less(c.name, a.name) && text_less(a.name, b.name) {
            text_less_transitive(c.name, a.name, b.name);
        }
    }
}

/// Each calendar that has an id stands in the sidebar: under its name, in its color, with a mark
/// that says whether it is shown, and with a link that switches it.
#[verifier::spinoff_prover]
#[verifier::rlimit(60)]
pub proof fn sidebar_lists_calendar(
    calendars: Seq<CalendarV>,
    p: ViewParamsV,
    has_contacts: bool,
    has_holidays: bool,
    i: int,
)
    requires
        0 <= i < calendars.len(),
        calendars[i].id is Some,
    ensures
        exists|j: int|
            0 <= j < calendar_rows(calendars, p, has_contacts, has_holidays).len() && ({
                let row = #[trigger] calendar_rows(calendars, p, has_contacts, has_holidays)[j];
                let id = calendars[i].id->0;
                &&& row.id == id
                &&& row.name == calendars[i].name
                &&& row.visible == p.visible.contains(id)
                &&& calendars[i].color matches Some(c) ==> row.color == c
                &&& row.toggle_href == p.toggle_href(id)
            }),
{
    let entries = calendar_entries(calendars, p);
    let le = |a: SidebarCalendarVMV, b: SidebarCalendarVMV| SidebarCalendarVM::le_view(a, b);
    let sorted = stable_sorted(entries, le);
    let rows = calendar_rows(calendars, p, has_contacts, has_holidays);
    let k = entry_of_calendar(calendars, p, i);
    entries_have_order();
    stable_sorted_in_order(entries, le);
    entries.to_multiset_ensures();
    sorted.to_multiset_ensures();
    assert(entries.contains(entries[k]));
    assert(entries.to_multiset().count(entries[k]) > 0);
    assert(sorted.contains(entries[k]));
    let j = choose|j: int| 0 <= j < sorted.len() && sorted[j] == entries[k];
    assert(rows[j] == entries[k]);
}

/// The birthdays stand in the sidebar where there are contacts, and the public holidays where
/// there are any, each with a mark that says whether it is shown.
pub proof fn sidebar_ends_with_days_of_note(
    calendars: Seq<CalendarV>,
    p: ViewParamsV,
    has_contacts: bool,
    has_holidays: bool,
)
    ensures
        ({
            let rows = calendar_rows(calendars, p, has_contacts, has_holidays);
            let n = calendar_entries(calendars, p).len() as int;
            &&& rows.len() == n + (if has_contacts {
                1int
            } else {
                0int
            }) + (if has_holidays {
                1int
            } else {
                0int
            })
            &&& has_contacts ==> rows[n].id == BIRTHDAY_PSEUDO_ID@ && rows[n].visible
                == p.visible.contains(BIRTHDAY_PSEUDO_ID@)
            &&& has_holidays ==> rows.last().id == HOLIDAYS_PSEUDO_ID@ && rows.last().visible
                == p.visible.contains(HOLIDAYS_PSEUDO_ID@)
        }),
{
    let le = |a: SidebarCalendarVMV, b: SidebarCalendarVMV| SidebarCalendarVM::le_view(a, b);
    entries_have_order();
    stable_sorted_in_order(calendar_entries(calendars, p), le);
}

/// Of the ways to look, the one that is shown is marked, and no other; each leads to its view.
pub proof fn one_way_is_marked(p: ViewParamsV, has_contacts: bool)
    ensures
        ({
            let ways = links(p, has_contacts);
            &&& ways.len() == (if has_contacts {
                5int
            } else {
                4int
            })
            &&& ways[0].active <==> p.view is Month
            &&& ways[1].active <==> p.view is Week
            &&& ways[2].active <==> p.view is Day
            &&& ways[3].active <==> p.view is Agenda
            &&& has_contacts ==> (ways[4].active <==> p.view is Contacts)
            &&& ways[0].href == "/app?"@ + p.query_string(ViewKind::Month, p.date)
            &&& ways[1].href == "/app?"@ + p.query_string(ViewKind::Week, p.date)
            &&& ways[2].href == "/app?"@ + p.query_string(ViewKind::Day, p.date)
            &&& ways[3].href == "/app?"@ + p.query_string(ViewKind::Agenda, p.date)
            &&& has_contacts ==> ways[4].href == "/app?"@ + p.query_string(
                ViewKind::Contacts,
                p.date,
            )
        }),
{
}

// ---------------------------------------------------------------------------
// Round a view
// ---------------------------------------------------------------------------

/// The links round a week lead a week back and a week on; those round a day a day, and those round
/// the agenda thirty days.
pub proof fn links_lead_back_and_on(
    p: ViewParamsV,
    calendars: Seq<CalendarV>,
    has_contacts: bool,
    has_holidays: bool,
    username: Seq<char>,
    role: Role,
    today: NaiveDate,
    days: int,
) -> (r: (NaiveDate, NaiveDate))
    requires
        p.date.valid(),
        shell(p, calendars, has_contacts, has_holidays, username, role, today) is Some,
        p.view is Week && days == 7 || p.view is Day && days == 1 || p.view is Agenda && days == 30,
    ensures
        ({
            let s = shell(p, calendars, has_contacts, has_holidays, username, role, today)->0;
            &&& r.0.valid() && r.0.num() == p.date.num() - days
            &&& r.1.valid() && r.1.num() == p.date.num() + days
            &&& s.prev_href == "/app?"@ + p.query_string(p.view, r.0)
            &&& s.next_href == "/app?"@ + p.query_string(p.view, r.1)
            &&& s.today_href == "/app?"@ + p.query_string(p.view, today)
            &&& s.is_admin <==> role is Admin
            &&& s.username == username
        }),
{
    let a = p.stepped(-1)->0;
    let b = p.stepped(1)->0;
    step_goes_by_view(p, -1, a);
    step_goes_by_view(p, 1, b);
    (a, b)
}

/// Events are asked for from the midnight at which what is shown begins to that at which it ends,
/// on the viewer's clock, written in UTC.
pub proof fn asked_for_is_shown(p: ViewParamsV, viewer: Seq<char>, from: NaiveDate, to: NaiveDate)
    requires
        shown_dates(p.view, p.date) == Some((from, to)),
        query_range(p, viewer) is Some,
    ensures
        converted(from.midnight(), Some(viewer), "UTC"@) matches Some(a) && (query_range(
            p,
            viewer,
        )->0).0 == iso_text(a).push('Z'),
        converted(to.midnight(), Some(viewer), "UTC"@) matches Some(b) && (query_range(
            p,
            viewer,
        )->0).1 == iso_text(b).push('Z'),
{
}

/// The subscriptions to fetch are those whose calendar is visible, and no other.
pub proof fn visible_subscriptions_are_fetched(
    subs: Seq<IcsSubscriptionV>,
    visible: Set<Seq<char>>,
    s: IcsSubscriptionV,
)
    ensures
        shown_subscriptions(subs, visible).contains(s) <==> subs.contains(s) && visible.contains(
            "ics:"@ + s.id,
        ),
    decreases subs.len(),
{
    if subs.len() > 0 {
        let t = subs.drop_last();
        let a = shown_subscriptions(t, visible);
        let b = shown_subscriptions(subs, visible);
        visible_subscriptions_are_fetched(t, visible, s);
        if b.contains(s) {
            let i = choose|i: int| 0 <= i < b.len() && b[i] == s;
            if i < a.len() {
                assert(a[i] == s);
                let k = choose|k: int| 0 <= k < t.len() && t[k] == s;
                assert(subs[k] == s);
            } else {
                assert(subs[subs.len() - 1] == s);
            }
        }
        if subs.contains(s) && visible.contains("ics:"@ + s.id) {
            let k = choose|k: int| 0 <= k < subs.len() && subs[k] == s;
            if k < t.len() {
                assert(t[k] == s);
                let i = choose|i: int| 0 <= i < a.len() && a[i] == s;
                assert(b[i] == s);
            } else {
                assert(b[b.len() - 1] == s);
            }
        }
    }
}

/// Hidden birthdays are not looked up.
pub proof fn hidden_birthdays_are_left_out(
    p: ViewParamsV,
    cards: Seq<CardV>,
    from: NaiveDate,
    to: NaiveDate,
)
    requires
        shown_dates(p.view, p.date) == Some((from, to)),
    ensures
        !p.visible.contains(BIRTHDAY_PSEUDO_ID@) ==> (birthdays_for(p, Some(cards)) matches Some(s)
            && s.len() == 0),
        p.visible.contains(BIRTHDAY_PSEUDO_ID@) ==> birthdays_for(p, Some(cards))
            == birthday_expansion(cards, from, to),
{
}

/// A subscription stands in the sidebar under its name, in its color, with a mark that says whether
/// it is shown, and with what went wrong when it was fetched last.
pub proof fn sidebar_lists_subscription(
    s: IcsSubscriptionV,
    error: Option<Seq<char>>,
    p: ViewParamsV,
)
    ensures
        ({
            let row = subscription_entry(s, error, p);
            &&& row.id == "ics:"@ + s.id
            &&& row.name == s.name
            &&& row.color == s.color
            &&& row.visible == p.visible.contains("ics:"@ + s.id)
            &&& row.toggle_href == p.toggle_href("ics:"@ + s.id)
            &&& row.error == error
        }),
{
}

/// The title of a month names it and its year; that of a day says so where it is today; that of a
/// week that crosses from one month to another names both, with the year in which it ends.
pub proof fn title_says_what_is_shown(
    p: ViewParamsV,
    today: NaiveDate,
    monday: NaiveDate,
    sunday: NaiveDate,
)
    requires
        p.date.valid(),
        monday.valid(),
        sunday.valid(),
        monday.weekday_num() == 0,
        monday.num() <= p.date.num() <= sunday.num(),
        sunday.num() == monday.num() + 6,
    ensures
        p.view is Month ==> title_text(p, today) == Some(
            month_name(p.date.month as int).push(' ') + year_text(p.date.year as int),
        ),
        p.view is Day && p.date == today ==> title_text(p, today) == Some(
            "Today \u{2013} "@ + (weekday_name(p.date.weekday_num()) + seq![',', ' ']
                + month_day_text(p.date)),
        ),
        p.view is Week && monday.month == sunday.month ==> title_text(p, today) == Some(
            month_abbr(monday.month as int) + " "@ + dec(monday.day as nat) + "\u{2013}"@ + dec(
                sunday.day as nat,
            ) + " "@ + int_text(sunday.year as int),
        ),
        p.view is Week && monday.month != sunday.month ==> title_text(p, today) == Some(
            month_abbr(monday.month as int).push(' ') + dec(monday.day as nat) + " \u{2013} "@ + (
            month_abbr(sunday.month as int).push(' ') + dec(sunday.day as nat) + seq![',', ' ']
                + year_text(sunday.year as int)),
        ),
        p.view is Agenda ==> title_text(p, today) == Some("Agenda"@),
        p.view is Contacts ==> title_text(p, today) == Some("Contacts"@),
{
    date_of_num(monday);
    date_of_num(sunday);
    assert(p.date.num() - p.date.weekday_num() == monday.num());
}

} // verus!
