//! What the event form asks for and shows, word by word, and which contacts a search finds.

use vstd::prelude::*;
use vstd::string::*;
use crate::calendar::{plus_secs, secs_between, NaiveDateTime};
use crate::collections::{
    stable_sorted, stable_sorted_in_order, text_less_irreflexive, text_less_total,
    text_less_transitive, total_preorder, Ordered,
};
use crate::contacts::{contact_row, is_sought, sought_rows, ContactRow, ContactRowV};
use crate::contentline::lowered;
use crate::duration::{duration_secs, duration_text};
use crate::eventform::{blank_event_form, event_form, event_form_again, EventFormBodyV};
use crate::jscalendar::{local_time, CalendarEventV, CalendarV};
use crate::jscontact::CardV;
use crate::options::{options_with, zone_options};
use crate::text::{find_text, starts_with, text_less, trim};
use crate::timetext::{date_text, iso_text, read_date, read_time, two};
use crate::view::ViewParamsV;

verus! {

proof fn words_differ()
    ensures
        "none"@ != "daily"@,
        "none"@ != "weekly"@,
        "none"@ != "monthly"@,
        "none"@ != "yearly"@,
        "daily"@ != "weekly"@,
        "daily"@ != "monthly"@,
        "daily"@ != "yearly"@,
        "weekly"@ != "monthly"@,
        "weekly"@ != "yearly"@,
        "monthly"@ != "yearly"@,
        "count"@ != "until"@,
        "count"@ != "never"@,
        "until"@ != "never"@,
{
    reveal_strlit("none");
    reveal_strlit("daily");
    reveal_strlit("weekly");
    reveal_strlit("monthly");
    reveal_strlit("yearly");
    reveal_strlit("count");
    reveal_strlit("until");
    reveal_strlit("never");
    assert("daily"@.len() == 5);
    assert("weekly"@.len() == 6);
    assert("yearly"@.len() == 6);
    assert("monthly"@.len() == 7);
    assert("none"@.len() == 4);
    assert("weekly"@[0] != "yearly"@[0]);
    assert("count"@[0] != "until"@[0]);
    assert("count"@[0] != "never"@[0]);
    assert("until"@[0] != "never"@[0]);
}

/// A form that asks for no repetition gives an event without rules; one that asks for days,
/// weeks, months or years gives an event with one rule, of that frequency, at the interval of the
/// form, with nothing else to pick its days by.
pub proof fn word_asks_for_frequency(form: EventFormBodyV, uid: Seq<char>)
    requires
        form.built(uid) is Ok,
    ensures
        ({
            let rules = form.built(uid)->Ok_0.recurrence_rules;
            &&& form.repeat_freq == "none"@ ==> rules is None
            &&& form.repeat_freq != "none"@ ==> rules is Some && rules->0.len() == 1
            &&& form.repeat_freq == "daily"@ ==> rules->0[0].frequency is Daily
            &&& form.repeat_freq == "weekly"@ ==> rules->0[0].frequency is Weekly
            &&& form.repeat_freq == "monthly"@ ==> rules->0[0].frequency is Monthly
            &&& form.repeat_freq == "yearly"@ ==> rules->0[0].frequency is Yearly
            &&& form.repeat_freq != "none"@ ==> {
                let rule = rules->0[0];
                &&& form.repeat_interval >= 1 ==> rule.interval == Some(form.repeat_interval)
                &&& form.repeat_interval == 0 ==> rule.interval == Some(1u32)
                &&& rule.by_day.len() == 0
                &&& rule.by_month.len() == 0
                &&& rule.by_month_day.len() == 0
            }
        }),
{
    words_differ();
}

/// A form says when a repetition ends: after a number of times, with the last second of a date,
/// or never.
pub proof fn word_asks_for_end(form: EventFormBodyV, uid: Seq<char>)
    requires
        form.built(uid) is Ok,
        form.repeat_freq != "none"@,
    ensures
        ({
            let rule = form.built(uid)->Ok_0.recurrence_rules->0[0];
            &&& form.repeat_end_mode == "never"@ ==> rule.count is None && rule.until is None
            &&& form.repeat_end_mode == "count"@ ==> rule.until is None && rule.count is Some
                && rule.count->0 >= 1 && (form.repeat_count >= 1 ==> rule.count->0
                == form.repeat_count)
            &&& form.repeat_end_mode == "until"@ ==> rule.count is None && rule.until is Some && (
            read_date(form.repeat_until, "%Y-%m-%d"@) matches Some(d) && rule.until->0 == iso_text(
                NaiveDateTime { date: d, secs: 86399, leap: false },
            ))
        }),
{
    words_differ();
}

/// An event that repeats is shown with the word for the frequency of its first rule, its interval
/// and its end; one that does not is shown as such.
pub proof fn frequency_is_shown_as_word(
    event: CalendarEventV,
    calendars: Seq<CalendarV>,
    p: ViewParamsV,
    error: Option<Seq<char>>,
)
    requires
        event_form(event, calendars, p, error) is Some,
    ensures
        ({
            let form = event_form(event, calendars, p, error)->0;
            let rules = event.recurrence_rules;
            &&& rules is None || rules->0.len() == 0 ==> form.repeat_freq == "none"@
                && form.repeat_end_mode == "never"@ && form.repeat_interval == 1
            &&& rules is Some && rules->0.len() > 0 ==> {
                let rule = rules->0[0];
                &&& rule.frequency is Daily ==> form.repeat_freq == "daily"@
                &&& rule.frequency is Weekly ==> form.repeat_freq == "weekly"@
                &&& rule.frequency is Monthly ==> form.repeat_freq == "monthly"@
                &&& rule.frequency is Yearly ==> form.repeat_freq == "yearly"@
                &&& rule.frequency is Hourly || rule.frequency is Minutely
                    || rule.frequency is Secondly ==> form.repeat_freq == "none"@
                &&& rule.interval matches Some(n) ==> form.repeat_interval == n
                &&& rule.interval is None ==> form.repeat_interval == 1
                &&& rule.until is None && rule.count is None ==> form.repeat_end_mode == "never"@
                &&& rule.until is None && rule.count is Some ==> form.repeat_end_mode == "count"@
                    && Some(form.repeat_count) == rule.count
                &&& rule.until is Some ==> form.repeat_end_mode == "until"@
                &&& rule.until matches Some(u) ==> (local_time(u) matches Some(t)
                    ==> form.repeat_until == date_text(t.date))
            }
        }),
{
}

/// The event that a form gives holds what its fields hold: the title without the blanks around
/// it, the description, the place, the zone and the calendar as they stand; an empty field gives
/// nothing.
pub proof fn fields_are_kept(form: EventFormBodyV, uid: Seq<char>)
    requires
        form.built(uid) is Ok,
    ensures
        ({
            let e = form.built(uid)->Ok_0;
            &&& e.uid == uid
            &&& e.title is None <==> trim(form.title).len() == 0
            &&& e.title matches Some(t) ==> t == trim(form.title)
            &&& e.description is None <==> form.description.len() == 0
            &&& e.description matches Some(t) ==> t == form.description
            &&& e.time_zone is None <==> form.timezone.len() == 0
            &&& e.time_zone matches Some(t) ==> t == form.timezone
            &&& e.locations is None <==> form.location.len() == 0
            &&& e.locations matches Some(m) ==> m.len() == 1 && m[0].1.name == Some(form.location)
            &&& e.calendar_ids matches Some(m) && m.len() == 1 && m[0].0 == form.calendar_id
                && m[0].1
            &&& e.show_without_time <==> form.all_day is Some
            &&& e.recurrence_overrides is None
            &&& e.recurrence_id is None
        }),
{
}

/// The event that a form gives starts at the start of the form and lasts up to its end: from
/// minute to minute, or, where it lasts all day, from midnight on for whole days, and at least one.
pub proof fn event_lasts_as_asked(form: EventFormBodyV, uid: Seq<char>)
    requires
        form.built(uid) is Ok,
    ensures
        ({
            let e = form.built(uid)->Ok_0;
            let format = "%Y-%m-%dT%H:%M:%S"@;
            let time = if form.all_day is Some {
                "00:00"@
            } else {
                form.start_time
            };
            &&& read_time(form.start_date + "T"@ + time + ":00"@, format) matches Some(start)
            &&& e.start == iso_text(start)
            &&& form.all_day is None ==> {
                &&& read_time(form.end_date + "T"@ + form.end_time + ":00"@, format) matches Some(
                    end,
                )
                &&& secs_between(end, start) >= 60
                &&& e.duration == duration_text(secs_between(end, start))
            }
            &&& form.all_day is Some ==> {
                &&& read_date(form.start_date, "%Y-%m-%d"@) matches Some(a)
                &&& read_date(form.end_date, "%Y-%m-%d"@) matches Some(b)
                &&& b.num() > a.num() ==> e.duration == duration_text(
                    (b.num() - a.num()) * 86400,
                )
                &&& b.num() <= a.num() ==> e.duration == duration_text(86400)
            }
        }),
{
}

/// An event is shown with its title, description, first place and whole-day mark, its times, and
/// the choice of its first calendar and of its zone.
pub proof fn fields_are_shown(
    event: CalendarEventV,
    calendars: Seq<CalendarV>,
    p: ViewParamsV,
    error: Option<Seq<char>>,
)
    requires
        event_form(event, calendars, p, error) is Some,
    ensures
        ({
            let form = event_form(event, calendars, p, error)->0;
            &&& event.title matches Some(t) ==> form.title == t
            &&& event.description matches Some(t) ==> form.description == t
            &&& event.locations matches Some(m) ==> (m.len() > 0 ==> (m[0].1.name matches Some(n)
                ==> form.location == n))
            &&& event.id matches Some(i) ==> form.event_id == i
            &&& form.all_day == event.show_without_time
            &&& form.is_edit
            &&& form.error == error
            &&& event.calendar_ids matches Some(m) ==> (m.len() > 0 ==> form.calendars
                == options_with(calendars, Some(m[0].0)))
            &&& event.time_zone matches Some(z) ==> form.timezones == zone_options(
                z,
                "Floating (no time zone)"@,
            )
            &&& local_time(event.start) matches Some(t) ==> {
                &&& form.start_date == date_text(t.date)
                &&& form.start_time == two(t.hour()).push(':') + two(t.minute())
                &&& duration_secs(event.duration) matches Some(Some(n)) ==> (
                plus_secs(t, n) matches Some(end) && form.end_date == date_text(end.date)
                    && form.end_time == two(end.hour()).push(':') + two(end.minute()))
                &&& duration_secs(event.duration) == Some(None::<int>) ==> form.end_date
                    == form.start_date && form.end_time == form.start_time
            }
        }),
{
}

/// A form that is refused is shown again with everything that was typed, and with what is wrong.
pub proof fn refused_form_is_shown_again(
    form: EventFormBodyV,
    is_edit: bool,
    event_id: Option<Seq<char>>,
    calendars: Seq<CalendarV>,
    p: ViewParamsV,
    message: Seq<char>,
)
    ensures
        ({
            let r = event_form_again(form, is_edit, event_id, calendars, p, message);
            &&& r.title == form.title
            &&& r.description == form.description
            &&& r.location == form.location
            &&& r.all_day == (form.all_day is Some)
            &&& r.start_date == form.start_date
            &&& r.start_time == form.start_time
            &&& r.end_date == form.end_date
            &&& r.end_time == form.end_time
            &&& r.repeat_freq == form.repeat_freq
            &&& r.repeat_interval == form.repeat_interval
            &&& r.repeat_end_mode == form.repeat_end_mode
            &&& r.repeat_until == form.repeat_until
            &&& r.repeat_count == form.repeat_count
            &&& r.error == Some(message)
            &&& r.is_edit == is_edit
            &&& event_id matches Some(i) ==> r.event_id == i
        }),
{
}

// ---------------------------------------------------------------------------
// The search among contacts
// ---------------------------------------------------------------------------

/// A text is found in another exactly where it is a part of it that stands together.
pub proof fn found_is_part(s: Seq<char>, q: Seq<char>)
    ensures
        find_text(s, q) is Some <==> exists|i: int|
            0 <= i && i + q.len() <= s.len() && #[trigger] s.subrange(i, i + q.len()) == q,
    decreases s.len(),
{
    if starts_with(s, q) {
        let i = 0int;
        assert(s.subrange(i, i + q.len()) =~= s.take(q.len() as int));
    } else if s.len() == 0 {
        assert forall|i: int|
            0 <= i && i + q.len() <= s.len() implies #[trigger] s.subrange(i, i + q.len()) != q by {
            assert(s.subrange(0, q.len() as int) =~= s.take(q.len() as int));
        }
    } else {
        let t = s.skip(1);
        found_is_part(t, q);
        if find_text(t, q) is Some {
            let i = choose|i: int|
                0 <= i && i + q.len() <= t.len() && #[trigger] t.subrange(i, i + q.len()) == q;
            assert(s.subrange(i + 1, i + 1 + q.len()) =~= t.subrange(i, i + q.len()));
        }
        if exists|i: int|
            0 <= i && i + q.len() <= s.len() && #[trigger] s.subrange(i, i + q.len()) == q {
            let i = choose|i: int|
                0 <= i && i + q.len() <= s.len() && #[trigger] s.subrange(i, i + q.len()) == q;
            if i == 0 {
                assert(s.subrange(0, q.len() as int) =~= s.take(q.len() as int));
            }
            assert(t.subrange(i - 1, i - 1 + q.len()) =~= s.subrange(i, i + q.len()));
        }
    }
}

/// A contact is found by every part of its name and by every part of its first address, whatever
/// the case.
pub proof fn name_and_address_are_sought(card: CardV, q: Seq<char>, i: int)
    requires
        0 <= i,
    ensures
        ({
            let name = lowered(card.display_name());
            let part = lowered(q);
            i + part.len() <= name.len() && name.subrange(i, i + part.len()) == part ==> is_sought(
                card,
                q,
            )
        }),
        card.emails matches Some(m) ==> m.len() > 0 ==> ({
            let address = lowered(m[0].1.address);
            let part = lowered(q);
            i + part.len() <= address.len() && address.subrange(i, i + part.len()) == part
                ==> is_sought(card, q)
        }),
{
    found_is_part(lowered(card.display_name()), lowered(q));
    if let Some(m) = card.emails {
        if m.len() > 0 {
            found_is_part(lowered(m[0].1.address), lowered(q));
        }
    }
}

/// A contact that is found has what is looked for in its name or in its first address.
pub proof fn nothing_else_is_sought(card: CardV, q: Seq<char>)
    requires
        is_sought(card, q),
    ensures
        ({
            let name = lowered(card.display_name());
            let part = lowered(q);
            ||| exists|i: int|
                0 <= i && i + part.len() <= name.len() && #[trigger] name.subrange(
                    i,
                    i + part.len(),
                ) == part
            ||| card.emails matches Some(m) && m.len() > 0 && exists|i: int|
                0 <= i && i + part.len() <= lowered(m[0].1.address).len() && #[trigger] lowered(
                    m[0].1.address,
                ).subrange(i, i + part.len()) == part
        }),
{
    found_is_part(lowered(card.display_name()), lowered(q));
    if let Some(m) = card.emails {
        if m.len() > 0 {
            found_is_part(lowered(m[0].1.address), lowered(q));
        }
    }
}

proof fn rows_are_filtered(cards: Seq<CardV>, p: ViewParamsV)
    ensures
        sought_rows(cards, p) == cards.filter(
            |c: CardV| p.q matches Some(q) ==> is_sought(c, q),
        ).map_values(|c: CardV| contact_row(c, p)),
    decreases cards.len(),
{
    let keep = |c: CardV| p.q matches Some(q) ==> is_sought(c, q);
    let row = |c: CardV| contact_row(c, p);
    reveal(Seq::filter);
    if cards.len() == 0 {
        assert(cards.filter(keep).map_values(row) =~= Seq::empty());
    } else {
        let t = cards.drop_last();
        rows_are_filtered(t, p);
        if keep(cards.last()) {
            assert(cards.filter(keep) == t.filter(keep).push(cards.last()));
            assert(cards.filter(keep).map_values(row) =~= t.filter(keep).map_values(row).push(
                row(cards.last()),
            ));
        } else {
            assert(cards.filter(keep) == t.filter(keep));
        }
    }
}

proof fn rows_have_order()
    ensures
        total_preorder(|a: ContactRowV, b: ContactRowV| ContactRow::le_view(a, b)),
{
    let le = |a: ContactRowV, b: ContactRowV| ContactRow::le_view(a, b);
    assert forall|a: ContactRowV| #[trigger] le(a, a) by {
        text_less_irreflexive(a.name);
    }
    assert forall|a: ContactRowV, b: ContactRowV| #[trigger] le(a, b) || le(b, a) by {
        text_less_total(a.name, b.name);
        if text_less(b.name, a.name) && text_less(a.name, b.name) {
            text_less_transitive(a.name, b.name, a.name);
            text_less_irreflexive(a.name);
        }
    }
    assert forall|a: ContactRowV, b: ContactRowV, c: ContactRowV|
        #[trigger] le(a, b) && #[trigger] le(b, c) implies le(a, c) by {
        text_less_total(a.name, b.name);
        text_less_total(b.name, c.name);
        if text_less(c.name, a.name) {
            if text_less(a.name, b.name) {
                text_less_transitive(c.name, a.name, b.name);
            }
        }
    }
}

/// The list of contacts holds every contact that is looked for, each once, and no other; without
/// a search it holds them all. It goes by the names.
pub proof fn list_holds_the_sought(cards: Seq<CardV>, p: ViewParamsV)
    ensures
        ({
            let rows = stable_sorted(
                sought_rows(cards, p),
                |a: ContactRowV, b: ContactRowV| ContactRow::le_view(a, b),
            );
            &&& rows.to_multiset() == cards.filter(
                |c: CardV| p.q matches Some(q) ==> is_sought(c, q),
            ).map_values(|c: CardV| contact_row(c, p)).to_multiset()
            &&& forall|i: int, j: int|
                0 <= i < j < rows.len() ==> !text_less(
                    (#[trigger] rows[j]).name,
                    (#[trigger] rows[i]).name,
                )
        }),
{
    let le = |a: ContactRowV, b: ContactRowV| ContactRow::le_view(a, b);
    rows_are_filtered(cards, p);
    rows_have_order();
    stable_sorted_in_order(sought_rows(cards, p), le);
    let rows = stable_sorted(sought_rows(cards, p), le);
    assert forall|i: int, j: int| 0 <= i < j < rows.len() implies !text_less(
        (#[trigger] rows[j]).name,
        (#[trigger] rows[i]).name,
    ) by {
        assert(le(rows[i], rows[j]));
    }
}

/// A contact stands in the list with its own name, its first address and its id.
pub proof fn row_shows_contact(card: CardV, p: ViewParamsV)
    ensures
        ({
            let row = contact_row(card, p);
            &&& card.name matches Some(n) ==> (n.full matches Some(f) ==> (f.len() > 0 ==> row.name
                == f))
            &&& card.name is None ==> row.name == card.uid
            &&& card.emails matches Some(m) ==> (m.len() > 0 ==> row.email == Some(
                m[0].1.address,
            ))
            &&& card.emails is None ==> row.email is None
            &&& card.id matches Some(i) ==> row.id == i
        }),
{
}

/// The form for a new event is for an hour in the morning of the date that is shown, which does
/// not repeat.
pub proof fn new_event_is_in_the_morning(
    calendars: Seq<CalendarV>,
    p: ViewParamsV,
    viewer: Seq<char>,
    error: Option<Seq<char>>,
)
    ensures
        ({
            let form = blank_event_form(calendars, p, viewer, error);
            &&& !form.is_edit
            &&& form.start_date == date_text(p.date)
            &&& form.end_date == date_text(p.date)
            &&& form.start_time == "09:00"@
            &&& form.end_time == "10:00"@
            &&& form.repeat_freq == "none"@
            &&& form.title.len() == 0
            &&& form.error == error
        }),
{
}

} // verus!
