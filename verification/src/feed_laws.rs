//! What is read of an iCalendar event, and what that means for its occurrences.

use vstd::prelude::*;
use vstd::string::*;
use crate::calendar::{secs_between, NaiveDateTime};
use crate::collections::{get_after_insert, map_get};
use crate::contentline::{escaped, line_parts, unescaped, unfolded, ParamsV};
use crate::duration::{duration_secs, duration_text};
use crate::ics::{
    events_of, exclusion, exclusions, first_location, head_lines, ics_lines, nonempty, raw_event,
    raw_set, read_line, read_lines, rrule_text, rrule_value, text_lines, time_value, RawEventV,
    ReadV,
};
use crate::jscalendar::CalendarEventV;
use crate::json::ValueV;
use crate::recurrence::{excludes, expansion, expansion_sound, overrides_of};
use crate::text::split;
use crate::timetext::{basic_text, iso_text};

verus! {

proof fn exclusion_is_there(exdates: Seq<(Seq<char>, ParamsV)>, i: int)
    requires
        0 <= i < exdates.len(),
        time_value(exdates[i].0, exdates[i].1) is Some,
    ensures
        ({
            let key = iso_text((time_value(exdates[i].0, exdates[i].1)->0).0);
            let patch = map_get(exclusions(exdates), key);
            patch is Some && map_get(patch->0, "excluded"@) == Some(ValueV::Bool(true))
        }),
        exclusions(exdates).len() > 0,
    decreases exdates.len(),
{
    let before = exclusions(exdates.drop_last());
    let last = time_value(exdates.last().0, exdates.last().1);
    let key = iso_text((time_value(exdates[i].0, exdates[i].1)->0).0);
    let patch = exclusion();
    get_after_insert(Seq::<(Seq<char>, ValueV)>::empty(), "excluded"@, ValueV::Bool(true), key);
    if let Some(t) = last {
        get_after_insert(before, iso_text(t.0), patch, key);
    }
    if i < exdates.len() - 1 {
        assert(exdates.drop_last()[i] == exdates[i]);
        exclusion_is_there(exdates.drop_last(), i);
    }
}

proof fn exclusion_has_date(exdates: Seq<(Seq<char>, ParamsV)>, key: Seq<char>)
    requires
        map_get(exclusions(exdates), key) is Some,
    ensures
        exists|i: int|
            0 <= i < exdates.len() && (#[trigger] time_value(exdates[i].0, exdates[i].1)) is Some
                && iso_text((time_value(exdates[i].0, exdates[i].1)->0).0) == key,
    decreases exdates.len(),
{
    if exdates.len() > 0 {
        let t = exdates.drop_last();
        let before = exclusions(t);
        let n = exdates.len() - 1;
        assert(exdates[n] == exdates.last());
        let last = time_value(exdates[n].0, exdates[n].1);
        if last is Some && iso_text((last->0).0) == key {
        } else {
            if let Some(x) = last {
                get_after_insert(before, iso_text(x.0), exclusion(), key);
            }
            exclusion_has_date(t, key);
            let i = choose|i: int|
                0 <= i < t.len() && (#[trigger] time_value(t[i].0, t[i].1)) is Some && iso_text(
                    (time_value(t[i].0, t[i].1)->0).0,
                ) == key;
            assert(t[i] == exdates[i]);
            assert(time_value(exdates[i].0, exdates[i].1) is Some);
        }
    }
}

/// Each date that an event leaves out is taken out of the event that is read: the override under
/// that time says so, and in no range does an occurrence bear that time.
pub proof fn left_out_date_never_occurs(
    raw: RawEventV,
    calendar_id: Seq<char>,
    i: int,
    range_start: NaiveDateTime,
    range_end: NaiveDateTime,
)
    requires
        raw_event(raw, calendar_id) matches Some(Some(_)),
        0 <= i < raw.exdates.len(),
        time_value(raw.exdates[i].0, raw.exdates[i].1) is Some,
    ensures
        ({
            let event = raw_event(raw, calendar_id)->0->0;
            let key = iso_text((time_value(raw.exdates[i].0, raw.exdates[i].1)->0).0);
            &&& event.recurrence_overrides is Some
            &&& excludes(map_get(event.recurrence_overrides->0, key))
            &&& map_get(event.recurrence_overrides->0, key) matches Some(patch) && map_get(
                patch,
                "excluded"@,
            ) == Some(ValueV::Bool(true))
            &&& expansion(event, range_start, range_end) matches Some(occurrences) ==> forall|
                j: int,
            |
                0 <= j < occurrences.len() ==> (#[trigger] occurrences[j]).recurrence_id != Some(
                    key,
                )
        }),
{
    let event = raw_event(raw, calendar_id)->0->0;
    exclusion_is_there(raw.exdates, i);
    if expansion(event, range_start, range_end) is Some {
        expansion_sound(event, range_start, range_end);
        assert(overrides_of(event) == event.recurrence_overrides->0);
    }
}

/// Nothing else is taken out: each override of an event that is read stands under the time of a
/// date that it leaves out, and without such a date there is none.
pub proof fn only_left_out_dates_are_overridden(
    raw: RawEventV,
    calendar_id: Seq<char>,
    key: Seq<char>,
)
    requires
        raw_event(raw, calendar_id) matches Some(Some(_)),
        map_get(overrides_of(raw_event(raw, calendar_id)->0->0), key) is Some,
    ensures
        exists|i: int|
            0 <= i < raw.exdates.len() && (#[trigger] time_value(
                raw.exdates[i].0,
                raw.exdates[i].1,
            )) is Some && iso_text((time_value(raw.exdates[i].0, raw.exdates[i].1)->0).0) == key,
{
    exclusion_has_date(raw.exdates, key);
}

/// The event that is read has the summary for its title, its own uid behind the calendar's id, the
/// start with its zone, and the calendar that it was read for; it repeats by its rule, where that
/// is understood.
pub proof fn properties_are_read(raw: RawEventV, calendar_id: Seq<char>)
    requires
        raw_event(raw, calendar_id) matches Some(Some(_)),
    ensures
        ({
            let event = raw_event(raw, calendar_id)->0->0;
            &&& event.title == raw.summary
            &&& raw.uid matches Some(u) ==> event.uid == calendar_id + ":"@ + u
            &&& raw.uid is None ==> (raw.summary matches Some(s) ==> event.uid == calendar_id
                + ":"@ + ("anon-"@ + (raw.dtstart->0).0 + "-"@ + s))
            &&& event.calendar_ids matches Some(m) && map_get(m, calendar_id) == Some(true)
                && m.len() == 1
            &&& raw.dtstart is Some
            &&& time_value((raw.dtstart->0).0, (raw.dtstart->0).1) matches Some(t)
            &&& event.start == iso_text(t.0)
            &&& event.show_without_time == t.1
            &&& event.time_zone == t.2
            &&& raw.rrule is None ==> event.recurrence_rules is None
            &&& raw.rrule matches Some(r) ==> match rrule_value(r) {
                Some(rule) => event.recurrence_rules matches Some(rules) && rules.len() == 1
                    && rules[0] == rule,
                None => event.recurrence_rules is None,
            }
        }),
{
    let event = raw_event(raw, calendar_id)->0->0;
    get_after_insert(Seq::<(Seq<char>, bool)>::empty(), calendar_id, true, calendar_id);
}

/// How long an event lasts that is read: as its duration says; else up to its end; else a day,
/// where it has only a date, and no time where it has a time of the day.
pub proof fn length_is_read(raw: RawEventV, calendar_id: Seq<char>)
    requires
        raw_event(raw, calendar_id) matches Some(Some(_)),
    ensures
        ({
            let event = raw_event(raw, calendar_id)->0->0;
            let start = time_value((raw.dtstart->0).0, (raw.dtstart->0).1)->0;
            &&& raw.duration matches Some(d) ==> (duration_secs(d) matches Some(Some(n))
                ==> event.duration == duration_text(n))
            &&& raw.duration is None ==> match raw.dtend {
                Some(e) => time_value(e.0, e.1) matches Some(end) ==> event.duration
                    == duration_text(secs_between(end.0, start.0)),
                None => event.duration == duration_text(
                    if event.show_without_time {
                        86400
                    } else {
                        0
                    },
                ),
            }
        }),
{
}

/// Each property goes where its name says, and nowhere else; one of a component inside the event
/// goes nowhere.
#[verifier::spinoff_prover]
#[verifier::rlimit(60)]
pub proof fn property_goes_by_name(
    raw: RawEventV,
    name: Seq<char>,
    params: ParamsV,
    value: Seq<char>,
)
    ensures
        ({
            let r = raw_set(raw, name, params, value);
            let mine = raw.inner is None;
            &&& r.uid == (if mine && name == "UID"@ {
                Some(unescaped(value))
            } else {
                raw.uid
            })
            &&& r.summary == (if mine && name == "SUMMARY"@ {
                Some(unescaped(value))
            } else {
                raw.summary
            })
            &&& r.dtstart == (if mine && name == "DTSTART"@ {
                Some((value, params))
            } else {
                raw.dtstart
            })
            &&& r.dtend == (if mine && name == "DTEND"@ {
                Some((value, params))
            } else {
                raw.dtend
            })
            &&& r.duration == (if mine && name == "DURATION"@ {
                Some(value)
            } else {
                raw.duration
            })
            &&& r.rrule == (if mine && name == "RRULE"@ {
                Some(value)
            } else {
                raw.rrule
            })
            &&& !(mine && name == "EXDATE"@) ==> r.exdates == raw.exdates
            &&& mine && name == "EXDATE"@ ==> {
                let pieces = split(value, ',');
                &&& r.exdates.len() == raw.exdates.len() + pieces.len()
                &&& forall|i: int|
                    0 <= i < raw.exdates.len() ==> #[trigger] r.exdates[i] == raw.exdates[i]
                &&& forall|i: int|
                    0 <= i < pieces.len() ==> r.exdates[raw.exdates.len() + i] == (
                        #[trigger] pieces[i],
                        params,
                    )
            }
            &&& r.is_instance == (raw.is_instance || mine && name == "RECURRENCE-ID"@)
        }),
{
    reveal_strlit("END");
    reveal_strlit("BEGIN");
    reveal_strlit("UID");
    reveal_strlit("SUMMARY");
    reveal_strlit("DTSTART");
    reveal_strlit("DTEND");
    reveal_strlit("DURATION");
    reveal_strlit("RRULE");
    reveal_strlit("EXDATE");
    reveal_strlit("RECURRENCE-ID");
    assert("BEGIN"@.len() == 5 && "UID"@.len() == 3 && "SUMMARY"@.len() == 7 && "DTSTART"@.len()
        == 7 && "DTEND"@.len() == 5 && "DURATION"@.len() == 8 && "RRULE"@.len() == 5
        && "EXDATE"@.len() == 6 && "RECURRENCE-ID"@.len() == 13);
    assert("BEGIN"@[0] == 'B' && "DTEND"@[0] == 'D' && "RRULE"@[0] == 'R');
    assert("SUMMARY"@[0] == 'S' && "DTSTART"@[0] == 'D');
}

/// An event is written with its own uid, and with its title, description, first place and first
/// rule where it has them.
#[verifier::spinoff_prover]
#[verifier::rlimit(60)]
pub proof fn event_is_written(event: CalendarEventV, now: NaiveDateTime)
    requires
        ics_lines(event, now) is Some,
    ensures
        ({
            let lines = ics_lines(event, now)->0;
            &&& lines.contains("UID:"@ + escaped(event.uid))
            &&& lines.contains("DTSTAMP:"@ + basic_text(now).push('Z'))
            &&& event.title matches Some(t) ==> (t.len() > 0 ==> lines.contains(
                "SUMMARY:"@ + escaped(t),
            ))
            &&& event.description matches Some(t) ==> (t.len() > 0 ==> lines.contains(
                "DESCRIPTION:"@ + escaped(t),
            ))
            &&& event.locations matches Some(m) ==> (m.len() > 0 ==> (m[0].1.name matches Some(t)
                ==> (t.len() > 0 ==> lines.contains("LOCATION:"@ + escaped(t)))))
            &&& event.recurrence_rules matches Some(rules) ==> (rules.len() > 0 ==> lines.contains(
                "RRULE:"@ + rrule_text(rules[0]),
            ))
        }),
{
    let lines = ics_lines(event, now)->0;
    let head = head_lines(event, now);
    let text = text_lines(event);
    assert(head.len() == 6);
    assert(lines[4] == head[4]);
    assert(lines[5] == head[5]);
    let n = lines.len() - 2 - text.len();
    assert forall|i: int| 0 <= i < text.len() implies lines.contains(#[trigger] text[i]) by {
        assert(lines[n + i] == text[i]);
    }
    let a = if nonempty(event.title) {
        1int
    } else {
        0int
    };
    let b = a + (if nonempty(event.description) {
        1int
    } else {
        0int
    });
    if nonempty(event.title) {
        assert(text[0] == "SUMMARY:"@ + escaped(event.title->0));
    }
    if nonempty(event.description) {
        assert(text[a] == "DESCRIPTION:"@ + escaped(event.description->0));
    }
    if nonempty(first_location(event)) {
        assert(text[b] == "LOCATION:"@ + escaped(first_location(event)->0));
    }
    if event.recurrence_rules is Some && event.recurrence_rules->0.len() > 0 {
        assert(text[text.len() - 1] == "RRULE:"@ + rrule_text(event.recurrence_rules->0[0]));
    }
}

/// A line of a document leaves the events before it as they are; the end of an event adds the event
/// that its properties describe, if any.
pub proof fn events_are_read_in_turn(st: ReadV, line: Seq<char>, calendar_id: Seq<char>)
    requires
        read_line(st, line, calendar_id) is Some,
    ensures
        ({
            let r = read_line(st, line, calendar_id)->0;
            &&& st.events.len() <= r.events.len() <= st.events.len() + 1
            &&& forall|i: int| 0 <= i < st.events.len() ==> #[trigger] r.events[i] == st.events[i]
            &&& r.events.len() > st.events.len() ==> (st.current matches Some(raw) && raw_event(
                raw,
                calendar_id,
            ) == Some(Some(r.events.last())))
            &&& line_parts(line) matches Some(p) ==> (p.0 == "END"@ && p.2 == "VEVENT"@ ==> (
            st.current matches Some(raw) ==> (raw_event(raw, calendar_id) matches Some(Some(_))
                ==> r.events.len() == st.events.len() + 1)))
        }),
{
    reveal_strlit("END");
    reveal_strlit("BEGIN");
    assert("END"@.len() == 3 && "BEGIN"@.len() == 5);
}

proof fn events_have_properties(lines: Seq<Seq<char>>, calendar_id: Seq<char>, i: int)
    requires
        read_lines(lines, calendar_id) is Some,
        0 <= i < read_lines(lines, calendar_id)->0.events.len(),
    ensures
        exists|raw: RawEventV|
            #[trigger] raw_event(raw, calendar_id) == Some(
                Some(read_lines(lines, calendar_id)->0.events[i]),
            ),
    decreases lines.len(),
{
    if lines.len() > 0 {
        let st = read_lines(lines.drop_last(), calendar_id)->0;
        events_are_read_in_turn(st, lines.last(), calendar_id);
        if i < st.events.len() {
            events_have_properties(lines.drop_last(), calendar_id, i);
        } else {
            assert(raw_event(st.current->0, calendar_id) is Some);
        }
    }
}

/// Each event of a document is in the calendar of its subscription, and in no other.
pub proof fn events_are_in_their_calendar(text: Seq<char>, subscription_id: Seq<char>, i: int)
    requires
        events_of(text, subscription_id) is Some,
        0 <= i < events_of(text, subscription_id)->0.len(),
    ensures
        events_of(text, subscription_id)->0[i].calendar_ids matches Some(m) && m.len() == 1
            && map_get(m, "ics:"@ + subscription_id) == Some(true),
{
    let id = "ics:"@ + subscription_id;
    events_have_properties(unfolded(text), id, i);
    let raw = choose|raw: RawEventV|
        #[trigger] raw_event(raw, id) == Some(Some(events_of(text, subscription_id)->0[i]));
    properties_are_read(raw, id);
}

} // verus!
