//! What an occurrence of an event is, where it comes from, and that none is missed.

use vstd::prelude::*;
use vstd::string::*;
use crate::calendar::{
    plus_secs, plus_secs_stays_valid, time_less, time_less_is_order, NaiveDateTime,
};
use crate::collections::{map_get, stable_sorted_in_order, Ordered};
use crate::duration::{duration_secs, duration_text};
use crate::jscalendar::{
    local_time, local_time_of_text, local_time_on_clock, CalendarEventV, RecurrenceRuleV,
};
use crate::json::ValueV;
use crate::recurrence::{
    base_starts, bounds_of, dedup, dedup_leaves_no_duplicates, excludes, expansion,
    instance_touches, moved_to, occurrence_at, occurrences_at, overlap, overrides_of, reach_back,
    rule_starts, rule_starts_within_bounds, rules_starts, sorted_times, times_are_ordered,
    with_extras, within_bounds, OverridesV,
};
use crate::recurrence_laws::{
    length_of, occurrence_is_listed, range_in_parts, reaches_back, sorted_keeps,
    start_occurs, starts_of_one_rule,
};
use crate::timetext::iso_text;

verus! {

/// What an override says under a key, where that is a text.
pub open spec fn says(
    overrides: OverridesV,
    time: Seq<char>,
    key: Seq<char>,
    value: Seq<char>,
) -> bool {
    map_get(overrides, time) matches Some(patch) && map_get(patch, key) == Some(
        ValueV::Text(value),
    )
}

/// An override says nothing under a key that is a text.
pub open spec fn says_nothing(overrides: OverridesV, time: Seq<char>, key: Seq<char>) -> bool {
    map_get(overrides, time) matches Some(patch) ==> (map_get(patch, key) matches Some(v)
        ==> v !is Text)
}

proof fn listed_has_start(
    event: CalendarEventV,
    overrides: OverridesV,
    starts: Seq<NaiveDateTime>,
    secs: int,
    range_start: NaiveDateTime,
    range_end: NaiveDateTime,
    i: int,
) -> (t: NaiveDateTime)
    requires
        occurrences_at(event, overrides, starts, secs, range_start, range_end) is Some,
        0 <= i < occurrences_at(event, overrides, starts, secs, range_start, range_end)->0.len(),
    ensures
        starts.contains(t),
        occurrence_at(event, overrides, t, secs, range_start, range_end) == Some(
            Some(occurrences_at(event, overrides, starts, secs, range_start, range_end)->0[i]),
        ),
    decreases starts.len(),
{
    let u = starts.drop_last();
    let before = occurrences_at(event, overrides, u, secs, range_start, range_end)->0;
    if i < before.len() {
        let t = listed_has_start(event, overrides, u, secs, range_start, range_end, i);
        let k = choose|k: int| 0 <= k < u.len() && u[k] == t;
        assert(starts[k] == t);
        t
    } else {
        assert(starts[starts.len() - 1] == starts.last());
        starts.last()
    }
}

/// The starts that are looked at in a range.
spec fn all_starts(
    event: CalendarEventV,
    range_start: NaiveDateTime,
    range_end: NaiveDateTime,
) -> Seq<NaiveDateTime> {
    with_extras(
        base_starts(
            event,
            local_time(event.start)->0,
            length_of(event),
            range_start,
            range_end,
        )->0,
        overrides_of(event),
        overrides_of(event),
        length_of(event),
        range_start,
        range_end,
    )
}

proof fn occurrence_has_start(
    event: CalendarEventV,
    range_start: NaiveDateTime,
    range_end: NaiveDateTime,
    i: int,
) -> (t: NaiveDateTime)
    requires
        expansion(event, range_start, range_end) is Some,
        0 <= i < expansion(event, range_start, range_end)->0.len(),
    ensures
        local_time(event.start) is Some,
        all_starts(event, range_start, range_end).contains(t),
        occurrence_at(
            event,
            overrides_of(event),
            t,
            length_of(event),
            range_start,
            range_end,
        ) == Some(Some(expansion(event, range_start, range_end)->0[i])),
{
    let all = all_starts(event, range_start, range_end);
    let t = listed_has_start(
        event,
        overrides_of(event),
        sorted_times(all),
        length_of(event),
        range_start,
        range_end,
        i,
    );
    times_are_ordered();
    stable_sorted_in_order(all, |a: NaiveDateTime, b: NaiveDateTime| NaiveDateTime::le_view(a, b));
    all.to_multiset_ensures();
    sorted_times(all).to_multiset_ensures();
    assert(sorted_times(all).to_multiset().count(t) > 0);
    t
}

/// An occurrence shows what its override says, and for the rest what the event says: its title,
/// description, status, color, start and length. It keeps the identity of the event.
#[verifier::spinoff_prover]
#[verifier::rlimit(60)]
pub proof fn occurrence_follows_override(
    event: CalendarEventV,
    range_start: NaiveDateTime,
    range_end: NaiveDateTime,
    i: int,
    value: Seq<char>,
)
    requires
        expansion(event, range_start, range_end) is Some,
        0 <= i < expansion(event, range_start, range_end)->0.len(),
    ensures
        ({
            let o = expansion(event, range_start, range_end)->0[i];
            let time = o.recurrence_id->0;
            let all = overrides_of(event);
            &&& o.recurrence_id is Some
            &&& o.event.recurrence_id == o.recurrence_id
            &&& says(all, time, "title"@, value) ==> o.event.title == Some(value)
            &&& says_nothing(all, time, "title"@) ==> o.event.title == event.title
            &&& says(all, time, "description"@, value) ==> o.event.description == Some(value)
            &&& says_nothing(all, time, "description"@) ==> o.event.description
                == event.description
            &&& says(all, time, "status"@, value) ==> o.event.status == Some(value)
            &&& says_nothing(all, time, "status"@) ==> o.event.status == event.status
            &&& says(all, time, "color"@, value) ==> o.event.color == Some(value)
            &&& says_nothing(all, time, "color"@) ==> o.event.color == event.color
            &&& says(all, time, "start"@, value) ==> o.event.start == value && local_time(value)
                == Some(o.start)
            &&& says_nothing(all, time, "start"@) ==> o.event.start == time && local_time(time)
                == Some(o.start)
            &&& says(all, time, "duration"@, value) ==> (duration_secs(value) matches Some(Some(n))
                ==> o.event.duration == duration_text(n))
            &&& says_nothing(all, time, "duration"@) ==> o.event.duration == duration_text(
                length_of(event),
            )
            &&& o.event.uid == event.uid
            &&& o.event.id == event.id
            &&& o.event.calendar_ids == event.calendar_ids
            &&& o.event.time_zone == event.time_zone
            &&& o.event.show_without_time == event.show_without_time
            &&& o.event.locations == event.locations
            &&& o.event.participants == event.participants
            &&& o.event.recurrence_rules is None
            &&& o.event.recurrence_overrides is None
        }),
{
    let t = occurrence_has_start(event, range_start, range_end, i);
}

/// An occurrence touches the range: it starts before the range ends, and ends, as long as it
/// lasts, after the range starts. One that no override lengthens lasts as long as the event.
#[verifier::spinoff_prover]
#[verifier::rlimit(60)]
pub proof fn occurrence_touches_range(
    event: CalendarEventV,
    range_start: NaiveDateTime,
    range_end: NaiveDateTime,
    i: int,
)
    requires
        range_start.valid(),
        range_end.valid(),
        expansion(event, range_start, range_end) is Some,
        0 <= i < expansion(event, range_start, range_end)->0.len(),
        ({
            let time = expansion(event, range_start, range_end)->0[i].recurrence_id->0;
            says_nothing(overrides_of(event), time, "duration"@)
        }),
    ensures
        ({
            let o = expansion(event, range_start, range_end)->0[i];
            let secs = if length_of(event) > 0 {
                length_of(event)
            } else {
                0
            };
            &&& o.start.order() < range_end.order()
            &&& plus_secs(o.start, secs) matches Some(end) && range_start.order() < end.order()
        }),
{
    let t = occurrence_has_start(event, range_start, range_end, i);
    let o = expansion(event, range_start, range_end)->0[i];
    local_time_on_clock(o.event.start);
    let secs = if length_of(event) > 0 {
        length_of(event)
    } else {
        0
    };
    plus_secs_stays_valid(o.start, secs);
    time_less_is_order(o.start, range_end);
    time_less_is_order(range_start, plus_secs(o.start, secs)->0);
}

proof fn start_of_some_rule(
    rules: Seq<RecurrenceRuleV>,
    dtstart: NaiveDateTime,
    range_start: NaiveDateTime,
    range_end: NaiveDateTime,
    t: NaiveDateTime,
) -> (r: int)
    requires
        rules_starts(rules, dtstart, range_start, range_end) is Some,
        rules_starts(rules, dtstart, range_start, range_end)->0.contains(t),
    ensures
        0 <= r < rules.len(),
        rule_starts(rules[r], dtstart, range_start, range_end) is Some,
        rule_starts(rules[r], dtstart, range_start, range_end)->0.contains(t),
    decreases rules.len(),
{
    let before = rules_starts(rules.drop_last(), dtstart, range_start, range_end)->0;
    let last = rule_starts(rules.last(), dtstart, range_start, range_end)->0;
    let all = before + last;
    let i = choose|i: int| 0 <= i < all.len() && all[i] == t;
    if i < before.len() {
        assert(before[i] == t);
        start_of_some_rule(rules.drop_last(), dtstart, range_start, range_end, t)
    } else {
        assert(last[i - before.len()] == t);
        rules.len() - 1
    }
}

proof fn extra_has_key(
    starts: Seq<NaiveDateTime>,
    overrides: OverridesV,
    keys: OverridesV,
    secs: int,
    range_start: NaiveDateTime,
    range_end: NaiveDateTime,
    t: NaiveDateTime,
)
    requires
        with_extras(starts, overrides, keys, secs, range_start, range_end).contains(t),
    ensures
        starts.contains(t) || exists|j: int|
            0 <= j < keys.len() && local_time((#[trigger] keys[j]).0) == Some(t),
    decreases keys.len(),
{
    if keys.len() > 0 {
        let k = keys.drop_last();
        let before = with_extras(starts, overrides, k, secs, range_start, range_end);
        if before.contains(t) {
            extra_has_key(starts, overrides, k, secs, range_start, range_end, t);
            if !starts.contains(t) {
                let j = choose|j: int|
                    0 <= j < k.len() && local_time((#[trigger] k[j]).0) == Some(t);
                assert(keys[j] == k[j]);
            }
        } else {
            let all = with_extras(starts, overrides, keys, secs, range_start, range_end);
            let i = choose|i: int| 0 <= i < all.len() && all[i] == t;
            assert(i == before.len()) by {
                if i < before.len() {
                    assert(before[i] == t);
                }
            }
            assert(local_time(keys[keys.len() - 1].0) == Some(t));
        }
    }
}

/// Every occurrence was planned: for the start of an event without rules, for a time that one of
/// its rules gives, or for a time that an override names.
#[verifier::spinoff_prover]
#[verifier::rlimit(60)]
pub proof fn occurrence_was_planned(
    event: CalendarEventV,
    range_start: NaiveDateTime,
    range_end: NaiveDateTime,
    i: int,
) -> (t: NaiveDateTime)
    requires
        expansion(event, range_start, range_end) is Some,
        0 <= i < expansion(event, range_start, range_end)->0.len(),
    ensures
        expansion(event, range_start, range_end)->0[i].recurrence_id == Some(iso_text(t)),
        ({
            ||| event.recurrence_rules is None && local_time(event.start) == Some(t)
            ||| event.recurrence_rules matches Some(rules) && exists|r: int, back: NaiveDateTime|
                0 <= r < rules.len() && (#[trigger] rule_starts(
                    rules[r],
                    local_time(event.start)->0,
                    back,
                    range_end,
                ) matches Some(s) && s.contains(t))
            ||| exists|j: int|
                0 <= j < overrides_of(event).len() && local_time(
                    (#[trigger] overrides_of(event)[j]).0,
                ) == Some(t)
        }),
{
    let t = occurrence_has_start(event, range_start, range_end, i);
    let dtstart = local_time(event.start)->0;
    let base = base_starts(event, dtstart, length_of(event), range_start, range_end)->0;
    extra_has_key(
        base,
        overrides_of(event),
        overrides_of(event),
        length_of(event),
        range_start,
        range_end,
        t,
    );
    if base.contains(t) {
        if let Some(rules) = event.recurrence_rules {
            let back = reach_back(range_start, length_of(event));
            let given = rules_starts(rules, dtstart, back, range_end)->0;
            let le = |a: NaiveDateTime, b: NaiveDateTime| NaiveDateTime::le_view(a, b);
            times_are_ordered();
            stable_sorted_in_order(given, le);
            dedup_leaves_no_duplicates(sorted_times(given), le);
            let k = choose|k: int| 0 <= k < base.len() && base[k] == t;
            assert(sorted_times(given).contains(dedup(sorted_times(given))[k]));
            given.to_multiset_ensures();
            sorted_times(given).to_multiset_ensures();
            assert(sorted_times(given).to_multiset().count(t) > 0);
            let r = start_of_some_rule(rules, dtstart, back, range_end, t);
            assert(rule_starts(rules[r], dtstart, back, range_end)->0.contains(t));
        }
    }
    t
}

/// A time that a rule of an event gives, from whatever time on, and at which the event touches the
/// range, is an occurrence, also where it starts before the range, unless an override speaks of it.
#[verifier::spinoff_prover]
#[verifier::rlimit(60)]
pub proof fn given_time_occurs(
    event: CalendarEventV,
    range_start: NaiveDateTime,
    range_end: NaiveDateTime,
    r: int,
    from: NaiveDateTime,
    t: NaiveDateTime,
)
    requires
        range_start.valid(),
        range_end.valid(),
        from.valid(),
        expansion(event, range_start, range_end) is Some,
        event.recurrence_rules is Some,
        0 <= r < event.recurrence_rules->0.len(),
        local_time(event.start) is Some,
        rule_starts(
            event.recurrence_rules->0[r],
            local_time(event.start)->0,
            from,
            range_end,
        ) matches Some(s) && s.contains(t),
        map_get(overrides_of(event), iso_text(t)) is None,
        t.on_clock(),
        t.order() < range_end.order(),
        plus_secs(
            t,
            if length_of(event) > 0 {
                length_of(event)
            } else {
                0
            },
        ) matches Some(end) && range_start.order() < end.order(),
    ensures
        exists|j: int|
            0 <= j < expansion(event, range_start, range_end)->0.len() && (#[trigger] expansion(
                event,
                range_start,
                range_end,
            )->0[j]).start == t && expansion(event, range_start, range_end)->0[j].recurrence_id
                == Some(iso_text(t)),
{
    let rules = event.recurrence_rules->0;
    let rule = rules[r];
    let dtstart = local_time(event.start)->0;
    let secs = length_of(event);
    let back = reach_back(range_start, secs);
    local_time_on_clock(event.start);
    let long = if secs > 0 {
        secs
    } else {
        0
    };
    plus_secs_stays_valid(t, long);
    time_less_is_order(t, range_end);
    time_less_is_order(range_start, plus_secs(t, long)->0);
    assert(overlap(t, secs, range_start, range_end) == Some(true));
    reaches_back(t, secs, range_start, range_end);
    let s = rule_starts(rule, dtstart, from, range_end)->0;
    rule_starts_within_bounds(rule, dtstart, from, range_end);
    let k = choose|k: int| 0 <= k < s.len() && s[k] == t;
    assert(within_bounds(bounds_of(rule, dtstart, from, range_end), s[k]));
    starts_of_one_rule(rules, dtstart, back, range_end, r, t);
    let w = rule_starts(rule, dtstart, back, range_end)->0;
    if time_less(back, from) {
        range_in_parts(rule, dtstart, back, from, range_end);
        let x = rule_starts(rule, dtstart, back, from)->0;
        assert(w[x.len() + k] == t);
    } else {
        range_in_parts(rule, dtstart, from, back, range_end);
        let x = rule_starts(rule, dtstart, from, back)->0;
        if k < x.len() {
            rule_starts_within_bounds(rule, dtstart, from, back);
            assert(x[k] == t);
            assert(within_bounds(bounds_of(rule, dtstart, from, back), x[k]));
        } else {
            assert(w[k - x.len()] == t);
        }
    }
    start_occurs(event, range_start, range_end, t);
}

proof fn extra_is_added(
    starts: Seq<NaiveDateTime>,
    overrides: OverridesV,
    keys: OverridesV,
    secs: int,
    range_start: NaiveDateTime,
    range_end: NaiveDateTime,
    j: int,
)
    requires
        0 <= j < keys.len(),
        local_time(keys[j].0) is Some,
        !excludes(map_get(overrides, keys[j].0)),
        instance_touches(
            overrides,
            local_time(keys[j].0)->0,
            secs,
            range_start,
            range_end,
        ) == Some(true),
    ensures
        with_extras(starts, overrides, keys, secs, range_start, range_end).contains(
            local_time(keys[j].0)->0,
        ),
    decreases keys.len(),
{
    let k = keys.drop_last();
    let t = local_time(keys[j].0)->0;
    let before = with_extras(starts, overrides, k, secs, range_start, range_end);
    let all = with_extras(starts, overrides, keys, secs, range_start, range_end);
    if j < k.len() {
        assert(k[j] == keys[j]);
        extra_is_added(starts, overrides, k, secs, range_start, range_end, j);
    }
    if before.contains(t) {
        let i = choose|i: int| 0 <= i < before.len() && before[i] == t;
        assert(all[i] == t);
    } else {
        assert(all[all.len() - 1] == t);
    }
}

/// A time that an override names is an occurrence, though no rule gives it, where the override does
/// not take it out and it touches the range: at the start and for the length that the override
/// says, or else at that time and as long as the event.
#[verifier::spinoff_prover]
#[verifier::rlimit(60)]
pub proof fn named_time_occurs(
    event: CalendarEventV,
    range_start: NaiveDateTime,
    range_end: NaiveDateTime,
    j: int,
    t: NaiveDateTime,
    start: NaiveDateTime,
    secs: int,
)
    requires
        range_start.valid(),
        range_end.valid(),
        expansion(event, range_start, range_end) is Some,
        local_time(event.start) is Some,
        0 <= j < overrides_of(event).len(),
        t.on_clock(),
        start.valid(),
        overrides_of(event)[j].0 == iso_text(t),
        map_get(overrides_of(event), iso_text(t)) matches Some(patch) && map_get(
            patch,
            "excluded"@,
        ) != Some(ValueV::Bool(true)),
        ({
            ||| says_nothing(overrides_of(event), iso_text(t), "start"@) && start == t
            ||| exists|text: Seq<char>|
                says(overrides_of(event), iso_text(t), "start"@, text) && #[trigger] local_time(
                    text,
                ) == Some(start)
        }),
        ({
            ||| says_nothing(overrides_of(event), iso_text(t), "duration"@) && secs == length_of(
                event,
            )
            ||| exists|text: Seq<char>|
                says(overrides_of(event), iso_text(t), "duration"@, text)
                    && #[trigger] duration_secs(text) == Some(Some(secs))
        }),
        start.order() < range_end.order(),
        plus_secs(
            start,
            if secs > 0 {
                secs
            } else {
                0
            },
        ) matches Some(end) && range_start.order() < end.order(),
    ensures
        exists|i: int|
            0 <= i < expansion(event, range_start, range_end)->0.len() && (#[trigger] expansion(
                event,
                range_start,
                range_end,
            )->0[i]).start == start && expansion(event, range_start, range_end)->0[i].recurrence_id
                == Some(iso_text(t)),
{
    let overrides = overrides_of(event);
    let length = length_of(event);
    local_time_of_text(t);
    let long = if secs > 0 {
        secs
    } else {
        0
    };
    plus_secs_stays_valid(start, long);
    time_less_is_order(start, range_end);
    time_less_is_order(range_start, plus_secs(start, long)->0);
    assert(overlap(start, secs, range_start, range_end) == Some(true));
    assert(moved_to(overrides, t, length) matches Some(Some(m)) && m.1 == start && m.2 == secs);
    let base = base_starts(
        event,
        local_time(event.start)->0,
        length,
        range_start,
        range_end,
    )->0;
    extra_is_added(base, overrides, overrides, length, range_start, range_end, j);
    let all = with_extras(base, overrides, overrides, length, range_start, range_end);
    sorted_keeps(all, t);
    occurrence_is_listed(event, overrides, sorted_times(all), length, range_start, range_end, t);
}

} // verus!
