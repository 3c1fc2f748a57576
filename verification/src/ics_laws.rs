//! What is written as iCalendar reads back, and what is left out of what is read.

use vstd::prelude::*;
use vstd::string::*;
use crate::calendar::{plus_secs, plus_secs_stays_valid, secs_between, NaiveDate, NaiveDateTime};
use crate::collections::map_insert;
use crate::contentline::{
    continues, document, document_lines, escaped, escaped_is_one_line, is_ascii, line_parts,
    one_line, param_of, split_none, split_piece, unescape_undoes_escape, unescaped,
    unfold_undoes_fold, unfolded, upper, value_colon, ParamsV,
};
use crate::duration::{duration_secs, duration_text};
use crate::ics::{
    epoch, events_of, exclusions, first_location, has_param, head_lines, ics_lines, ics_text,
    nonempty, push_if, raw_event, raw_secs, raw_set, raw_uid, read_line, read_lines, rrule_text,
    rrule_value, span_lines, text_lines, time_value, RawEventV, ReadV,
};
use crate::jscalendar::{local_time, local_time_on_clock, CalendarEventV};
use crate::numbers::{all_digits, dec_reads_back};
use crate::text::{first_index_is, has_char, is_digit, split, strip_both, upper_char};
use crate::timetext::{
    basic_date_text, basic_date_text_reads_back, basic_text, basic_text_reads_back, iso_text, two,
    two_text, year_text, year_text_shape,
};

verus! {

/// Only capital letters.
pub open spec fn is_word(s: Seq<char>) -> bool {
    forall|i: int| 0 <= i < s.len() ==> 'A' <= #[trigger] s[i] <= 'Z'
}

/// `s` without `c`.
pub open spec fn lacks(s: Seq<char>, c: char) -> bool {
    forall|i: int| 0 <= i < s.len() ==> #[trigger] s[i] != c
}

/// A word of capitals stays as it is in capitals.
pub proof fn upper_of_word(s: Seq<char>)
    requires
        is_word(s),
    ensures
        upper(s) == s,
{
    assert(is_ascii(s)) by {
        assert forall|i: int| 0 <= i < s.len() implies (#[trigger] s[i] as int) < 128 by {
            assert('A' <= s[i] <= 'Z');
        }
    }
    assert(s.map_values(|c: char| upper_char(c)) =~= s) by {
        assert forall|i: int| 0 <= i < s.len() implies s.map_values(|c: char| upper_char(c))[i]
            == s[i] by {
            assert('A' <= s[i] <= 'Z');
        }
    }
}

proof fn colon_after(h: Seq<char>, v: Seq<char>)
    requires
        lacks(h, ':'),
        lacks(h, '"'),
    ensures
        value_colon(h + seq![':'] + v, false) == Some(h.len() as int),
    decreases h.len(),
{
    let all = h + seq![':'] + v;
    if h.len() > 0 {
        let t = h.skip(1);
        assert forall|i: int| 0 <= i < t.len() implies #[trigger] t[i] != ':' && t[i] != '"' by {
            assert(t[i] == h[i + 1]);
        }
        assert(h[0] != ':' && h[0] != '"');
        assert(all[0] == h[0]);
        assert(all.skip(1) =~= t + seq![':'] + v);
        colon_after(t, v);
    }
}

/// The parts of a line whose head has neither colons nor quotes.
pub proof fn parts_of_line(h: Seq<char>, v: Seq<char>)
    requires
        lacks(h, ':'),
        lacks(h, '"'),
    ensures
        line_parts(h + seq![':'] + v) == Some(
            (
                upper(split(h, ';')[0]),
                Seq::new(
                    (split(h, ';').len() - 1) as nat,
                    |j: int| param_of(split(h, ';')[j + 1]),
                ),
                v,
            ),
        ),
{
    colon_after(h, v);
    let all = h + seq![':'] + v;
    assert(all.take(h.len() as int) =~= h);
    assert(all.skip(h.len() as int + 1) =~= v);
}

/// The parts of a line without parameters.
pub proof fn parts_of_plain_line(name: Seq<char>, v: Seq<char>)
    requires
        is_word(name),
    ensures
        line_parts(name + seq![':'] + v) == Some((name, ParamsV::empty(), v)),
{
    assert(lacks(name, ':')) by {
        assert forall|i: int| 0 <= i < name.len() implies #[trigger] name[i] != ':' by {
            assert('A' <= name[i] <= 'Z');
        }
    }
    assert(lacks(name, '"')) by {
        assert forall|i: int| 0 <= i < name.len() implies #[trigger] name[i] != '"' by {
            assert('A' <= name[i] <= 'Z');
        }
    }
    assert forall|i: int| 0 <= i < name.len() implies #[trigger] name[i] != ';' by {
        assert('A' <= name[i] <= 'Z');
    }
    parts_of_line(name, v);
    split_none(name, ';');
    upper_of_word(name);
    assert(Seq::new(0, |j: int| param_of(split(name, ';')[j + 1])) =~= ParamsV::empty());
}

proof fn strip_nothing(s: Seq<char>, c: char)
    requires
        lacks(s, c),
    ensures
        strip_both(s, c) == s,
{
    if s.len() > 0 {
        assert(s[0] != c && s[s.len() - 1] != c);
    }
}

/// The parts of a line with one parameter.
pub proof fn parts_of_param_line(name: Seq<char>, key: Seq<char>, val: Seq<char>, v: Seq<char>)
    requires
        is_word(name),
        is_word(key),
        lacks(val, ':'),
        lacks(val, ';'),
        lacks(val, '"'),
    ensures
        line_parts(name + seq![';'] + key + seq!['='] + val + seq![':'] + v) == Some(
            (name, seq![(key, val)], v),
        ),
{
    let p = key + seq!['='] + val;
    let h = name + seq![';'] + p;
    assert(h =~= name + seq![';'] + key + seq!['='] + val);
    assert forall|i: int| 0 <= i < h.len() implies #[trigger] h[i] != ':' && h[i] != '"' by {
        if i < name.len() {
            assert('A' <= name[i] <= 'Z');
        } else if i > name.len() && i < name.len() + 1 + key.len() {
            assert('A' <= key[i - name.len() - 1] <= 'Z');
        } else if i > name.len() + 1 + key.len() {
            assert(h[i] == val[i - name.len() - 2 - key.len()]);
        }
    }
    parts_of_line(h, v);
    assert forall|i: int| 0 <= i < name.len() implies #[trigger] name[i] != ';' by {
        assert('A' <= name[i] <= 'Z');
    }
    split_piece(name, p, ';');
    assert forall|i: int| 0 <= i < p.len() implies #[trigger] p[i] != ';' by {
        if i < key.len() {
            assert('A' <= key[i] <= 'Z');
        } else if i > key.len() {
            assert(p[i] == val[i - key.len() - 1]);
        }
    }
    split_none(p, ';');
    upper_of_word(name);
    upper_of_word(key);
    assert forall|i: int| 0 <= i < key.len() implies p[i] != '=' by {
        assert('A' <= key[i] <= 'Z');
        assert(p[i] == key[i]);
    }
    assert(p[key.len() as int] == '=');
    first_index_is(p, '=', key.len() as int);
    assert(p.take(key.len() as int) =~= key);
    assert(p.skip(key.len() as int + 1) =~= val);
    strip_nothing(val, '"');
    let parts = split(h, ';');
    assert(parts =~= seq![name, p]);
    assert(Seq::new((parts.len() - 1) as nat, |j: int| param_of(parts[j + 1])) =~= seq![
        (key, val),
    ]);
}

// ---------------------------------------------------------------------------
// Times
// ---------------------------------------------------------------------------

/// A basic time text with a four-digit year is digits around a `T`.
pub proof fn basic_text_shape(t: NaiveDateTime)
    requires
        t.valid(),
        0 <= t.date.year <= 9999,
    ensures
        basic_text(t).len() == 15,
        basic_text(t)[8] == 'T',
        is_digit(basic_text(t)[14]),
        forall|i: int| 0 <= i < 15 && i != 8 ==> is_digit(#[trigger] basic_text(t)[i]),
{
    year_text_shape(t.date.year as int);
    two_text(t.date.month as int);
    two_text(t.date.day as int);
    two_text(t.hour());
    two_text(t.minute());
    two_text(t.second());
    let y = year_text(t.date.year as int);
    let mo = two(t.date.month as int);
    let d = two(t.date.day as int);
    let h = two(t.hour());
    let mi = two(t.minute());
    let s = two(t.second());
    let all = basic_text(t);
    assert forall|i: int| 0 <= i < 15 && i != 8 implies is_digit(#[trigger] all[i]) by {
        if i < 4 {
            assert(all[i] == y[i]);
        } else if i < 6 {
            assert(all[i] == mo[i - 4]);
        } else if i < 8 {
            assert(all[i] == d[i - 6]);
        } else if i < 11 {
            assert(all[i] == h[i - 9]);
        } else if i < 13 {
            assert(all[i] == mi[i - 11]);
        } else {
            assert(all[i] == s[i - 13]);
        }
    }
    assert(is_digit(all[14]));
}

/// A written local time reads back.
pub proof fn local_value_reads_back(t: NaiveDateTime, params: ParamsV)
    requires
        t.on_clock(),
        0 <= t.date.year <= 9999,
        !has_param(params, "VALUE"@, "DATE"@),
    ensures
        time_value(basic_text(t), params) == Some((t, false, None::<Seq<char>>)),
{
    basic_text_shape(t);
    assert(has_char(basic_text(t), 'T')) by {
        assert(basic_text(t)[8] == 'T');
    }
    assert(basic_text(t).last() == basic_text(t)[14]);
    basic_text_reads_back(t);
}

/// A written UTC time reads back.
pub proof fn utc_value_reads_back(t: NaiveDateTime)
    requires
        t.on_clock(),
        0 <= t.date.year <= 9999,
    ensures
        time_value(basic_text(t).push('Z'), ParamsV::empty()) == Some((t, false, Some("UTC"@))),
{
    basic_text_shape(t);
    let s = basic_text(t).push('Z');
    assert(has_char(s, 'T')) by {
        assert(s[8] == 'T');
    }
    assert(s.drop_last() =~= basic_text(t));
    basic_text_reads_back(t);
}

/// A written date reads back.
pub proof fn date_value_reads_back(d: NaiveDate)
    requires
        d.valid(),
        0 <= d.year <= 9999,
    ensures
        time_value(basic_date_text(d), seq![("VALUE"@, "DATE"@)]) == Some(
            (d.midnight(), true, None::<Seq<char>>),
        ),
{
    let params = seq![("VALUE"@, "DATE"@)];
    assert(has_param(params, "VALUE"@, "DATE"@)) by {
        assert(params[0] == ("VALUE"@, "DATE"@));
    }
    basic_date_text_reads_back(d);
}

// ---------------------------------------------------------------------------
// What a line does
// ---------------------------------------------------------------------------

proof fn uid_line(st: ReadV, v: Seq<char>, cal: Seq<char>)
    requires
        st.current is Some,
        st.current->0.inner is None,
    ensures
        read_line(st, "UID:"@ + v, cal) == Some(
            ReadV {
                events: st.events,
                current: Some(RawEventV { uid: Some(unescaped(v)), ..st.current->0 }),
            },
        ),
{
    reveal_strlit("UID:");
    reveal_strlit("UID");
    reveal_strlit("BEGIN");
    reveal_strlit("END");
    assert("UID"@.len() != "BEGIN"@.len());
    assert("UID"@[0] != "END"@[0]);
    let name = "UID"@;
    assert("UID:"@ =~= name.push(':'));
    assert("UID:"@ + v =~= name + seq![':'] + v);
    assert forall|i: int| 0 <= i < name.len() implies 'A' <= #[trigger] name[i] <= 'Z' by {}
    parts_of_plain_line(name, v);
    assert(st.current->0 == RawEventV { uid: st.current->0.uid, ..st.current->0 });
}

proof fn summary_line(st: ReadV, v: Seq<char>, cal: Seq<char>)
    requires
        st.current is Some,
        st.current->0.inner is None,
    ensures
        read_line(st, "SUMMARY:"@ + v, cal) == Some(
            ReadV {
                events: st.events,
                current: Some(RawEventV { summary: Some(unescaped(v)), ..st.current->0 }),
            },
        ),
{
    reveal_strlit("SUMMARY:");
    reveal_strlit("SUMMARY");
    reveal_strlit("BEGIN");
    reveal_strlit("END");
    reveal_strlit("UID");
    assert("SUMMARY"@.len() != "BEGIN"@.len());
    assert("SUMMARY"@.len() != "END"@.len());
    assert("SUMMARY"@.len() != "UID"@.len());
    let name = "SUMMARY"@;
    assert("SUMMARY:"@ =~= name.push(':'));
    assert("SUMMARY:"@ + v =~= name + seq![':'] + v);
    assert forall|i: int| 0 <= i < name.len() implies 'A' <= #[trigger] name[i] <= 'Z' by {}
    parts_of_plain_line(name, v);
    assert(st.current->0 == RawEventV { uid: st.current->0.uid, ..st.current->0 });
}

proof fn dtstart_line(st: ReadV, v: Seq<char>, cal: Seq<char>)
    requires
        st.current is Some,
        st.current->0.inner is None,
    ensures
        read_line(st, "DTSTART:"@ + v, cal) == Some(
            ReadV {
                events: st.events,
                current: Some(RawEventV { dtstart: Some((v, ParamsV::empty())), ..st.current->0 }),
            },
        ),
{
    reveal_strlit("DTSTART:");
    reveal_strlit("DTSTART");
    reveal_strlit("BEGIN");
    reveal_strlit("END");
    reveal_strlit("UID");
    reveal_strlit("SUMMARY");
    assert("DTSTART"@.len() != "BEGIN"@.len());
    assert("DTSTART"@.len() != "END"@.len());
    assert("DTSTART"@.len() != "UID"@.len());
    assert("DTSTART"@[0] != "SUMMARY"@[0]);
    let name = "DTSTART"@;
    assert("DTSTART:"@ =~= name.push(':'));
    assert("DTSTART:"@ + v =~= name + seq![':'] + v);
    assert forall|i: int| 0 <= i < name.len() implies 'A' <= #[trigger] name[i] <= 'Z' by {}
    parts_of_plain_line(name, v);
    assert(st.current->0 == RawEventV { uid: st.current->0.uid, ..st.current->0 });
}

proof fn dtend_line(st: ReadV, v: Seq<char>, cal: Seq<char>)
    requires
        st.current is Some,
        st.current->0.inner is None,
    ensures
        read_line(st, "DTEND:"@ + v, cal) == Some(
            ReadV {
                events: st.events,
                current: Some(RawEventV { dtend: Some((v, ParamsV::empty())), ..st.current->0 }),
            },
        ),
{
    reveal_strlit("DTEND:");
    reveal_strlit("DTEND");
    reveal_strlit("BEGIN");
    reveal_strlit("END");
    reveal_strlit("UID");
    reveal_strlit("SUMMARY");
    reveal_strlit("DTSTART");
    assert("DTEND"@[0] != "BEGIN"@[0]);
    assert("DTEND"@.len() != "END"@.len());
    assert("DTEND"@.len() != "UID"@.len());
    assert("DTEND"@.len() != "SUMMARY"@.len());
    assert("DTEND"@.len() != "DTSTART"@.len());
    let name = "DTEND"@;
    assert("DTEND:"@ =~= name.push(':'));
    assert("DTEND:"@ + v =~= name + seq![':'] + v);
    assert forall|i: int| 0 <= i < name.len() implies 'A' <= #[trigger] name[i] <= 'Z' by {}
    parts_of_plain_line(name, v);
    assert(st.current->0 == RawEventV { uid: st.current->0.uid, ..st.current->0 });
}

proof fn rrule_line(st: ReadV, v: Seq<char>, cal: Seq<char>)
    requires
        st.current is Some,
        st.current->0.inner is None,
    ensures
        read_line(st, "RRULE:"@ + v, cal) == Some(
            ReadV {
                events: st.events,
                current: Some(RawEventV { rrule: Some(v), ..st.current->0 }),
            },
        ),
{
    reveal_strlit("RRULE:");
    reveal_strlit("RRULE");
    reveal_strlit("BEGIN");
    reveal_strlit("END");
    reveal_strlit("UID");
    reveal_strlit("SUMMARY");
    reveal_strlit("DTSTART");
    reveal_strlit("DTEND");
    reveal_strlit("DURATION");
    assert("RRULE"@[0] != "BEGIN"@[0]);
    assert("RRULE"@.len() != "END"@.len());
    assert("RRULE"@.len() != "UID"@.len());
    assert("RRULE"@.len() != "SUMMARY"@.len());
    assert("RRULE"@.len() != "DTSTART"@.len());
    assert("RRULE"@[0] != "DTEND"@[0]);
    assert("RRULE"@.len() != "DURATION"@.len());
    let name = "RRULE"@;
    assert("RRULE:"@ =~= name.push(':'));
    assert("RRULE:"@ + v =~= name + seq![':'] + v);
    assert forall|i: int| 0 <= i < name.len() implies 'A' <= #[trigger] name[i] <= 'Z' by {}
    parts_of_plain_line(name, v);
    assert(st.current->0 == RawEventV { uid: st.current->0.uid, ..st.current->0 });
}

proof fn dtstamp_line(st: ReadV, v: Seq<char>, cal: Seq<char>)
    requires
        st.current is Some,
        st.current->0.inner is None,
    ensures
        read_line(st, "DTSTAMP:"@ + v, cal) == Some(
            ReadV { events: st.events, current: Some(st.current->0) },
        ),
{
    reveal_strlit("DTSTAMP:");
    reveal_strlit("DTSTAMP");
    reveal_strlit("BEGIN");
    reveal_strlit("END");
    reveal_strlit("UID");
    reveal_strlit("SUMMARY");
    reveal_strlit("DTSTART");
    reveal_strlit("DTEND");
    reveal_strlit("DURATION");
    reveal_strlit("RRULE");
    reveal_strlit("EXDATE");
    assert("DTSTAMP"@.len() != "BEGIN"@.len());
    assert("DTSTAMP"@.len() != "END"@.len());
    assert("DTSTAMP"@.len() != "UID"@.len());
    assert("DTSTAMP"@[0] != "SUMMARY"@[0]);
    assert("DTSTAMP"@[5] != "DTSTART"@[5]);
    assert("DTSTAMP"@.len() != "DTEND"@.len());
    assert("DTSTAMP"@.len() != "DURATION"@.len());
    assert("DTSTAMP"@.len() != "RRULE"@.len());
    assert("DTSTAMP"@.len() != "EXDATE"@.len());
    reveal_strlit("RECURRENCE-ID");
    assert("DTSTAMP"@.len() != "RECURRENCE-ID"@.len());
    let name = "DTSTAMP"@;
    assert("DTSTAMP:"@ =~= name.push(':'));
    assert("DTSTAMP:"@ + v =~= name + seq![':'] + v);
    assert forall|i: int| 0 <= i < name.len() implies 'A' <= #[trigger] name[i] <= 'Z' by {}
    parts_of_plain_line(name, v);
    assert(st.current->0 == RawEventV { uid: st.current->0.uid, ..st.current->0 });
}

proof fn description_line(st: ReadV, v: Seq<char>, cal: Seq<char>)
    requires
        st.current is Some,
        st.current->0.inner is None,
    ensures
        read_line(st, "DESCRIPTION:"@ + v, cal) == Some(
            ReadV { events: st.events, current: Some(st.current->0) },
        ),
{
    reveal_strlit("DESCRIPTION:");
    reveal_strlit("DESCRIPTION");
    reveal_strlit("BEGIN");
    reveal_strlit("END");
    reveal_strlit("UID");
    reveal_strlit("SUMMARY");
    reveal_strlit("DTSTART");
    reveal_strlit("DTEND");
    reveal_strlit("DURATION");
    reveal_strlit("RRULE");
    reveal_strlit("EXDATE");
    assert("DESCRIPTION"@.len() != "BEGIN"@.len());
    assert("DESCRIPTION"@.len() != "END"@.len());
    assert("DESCRIPTION"@.len() != "UID"@.len());
    assert("DESCRIPTION"@.len() != "SUMMARY"@.len());
    assert("DESCRIPTION"@.len() != "DTSTART"@.len());
    assert("DESCRIPTION"@.len() != "DTEND"@.len());
    assert("DESCRIPTION"@.len() != "DURATION"@.len());
    assert("DESCRIPTION"@.len() != "RRULE"@.len());
    assert("DESCRIPTION"@.len() != "EXDATE"@.len());
    reveal_strlit("RECURRENCE-ID");
    assert("DESCRIPTION"@.len() != "RECURRENCE-ID"@.len());
    let name = "DESCRIPTION"@;
    assert("DESCRIPTION:"@ =~= name.push(':'));
    assert("DESCRIPTION:"@ + v =~= name + seq![':'] + v);
    assert forall|i: int| 0 <= i < name.len() implies 'A' <= #[trigger] name[i] <= 'Z' by {}
    parts_of_plain_line(name, v);
    assert(st.current->0 == RawEventV { uid: st.current->0.uid, ..st.current->0 });
}

proof fn location_line(st: ReadV, v: Seq<char>, cal: Seq<char>)
    requires
        st.current is Some,
        st.current->0.inner is None,
    ensures
        read_line(st, "LOCATION:"@ + v, cal) == Some(
            ReadV { events: st.events, current: Some(st.current->0) },
        ),
{
    reveal_strlit("LOCATION:");
    reveal_strlit("LOCATION");
    reveal_strlit("BEGIN");
    reveal_strlit("END");
    reveal_strlit("UID");
    reveal_strlit("SUMMARY");
    reveal_strlit("DTSTART");
    reveal_strlit("DTEND");
    reveal_strlit("DURATION");
    reveal_strlit("RRULE");
    reveal_strlit("EXDATE");
    assert("LOCATION"@.len() != "BEGIN"@.len());
    assert("LOCATION"@.len() != "END"@.len());
    assert("LOCATION"@.len() != "UID"@.len());
    assert("LOCATION"@.len() != "SUMMARY"@.len());
    assert("LOCATION"@.len() != "DTSTART"@.len());
    assert("LOCATION"@.len() != "DTEND"@.len());
    assert("LOCATION"@[0] != "DURATION"@[0]);
    assert("LOCATION"@.len() != "RRULE"@.len());
    assert("LOCATION"@.len() != "EXDATE"@.len());
    reveal_strlit("RECURRENCE-ID");
    assert("LOCATION"@.len() != "RECURRENCE-ID"@.len());
    let name = "LOCATION"@;
    assert("LOCATION:"@ =~= name.push(':'));
    assert("LOCATION:"@ + v =~= name + seq![':'] + v);
    assert forall|i: int| 0 <= i < name.len() implies 'A' <= #[trigger] name[i] <= 'Z' by {}
    parts_of_plain_line(name, v);
    assert(st.current->0 == RawEventV { uid: st.current->0.uid, ..st.current->0 });
}

proof fn dtstart_date_line(st: ReadV, v: Seq<char>, cal: Seq<char>)
    requires
        st.current is Some,
        st.current->0.inner is None,
    ensures
        read_line(st, "DTSTART;VALUE=DATE:"@ + v, cal) == Some(
            ReadV {
                events: st.events,
                current: Some(
                    RawEventV {
                        dtstart: Some((v, seq![("VALUE"@, "DATE"@)])),
                        ..st.current->0
                    },
                ),
            },
        ),
{
    reveal_strlit("DTSTART;VALUE=DATE:");
    reveal_strlit("VALUE");
    reveal_strlit("DATE");
    reveal_strlit("DTSTART");
    reveal_strlit("BEGIN");
    reveal_strlit("END");
    reveal_strlit("UID");
    reveal_strlit("SUMMARY");
    assert("DTSTART"@.len() != "BEGIN"@.len());
    assert("DTSTART"@.len() != "END"@.len());
    assert("DTSTART"@.len() != "UID"@.len());
    assert("DTSTART"@[0] != "SUMMARY"@[0]);
    let name = "DTSTART"@;
    let key = "VALUE"@;
    let val = "DATE"@;
    assert("DTSTART;VALUE=DATE:"@ =~= name + seq![';'] + key + seq!['='] + val + seq![':']);
    assert("DTSTART;VALUE=DATE:"@ + v =~= name + seq![';'] + key + seq!['='] + val + seq![':'] + v);
    assert forall|i: int| 0 <= i < name.len() implies 'A' <= #[trigger] name[i] <= 'Z' by {}
    assert forall|i: int| 0 <= i < key.len() implies 'A' <= #[trigger] key[i] <= 'Z' by {}
    parts_of_param_line(name, key, val, v);
}

proof fn dtend_date_line(st: ReadV, v: Seq<char>, cal: Seq<char>)
    requires
        st.current is Some,
        st.current->0.inner is None,
    ensures
        read_line(st, "DTEND;VALUE=DATE:"@ + v, cal) == Some(
            ReadV {
                events: st.events,
                current: Some(
                    RawEventV {
                        dtend: Some((v, seq![("VALUE"@, "DATE"@)])),
                        ..st.current->0
                    },
                ),
            },
        ),
{
    reveal_strlit("DTEND;VALUE=DATE:");
    reveal_strlit("VALUE");
    reveal_strlit("DATE");
    reveal_strlit("DTEND");
    reveal_strlit("BEGIN");
    reveal_strlit("END");
    reveal_strlit("UID");
    reveal_strlit("SUMMARY");
    reveal_strlit("DTSTART");
    assert("DTEND"@[0] != "BEGIN"@[0]);
    assert("DTEND"@.len() != "END"@.len());
    assert("DTEND"@.len() != "UID"@.len());
    assert("DTEND"@.len() != "SUMMARY"@.len());
    assert("DTEND"@.len() != "DTSTART"@.len());
    let name = "DTEND"@;
    let key = "VALUE"@;
    let val = "DATE"@;
    assert("DTEND;VALUE=DATE:"@ =~= name + seq![';'] + key + seq!['='] + val + seq![':']);
    assert("DTEND;VALUE=DATE:"@ + v =~= name + seq![';'] + key + seq!['='] + val + seq![':'] + v);
    assert forall|i: int| 0 <= i < name.len() implies 'A' <= #[trigger] name[i] <= 'Z' by {}
    assert forall|i: int| 0 <= i < key.len() implies 'A' <= #[trigger] key[i] <= 'Z' by {}
    parts_of_param_line(name, key, val, v);
}

proof fn dtstart_zone_line(st: ReadV, zone: Seq<char>, v: Seq<char>, cal: Seq<char>)
    requires
        st.current is Some,
        st.current->0.inner is None,
        lacks(zone, ':'),
        lacks(zone, ';'),
        lacks(zone, '"'),
    ensures
        read_line(st, "DTSTART;TZID="@ + zone + ":"@ + v, cal) == Some(
            ReadV {
                events: st.events,
                current: Some(
                    RawEventV { dtstart: Some((v, seq![("TZID"@, zone)])), ..st.current->0 },
                ),
            },
        ),
{
    reveal_strlit("DTSTART;TZID=");
    reveal_strlit("TZID");
    reveal_strlit(":");
    reveal_strlit("DTSTART");
    reveal_strlit("BEGIN");
    reveal_strlit("END");
    reveal_strlit("UID");
    reveal_strlit("SUMMARY");
    assert("DTSTART"@.len() != "BEGIN"@.len());
    assert("DTSTART"@.len() != "END"@.len());
    assert("DTSTART"@.len() != "UID"@.len());
    assert("DTSTART"@[0] != "SUMMARY"@[0]);
    let name = "DTSTART"@;
    let key = "TZID"@;
    let val = zone;
    assert("DTSTART;TZID="@ + zone + ":"@ + v =~= name + seq![';'] + key + seq!['='] + val
        + seq![':'] + v);
    assert forall|i: int| 0 <= i < name.len() implies 'A' <= #[trigger] name[i] <= 'Z' by {}
    assert forall|i: int| 0 <= i < key.len() implies 'A' <= #[trigger] key[i] <= 'Z' by {}
    parts_of_param_line(name, key, val, v);
}

proof fn dtend_zone_line(st: ReadV, zone: Seq<char>, v: Seq<char>, cal: Seq<char>)
    requires
        st.current is Some,
        st.current->0.inner is None,
        lacks(zone, ':'),
        lacks(zone, ';'),
        lacks(zone, '"'),
    ensures
        read_line(st, "DTEND;TZID="@ + zone + ":"@ + v, cal) == Some(
            ReadV {
                events: st.events,
                current: Some(
                    RawEventV { dtend: Some((v, seq![("TZID"@, zone)])), ..st.current->0 },
                ),
            },
        ),
{
    reveal_strlit("DTEND;TZID=");
    reveal_strlit("TZID");
    reveal_strlit(":");
    reveal_strlit("DTEND");
    reveal_strlit("BEGIN");
    reveal_strlit("END");
    reveal_strlit("UID");
    reveal_strlit("SUMMARY");
    reveal_strlit("DTSTART");
    assert("DTEND"@[0] != "BEGIN"@[0]);
    assert("DTEND"@.len() != "END"@.len());
    assert("DTEND"@.len() != "UID"@.len());
    assert("DTEND"@.len() != "SUMMARY"@.len());
    assert("DTEND"@.len() != "DTSTART"@.len());
    let name = "DTEND"@;
    let key = "TZID"@;
    let val = zone;
    assert("DTEND;TZID="@ + zone + ":"@ + v =~= name + seq![';'] + key + seq!['='] + val
        + seq![':'] + v);
    assert forall|i: int| 0 <= i < name.len() implies 'A' <= #[trigger] name[i] <= 'Z' by {}
    assert forall|i: int| 0 <= i < key.len() implies 'A' <= #[trigger] key[i] <= 'Z' by {}
    parts_of_param_line(name, key, val, v);
}

/// A line outside an event that does not open one changes nothing.
proof fn outer_line(st: ReadV, name: Seq<char>, v: Seq<char>, cal: Seq<char>)
    requires
        st.current is None,
        is_word(name),
        !(name == "BEGIN"@ && v == "VEVENT"@),
    ensures
        read_line(st, name + seq![':'] + v, cal) == Some(st),
{
    parts_of_plain_line(name, v);
    assert(st == ReadV { events: st.events, current: st.current });
}

proof fn read_one_more(lines: Seq<Seq<char>>, l: Seq<char>, cal: Seq<char>)
    requires
        read_lines(lines, cal) is Some,
    ensures
        read_lines(lines.push(l), cal) == read_line(read_lines(lines, cal)->0, l, cal),
{
    assert(lines.push(l).drop_last() =~= lines);
}

/// The lines before an event's properties open an event.
proof fn opening_lines(cal: Seq<char>)
    ensures
        read_lines(
            seq![
                "BEGIN:VCALENDAR"@,
                "VERSION:2.0"@,
                "PRODID:-//JSCalendar//EN"@,
                "BEGIN:VEVENT"@,
            ],
            cal,
        ) == Some(ReadV { events: Seq::empty(), current: Some(RawEventV::blank()) }),
{
    let none = Seq::<Seq<char>>::empty();
    let st = ReadV { events: Seq::empty(), current: None };
    assert(read_lines(none, cal) == Some(st));
    reveal_strlit("BEGIN");
    reveal_strlit("END");
    reveal_strlit("VEVENT");
    reveal_strlit("VCALENDAR");
    reveal_strlit("VERSION");
    reveal_strlit("PRODID");
    reveal_strlit("2.0");
    reveal_strlit("-//JSCalendar//EN");
    reveal_strlit("BEGIN:VCALENDAR");
    reveal_strlit("VERSION:2.0");
    reveal_strlit("PRODID:-//JSCalendar//EN");
    reveal_strlit("BEGIN:VEVENT");
    let begin = "BEGIN"@;
    assert forall|i: int| 0 <= i < begin.len() implies 'A' <= #[trigger] begin[i] <= 'Z' by {}
    let version = "VERSION"@;
    assert forall|i: int| 0 <= i < version.len() implies 'A' <= #[trigger] version[i] <= 'Z' by {}
    let prodid = "PRODID"@;
    assert forall|i: int| 0 <= i < prodid.len() implies 'A' <= #[trigger] prodid[i] <= 'Z' by {}
    assert("VCALENDAR"@.len() != "VEVENT"@.len());
    assert(version.len() != begin.len());
    assert(prodid.len() != begin.len());
    assert("BEGIN:VCALENDAR"@ =~= begin + seq![':'] + "VCALENDAR"@);
    outer_line(st, begin, "VCALENDAR"@, cal);
    read_one_more(none, "BEGIN:VCALENDAR"@, cal);
    let l1 = none.push("BEGIN:VCALENDAR"@);
    assert("VERSION:2.0"@ =~= version + seq![':'] + "2.0"@);
    outer_line(st, version, "2.0"@, cal);
    read_one_more(l1, "VERSION:2.0"@, cal);
    let l2 = l1.push("VERSION:2.0"@);
    assert("PRODID:-//JSCalendar//EN"@ =~= prodid + seq![':'] + "-//JSCalendar//EN"@);
    outer_line(st, prodid, "-//JSCalendar//EN"@, cal);
    read_one_more(l2, "PRODID:-//JSCalendar//EN"@, cal);
    let l3 = l2.push("PRODID:-//JSCalendar//EN"@);
    assert("BEGIN:VEVENT"@ =~= begin + seq![':'] + "VEVENT"@);
    parts_of_plain_line(begin, "VEVENT"@);
    read_one_more(l3, "BEGIN:VEVENT"@, cal);
    assert(l3.push("BEGIN:VEVENT"@) =~= seq![
        "BEGIN:VCALENDAR"@,
        "VERSION:2.0"@,
        "PRODID:-//JSCalendar//EN"@,
        "BEGIN:VEVENT"@,
    ]);
}

/// A line `END:` with a value.
proof fn end_line_parts(v: Seq<char>)
    ensures
        line_parts("END"@ + seq![':'] + v) == Some(("END"@, ParamsV::empty(), v)),
        "END"@ != "BEGIN"@,
{
    reveal_strlit("BEGIN");
    reveal_strlit("END");
    let end = "END"@;
    assert forall|i: int| 0 <= i < end.len() implies 'A' <= #[trigger] end[i] <= 'Z' by {}
    assert(end.len() != "BEGIN"@.len());
    parts_of_plain_line(end, v);
}

proof fn end_literals()
    ensures
        "END:VEVENT"@ == "END"@ + seq![':'] + "VEVENT"@,
        "END:VCALENDAR"@ == "END"@ + seq![':'] + "VCALENDAR"@,
        "VCALENDAR"@ != "VEVENT"@,
{
    reveal_strlit("END");
    reveal_strlit("VEVENT");
    reveal_strlit("VCALENDAR");
    reveal_strlit("END:VEVENT");
    reveal_strlit("END:VCALENDAR");
    assert("END:VEVENT"@ =~= "END"@ + seq![':'] + "VEVENT"@);
    assert("END:VCALENDAR"@ =~= "END"@ + seq![':'] + "VCALENDAR"@);
    assert("VCALENDAR"@.len() != "VEVENT"@.len());
}

proof fn end_event_line(st: ReadV, cal: Seq<char>, e: CalendarEventV)
    requires
        st.current is Some,
        raw_event(st.current->0, cal) == Some(Some(e)),
    ensures
        read_line(st, "END:VEVENT"@, cal) == Some(
            ReadV { events: st.events.push(e), current: None },
        ),
{
    end_literals();
    end_line_parts("VEVENT"@);
}

proof fn end_calendar_line(st: ReadV, cal: Seq<char>)
    requires
        st.current is None,
    ensures
        read_line(st, "END:VCALENDAR"@, cal) == Some(st),
{
    end_literals();
    end_line_parts("VCALENDAR"@);
}

/// The lines behind an event's properties close it.
proof fn closing_lines(lines: Seq<Seq<char>>, cal: Seq<char>, e: CalendarEventV)
    requires
        read_lines(lines, cal) is Some,
        read_lines(lines, cal)->0.current is Some,
        raw_event(read_lines(lines, cal)->0.current->0, cal) == Some(Some(e)),
    ensures
        read_lines(lines + seq!["END:VEVENT"@, "END:VCALENDAR"@], cal) == Some(
            ReadV { events: read_lines(lines, cal)->0.events.push(e), current: None },
        ),
{
    let st = read_lines(lines, cal)->0;
    let st1 = ReadV { events: st.events.push(e), current: None };
    end_event_line(st, cal, e);
    read_one_more(lines, "END:VEVENT"@, cal);
    let l1 = lines.push("END:VEVENT"@);
    end_calendar_line(st1, cal);
    read_one_more(l1, "END:VCALENDAR"@, cal);
    assert(l1.push("END:VCALENDAR"@) =~= lines + seq!["END:VEVENT"@, "END:VCALENDAR"@]);
}

// ---------------------------------------------------------------------------
// Lines that stay lines
// ---------------------------------------------------------------------------

/// A line that folding and unfolding keeps.
pub open spec fn line_ok(l: Seq<char>) -> bool {
    l.len() > 0 && one_line(l) && !continues(l)
}

pub open spec fn lines_ok(ls: Seq<Seq<char>>) -> bool {
    forall|i: int| 0 <= i < ls.len() ==> line_ok(#[trigger] ls[i])
}

pub proof fn line_ok_concat(p: Seq<char>, v: Seq<char>)
    requires
        line_ok(p),
        one_line(v),
    ensures
        line_ok(p + v),
{
    let all = p + v;
    assert forall|i: int| 0 <= i < all.len() implies #[trigger] all[i] != '\n' && all[i] != '\r' by {
        if i < p.len() {
            assert(all[i] == p[i]);
        } else {
            assert(all[i] == v[i - p.len()]);
        }
    }
    assert(all[0] == p[0]);
}

proof fn literals_ok()
    ensures
        line_ok("BEGIN:VCALENDAR"@),
        line_ok("VERSION:2.0"@),
        line_ok("PRODID:-//JSCalendar//EN"@),
        line_ok("BEGIN:VEVENT"@),
        line_ok("END:VEVENT"@),
        line_ok("END:VCALENDAR"@),
        line_ok("UID:"@),
        line_ok("DTSTAMP:"@),
        line_ok("SUMMARY:"@),
        line_ok("DESCRIPTION:"@),
        line_ok("LOCATION:"@),
        line_ok("RRULE:"@),
        line_ok("DTSTART:"@),
        line_ok("DTEND:"@),
        line_ok("DTSTART;VALUE=DATE:"@),
        line_ok("DTEND;VALUE=DATE:"@),
        line_ok("DTSTART;TZID="@),
        line_ok("DTEND;TZID="@),
        one_line(":"@),
{
    reveal_strlit(":");
    reveal_strlit("BEGIN:VCALENDAR");
    reveal_strlit("VERSION:2.0");
    reveal_strlit("PRODID:-//JSCalendar//EN");
    reveal_strlit("BEGIN:VEVENT");
    reveal_strlit("END:VEVENT");
    reveal_strlit("END:VCALENDAR");
    reveal_strlit("UID:");
    reveal_strlit("DTSTAMP:");
    reveal_strlit("SUMMARY:");
    reveal_strlit("DESCRIPTION:");
    reveal_strlit("LOCATION:");
    reveal_strlit("RRULE:");
    reveal_strlit("DTSTART:");
    reveal_strlit("DTEND:");
    reveal_strlit("DTSTART;VALUE=DATE:");
    reveal_strlit("DTEND;VALUE=DATE:");
    reveal_strlit("DTSTART;TZID=");
    reveal_strlit("DTEND;TZID=");
}

pub proof fn digits_are_one_line(s: Seq<char>)
    requires
        all_digits(s),
    ensures
        one_line(s),
{
    assert forall|i: int| 0 <= i < s.len() implies #[trigger] s[i] != '\n' && s[i] != '\r' by {
        assert(is_digit(s[i]));
    }
}

proof fn year_is_one_line(y: int)
    ensures
        one_line(year_text(y)),
{
    let m = if y < 0 {
        (-y) as nat
    } else {
        y as nat
    };
    dec_reads_back(m);
    crate::numbers::value_of_zero_fill(crate::numbers::dec(m), 4);
    let z = crate::numbers::zero_fill(crate::numbers::dec(m), 4);
    digits_are_one_line(z);
    if y < 0 || y > 9999 {
        let t = year_text(y);
        assert forall|i: int| 0 <= i < t.len() implies #[trigger] t[i] != '\n' && t[i] != '\r' by {
            if i > 0 {
                assert(t[i] == z[i - 1]);
            }
        }
    }
}

proof fn times_are_one_line(t: NaiveDateTime)
    requires
        t.valid(),
    ensures
        one_line(basic_text(t)),
        one_line(basic_text(t).push('Z')),
        one_line(basic_date_text(t.date)),
{
    year_is_one_line(t.date.year as int);
    two_text(t.date.month as int);
    two_text(t.date.day as int);
    two_text(t.hour());
    two_text(t.minute());
    two_text(t.second());
    let y = year_text(t.date.year as int);
    let mo = two(t.date.month as int);
    let d = two(t.date.day as int);
    let h = two(t.hour());
    let mi = two(t.minute());
    let s = two(t.second());
    digits_are_one_line(mo);
    digits_are_one_line(d);
    digits_are_one_line(h);
    digits_are_one_line(mi);
    digits_are_one_line(s);
    one_line_concat(y, mo);
    one_line_concat(y + mo, d);
    let date = y + mo + d;
    one_line_concat(date, seq!['T']);
    assert(date.push('T') =~= date + seq!['T']);
    one_line_concat(date.push('T'), h);
    one_line_concat(date.push('T') + h, mi);
    one_line_concat(date.push('T') + h + mi, s);
    one_line_concat(basic_text(t), seq!['Z']);
    assert(basic_text(t).push('Z') =~= basic_text(t) + seq!['Z']);
}

pub proof fn one_line_concat(a: Seq<char>, b: Seq<char>)
    requires
        one_line(a),
        one_line(b),
    ensures
        one_line(a + b),
{
    let all = a + b;
    assert forall|i: int| 0 <= i < all.len() implies #[trigger] all[i] != '\n' && all[i] != '\r' by {
        if i < a.len() {
            assert(all[i] == a[i]);
        } else {
            assert(all[i] == b[i - a.len()]);
        }
    }
}

pub proof fn escaped_one_line(s: Seq<char>)
    ensures
        one_line(escaped(s)),
{
    escaped_is_one_line(s);
}

/// A zone that can stand as the value of a parameter.
pub open spec fn zone_ok(zone: Seq<char>) -> bool {
    one_line(zone) && lacks(zone, ':') && lacks(zone, ';') && lacks(zone, '"')
}

/// What the law asks of an event: a zone that can be written, and a rule without line breaks.
pub open spec fn writable(event: CalendarEventV) -> bool {
    &&& event.time_zone is Some ==> zone_ok(event.time_zone->0)
    &&& event.recurrence_rules is Some && event.recurrence_rules->0.len() > 0 ==> one_line(
        rrule_text(event.recurrence_rules->0[0]),
    )
}

proof fn span_lines_ok(event: CalendarEventV, start: NaiveDateTime, end: NaiveDateTime, secs: int)
    requires
        start.valid(),
        end.valid(),
        writable(event),
    ensures
        lines_ok(span_lines(event, start, end, secs)),
{
    literals_ok();
    times_are_one_line(start);
    times_are_one_line(end);
    line_ok_concat("DTSTART;VALUE=DATE:"@, basic_date_text(start.date));
    line_ok_concat("DTEND;VALUE=DATE:"@, basic_date_text(end.date));
    line_ok_concat("DTSTART:"@, basic_text(start).push('Z'));
    line_ok_concat("DTEND:"@, basic_text(end).push('Z'));
    line_ok_concat("DTSTART:"@, basic_text(start));
    line_ok_concat("DTEND:"@, basic_text(end));
    if event.time_zone is Some {
        let zone = event.time_zone->0;
        line_ok_concat("DTSTART;TZID="@, zone);
        line_ok_concat("DTSTART;TZID="@ + zone, ":"@);
        line_ok_concat("DTSTART;TZID="@ + zone + ":"@, basic_text(start));
        line_ok_concat("DTEND;TZID="@, zone);
        line_ok_concat("DTEND;TZID="@ + zone, ":"@);
        line_ok_concat("DTEND;TZID="@ + zone + ":"@, basic_text(end));
    }
}

proof fn text_lines_ok(event: CalendarEventV)
    requires
        writable(event),
    ensures
        lines_ok(text_lines(event)),
{
    literals_ok();
    if nonempty(event.title) {
        escaped_one_line(event.title->0);
        line_ok_concat("SUMMARY:"@, escaped(event.title->0));
    }
    if nonempty(event.description) {
        escaped_one_line(event.description->0);
        line_ok_concat("DESCRIPTION:"@, escaped(event.description->0));
    }
    if nonempty(first_location(event)) {
        escaped_one_line(first_location(event)->0);
        line_ok_concat("LOCATION:"@, escaped(first_location(event)->0));
    }
    if event.recurrence_rules is Some && event.recurrence_rules->0.len() > 0 {
        line_ok_concat("RRULE:"@, rrule_text(event.recurrence_rules->0[0]));
    }
}

proof fn head_lines_ok(event: CalendarEventV, now: NaiveDateTime)
    requires
        now.valid(),
    ensures
        lines_ok(head_lines(event, now)),
{
    literals_ok();
    escaped_one_line(event.uid);
    line_ok_concat("UID:"@, escaped(event.uid));
    times_are_one_line(now);
    line_ok_concat("DTSTAMP:"@, basic_text(now).push('Z'));
}

/// Unfolding the document for an event gives its lines.
pub proof fn ics_text_unfolds(event: CalendarEventV, now: NaiveDateTime)
    requires
        now.valid(),
        writable(event),
        ics_lines(event, now) is Some,
    ensures
        unfolded(ics_text(event, now)->0) == ics_lines(event, now)->0,
{
    let lines = ics_lines(event, now)->0;
    let start = match local_time(event.start) {
        Some(t) => t,
        None => epoch(),
    };
    local_time_on_clock(event.start);
    let secs = event_secs(event);
    let end = plus_secs(start, secs)->0;
    plus_secs_stays_valid(start, secs);
    literals_ok();
    head_lines_ok(event, now);
    span_lines_ok(event, start, end, secs);
    text_lines_ok(event);
    assert(lines_ok(lines));
    assert(document_lines(lines)) by {
        assert forall|i: int| 0 <= i < lines.len() implies (#[trigger] lines[i]).len() > 0
            && one_line(lines[i]) by {
            assert(line_ok(lines[i]));
        }
        assert forall|i: int| 1 <= i < lines.len() implies !continues(#[trigger] lines[i]) by {
            assert(line_ok(lines[i]));
        }
    }
    unfold_undoes_fold(lines);
}

/// The length of an event in seconds; zero where its duration cannot be read.
pub open spec fn event_secs(event: CalendarEventV) -> int {
    match duration_secs(event.duration) {
        Some(Some(n)) => n,
        _ => 0,
    }
}

// ---------------------------------------------------------------------------
// Reading what was written
// ---------------------------------------------------------------------------

/// The value and parameters that a start or end is written with.
pub open spec fn span_value(event: CalendarEventV, t: NaiveDateTime) -> (Seq<char>, ParamsV) {
    if event.show_without_time {
        (basic_date_text(t.date), seq![("VALUE"@, "DATE"@)])
    } else if event.time_zone == Some("UTC"@) || event.time_zone == Some("Etc/UTC"@) {
        (basic_text(t).push('Z'), ParamsV::empty())
    } else {
        match event.time_zone {
            Some(zone) => (basic_text(t), seq![("TZID"@, zone)]),
            None => (basic_text(t), ParamsV::empty()),
        }
    }
}

/// What is left of a start or end when it is read back: of a whole-day event only the date,
/// of a zone only whether it is UTC.
pub open spec fn span_read(event: CalendarEventV, t: NaiveDateTime) -> (
    NaiveDateTime,
    bool,
    Option<Seq<char>>,
) {
    if event.show_without_time {
        (t.date.midnight(), true, None)
    } else if event.time_zone == Some("UTC"@) || event.time_zone == Some("Etc/UTC"@) {
        (t, false, Some("UTC"@))
    } else {
        (t, false, None)
    }
}

proof fn span_value_reads_back(event: CalendarEventV, t: NaiveDateTime)
    requires
        t.on_clock(),
        0 <= t.date.year <= 9999,
    ensures
        time_value(span_value(event, t).0, span_value(event, t).1) == Some(span_read(event, t)),
{
    if event.show_without_time {
        date_value_reads_back(t.date);
    } else if event.time_zone == Some("UTC"@) || event.time_zone == Some("Etc/UTC"@) {
        utc_value_reads_back(t);
    } else {
        let params = span_value(event, t).1;
        assert(!has_param(params, "VALUE"@, "DATE"@)) by {
            reveal_strlit("TZID");
            reveal_strlit("VALUE");
            assert("TZID"@.len() != "VALUE"@.len());
        }
        local_value_reads_back(t, params);
    }
}

proof fn span_lines_read(
    lines: Seq<Seq<char>>,
    cal: Seq<char>,
    event: CalendarEventV,
    start: NaiveDateTime,
    end: NaiveDateTime,
    secs: int,
)
    requires
        read_lines(lines, cal) is Some,
        read_lines(lines, cal)->0.current is Some,
        read_lines(lines, cal)->0.current->0.inner is None,
        writable(event),
    ensures
        ({
            let st = read_lines(lines, cal)->0;
            read_lines(lines + span_lines(event, start, end, secs), cal) == Some(
                ReadV {
                    events: st.events,
                    current: Some(
                        RawEventV {
                            dtstart: Some(span_value(event, start)),
                            dtend: if secs != 0 {
                                Some(span_value(event, end))
                            } else {
                                st.current->0.dtend
                            },
                            ..st.current->0
                        },
                    ),
                },
            )
        }),
{
    let st = read_lines(lines, cal)->0;
    let sp = span_lines(event, start, end, secs);
    let l0 = sp[0];
    let st1 = ReadV {
        events: st.events,
        current: Some(
            RawEventV { dtstart: Some(span_value(event, start)), ..st.current->0 },
        ),
    };
    if event.show_without_time {
        dtstart_date_line(st, basic_date_text(start.date), cal);
        dtend_date_line(st1, basic_date_text(end.date), cal);
    } else if event.time_zone == Some("UTC"@) || event.time_zone == Some("Etc/UTC"@) {
        dtstart_line(st, basic_text(start).push('Z'), cal);
        dtend_line(st1, basic_text(end).push('Z'), cal);
    } else {
        match event.time_zone {
            Some(zone) => {
                dtstart_zone_line(st, zone, basic_text(start), cal);
                dtend_zone_line(st1, zone, basic_text(end), cal);
            },
            None => {
                dtstart_line(st, basic_text(start), cal);
                dtend_line(st1, basic_text(end), cal);
            },
        }
    }
    read_one_more(lines, l0, cal);
    let lines1 = lines.push(l0);
    assert(read_lines(lines1, cal) == Some(st1));
    if secs != 0 {
        read_one_more(lines1, sp[1], cal);
        assert(lines1.push(sp[1]) =~= lines + sp);
    } else {
        assert(lines1 =~= lines + sp);
        assert(st1.current->0.dtend == st.current->0.dtend);
    }
}

/// What is left of the summary and the rule of an event when it is read back.
proof fn text_lines_read(lines: Seq<Seq<char>>, cal: Seq<char>, event: CalendarEventV)
    requires
        read_lines(lines, cal) is Some,
        read_lines(lines, cal)->0.current is Some,
        read_lines(lines, cal)->0.current->0.inner is None,
    ensures
        ({
            let st = read_lines(lines, cal)->0;
            read_lines(lines + text_lines(event), cal) == Some(
                ReadV {
                    events: st.events,
                    current: Some(
                        RawEventV {
                            summary: if nonempty(event.title) {
                                Some(unescaped(escaped(event.title->0)))
                            } else {
                                st.current->0.summary
                            },
                            rrule: if event.recurrence_rules is Some
                                && event.recurrence_rules->0.len() > 0 {
                                Some(rrule_text(event.recurrence_rules->0[0]))
                            } else {
                                st.current->0.rrule
                            },
                            ..st.current->0
                        },
                    ),
                },
            )
        }),
{
    let st = read_lines(lines, cal)->0;
    let e = Seq::<Seq<char>>::empty();
    assert(lines + e =~= lines);
    let l0 = push_if(e, nonempty(event.title), "SUMMARY:"@ + escaped(event.title->0));
    let st0 = ReadV {
        events: st.events,
        current: Some(
            RawEventV {
                summary: if nonempty(event.title) {
                    Some(unescaped(escaped(event.title->0)))
                } else {
                    st.current->0.summary
                },
                ..st.current->0
            },
        ),
    };
    if nonempty(event.title) {
        summary_line(st, escaped(event.title->0), cal);
        read_one_more(lines, "SUMMARY:"@ + escaped(event.title->0), cal);
        assert(lines.push("SUMMARY:"@ + escaped(event.title->0)) =~= lines + l0);
    } else {
        assert(st0 == st);
    }
    assert(read_lines(lines + l0, cal) == Some(st0));
    let l1 = push_if(
        l0,
        nonempty(event.description),
        "DESCRIPTION:"@ + escaped(event.description->0),
    );
    if nonempty(event.description) {
        description_line(st0, escaped(event.description->0), cal);
        read_one_more(lines + l0, "DESCRIPTION:"@ + escaped(event.description->0), cal);
        assert((lines + l0).push("DESCRIPTION:"@ + escaped(event.description->0)) =~= lines + l1);
    }
    assert(read_lines(lines + l1, cal) == Some(st0));
    let l2 = push_if(
        l1,
        nonempty(first_location(event)),
        "LOCATION:"@ + escaped(first_location(event)->0),
    );
    if nonempty(first_location(event)) {
        location_line(st0, escaped(first_location(event)->0), cal);
        read_one_more(lines + l1, "LOCATION:"@ + escaped(first_location(event)->0), cal);
        assert((lines + l1).push("LOCATION:"@ + escaped(first_location(event)->0)) =~= lines + l2);
    }
    assert(read_lines(lines + l2, cal) == Some(st0));
    if event.recurrence_rules is Some && event.recurrence_rules->0.len() > 0 {
        let v = rrule_text(event.recurrence_rules->0[0]);
        rrule_line(st0, v, cal);
        read_one_more(lines + l2, "RRULE:"@ + v, cal);
        assert((lines + l2).push("RRULE:"@ + v) =~= lines + text_lines(event));
    } else {
        assert(st0.current->0.rrule == st.current->0.rrule);
    }
}

/// The title that reads back: none for an empty one, and without carriage returns.
pub open spec fn title_read(event: CalendarEventV) -> Option<Seq<char>> {
    if nonempty(event.title) {
        Some(event.title->0.filter(|c: char| c != '\r'))
    } else {
        None
    }
}

/// The seconds that read back: from the start to the end, or the whole day where a whole-day
/// event has no length.
pub open spec fn secs_read(
    event: CalendarEventV,
    start: NaiveDateTime,
    end: NaiveDateTime,
) -> int {
    if event_secs(event) != 0 {
        secs_between(span_read(event, end).0, span_read(event, start).0)
    } else if event.show_without_time {
        86400
    } else {
        0
    }
}

/// What an event is when it has been written as iCalendar and read back into the calendar
/// `cal`.
pub open spec fn event_read(
    event: CalendarEventV,
    start: NaiveDateTime,
    end: NaiveDateTime,
    cal: Seq<char>,
) -> CalendarEventV {
    CalendarEventV {
        title: title_read(event),
        show_without_time: event.show_without_time,
        time_zone: span_read(event, start).2,
        calendar_ids: Some(map_insert(Seq::empty(), cal, true)),
        duration: duration_text(secs_read(event, start, end)),
        recurrence_rules: if event.recurrence_rules is Some && event.recurrence_rules->0.len() > 0 {
            match rrule_value(rrule_text(event.recurrence_rules->0[0])) {
                Some(rule) => Some(seq![rule]),
                None => None,
            }
        } else {
            None
        },
        recurrence_overrides: None,
        ..CalendarEventV::bare(
            cal + ":"@ + event.uid.filter(|c: char| c != '\r'),
            iso_text(span_read(event, start).0),
        )
    }
}

/// The properties that are read from the lines for an event.
pub open spec fn raw_read(
    event: CalendarEventV,
    start: NaiveDateTime,
    end: NaiveDateTime,
) -> RawEventV {
    RawEventV {
        uid: Some(event.uid.filter(|c: char| c != '\r')),
        summary: title_read(event),
        dtstart: Some(span_value(event, start)),
        dtend: if event_secs(event) != 0 {
            Some(span_value(event, end))
        } else {
            None
        },
        duration: None,
        rrule: if event.recurrence_rules is Some && event.recurrence_rules->0.len() > 0 {
            Some(rrule_text(event.recurrence_rules->0[0]))
        } else {
            None
        },
        exdates: Seq::empty(),
        is_instance: false,
        inner: None,
    }
}

proof fn head_lines_read(event: CalendarEventV, now: NaiveDateTime, cal: Seq<char>)
    ensures
        read_lines(head_lines(event, now), cal) == Some(
            ReadV {
                events: Seq::empty(),
                current: Some(
                    RawEventV {
                        uid: Some(event.uid.filter(|c: char| c != '\r')),
                        ..RawEventV::blank()
                    },
                ),
            },
        ),
{
    opening_lines(cal);
    let o = seq![
        "BEGIN:VCALENDAR"@,
        "VERSION:2.0"@,
        "PRODID:-//JSCalendar//EN"@,
        "BEGIN:VEVENT"@,
    ];
    let st = read_lines(o, cal)->0;
    uid_line(st, escaped(event.uid), cal);
    read_one_more(o, "UID:"@ + escaped(event.uid), cal);
    let o1 = o.push("UID:"@ + escaped(event.uid));
    let st1 = read_lines(o1, cal)->0;
    dtstamp_line(st1, basic_text(now).push('Z'), cal);
    read_one_more(o1, "DTSTAMP:"@ + basic_text(now).push('Z'), cal);
    let head = o1.push("DTSTAMP:"@ + basic_text(now).push('Z'));
    assert(head =~= head_lines(event, now));
    unescape_undoes_escape(event.uid);
}

proof fn all_lines_read(event: CalendarEventV, now: NaiveDateTime, cal: Seq<char>)
    requires
        writable(event),
        ics_lines(event, now) is Some,
        local_time(event.start) is Some,
    ensures
        ({
            let start = local_time(event.start)->0;
            let end = plus_secs(start, event_secs(event))->0;
            read_lines(
                head_lines(event, now) + span_lines(event, start, end, event_secs(event))
                    + text_lines(event),
                cal,
            ) == Some(
                ReadV { events: Seq::empty(), current: Some(raw_read(event, start, end)) },
            )
        }),
{
    let start = local_time(event.start)->0;
    let secs = event_secs(event);
    let end = plus_secs(start, secs)->0;
    head_lines_read(event, now, cal);
    let head = head_lines(event, now);
    span_lines_read(head, cal, event, start, end, secs);
    let l1 = head + span_lines(event, start, end, secs);
    text_lines_read(l1, cal, event);
    if nonempty(event.title) {
        unescape_undoes_escape(event.title->0);
    }
}

proof fn raw_read_event(
    event: CalendarEventV,
    start: NaiveDateTime,
    end: NaiveDateTime,
    cal: Seq<char>,
)
    requires
        start.on_clock(),
        end.on_clock(),
        0 <= start.date.year <= 9999,
        0 <= end.date.year <= 9999,
    ensures
        raw_event(raw_read(event, start, end), cal) == Some(
            Some(event_read(event, start, end, cal)),
        ),
{
    let raw = raw_read(event, start, end);
    span_value_reads_back(event, start);
    span_value_reads_back(event, end);
    assert(exclusions(raw.exdates).len() == 0);
    assert(raw_secs(raw, span_read(event, start).0, span_read(event, start).1) == Some(
        secs_read(event, start, end),
    ));
    assert(raw_uid(raw) == event.uid.filter(|c: char| c != '\r'));
}

/// Reading what was written for an event gives back one event: its uid behind the calendar's
/// id, its title, start, length and rule. The years of its start and end have four digits.
pub proof fn ics_round_trip(event: CalendarEventV, now: NaiveDateTime, subscription_id: Seq<char>)
    requires
        now.valid(),
        writable(event),
        ics_text(event, now) is Some,
        local_time(event.start) is Some,
        0 <= local_time(event.start)->0.date.year <= 9999,
        0 <= plus_secs(local_time(event.start)->0, event_secs(event))->0.date.year <= 9999,
    ensures
        events_of(ics_text(event, now)->0, subscription_id) == Some(
            seq![
                event_read(
                    event,
                    local_time(event.start)->0,
                    plus_secs(local_time(event.start)->0, event_secs(event))->0,
                    "ics:"@ + subscription_id,
                ),
            ],
        ),
{
    let cal = "ics:"@ + subscription_id;
    let start = local_time(event.start)->0;
    let end = plus_secs(start, event_secs(event))->0;
    local_time_on_clock(event.start);
    plus_secs_stays_valid(start, event_secs(event));
    ics_text_unfolds(event, now);
    all_lines_read(event, now, cal);
    raw_read_event(event, start, end, cal);
    let body = head_lines(event, now) + span_lines(event, start, end, event_secs(event))
        + text_lines(event);
    let e = event_read(event, start, end, cal);
    closing_lines(body, cal, e);
    assert(body + seq!["END:VEVENT"@, "END:VCALENDAR"@] =~= ics_lines(event, now)->0);
    assert(Seq::<CalendarEventV>::empty().push(e) =~= seq![e]);
}

/// The length of a timed event that starts at no leap second reads back as it was.
pub proof fn ics_keeps_length(event: CalendarEventV, start: NaiveDateTime)
    requires
        start.valid(),
        !start.leap,
        !event.show_without_time,
        plus_secs(start, event_secs(event)) is Some,
    ensures
        secs_read(event, start, plus_secs(start, event_secs(event))->0) == event_secs(event),
{
    let secs = event_secs(event);
    if secs != 0 {
        let n = start.num() + secs;
        let end = plus_secs(start, secs)->0;
        crate::calendar::date_of_exists(n / 86400);
        assert(end.num() == n) by {
            assert(n == n / 86400 * 86400 + n % 86400);
        }
    }
}

// ---------------------------------------------------------------------------
// What is left out
// ---------------------------------------------------------------------------

/// A line that a component named `name` inside an event can hold.
pub open spec fn stays_inside(line: Seq<char>, name: Seq<char>) -> bool {
    match line_parts(line) {
        None => true,
        Some(p) => {
            &&& !((p.0 == "BEGIN"@ || p.0 == "END"@) && p.2 == "VEVENT"@)
            &&& !(p.0 == "END"@ && p.2 == name)
        },
    }
}

proof fn inner_lines(
    before: Seq<Seq<char>>,
    inside: Seq<Seq<char>>,
    name: Seq<char>,
    cal: Seq<char>,
)
    requires
        read_lines(before, cal) is Some,
        read_lines(before, cal)->0.current is Some,
        read_lines(before, cal)->0.current->0.inner == Some(name),
        forall|i: int| 0 <= i < inside.len() ==> stays_inside(#[trigger] inside[i], name),
    ensures
        read_lines(before + inside, cal) == read_lines(before, cal),
    decreases inside.len(),
{
    if inside.len() == 0 {
        assert(before + inside =~= before);
    } else {
        let t = inside.drop_last();
        assert forall|i: int| 0 <= i < t.len() implies stays_inside(#[trigger] t[i], name) by {
            assert(t[i] == inside[i]);
        }
        inner_lines(before, t, name, cal);
        assert(stays_inside(inside[inside.len() - 1], name));
        read_one_more(before + t, inside.last(), cal);
        assert((before + t).push(inside.last()) =~= before + inside);
    }
}

/// A component inside an event, such as an alarm, changes nothing of the event, whatever lines
/// it holds.
pub proof fn component_is_skipped(
    before: Seq<Seq<char>>,
    begin: Seq<char>,
    inside: Seq<Seq<char>>,
    end: Seq<char>,
    name: Seq<char>,
    cal: Seq<char>,
)
    requires
        read_lines(before, cal) is Some,
        read_lines(before, cal)->0.current is Some,
        read_lines(before, cal)->0.current->0.inner is None,
        name != "VEVENT"@,
        line_parts(begin) matches Some(p) && p.0 == "BEGIN"@ && p.2 == name,
        line_parts(end) matches Some(p) && p.0 == "END"@ && p.2 == name,
        forall|i: int| 0 <= i < inside.len() ==> stays_inside(#[trigger] inside[i], name),
    ensures
        read_lines(before.push(begin) + inside.push(end), cal) == read_lines(before, cal),
{
    let st = read_lines(before, cal)->0;
    let raw = st.current->0;
    end_line_parts(name);
    read_one_more(before, begin, cal);
    inner_lines(before.push(begin), inside, name, cal);
    read_one_more(before.push(begin) + inside, end, cal);
    assert((before.push(begin) + inside).push(end) =~= before.push(begin) + inside.push(end));
    let opened = RawEventV { inner: Some(name), ..raw };
    assert(RawEventV { inner: None, ..opened } == raw);
    assert(st == ReadV { events: st.events, current: Some(raw) });
}

/// An event with a `RECURRENCE-ID` line, which changes one instance of another event, is left out,
/// whatever other lines it has.
pub proof fn instance_is_skipped(
    raw: RawEventV,
    name: Seq<char>,
    params: ParamsV,
    value: Seq<char>,
    cal: Seq<char>,
)
    ensures
        raw.inner is None ==> raw_set(raw, "RECURRENCE-ID"@, params, value).is_instance,
        raw.is_instance ==> raw_set(raw, name, params, value).is_instance,
        raw.is_instance ==> raw_event(raw, cal) == Some(None::<CalendarEventV>),
{
    reveal_strlit("RECURRENCE-ID");
    reveal_strlit("BEGIN");
    reveal_strlit("UID");
    reveal_strlit("SUMMARY");
    reveal_strlit("DTSTART");
    reveal_strlit("DTEND");
    reveal_strlit("DURATION");
    reveal_strlit("RRULE");
    reveal_strlit("EXDATE");
    assert("RECURRENCE-ID"@.len() != "BEGIN"@.len());
    assert("RECURRENCE-ID"@.len() != "UID"@.len());
    assert("RECURRENCE-ID"@.len() != "SUMMARY"@.len());
    assert("RECURRENCE-ID"@.len() != "DTSTART"@.len());
    assert("RECURRENCE-ID"@.len() != "DTEND"@.len());
    assert("RECURRENCE-ID"@.len() != "DURATION"@.len());
    assert("RECURRENCE-ID"@.len() != "RRULE"@.len());
    assert("RECURRENCE-ID"@.len() != "EXDATE"@.len());
}

} // verus!
