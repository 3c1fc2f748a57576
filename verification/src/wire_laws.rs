//! What goes over the wire: rules in words, times, patches, queries and addresses.

use vstd::prelude::*;
use vstd::string::*;
use crate::calendar::{date_less, NaiveDate, NaiveDateTime};
use crate::collections::get_after_insert;
use crate::contentline::{upper, ParamsV};
use crate::csrf::{hostname, same_origin};
use crate::error::ErrorV;
use crate::ics::{
    byday_text, rrule_parts, rrule_text, rrule_value, rule_part, rule_parts, span_lines, time_value,
    unsupported_key, RuleReadV,
};
use crate::jscalendar::{local_time, CalendarEventV, Frequency, NDayV, RecurrenceRuleV};
use crate::json::{merged, ValueV};
use crate::netguard::{public_addr, IpAddr};
use crate::numbers::{dec, int_text, parse_int};
use crate::regions::{
    holidays_between, holidays_of_years, public_holidays, region_number, GermanRegion,
};
use crate::rrule_laws::join_front;
use crate::text::{byte_len, has_char, join, split, split_once, starts_with};
use crate::timetext::{basic_date_text, basic_text, iso_text, read_date, read_time};
use crate::webutil::{urlencode_byte, urlencode_bytes};

verus! {

// ---------------------------------------------------------------------------
// Rules and times
// ---------------------------------------------------------------------------

/// A rule is written with the word for its frequency first.
pub proof fn rule_starts_with_frequency(rule: RecurrenceRuleV)
    ensures
        rule.frequency is Daily ==> starts_with(rrule_text(rule), "FREQ="@ + "DAILY"@),
        rule.frequency is Weekly ==> starts_with(rrule_text(rule), "FREQ="@ + "WEEKLY"@),
        rule.frequency is Monthly ==> starts_with(rrule_text(rule), "FREQ="@ + "MONTHLY"@),
        rule.frequency is Yearly ==> starts_with(rrule_text(rule), "FREQ="@ + "YEARLY"@),
        rule.frequency is Hourly ==> starts_with(rrule_text(rule), "FREQ="@ + "HOURLY"@),
        rule.frequency is Minutely ==> starts_with(rrule_text(rule), "FREQ="@ + "MINUTELY"@),
        rule.frequency is Secondly ==> starts_with(rrule_text(rule), "FREQ="@ + "SECONDLY"@),
{
    let parts = rrule_parts(rule);
    let first = parts[0];
    if parts.len() >= 2 {
        join_front(parts, ";"@);
        let rest = join(parts.skip(1), ";"@);
        assert((first + ";"@ + rest).take(first.len() as int) =~= first);
    } else {
        assert(parts.drop_last() =~= Seq::empty());
        reveal_with_fuel(join, 2);
        assert(rrule_text(rule) =~= first);
        assert(first.take(first.len() as int) =~= first);
    }
}

/// A rule is written with its interval where that is more than one, with its count, with its end in
/// UTC, and with the days and months that it names.
#[verifier::spinoff_prover]
#[verifier::rlimit(60)]
pub proof fn rule_says_its_parts(rule: RecurrenceRuleV)
    ensures
        rrule_text(rule) == join(rrule_parts(rule), ";"@),
        rule.interval matches Some(n) ==> (n > 1 ==> rrule_parts(rule).contains(
            "INTERVAL="@ + dec(n as nat),
        )),
        rule.count matches Some(n) ==> rrule_parts(rule).contains("COUNT="@ + dec(n as nat)),
        rule.until matches Some(u) ==> (local_time(u) matches Some(t) ==> rrule_parts(
            rule,
        ).contains("UNTIL="@ + basic_text(t).push('Z'))),
        rule.by_month.len() > 0 ==> rrule_parts(rule).contains(
            "BYMONTH="@ + join(rule.by_month, ","@),
        ),
{
    let parts = rrule_parts(rule);
    let until = match rule.until {
        Some(u) => local_time(u),
        None => None,
    };
    let a = if rule.interval is Some && rule.interval->0 > 1 {
        2int
    } else {
        1int
    };
    let b = a + (if rule.count is Some {
        1int
    } else {
        0int
    });
    let c = b + (if until is Some {
        1int
    } else {
        0int
    });
    let d = c + (if rule.by_day.len() > 0 {
        1int
    } else {
        0int
    }) + (if rule.by_month_day.len() > 0 {
        1int
    } else {
        0int
    });
    if let Some(n) = rule.interval {
        if n > 1 {
            assert(parts[1] == "INTERVAL="@ + dec(n as nat));
        }
    }
    if let Some(n) = rule.count {
        assert(parts[a] == "COUNT="@ + dec(n as nat));
    }
    if let Some(t) = until {
        assert(parts[b] == "UNTIL="@ + basic_text(t).push('Z'));
    }
    if rule.by_month.len() > 0 {
        assert(parts[d] == "BYMONTH="@ + join(rule.by_month, ","@));
    }
}

/// A day of the week is written with its two capitals, behind its number where it has one.
pub proof fn day_is_written(d: NDayV)
    ensures
        ({
            let number = match d.nth_of_period {
                Some(n) => int_text(n as int),
                None => Seq::empty(),
            };
            &&& d.day is Monday ==> byday_text(d) =~= number + "MO"@
            &&& d.day is Tuesday ==> byday_text(d) =~= number + "TU"@
            &&& d.day is Wednesday ==> byday_text(d) =~= number + "WE"@
            &&& d.day is Thursday ==> byday_text(d) =~= number + "TH"@
            &&& d.day is Friday ==> byday_text(d) =~= number + "FR"@
            &&& d.day is Saturday ==> byday_text(d) =~= number + "SA"@
            &&& d.day is Sunday ==> byday_text(d) =~= number + "SU"@
        }),
{
}

proof fn rule_keys_differ()
    ensures
        "FREQ"@ != "INTERVAL"@,
        "FREQ"@ != "COUNT"@,
        "FREQ"@ != "UNTIL"@,
        "FREQ"@ != "BYDAY"@,
        "FREQ"@ != "BYMONTHDAY"@,
        "FREQ"@ != "BYMONTH"@,
        "INTERVAL"@ != "COUNT"@,
        "INTERVAL"@ != "UNTIL"@,
        "INTERVAL"@ != "BYDAY"@,
        "INTERVAL"@ != "BYMONTHDAY"@,
        "INTERVAL"@ != "BYMONTH"@,
        "COUNT"@ != "UNTIL"@,
        "COUNT"@ != "BYDAY"@,
        "COUNT"@ != "BYMONTHDAY"@,
        "COUNT"@ != "BYMONTH"@,
        "UNTIL"@ != "BYDAY"@,
        "UNTIL"@ != "BYMONTHDAY"@,
        "UNTIL"@ != "BYMONTH"@,
        "BYDAY"@ != "BYMONTHDAY"@,
        "BYDAY"@ != "BYMONTH"@,
        "BYMONTHDAY"@ != "BYMONTH"@,
{
    reveal_strlit("FREQ");
    reveal_strlit("INTERVAL");
    reveal_strlit("COUNT");
    reveal_strlit("UNTIL");
    reveal_strlit("BYDAY");
    reveal_strlit("BYMONTHDAY");
    reveal_strlit("BYMONTH");
    assert("FREQ"@.len() == 4 && "INTERVAL"@.len() == 8 && "COUNT"@.len() == 5);
    assert("UNTIL"@.len() == 5 && "BYDAY"@.len() == 5 && "BYMONTHDAY"@.len() == 10);
    assert("BYMONTH"@.len() == 7);
    assert("COUNT"@[0] == 'C' && "UNTIL"@[0] == 'U' && "BYDAY"@[0] == 'B');
}

/// Each part of a rule goes where its key says, whatever the case, and nowhere else.
#[verifier::spinoff_prover]
#[verifier::rlimit(60)]
pub proof fn rule_part_goes_by_key(
    r: RuleReadV,
    part: Seq<char>,
    key: Seq<char>,
    value: Seq<char>,
)
    requires
        split_once(part, '=') == Some((key, value)),
    ensures
        rule_part(r, part) is Some,
        ({
            let n = rule_part(r, part)->0;
            let k = upper(key);
            &&& k != "FREQ"@ ==> n.frequency == r.frequency
            &&& k != "INTERVAL"@ ==> n.interval == r.interval
            &&& k != "COUNT"@ ==> n.count == r.count
            &&& k != "UNTIL"@ ==> n.until == r.until
            &&& k != "BYDAY"@ ==> n.by_day == r.by_day
            &&& k != "BYMONTHDAY"@ ==> n.by_month_day == r.by_month_day
            &&& k != "BYMONTH"@ ==> n.by_month == r.by_month
            &&& r.unsupported ==> n.unsupported
            &&& k == "FREQ"@ && value == "DAILY"@ ==> n.frequency == Some(Frequency::Daily)
            &&& k == "FREQ"@ && value == "WEEKLY"@ ==> n.frequency == Some(Frequency::Weekly)
            &&& k == "FREQ"@ && value == "MONTHLY"@ ==> n.frequency == Some(Frequency::Monthly)
            &&& k == "FREQ"@ && value == "YEARLY"@ ==> n.frequency == Some(Frequency::Yearly)
            &&& k == "INTERVAL"@ ==> (parse_int(value, 0, u32::MAX as int) matches Some(x)
                ==> n.interval == Some(x as u32))
            &&& k == "COUNT"@ ==> (parse_int(value, 0, u32::MAX as int) matches Some(x) ==> n.count
                == Some(x as u32))
            &&& k == "UNTIL"@ ==> match time_value(value, Seq::empty()) {
                Some(t) => n.until == Some(iso_text(t.0)),
                None => n.unsupported,
            }
            &&& k == "BYMONTH"@ ==> n.by_month == r.by_month + split(value, ',')
        }),
{
    rule_keys_differ();
    reveal_strlit("DAILY");
    reveal_strlit("WEEKLY");
    reveal_strlit("MONTHLY");
    reveal_strlit("YEARLY");
    assert("DAILY"@.len() == 5 && "WEEKLY"@.len() == 6 && "MONTHLY"@.len() == 7 && "YEARLY"@.len()
        == 6);
    assert("WEEKLY"@[0] != "YEARLY"@[0]);
}

/// A rule with a part that picks by hours, minutes, seconds, weeks or days of the year, or by
/// position, is not understood, wherever that part stands.
pub proof fn unsupported_rule_is_not_read(s: Seq<char>, i: int, key: Seq<char>, value: Seq<char>)
    requires
        0 <= i < split(s, ';').len(),
        split_once(split(s, ';')[i], '=') == Some((key, value)),
        upper(key) == "BYSETPOS"@ || upper(key) == "BYWEEKNO"@ || upper(key) == "BYYEARDAY"@
            || upper(key) == "BYHOUR"@ || upper(key) == "BYMINUTE"@ || upper(key) == "BYSECOND"@,
    ensures
        rrule_value(s) is None,
{
    unsupported_stays(split(s, ';'), i, key, value);
}

proof fn unsupported_stays(parts: Seq<Seq<char>>, i: int, key: Seq<char>, value: Seq<char>)
    requires
        0 <= i < parts.len(),
        split_once(parts[i], '=') == Some((key, value)),
        upper(key) == "BYSETPOS"@ || upper(key) == "BYWEEKNO"@ || upper(key) == "BYYEARDAY"@
            || upper(key) == "BYHOUR"@ || upper(key) == "BYMINUTE"@ || upper(key) == "BYSECOND"@,
    ensures
        rule_parts(parts) matches Some(r) ==> r.unsupported,
    decreases parts.len(),
{
    let t = parts.drop_last();
    if rule_parts(parts) is Some {
        let r = rule_parts(t)->0;
        if i < t.len() {
            assert(t[i] == parts[i]);
            unsupported_stays(t, i, key, value);
            let p = split_once(parts.last(), '=')->0;
            rule_part_goes_by_key(r, parts.last(), p.0, p.1);
        } else {
            unsupported_keys_differ();
            assert(parts.last() == parts[i]);
            assert(unsupported_key(upper(key)));
            assert(rule_part(r, parts.last())->0.unsupported);
        }
    }
}

proof fn unsupported_keys_differ()
    ensures
        forall|k: Seq<char>|
            k == "BYSETPOS"@ || k == "BYWEEKNO"@ || k == "BYYEARDAY"@ || k == "BYHOUR"@ || k
                == "BYMINUTE"@ || k == "BYSECOND"@ ==> #[trigger] unsupported_key(k) && k
                != "FREQ"@ && k != "INTERVAL"@ && k != "COUNT"@ && k != "UNTIL"@ && k != "BYDAY"@
                && k != "BYMONTHDAY"@ && k != "BYMONTH"@,
{
    reveal_strlit("FREQ");
    reveal_strlit("INTERVAL");
    reveal_strlit("COUNT");
    reveal_strlit("UNTIL");
    reveal_strlit("BYDAY");
    reveal_strlit("BYMONTHDAY");
    reveal_strlit("BYMONTH");
    reveal_strlit("BYSETPOS");
    reveal_strlit("BYWEEKNO");
    reveal_strlit("BYYEARDAY");
    reveal_strlit("BYHOUR");
    reveal_strlit("BYMINUTE");
    reveal_strlit("BYSECOND");
    assert("FREQ"@.len() == 4 && "INTERVAL"@.len() == 8 && "COUNT"@.len() == 5);
    assert("UNTIL"@.len() == 5 && "BYDAY"@.len() == 5 && "BYMONTHDAY"@.len() == 10);
    assert("BYMONTH"@.len() == 7 && "BYSETPOS"@.len() == 8 && "BYWEEKNO"@.len() == 8);
    assert("BYYEARDAY"@.len() == 9 && "BYHOUR"@.len() == 6 && "BYMINUTE"@.len() == 8);
    assert("BYSECOND"@.len() == 8);
    assert("INTERVAL"@[0] == 'I' && "BYSETPOS"@[0] == 'B' && "BYWEEKNO"@[0] == 'B'
        && "BYMINUTE"@[0] == 'B' && "BYSECOND"@[0] == 'B');
}

/// The start of an event is written as a date where it lasts all day, in UTC where it is in that
/// zone, with its zone where it is in another, and else as it stands on the clock; and its end in
/// the same way, where it has a length.
pub proof fn span_is_written(
    event: CalendarEventV,
    start: NaiveDateTime,
    end: NaiveDateTime,
    secs: int,
)
    ensures
        ({
            let lines = span_lines(event, start, end, secs);
            &&& lines.len() == (if secs != 0 {
                2int
            } else {
                1int
            })
            &&& event.show_without_time ==> lines[0] == "DTSTART;VALUE=DATE:"@ + basic_date_text(
                start.date,
            ) && (secs != 0 ==> lines[1] == "DTEND;VALUE=DATE:"@ + basic_date_text(end.date))
            &&& !event.show_without_time && event.time_zone == Some("UTC"@) ==> lines[0]
                == "DTSTART:"@ + basic_text(start).push('Z') && (secs != 0 ==> lines[1] == "DTEND:"@
                + basic_text(end).push('Z'))
            &&& !event.show_without_time && event.time_zone is None ==> lines[0] == "DTSTART:"@
                + basic_text(start) && (secs != 0 ==> lines[1] == "DTEND:"@ + basic_text(end))
            &&& event.time_zone matches Some(z) ==> (!event.show_without_time && z != "UTC"@ && z
                != "Etc/UTC"@ ==> lines[0] == "DTSTART;TZID="@ + z + ":"@ + basic_text(start) && (
            secs != 0 ==> lines[1] == "DTEND;TZID="@ + z + ":"@ + basic_text(end)))
        }),
{
}

/// A value of eight digits is a whole day, at its midnight and in no zone; a time that ends with
/// `Z` is one in UTC, and any other is in no zone.
pub proof fn time_is_read(raw: Seq<char>, params: ParamsV)
    requires
        params.len() == 0,
    ensures
        byte_len(raw) == 8 && !has_char(raw, 'T') ==> match read_date(raw, "%Y%m%d"@) {
            Some(d) => time_value(raw, params) matches Some(t) && t.0.date == d && t.0.secs == 0
                && t.1 && t.2 is None,
            None => time_value(raw, params) is None,
        },
        has_char(raw, 'T') && raw.len() > 0 && raw.last() == 'Z' ==> match read_time(
            raw.drop_last(),
            "%Y%m%dT%H%M%S"@,
        ) {
            Some(x) => time_value(raw, params) matches Some(t) && t.0 == x && !t.1 && t.2 == Some(
                "UTC"@,
            ),
            None => time_value(raw, params) is None,
        },
        has_char(raw, 'T') && raw.len() > 0 && raw.last() != 'Z' ==> match read_time(
            raw,
            "%Y%m%dT%H%M%S"@,
        ) {
            Some(x) => time_value(raw, params) matches Some(t) && t.0 == x && !t.1 && t.2 is None,
            None => time_value(raw, params) is None,
        },
{
}

// ---------------------------------------------------------------------------
// Patches
// ---------------------------------------------------------------------------

/// A patch puts each of its entries in, and leaves what it does not name.
pub proof fn patch_is_put_in(base: ValueV, patch: ValueV, key: Seq<char>)
    requires
        base is Object,
        forall|i: int, j: int|
            0 <= i < j < patch.entries().len() ==> (#[trigger] patch.entries()[i]).0 != (
            #[trigger] patch.entries()[j]).0,
    ensures
        forall|i: int|
            0 <= i < patch.entries().len() && (#[trigger] patch.entries()[i]).0 == key ==> merged(
                base,
                patch,
            ).get(key) == Some(patch.entries()[i].1),
        (forall|i: int| 0 <= i < patch.entries().len() ==> (#[trigger] patch.entries()[i]).0 != key)
            ==> merged(base, patch).get(key) == base.get(key),
{
    entries_are_put_in(base, patch.entries(), key);
}

proof fn entries_are_put_in(base: ValueV, entries: Seq<(Seq<char>, ValueV)>, key: Seq<char>)
    requires
        base is Object,
        forall|i: int, j: int|
            0 <= i < j < entries.len() ==> (#[trigger] entries[i]).0 != (#[trigger] entries[j]).0,
    ensures
        base.with_entries(entries) is Object,
        forall|i: int|
            0 <= i < entries.len() && (#[trigger] entries[i]).0 == key ==> base.with_entries(
                entries,
            ).get(key) == Some(entries[i].1),
        (forall|i: int| 0 <= i < entries.len() ==> (#[trigger] entries[i]).0 != key)
            ==> base.with_entries(entries).get(key) == base.get(key),
    decreases entries.len(),
{
    if entries.len() > 0 {
        let t = entries.drop_last();
        let n = entries.len() - 1;
        assert forall|i: int, j: int| 0 <= i < j < t.len() implies (#[trigger] t[i]).0 != (
        #[trigger] t[j]).0 by {
            assert(t[i] == entries[i] && t[j] == entries[j]);
        }
        entries_are_put_in(base, t, key);
        let before = base.with_entries(t);
        get_after_insert(before.entries(), entries.last().0, entries.last().1, key);
        assert forall|i: int| 0 <= i < entries.len() && (#[trigger] entries[i]).0
            == key implies base.with_entries(entries).get(key) == Some(entries[i].1) by {
            if i < n {
                assert(t[i] == entries[i]);
                assert(entries[i].0 != entries[n].0);
            }
        }
        if forall|i: int| 0 <= i < entries.len() ==> (#[trigger] entries[i]).0 != key {
            assert(entries[n].0 != key);
            assert forall|i: int| 0 <= i < t.len() implies (#[trigger] t[i]).0 != key by {
                assert(t[i] == entries[i]);
            }
        }
    }
}

// ---------------------------------------------------------------------------
// Queries and requests
// ---------------------------------------------------------------------------

/// The value of a hexadecimal digit.
pub open spec fn hex_value(c: char) -> int {
    if '0' <= c <= '9' {
        c as int - '0' as int
    } else {
        c as int - 'A' as int + 10
    }
}

/// A byte is written in a query as a plus for a space, as itself where it is a letter, a digit or
/// one of four marks, and else as a percent sign with its two hexadecimal digits.
pub proof fn byte_is_written(b: u8)
    ensures
        b == 32 ==> urlencode_byte(b) == seq!['+'],
        '0' <= b as char <= '9' || 'a' <= b as char <= 'z' || 'A' <= b as char <= 'Z' || b
            == '-' as u8 || b == '_' as u8 || b == '.' as u8 || b == '~' as u8 ==> urlencode_byte(b)
            == seq![b as char],
        urlencode_byte(b).len() == 3 ==> {
            let s = urlencode_byte(b);
            &&& s[0] == '%'
            &&& 16 * hex_value(s[1]) + hex_value(s[2]) == b
        },
        urlencode_byte(b).len() == 1 || urlencode_byte(b).len() == 3,
{
}

/// Bytes are written one after the other.
pub proof fn bytes_are_written_in_turn(a: Seq<u8>, b: Seq<u8>)
    ensures
        urlencode_bytes(a + b) == urlencode_bytes(a) + urlencode_bytes(b),
    decreases b.len(),
{
    if b.len() == 0 {
        assert(a + b =~= a);
        assert(urlencode_bytes(a) + urlencode_bytes(b) =~= urlencode_bytes(a));
    } else {
        let t = b.drop_last();
        bytes_are_written_in_turn(a, t);
        assert((a + b).drop_last() =~= a + t);
        assert(urlencode_bytes(a + b) =~= urlencode_bytes(a) + urlencode_bytes(b));
    }
}

/// A request that only reads goes on; one that changes something goes on where its origin, or
/// without one its referer, is on the host itself, and not where it has neither.
pub proof fn own_requests_go_on(
    method: Seq<char>,
    host: Seq<char>,
    origin: Option<Option<Seq<char>>>,
    referer: Option<Option<Seq<char>>>,
)
    ensures
        method == "GET"@ || method == "HEAD"@ || method == "OPTIONS"@ ==> same_origin(
            method,
            Some(Some(host)),
            origin,
            referer,
        ),
        origin matches Some(Some(o)) ==> (hostname(host) is Some && hostname(o) == hostname(host)
            ==> same_origin(method, Some(Some(host)), origin, referer)),
        origin is None ==> (referer matches Some(Some(r)) ==> (hostname(host) is Some && hostname(r)
            == hostname(host) ==> same_origin(method, Some(Some(host)), origin, referer))),
        method == "POST"@ && origin is None && referer is None ==> !same_origin(
            method,
            Some(Some(host)),
            origin,
            referer,
        ),
{
    reveal_strlit("GET");
    reveal_strlit("HEAD");
    reveal_strlit("OPTIONS");
    reveal_strlit("POST");
    assert("GET"@.len() == 3 && "HEAD"@.len() == 4 && "OPTIONS"@.len() == 7 && "POST"@.len() == 4);
    assert("HEAD"@[0] != "POST"@[0]);
}

/// Failures are told by their status: who is not let in, what is not there, and what the server
/// behind got wrong.
pub proof fn failures_have_status(e: ErrorV)
    ensures
        e.status() == 401 <==> e is Unauthorized,
        e.status() == 404 <==> e is NotFound,
        e !is Unauthorized && e !is NotFound ==> e.status() == 502,
{
}

/// No address of a private network, of the own host or link, of a group or a reserved range is
/// public, also not where it is written as a version 6 address.
pub proof fn private_addresses_are_refused(a: u8, b: u8, c: u8, d: u8)
    requires
        a == 10 || a == 172 && 16 <= b <= 31 || a == 192 && b == 168 || a == 127 || a == 169 && b
            == 254 || a >= 224 || a == 0 || a == 100 && 64 <= b <= 127 || a == 198 && 18 <= b <= 19
            || a == 192 && b == 0 && c == 2 || a == 198 && b == 51 && c == 100 || a == 203 && b == 0
            && c == 113,
    ensures
        !public_addr(IpAddr::V4(a, b, c, d)),
        !public_addr(
            IpAddr::V6(0, 0, 0, 0, 0, 0xffff, (a * 256 + b) as u16, (c * 256 + d) as u16),
        ),
{
    let g = (a * 256 + b) as u16;
    let h = (c * 256 + d) as u16;
    assert(g == a * 256 + b && h == c * 256 + d);
    assert(g / 256 == a && g % 256 == b && h / 256 == c);
}

/// Only version 6 addresses of the global range are public, and none of those that lead back to a
/// network of the own: the loopback, the own link and the own site.
pub proof fn local_addresses_are_refused(
    a: u16,
    b: u16,
    c: u16,
    d: u16,
    e: u16,
    f: u16,
    g: u16,
    h: u16,
)
    requires
        f != 0xffff,
        a < 0x2000 || a > 0x3fff || a == 0x2002 || a == 0x2001 && b == 0x0db8,
    ensures
        !public_addr(IpAddr::V6(a, b, c, d, e, f, g, h)),
{
}

// ---------------------------------------------------------------------------
// Holidays
// ---------------------------------------------------------------------------

proof fn years_hold_holiday(
    region: GermanRegion,
    from: int,
    to: int,
    y: int,
    h: (NaiveDate, Seq<char>),
)
    requires
        from <= y <= to,
        public_holidays(region_number(region), y).count(h) > 0,
    ensures
        holidays_of_years(region, from, to).count(h) > 0,
    decreases to - from + 1,
{
    if y < to {
        years_hold_holiday(region, from, to - 1, y, h);
    }
}

proof fn holiday_has_year(region: GermanRegion, from: int, to: int, h: (NaiveDate, Seq<char>))
    requires
        holidays_of_years(region, from, to).count(h) > 0,
    ensures
        exists|y: int|
            from <= y <= to && (#[trigger] public_holidays(region_number(region), y)).count(h) > 0,
    decreases to - from + 1,
{
    if to >= from {
        if public_holidays(region_number(region), to).count(h) == 0 {
            holiday_has_year(region, from, to - 1, h);
            let y = choose|y: int|
                from <= y <= to - 1 && (#[trigger] public_holidays(
                    region_number(region),
                    y,
                )).count(h) > 0;
            assert(public_holidays(region_number(region), y).count(h) > 0);
        }
    }
}

/// The holidays of a range are those of its years that fall into it: from its first date on, and
/// before its last.
pub proof fn holidays_fall_into_range(
    region: GermanRegion,
    start: NaiveDate,
    end: NaiveDate,
    h: (NaiveDate, Seq<char>),
)
    ensures
        holidays_between(region, start, end).count(h) > 0 <==> !date_less(h.0, start) && date_less(
            h.0,
            end,
        ) && exists|y: int|
            start.year <= y <= end.year && (#[trigger] public_holidays(
                region_number(region),
                y,
            )).count(h) > 0,
{
    let all = holidays_of_years(region, start.year as int, end.year as int);
    if all.count(h) > 0 {
        holiday_has_year(region, start.year as int, end.year as int, h);
    }
    if exists|y: int|
        start.year <= y <= end.year && (#[trigger] public_holidays(
            region_number(region),
            y,
        )).count(h) > 0 {
        let y = choose|y: int|
            start.year <= y <= end.year && (#[trigger] public_holidays(
                region_number(region),
                y,
            )).count(h) > 0;
        years_hold_holiday(region, start.year as int, end.year as int, y, h);
    }
}

} // verus!
