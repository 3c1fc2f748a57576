//! What a recurrence rule is written as reads back.

use vstd::prelude::*;
use vstd::string::*;
use crate::contentline::{split_none, split_piece};
use crate::calendar::NaiveDateTime;
use crate::ics::{
    byday_item, byday_items, byday_text, day_code, day_word, first_letter, freq_code, freq_word,
    int_items, int_list, push_if, rrule_parts, rrule_text, rrule_value, rule_part, rule_parts,
    rule_read_start, time_value, u32_of, RuleReadV,
};
use crate::ics_laws::{is_word, lacks, upper_of_word, utc_value_reads_back};
use crate::jscalendar::{
    local_time, local_time_on_clock, Frequency, NDayV, RecurrenceRuleV, Weekday,
};
use crate::numbers::{all_digits, dec, dec_reads_back, int_text, parse_int_of_text};
use crate::text::{first_index_is, is_alpha, is_digit, join, split};
use crate::timetext::{basic_text, iso_text};

verus! {

// ---------------------------------------------------------------------------
// Joining and splitting
// ---------------------------------------------------------------------------

/// Joined pieces start with the first one.
pub proof fn join_front(parts: Seq<Seq<char>>, sep: Seq<char>)
    requires
        parts.len() >= 2,
    ensures
        join(parts, sep) == parts[0] + sep + join(parts.skip(1), sep),
    decreases parts.len(),
{
    if parts.len() == 2 {
        assert(parts.drop_last() =~= seq![parts[0]]);
        assert(parts.skip(1) =~= seq![parts[1]]);
        reveal_with_fuel(join, 2);
    } else {
        let t = parts.drop_last();
        join_front(t, sep);
        assert(t.skip(1) =~= parts.skip(1).drop_last());
        assert(parts.skip(1).last() == parts.last());
        let j = join(t.skip(1), sep);
        assert(join(parts, sep) =~= parts[0] + sep + (j + sep + parts.last()));
    }
}

/// Splitting joined pieces gives the pieces, where none holds the separator.
pub proof fn split_undoes_join(parts: Seq<Seq<char>>, c: char)
    requires
        parts.len() > 0,
        forall|i: int| 0 <= i < parts.len() ==> lacks(#[trigger] parts[i], c),
    ensures
        split(join(parts, seq![c]), c) == parts,
    decreases parts.len(),
{
    assert(lacks(parts[0], c));
    if parts.len() == 1 {
        split_none(parts[0], c);
        assert(seq![parts[0]] =~= parts);
    } else {
        let t = parts.skip(1);
        assert forall|i: int| 0 <= i < t.len() implies lacks(#[trigger] t[i], c) by {
            assert(t[i] == parts[i + 1]);
        }
        split_undoes_join(t, c);
        join_front(parts, seq![c]);
        split_piece(parts[0], join(t, seq![c]), c);
        assert(seq![parts[0]] + t =~= parts);
    }
}

proof fn lacks_concat(a: Seq<char>, b: Seq<char>, c: char)
    requires
        lacks(a, c),
        lacks(b, c),
    ensures
        lacks(a + b, c),
{
    assert forall|i: int| 0 <= i < (a + b).len() implies #[trigger] (a + b)[i] != c by {
        if i < a.len() {
            assert((a + b)[i] == a[i]);
        } else {
            assert((a + b)[i] == b[i - a.len()]);
        }
    }
}

proof fn join_lacks(parts: Seq<Seq<char>>, sep: Seq<char>, c: char)
    requires
        lacks(sep, c),
        forall|i: int| 0 <= i < parts.len() ==> lacks(#[trigger] parts[i], c),
    ensures
        lacks(join(parts, sep), c),
    decreases parts.len(),
{
    if parts.len() == 1 {
        assert(lacks(parts[0], c));
    } else if parts.len() > 1 {
        let t = parts.drop_last();
        assert forall|i: int| 0 <= i < t.len() implies lacks(#[trigger] t[i], c) by {
            assert(t[i] == parts[i]);
        }
        join_lacks(t, sep, c);
        assert(lacks(parts[parts.len() - 1], c));
        lacks_concat(join(t, sep), sep, c);
        lacks_concat(join(t, sep) + sep, parts.last(), c);
    }
}

proof fn digits_lack(s: Seq<char>, c: char)
    requires
        all_digits(s),
        !is_digit(c),
    ensures
        lacks(s, c),
{
    assert forall|i: int| 0 <= i < s.len() implies #[trigger] s[i] != c by {
        assert(is_digit(s[i]));
    }
}

proof fn int_text_lacks(i: int, c: char)
    requires
        !is_digit(c),
        c != '-',
    ensures
        lacks(int_text(i), c),
{
    if i < 0 {
        dec_reads_back((-i) as nat);
        digits_lack(dec((-i) as nat), c);
        lacks_concat(seq!['-'], dec((-i) as nat), c);
    } else {
        dec_reads_back(i as nat);
        digits_lack(dec(i as nat), c);
    }
}

// ---------------------------------------------------------------------------
// Words
// ---------------------------------------------------------------------------

proof fn freq_words_read_back(f: Frequency)
    ensures
        freq_code(freq_word(f)) == Some(f),
        is_word(freq_word(f)),
{
    reveal_strlit("DAILY");
    reveal_strlit("WEEKLY");
    reveal_strlit("MONTHLY");
    reveal_strlit("YEARLY");
    reveal_strlit("HOURLY");
    reveal_strlit("MINUTELY");
    reveal_strlit("SECONDLY");
    assert("WEEKLY"@.len() != "DAILY"@.len());
    assert("MONTHLY"@.len() != "DAILY"@.len());
    assert("MONTHLY"@.len() != "WEEKLY"@.len());
    assert("YEARLY"@.len() != "DAILY"@.len());
    assert("YEARLY"@[0] != "WEEKLY"@[0]);
    assert("YEARLY"@.len() != "MONTHLY"@.len());
    assert("HOURLY"@.len() != "DAILY"@.len());
    assert("HOURLY"@[0] != "WEEKLY"@[0]);
    assert("HOURLY"@.len() != "MONTHLY"@.len());
    assert("HOURLY"@[0] != "YEARLY"@[0]);
    assert("MINUTELY"@.len() != "DAILY"@.len());
    assert("MINUTELY"@.len() != "WEEKLY"@.len());
    assert("MINUTELY"@.len() != "MONTHLY"@.len());
    assert("MINUTELY"@.len() != "YEARLY"@.len());
    assert("MINUTELY"@.len() != "HOURLY"@.len());
    assert("SECONDLY"@.len() != "DAILY"@.len());
    assert("SECONDLY"@.len() != "WEEKLY"@.len());
    assert("SECONDLY"@.len() != "MONTHLY"@.len());
    assert("SECONDLY"@.len() != "YEARLY"@.len());
    assert("SECONDLY"@.len() != "HOURLY"@.len());
    assert("SECONDLY"@[0] != "MINUTELY"@[0]);
}

proof fn day_words_read_back(d: Weekday)
    ensures
        day_code(day_word(d)) == Some(d),
        is_word(day_word(d)),
        day_word(d).len() == 2,
{
    reveal_strlit("MO");
    reveal_strlit("TU");
    reveal_strlit("WE");
    reveal_strlit("TH");
    reveal_strlit("FR");
    reveal_strlit("SA");
    reveal_strlit("SU");
    assert("TU"@[0] != "MO"@[0]);
    assert("WE"@[0] != "MO"@[0]);
    assert("WE"@[0] != "TU"@[0]);
    assert("TH"@[0] != "MO"@[0]);
    assert("TH"@[1] != "TU"@[1]);
    assert("TH"@[0] != "WE"@[0]);
    assert("FR"@[0] != "MO"@[0]);
    assert("FR"@[0] != "TU"@[0]);
    assert("FR"@[0] != "WE"@[0]);
    assert("FR"@[0] != "TH"@[0]);
    assert("SA"@[0] != "MO"@[0]);
    assert("SA"@[0] != "TU"@[0]);
    assert("SA"@[0] != "WE"@[0]);
    assert("SA"@[0] != "TH"@[0]);
    assert("SA"@[0] != "FR"@[0]);
    assert("SU"@[0] != "MO"@[0]);
    assert("SU"@[0] != "TU"@[0]);
    assert("SU"@[0] != "WE"@[0]);
    assert("SU"@[0] != "TH"@[0]);
    assert("SU"@[0] != "FR"@[0]);
    assert("SU"@[1] != "SA"@[1]);
}

proof fn first_letter_behind(a: Seq<char>, b: Seq<char>)
    requires
        forall|i: int| 0 <= i < a.len() ==> !is_alpha(#[trigger] a[i]),
        b.len() > 0,
        is_alpha(b[0]),
    ensures
        first_letter(a + b) == Some(a.len() as int),
    decreases a.len(),
{
    let all = a + b;
    if a.len() > 0 {
        let t = a.skip(1);
        assert forall|i: int| 0 <= i < t.len() implies !is_alpha(#[trigger] t[i]) by {
            assert(t[i] == a[i + 1]);
        }
        first_letter_behind(t, b);
        assert(!is_alpha(a[0]));
        assert(all.skip(1) =~= t + b);
    }
}

/// An item of a `BYDAY` list reads back.
pub proof fn byday_reads_back(d: NDayV)
    ensures
        byday_item(byday_text(d)) == Some(NDayV { type_: "NDay"@, ..d }),
        lacks(byday_text(d), ','),
        lacks(byday_text(d), ';'),
{
    day_words_read_back(d.day);
    let w = day_word(d.day);
    assert('A' <= w[0] <= 'Z');
    let num = match d.nth_of_period {
        Some(n) => int_text(n as int),
        None => Seq::empty(),
    };
    let all = byday_text(d);
    assert(all =~= num + w);
    if let Some(n) = d.nth_of_period {
        parse_int_of_text(n as int, i32::MIN as int, i32::MAX as int);
        int_text_lacks(n as int, ',');
        int_text_lacks(n as int, ';');
        if n < 0 {
            dec_reads_back((-n) as nat);
        } else {
            dec_reads_back(n as nat);
        }
        assert forall|i: int| 0 <= i < num.len() implies !is_alpha(#[trigger] num[i]) by {
            if n < 0 {
                if i > 0 {
                    assert(is_digit(dec((-n) as nat)[i - 1]));
                    assert(num[i] == dec((-n) as nat)[i - 1]);
                }
            } else {
                assert(is_digit(dec(n as nat)[i]));
            }
        }
        assert(num.len() > 0);
    }
    first_letter_behind(num, w);
    assert(all.skip(num.len() as int) =~= w);
    assert(all.take(num.len() as int) =~= num);
    assert forall|i: int| 0 <= i < w.len() implies #[trigger] w[i] != ',' && w[i] != ';' by {
        assert('A' <= w[i] <= 'Z');
    }
    lacks_concat(num, w, ',');
    lacks_concat(num, w, ';');
}

proof fn byday_items_read_back(items: Seq<Seq<char>>, days: Seq<NDayV>)
    requires
        items.len() == days.len(),
        forall|i: int| 0 <= i < items.len() ==> #[trigger] items[i] == byday_text(days[i]),
    ensures
        byday_items(items) == (days_read(days), true),
    decreases items.len(),
{
    if items.len() == 0 {
        assert(days_read(days) =~= Seq::empty());
    } else {
        let n = items.len() - 1;
        byday_items_read_back(items.drop_last(), days.drop_last());
        byday_reads_back(days[n]);
        assert(items.last() == items[n]);
        assert(days_read(days) =~= days_read(days.drop_last()).push(
            NDayV { type_: "NDay"@, ..days[n] },
        ));
    }
}

/// The days of a rule as they read back.
pub open spec fn days_read(days: Seq<NDayV>) -> Seq<NDayV> {
    Seq::new(days.len(), |i: int| NDayV { type_: "NDay"@, ..days[i] })
}

proof fn int_items_read_back(items: Seq<Seq<char>>, ns: Seq<i32>)
    requires
        items.len() == ns.len(),
        forall|i: int| 0 <= i < items.len() ==> #[trigger] items[i] == int_text(ns[i] as int),
    ensures
        int_items(items) == ns,
    decreases items.len(),
{
    if items.len() == 0 {
        assert(ns =~= Seq::empty());
    } else {
        let n = items.len() - 1;
        int_items_read_back(items.drop_last(), ns.drop_last());
        parse_int_of_text(ns[n] as int, i32::MIN as int, i32::MAX as int);
        assert(items.last() == items[n]);
        assert(ns.drop_last().push(ns[n]) =~= ns);
    }
}

// ---------------------------------------------------------------------------
// Parts
// ---------------------------------------------------------------------------

proof fn freq_part(r: RuleReadV, v: Seq<char>)
    ensures
        rule_part(r, "FREQ="@ + v) == Some(RuleReadV { frequency: freq_code(v), ..r }),
{
    reveal_strlit("FREQ=");
    reveal_strlit("FREQ");
    let name = "FREQ"@;
    let all = "FREQ="@ + v;
    assert("FREQ="@ =~= name.push('='));
    assert forall|i: int| 0 <= i < name.len() implies 'A' <= #[trigger] name[i] <= 'Z' by {}
    assert forall|i: int| 0 <= i < name.len() implies all[i] != '=' by {
        assert('A' <= name[i] <= 'Z');
        assert(all[i] == name[i]);
    }
    assert(all[name.len() as int] == '=');
    first_index_is(all, '=', name.len() as int);
    assert(all.take(name.len() as int) =~= name);
    assert(all.skip(name.len() as int + 1) =~= v);
    upper_of_word(name);
}

proof fn interval_part(r: RuleReadV, v: Seq<char>)
    ensures
        rule_part(r, "INTERVAL="@ + v) == Some(RuleReadV { interval: u32_of(v), ..r }),
{
    reveal_strlit("INTERVAL=");
    reveal_strlit("INTERVAL");
    reveal_strlit("FREQ");
    assert("INTERVAL"@.len() != "FREQ"@.len());
    let name = "INTERVAL"@;
    let all = "INTERVAL="@ + v;
    assert("INTERVAL="@ =~= name.push('='));
    assert forall|i: int| 0 <= i < name.len() implies 'A' <= #[trigger] name[i] <= 'Z' by {}
    assert forall|i: int| 0 <= i < name.len() implies all[i] != '=' by {
        assert('A' <= name[i] <= 'Z');
        assert(all[i] == name[i]);
    }
    assert(all[name.len() as int] == '=');
    first_index_is(all, '=', name.len() as int);
    assert(all.take(name.len() as int) =~= name);
    assert(all.skip(name.len() as int + 1) =~= v);
    upper_of_word(name);
}

proof fn count_part(r: RuleReadV, v: Seq<char>)
    ensures
        rule_part(r, "COUNT="@ + v) == Some(RuleReadV { count: u32_of(v), ..r }),
{
    reveal_strlit("COUNT=");
    reveal_strlit("COUNT");
    reveal_strlit("FREQ");
    reveal_strlit("INTERVAL");
    assert("COUNT"@.len() != "FREQ"@.len());
    assert("COUNT"@.len() != "INTERVAL"@.len());
    let name = "COUNT"@;
    let all = "COUNT="@ + v;
    assert("COUNT="@ =~= name.push('='));
    assert forall|i: int| 0 <= i < name.len() implies 'A' <= #[trigger] name[i] <= 'Z' by {}
    assert forall|i: int| 0 <= i < name.len() implies all[i] != '=' by {
        assert('A' <= name[i] <= 'Z');
        assert(all[i] == name[i]);
    }
    assert(all[name.len() as int] == '=');
    first_index_is(all, '=', name.len() as int);
    assert(all.take(name.len() as int) =~= name);
    assert(all.skip(name.len() as int + 1) =~= v);
    upper_of_word(name);
}

proof fn until_part(r: RuleReadV, v: Seq<char>)
    ensures
        rule_part(r, "UNTIL="@ + v) == Some(match time_value(v, Seq::empty()) {
            Some(t) => RuleReadV { until: Some(iso_text(t.0)), ..r },
            None => RuleReadV { unsupported: true, ..r },
        }),
{
    reveal_strlit("UNTIL=");
    reveal_strlit("UNTIL");
    reveal_strlit("FREQ");
    reveal_strlit("INTERVAL");
    reveal_strlit("COUNT");
    assert("UNTIL"@.len() != "FREQ"@.len());
    assert("UNTIL"@.len() != "INTERVAL"@.len());
    assert("UNTIL"@[0] != "COUNT"@[0]);
    let name = "UNTIL"@;
    let all = "UNTIL="@ + v;
    assert("UNTIL="@ =~= name.push('='));
    assert forall|i: int| 0 <= i < name.len() implies 'A' <= #[trigger] name[i] <= 'Z' by {}
    assert forall|i: int| 0 <= i < name.len() implies all[i] != '=' by {
        assert('A' <= name[i] <= 'Z');
        assert(all[i] == name[i]);
    }
    assert(all[name.len() as int] == '=');
    first_index_is(all, '=', name.len() as int);
    assert(all.take(name.len() as int) =~= name);
    assert(all.skip(name.len() as int + 1) =~= v);
    upper_of_word(name);
}

proof fn byday_part(r: RuleReadV, v: Seq<char>)
    ensures
        rule_part(r, "BYDAY="@ + v) == Some(RuleReadV {
            by_day: r.by_day + byday_items(split(v, ',')).0,
            unsupported: r.unsupported || !byday_items(split(v, ',')).1,
            ..r
        }),
{
    reveal_strlit("BYDAY=");
    reveal_strlit("BYDAY");
    reveal_strlit("FREQ");
    reveal_strlit("INTERVAL");
    reveal_strlit("COUNT");
    reveal_strlit("UNTIL");
    assert("BYDAY"@.len() != "FREQ"@.len());
    assert("BYDAY"@.len() != "INTERVAL"@.len());
    assert("BYDAY"@[0] != "COUNT"@[0]);
    assert("BYDAY"@[0] != "UNTIL"@[0]);
    let name = "BYDAY"@;
    let all = "BYDAY="@ + v;
    assert("BYDAY="@ =~= name.push('='));
    assert forall|i: int| 0 <= i < name.len() implies 'A' <= #[trigger] name[i] <= 'Z' by {}
    assert forall|i: int| 0 <= i < name.len() implies all[i] != '=' by {
        assert('A' <= name[i] <= 'Z');
        assert(all[i] == name[i]);
    }
    assert(all[name.len() as int] == '=');
    first_index_is(all, '=', name.len() as int);
    assert(all.take(name.len() as int) =~= name);
    assert(all.skip(name.len() as int + 1) =~= v);
    upper_of_word(name);
}

proof fn bymonthday_part(r: RuleReadV, v: Seq<char>)
    ensures
        rule_part(r, "BYMONTHDAY="@ + v) == Some(
            RuleReadV { by_month_day: r.by_month_day + int_items(split(v, ',')), ..r },
        ),
{
    reveal_strlit("BYMONTHDAY=");
    reveal_strlit("BYMONTHDAY");
    reveal_strlit("FREQ");
    reveal_strlit("INTERVAL");
    reveal_strlit("COUNT");
    reveal_strlit("UNTIL");
    reveal_strlit("BYDAY");
    assert("BYMONTHDAY"@.len() != "FREQ"@.len());
    assert("BYMONTHDAY"@.len() != "INTERVAL"@.len());
    assert("BYMONTHDAY"@.len() != "COUNT"@.len());
    assert("BYMONTHDAY"@.len() != "UNTIL"@.len());
    assert("BYMONTHDAY"@.len() != "BYDAY"@.len());
    let name = "BYMONTHDAY"@;
    let all = "BYMONTHDAY="@ + v;
    assert("BYMONTHDAY="@ =~= name.push('='));
    assert forall|i: int| 0 <= i < name.len() implies 'A' <= #[trigger] name[i] <= 'Z' by {}
    assert forall|i: int| 0 <= i < name.len() implies all[i] != '=' by {
        assert('A' <= name[i] <= 'Z');
        assert(all[i] == name[i]);
    }
    assert(all[name.len() as int] == '=');
    first_index_is(all, '=', name.len() as int);
    assert(all.take(name.len() as int) =~= name);
    assert(all.skip(name.len() as int + 1) =~= v);
    upper_of_word(name);
}

proof fn bymonth_part(r: RuleReadV, v: Seq<char>)
    ensures
        rule_part(r, "BYMONTH="@ + v) == Some(
            RuleReadV { by_month: r.by_month + split(v, ','), ..r },
        ),
{
    reveal_strlit("BYMONTH=");
    reveal_strlit("BYMONTH");
    reveal_strlit("FREQ");
    reveal_strlit("INTERVAL");
    reveal_strlit("COUNT");
    reveal_strlit("UNTIL");
    reveal_strlit("BYDAY");
    reveal_strlit("BYMONTHDAY");
    assert("BYMONTH"@.len() != "FREQ"@.len());
    assert("BYMONTH"@.len() != "INTERVAL"@.len());
    assert("BYMONTH"@.len() != "COUNT"@.len());
    assert("BYMONTH"@.len() != "UNTIL"@.len());
    assert("BYMONTH"@.len() != "BYDAY"@.len());
    assert("BYMONTH"@.len() != "BYMONTHDAY"@.len());
    let name = "BYMONTH"@;
    let all = "BYMONTH="@ + v;
    assert("BYMONTH="@ =~= name.push('='));
    assert forall|i: int| 0 <= i < name.len() implies 'A' <= #[trigger] name[i] <= 'Z' by {}
    assert forall|i: int| 0 <= i < name.len() implies all[i] != '=' by {
        assert('A' <= name[i] <= 'Z');
        assert(all[i] == name[i]);
    }
    assert(all[name.len() as int] == '=');
    first_index_is(all, '=', name.len() as int);
    assert(all.take(name.len() as int) =~= name);
    assert(all.skip(name.len() as int + 1) =~= v);
    upper_of_word(name);
}

proof fn one_more_part(parts: Seq<Seq<char>>, p: Seq<char>)
    requires
        rule_parts(parts) is Some,
    ensures
        rule_parts(parts.push(p)) == rule_part(rule_parts(parts)->0, p),
{
    assert(parts.push(p).drop_last() =~= parts);
}

/// What a rule is when it has been written and read back: an interval of one is left out, an
/// end that cannot be read too, and what only has default types gets those.
pub open spec fn rule_read_back(rule: RecurrenceRuleV) -> RecurrenceRuleV {
    RecurrenceRuleV {
        type_: "RecurrenceRule"@,
        frequency: rule.frequency,
        interval: if rule.interval is Some && rule.interval->0 > 1 {
            rule.interval
        } else {
            None
        },
        count: rule.count,
        until: match rule.until {
            Some(u) => match local_time(u) {
                Some(t) => Some(iso_text(t)),
                None => None,
            },
            None => None,
        },
        by_day: days_read(rule.by_day),
        by_month_day: rule.by_month_day,
        by_month: rule.by_month,
        by_set_position: Seq::empty(),
        extra: Seq::empty(),
    }
}

/// A rule that can be written and read back: no positions, an end whose year has four digits,
/// and months without the separators of lists.
pub open spec fn rule_writable(rule: RecurrenceRuleV) -> bool {
    &&& rule.by_set_position.len() == 0
    &&& rule.until is Some && local_time(rule.until->0) is Some ==> 0 <= local_time(
        rule.until->0,
    )->0.date.year <= 9999
    &&& forall|i: int|
        0 <= i < rule.by_month.len() ==> lacks(#[trigger] rule.by_month[i], ',') && lacks(
            rule.by_month[i],
            ';',
        )
}

proof fn u32_reads_back(n: u32)
    ensures
        u32_of(dec(n as nat)) == Some(n),
        lacks(dec(n as nat), ';'),
{
    parse_int_of_text(n as int, 0, u32::MAX as int);
    dec_reads_back(n as nat);
    digits_lack(dec(n as nat), ';');
}

proof fn prefixes_lack()
    ensures
        lacks("FREQ="@, ';'),
        lacks("INTERVAL="@, ';'),
        lacks("COUNT="@, ';'),
        lacks("UNTIL="@, ';'),
        lacks("BYDAY="@, ';'),
        lacks("BYMONTHDAY="@, ';'),
        lacks("BYMONTH="@, ';'),
        lacks(","@, ';'),
        ","@ == seq![','],
        ";"@ == seq![';'],
{
    reveal_strlit("FREQ=");
    reveal_strlit("INTERVAL=");
    reveal_strlit("COUNT=");
    reveal_strlit("UNTIL=");
    reveal_strlit("BYDAY=");
    reveal_strlit("BYMONTHDAY=");
    reveal_strlit("BYMONTH=");
    reveal_strlit(",");
    reveal_strlit(";");
    assert(","@ =~= seq![',']);
    assert(";"@ =~= seq![';']);
}

proof fn days_list(days: Seq<NDayV>)
    requires
        days.len() > 0,
    ensures
        ({
            let text = join(Seq::new(days.len(), |i: int| byday_text(days[i])), ","@);
            byday_items(split(text, ',')) == (days_read(days), true) && lacks(text, ';')
        }),
{
    prefixes_lack();
    let items = Seq::new(days.len(), |i: int| byday_text(days[i]));
    assert forall|i: int| 0 <= i < items.len() implies lacks(#[trigger] items[i], ',') && lacks(
        items[i],
        ';',
    ) by {
        byday_reads_back(days[i]);
    }
    split_undoes_join(items, ',');
    byday_items_read_back(items, days);
    join_lacks(items, ","@, ';');
}

proof fn ints_list(ns: Seq<i32>)
    requires
        ns.len() > 0,
    ensures
        int_items(split(int_list(ns), ',')) == ns,
        lacks(int_list(ns), ';'),
{
    prefixes_lack();
    let items = Seq::new(ns.len(), |i: int| int_text(ns[i] as int));
    assert forall|i: int| 0 <= i < items.len() implies lacks(#[trigger] items[i], ',') && lacks(
        items[i],
        ';',
    ) by {
        int_text_lacks(ns[i] as int, ',');
        int_text_lacks(ns[i] as int, ';');
    }
    split_undoes_join(items, ',');
    int_items_read_back(items, ns);
    join_lacks(items, ","@, ';');
}

/// Every part of a written rule lacks the separator, and together they read back.
#[verifier::rlimit(60)]
proof fn parts_read_back(rule: RecurrenceRuleV)
    requires
        rule_writable(rule),
    ensures
        forall|i: int|
            0 <= i < rrule_parts(rule).len() ==> lacks(#[trigger] rrule_parts(rule)[i], ';'),
        rule_parts(rrule_parts(rule)) == Some(
            RuleReadV {
                frequency: Some(rule.frequency),
                interval: rule_read_back(rule).interval,
                count: rule.count,
                until: rule_read_back(rule).until,
                by_day: days_read(rule.by_day),
                by_month_day: rule.by_month_day,
                by_month: rule.by_month,
                unsupported: false,
            },
        ),
{
    prefixes_lack();
    let e = Seq::<Seq<char>>::empty();
    let r = rule_read_start();
    assert(rule_parts(e) == Some(r));
    // frequency
    freq_words_read_back(rule.frequency);
    let w = freq_word(rule.frequency);
    let a0 = "FREQ="@ + w;
    freq_part(r, w);
    one_more_part(e, a0);
    assert forall|i: int| 0 <= i < w.len() implies #[trigger] w[i] != ';' by {
        assert('A' <= w[i] <= 'Z');
    }
    lacks_concat("FREQ="@, w, ';');
    let p0 = seq![a0];
    assert(e.push(a0) =~= p0);
    let r0 = RuleReadV { frequency: Some(rule.frequency), ..r };
    assert(rule_parts(p0) == Some(r0));
    // interval
    let c1 = rule.interval is Some && rule.interval->0 > 1;
    let v1 = dec(rule.interval->0 as nat);
    let p1 = push_if(p0, c1, "INTERVAL="@ + v1);
    let r1 = RuleReadV { interval: rule_read_back(rule).interval, ..r0 };
    if c1 {
        u32_reads_back(rule.interval->0);
        interval_part(r0, v1);
        one_more_part(p0, "INTERVAL="@ + v1);
        lacks_concat("INTERVAL="@, v1, ';');
    } else {
        assert(r1 == r0);
    }
    assert(rule_parts(p1) == Some(r1));
    // count
    let c2 = rule.count is Some;
    let v2 = dec(rule.count->0 as nat);
    let p2 = push_if(p1, c2, "COUNT="@ + v2);
    let r2 = RuleReadV { count: rule.count, ..r1 };
    if c2 {
        u32_reads_back(rule.count->0);
        count_part(r1, v2);
        one_more_part(p1, "COUNT="@ + v2);
        lacks_concat("COUNT="@, v2, ';');
    } else {
        assert(r2 == r1);
    }
    assert(rule_parts(p2) == Some(r2));
    // until
    let until = match rule.until {
        Some(u) => local_time(u),
        None => None,
    };
    let c3 = until is Some;
    let v3 = basic_text(until->0).push('Z');
    let p3 = push_if(p2, c3, "UNTIL="@ + v3);
    let r3 = RuleReadV { until: rule_read_back(rule).until, ..r2 };
    if c3 {
        local_time_on_clock(rule.until->0);
        utc_value_reads_back(until->0);
        until_part(r2, v3);
        one_more_part(p2, "UNTIL="@ + v3);
        basic_text_lacks(until->0);
        lacks_concat("UNTIL="@, v3, ';');
    } else {
        assert(r3 == r2);
    }
    assert(rule_parts(p3) == Some(r3));
    // days
    let c4 = rule.by_day.len() > 0;
    let v4 = join(Seq::new(rule.by_day.len(), |i: int| byday_text(rule.by_day[i])), ","@);
    let p4 = push_if(p3, c4, "BYDAY="@ + v4);
    let r4 = RuleReadV { by_day: days_read(rule.by_day), ..r3 };
    if c4 {
        days_list(rule.by_day);
        byday_part(r3, v4);
        one_more_part(p3, "BYDAY="@ + v4);
        lacks_concat("BYDAY="@, v4, ';');
        assert(r3.by_day + days_read(rule.by_day) =~= days_read(rule.by_day));
    } else {
        assert(days_read(rule.by_day) =~= Seq::empty());
        assert(r4 == r3);
    }
    assert(rule_parts(p4) == Some(r4));
    // days of the month
    let c5 = rule.by_month_day.len() > 0;
    let v5 = int_list(rule.by_month_day);
    let p5 = push_if(p4, c5, "BYMONTHDAY="@ + v5);
    let r5 = RuleReadV { by_month_day: rule.by_month_day, ..r4 };
    if c5 {
        ints_list(rule.by_month_day);
        bymonthday_part(r4, v5);
        one_more_part(p4, "BYMONTHDAY="@ + v5);
        lacks_concat("BYMONTHDAY="@, v5, ';');
        assert(r4.by_month_day + rule.by_month_day =~= rule.by_month_day);
    } else {
        assert(rule.by_month_day =~= Seq::empty());
        assert(r5 == r4);
    }
    assert(rule_parts(p5) == Some(r5));
    // months
    let c6 = rule.by_month.len() > 0;
    let v6 = join(rule.by_month, ","@);
    let p6 = push_if(p5, c6, "BYMONTH="@ + v6);
    let r6 = RuleReadV { by_month: rule.by_month, ..r5 };
    if c6 {
        split_undoes_join(rule.by_month, ',');
        join_lacks(rule.by_month, ","@, ';');
        bymonth_part(r5, v6);
        one_more_part(p5, "BYMONTH="@ + v6);
        lacks_concat("BYMONTH="@, v6, ';');
        assert(r5.by_month + rule.by_month =~= rule.by_month);
    } else {
        assert(rule.by_month =~= Seq::empty());
        assert(r6 == r5);
    }
    assert(rule_parts(p6) == Some(r6));
    assert(rrule_parts(rule) == p6);
}

proof fn basic_text_lacks(t: NaiveDateTime)
    requires
        t.valid(),
        0 <= t.date.year <= 9999,
    ensures
        lacks(basic_text(t).push('Z'), ';'),
{
    crate::ics_laws::basic_text_shape(t);
    let s = basic_text(t);
    assert forall|i: int| 0 <= i < s.push('Z').len() implies #[trigger] s.push('Z')[i] != ';' by {
        if i < 15 && i != 8 {
            assert(is_digit(s[i]));
        }
    }
}

/// Reading a written rule gives the rule back.
pub proof fn rrule_round_trip(rule: RecurrenceRuleV)
    requires
        rule_writable(rule),
    ensures
        rrule_value(rrule_text(rule)) == Some(rule_read_back(rule)),
{
    parts_read_back(rule);
    prefixes_lack();
    split_undoes_join(rrule_parts(rule), ';');
}

} // verus!
