//! A minimal parser and writer for the `VEVENT`s of iCalendar.
//!
//! Each parsed event becomes a [`CalendarEvent`] in a synthetic calendar whose id is the
//! subscription's id behind `ics:`, so that recurrence expansion and rendering apply to
//! subscribed calendars unchanged.
//!
//! It is narrow on purpose and covers what public read-only feeds use: `SUMMARY`, `UID`,
//! `DTSTART`, `DTEND`, `DURATION`, a subset of `RRULE` (`FREQ`, `INTERVAL`, `COUNT`,
//! `UNTIL`, `BYDAY`, `BYMONTHDAY`, `BYMONTH`) and `EXDATE`. `VTIMEZONE` blocks are ignored:
//! a `DTSTART` with a `TZID` parameter but no trailing `Z` is floating. `VALARM`, `ATTENDEE`
//! and `RECURRENCE-ID` overrides are skipped.

use chrono::{Datelike, Timelike};
use vstd::prelude::*;
use vstd::string::*;
use vstd::slice::slice_subrange;
use crate::calendar::{plus_secs, seconds_between, secs_between, NaiveDate, NaiveDateTime};
use crate::collections::{map_insert, CloneView, StrMap};
use crate::contentline::{
    document, escape_text, escaped, fold_line, line_parts, parse_line, unescape_text, unescaped,
    unfold, unfolded, upper, upper_str, Params, ParamsV,
};
use crate::duration::{
    duration_secs, duration_text, format_duration, secs_fit, try_parse_duration, Duration,
};
use crate::jscalendar::{
    local_time, CalendarEvent, CalendarEventV, Frequency, LocalDateTime, NDay, NDayV,
    RecurrenceRule, RecurrenceRuleV, Weekday,
};
use crate::json::{Value, ValueV};
use crate::numbers::{
    dec, i64_text, int_text, parse_i32, parse_i32_str, parse_int, parse_u32_str, u64_text,
};
use crate::text::{
    byte_len, byte_width, char_is_alpha, chars_of, concat2, concat_all, contains_char, has_char,
    is_alpha, join, join_str, split, split_once, split_once_str, split_str, starts_with, str_eq,
    str_starts_with, string_of,
};
use crate::timetext::{
    basic_date_text, basic_text, format_time, iso_text, read_basic, read_basic_date, read_date,
    read_time,
};

verus! {

/// The prefix of a calendar id that marks an ICS subscription.
pub const ICS_PSEUDO_PREFIX: &'static str = "ics:";

/// The id of the calendar that a subscription's events are in.
pub fn pseudo_calendar_id(subscription_id: &str) -> (r: String)
    ensures
        r@ == "ics:"@ + subscription_id@,
{
    concat2("ics:", subscription_id)
}

/// Whether a calendar id is that of a subscription.
pub fn is_ics_pseudo_id(calendar_id: &str) -> (r: bool)
    ensures
        r == starts_with(calendar_id@, "ics:"@),
{
    str_starts_with(calendar_id, "ics:")
}

/// The id of a subscription's calendar is one of a subscription.
pub proof fn pseudo_ids_are_recognized(subscription_id: Seq<char>)
    ensures
        starts_with("ics:"@ + subscription_id, "ics:"@),
{
    let p = "ics:"@;
    assert((p + subscription_id).take(p.len() as int) =~= p);
}

// ---------------------------------------------------------------------------
// Times
// ---------------------------------------------------------------------------

/// The value of a `DTSTART`, `DTEND`, `EXDATE` or `UNTIL`: the wall-clock time, whether it is
/// a whole day, and its time zone.
pub type TimeV = (NaiveDateTime, bool, Option<Seq<char>>);

/// There is a parameter with this name and value.
pub open spec fn has_param(params: ParamsV, k: Seq<char>, v: Seq<char>) -> bool {
    exists|i: int| 0 <= i < params.len() && #[trigger] params[i] == (k, v)
}

/// What the value of a date or time property stands for.
pub open spec fn time_value(raw: Seq<char>, params: ParamsV) -> Option<TimeV> {
    if has_param(params, "VALUE"@, "DATE"@) || (byte_len(raw) == 8 && !has_char(raw, 'T')) {
        match read_date(raw, "%Y%m%d"@) {
            Some(d) => Some((d.midnight(), true, None)),
            None => None,
        }
    } else {
        let utc = raw.len() > 0 && raw.last() == 'Z';
        match read_time(
            if utc {
                raw.drop_last()
            } else {
                raw
            },
            "%Y%m%dT%H%M%S"@,
        ) {
            Some(t) => Some(
                (
                    t,
                    false,
                    if utc {
                        Some("UTC"@)
                    } else {
                        None
                    },
                ),
            ),
            None => None,
        }
    }
}

fn any_param(params: &Params, k: &str, v: &str) -> (r: bool)
    ensures
        r == has_param(params.deep_view(), k@, v@),
{
    let ghost pv = params.deep_view();
    let mut i: usize = 0;
    while i < params.len()
        invariant
            0 <= i <= params@.len(),
            pv == params.deep_view(),
            forall|j: int| 0 <= j < i ==> #[trigger] pv[j] != (k@, v@),
        decreases params@.len() - i,
    {
        let p = &params[i];
        assert(pv[i as int] == (p.0@, p.1@));
        if str_eq(p.0.as_str(), k) && str_eq(p.1.as_str(), v) {
            assert(pv[i as int] == (k@, v@));
            return true;
        }
        i = i + 1;
    }
    false
}

/// What the value of a date or time property stands for.
fn parse_datetime(raw: &str, params: &Params) -> (r: Option<(NaiveDateTime, bool, Option<String>)>)
    ensures
        r.deep_view() == time_value(raw@, params.deep_view()),
        r is Some ==> (r->0).0.valid(),
{
    let v = chars_of(raw);
    if any_param(params, "VALUE", "DATE") || (byte_width(v.as_slice()) == 8 && !contains_char(
        v.as_slice(),
        'T',
    )) {
        return match read_basic_date(raw) {
            Some(d) => Some((d.at_midnight(), true, None)),
            None => None,
        };
    }
    let utc = v.len() > 0 && v[v.len() - 1] == 'Z';
    let t = if utc {
        let stripped = string_of(slice_subrange(v.as_slice(), 0, v.len() - 1));
        assert(stripped@ =~= raw@.drop_last());
        read_basic(stripped.as_str())
    } else {
        read_basic(raw)
    };
    match t {
        Some(t) => {
            if utc {
                Some((t, false, Some("UTC".to_string())))
            } else {
                Some((t, false, None))
            }
        },
        None => None,
    }
}

// ---------------------------------------------------------------------------
// Recurrence rules
// ---------------------------------------------------------------------------

/// Where the first ASCII letter stands.
pub open spec fn first_letter(s: Seq<char>) -> Option<int>
    decreases s.len(),
{
    if s.len() == 0 {
        None
    } else if is_alpha(s[0]) {
        Some(0)
    } else {
        match first_letter(s.skip(1)) {
            Some(i) => Some(i + 1),
            None => None,
        }
    }
}

/// The day of the week that two capitals stand for.
pub open spec fn day_code(s: Seq<char>) -> Option<Weekday> {
    if s == "MO"@ {
        Some(Weekday::Monday)
    } else if s == "TU"@ {
        Some(Weekday::Tuesday)
    } else if s == "WE"@ {
        Some(Weekday::Wednesday)
    } else if s == "TH"@ {
        Some(Weekday::Thursday)
    } else if s == "FR"@ {
        Some(Weekday::Friday)
    } else if s == "SA"@ {
        Some(Weekday::Saturday)
    } else if s == "SU"@ {
        Some(Weekday::Sunday)
    } else {
        None
    }
}

/// An item of a `BYDAY` list, such as `MO` or `-1FR`.
pub open spec fn byday_item(s: Seq<char>) -> Option<NDayV> {
    match first_letter(s) {
        Some(i) => match day_code(s.skip(i)) {
            Some(day) => Some(
                NDayV {
                    type_: "NDay"@,
                    day,
                    nth_of_period: if i == 0 {
                        None
                    } else {
                        match parse_int(s.take(i), i32::MIN as int, i32::MAX as int) {
                            Some(n) => Some(n as i32),
                            None => None,
                        }
                    },
                },
            ),
            None => None,
        },
        None => None,
    }
}

/// The items of a `BYDAY` list that can be read, and whether that is all of them.
pub open spec fn byday_items(items: Seq<Seq<char>>) -> (Seq<NDayV>, bool)
    decreases items.len(),
{
    if items.len() == 0 {
        (Seq::empty(), true)
    } else {
        let before = byday_items(items.drop_last());
        match byday_item(items.last()) {
            Some(d) => (before.0.push(d), before.1),
            None => (before.0, false),
        }
    }
}

/// The items of a `BYMONTHDAY` list that are numbers.
pub open spec fn int_items(items: Seq<Seq<char>>) -> Seq<i32>
    decreases items.len(),
{
    if items.len() == 0 {
        Seq::empty()
    } else {
        match parse_int(items.last(), i32::MIN as int, i32::MAX as int) {
            Some(n) => int_items(items.drop_last()).push(n as i32),
            None => int_items(items.drop_last()),
        }
    }
}

/// The frequency that a word stands for.
pub open spec fn freq_code(s: Seq<char>) -> Option<Frequency> {
    if s == "DAILY"@ {
        Some(Frequency::Daily)
    } else if s == "WEEKLY"@ {
        Some(Frequency::Weekly)
    } else if s == "MONTHLY"@ {
        Some(Frequency::Monthly)
    } else if s == "YEARLY"@ {
        Some(Frequency::Yearly)
    } else if s == "HOURLY"@ {
        Some(Frequency::Hourly)
    } else if s == "MINUTELY"@ {
        Some(Frequency::Minutely)
    } else if s == "SECONDLY"@ {
        Some(Frequency::Secondly)
    } else {
        None
    }
}

/// The word for a frequency.
pub open spec fn freq_word(f: Frequency) -> Seq<char> {
    match f {
        Frequency::Daily => "DAILY"@,
        Frequency::Weekly => "WEEKLY"@,
        Frequency::Monthly => "MONTHLY"@,
        Frequency::Yearly => "YEARLY"@,
        Frequency::Hourly => "HOURLY"@,
        Frequency::Minutely => "MINUTELY"@,
        Frequency::Secondly => "SECONDLY"@,
    }
}

/// The two capitals for a day of the week.
pub open spec fn day_word(d: Weekday) -> Seq<char> {
    match d {
        Weekday::Monday => "MO"@,
        Weekday::Tuesday => "TU"@,
        Weekday::Wednesday => "WE"@,
        Weekday::Thursday => "TH"@,
        Weekday::Friday => "FR"@,
        Weekday::Saturday => "SA"@,
        Weekday::Sunday => "SU"@,
    }
}

/// A rule that is being read.
#[verifier::ext_equal]
pub struct RuleReadV {
    pub frequency: Option<Frequency>,
    pub interval: Option<u32>,
    pub count: Option<u32>,
    pub until: Option<Seq<char>>,
    pub by_day: Seq<NDayV>,
    pub by_month_day: Seq<i32>,
    pub by_month: Seq<Seq<char>>,
    pub unsupported: bool,
}

pub open spec fn rule_read_start() -> RuleReadV {
    RuleReadV {
        frequency: None,
        interval: None,
        count: None,
        until: None,
        by_day: Seq::empty(),
        by_month_day: Seq::empty(),
        by_month: Seq::empty(),
        unsupported: false,
    }
}

/// The `u32` that a text stands for.
pub open spec fn u32_of(s: Seq<char>) -> Option<u32> {
    match parse_int(s, 0, u32::MAX as int) {
        Some(n) => Some(n as u32),
        None => None,
    }
}

/// A key that makes a rule one that cannot be expanded here.
pub open spec fn unsupported_key(k: Seq<char>) -> bool {
    k == "BYSETPOS"@ || k == "BYWEEKNO"@ || k == "BYYEARDAY"@ || k == "BYHOUR"@ || k == "BYMINUTE"@
        || k == "BYSECOND"@
}

/// The rule after one more part `KEY=value`; `None` for a part without `=`.
pub open spec fn rule_part(r: RuleReadV, part: Seq<char>) -> Option<RuleReadV> {
    match split_once(part, '=') {
        None => None,
        Some(p) => {
            let key = upper(p.0);
            let val = p.1;
            Some(
                if key == "FREQ"@ {
                    RuleReadV { frequency: freq_code(val), ..r }
                } else if key == "INTERVAL"@ {
                    RuleReadV { interval: u32_of(val), ..r }
                } else if key == "COUNT"@ {
                    RuleReadV { count: u32_of(val), ..r }
                } else if key == "UNTIL"@ {
                    match time_value(val, Seq::empty()) {
                        Some(t) => RuleReadV { until: Some(iso_text(t.0)), ..r },
                        None => RuleReadV { unsupported: true, ..r },
                    }
                } else if key == "BYDAY"@ {
                    let items = byday_items(split(val, ','));
                    RuleReadV {
                        by_day: r.by_day + items.0,
                        unsupported: r.unsupported || !items.1,
                        ..r
                    }
                } else if key == "BYMONTHDAY"@ {
                    RuleReadV { by_month_day: r.by_month_day + int_items(split(val, ',')), ..r }
                } else if key == "BYMONTH"@ {
                    RuleReadV { by_month: r.by_month + split(val, ','), ..r }
                } else if unsupported_key(key) {
                    RuleReadV { unsupported: true, ..r }
                } else {
                    r
                },
            )
        },
    }
}

/// The rule after all its parts.
pub open spec fn rule_parts(parts: Seq<Seq<char>>) -> Option<RuleReadV>
    decreases parts.len(),
{
    if parts.len() == 0 {
        Some(rule_read_start())
    } else {
        match rule_parts(parts.drop_last()) {
            Some(r) => rule_part(r, parts.last()),
            None => None,
        }
    }
}

/// The rule that an `RRULE` value stands for, where it is one that can be expanded.
pub open spec fn rrule_value(s: Seq<char>) -> Option<RecurrenceRuleV> {
    match rule_parts(split(s, ';')) {
        Some(r) => match r.frequency {
            Some(frequency) => if r.unsupported {
                None
            } else {
                Some(
                    RecurrenceRuleV {
                        type_: "RecurrenceRule"@,
                        frequency,
                        interval: r.interval,
                        count: r.count,
                        until: r.until,
                        by_day: r.by_day,
                        by_month_day: r.by_month_day,
                        by_month: r.by_month,
                        by_set_position: Seq::empty(),
                        extra: Seq::empty(),
                    },
                )
            },
            None => None,
        },
        None => None,
    }
}

fn find_letter(s: &[char]) -> (r: Option<usize>)
    ensures
        match r {
            Some(i) => first_letter(s@) == Some(i as int) && i < s@.len(),
            None => first_letter(s@) is None,
        },
{
    let mut i: usize = 0;
    assert(s@.skip(0) =~= s@);
    while i < s.len()
        invariant
            0 <= i <= s@.len(),
            match first_letter(s@.skip(i as int)) {
                Some(k) => first_letter(s@) == Some(i + k),
                None => first_letter(s@) is None,
            },
        decreases s@.len() - i,
    {
        assert(s@.skip(i as int)[0] == s@[i as int]);
        assert(s@.skip(i as int).skip(1) =~= s@.skip(i + 1));
        if char_is_alpha(s[i]) {
            return Some(i);
        }
        i = i + 1;
    }
    assert(s@.skip(i as int) =~= Seq::empty());
    None
}

fn parse_day_code(s: &str) -> (r: Option<Weekday>)
    ensures
        r == day_code(s@),
{
    if str_eq(s, "MO") {
        Some(Weekday::Monday)
    } else if str_eq(s, "TU") {
        Some(Weekday::Tuesday)
    } else if str_eq(s, "WE") {
        Some(Weekday::Wednesday)
    } else if str_eq(s, "TH") {
        Some(Weekday::Thursday)
    } else if str_eq(s, "FR") {
        Some(Weekday::Friday)
    } else if str_eq(s, "SA") {
        Some(Weekday::Saturday)
    } else if str_eq(s, "SU") {
        Some(Weekday::Sunday)
    } else {
        None
    }
}

fn parse_byday(item: &str) -> (r: Option<NDay>)
    ensures
        r.deep_view() == byday_item(item@),
{
    let v = chars_of(item);
    let i: usize = match find_letter(v.as_slice()) {
        Some(i) => i,
        None => {
            return None;
        },
    };
    let num = slice_subrange(v.as_slice(), 0, i);
    assert(num@ =~= item@.take(i as int));
    let nth_of_period = if i == 0 {
        None
    } else {
        parse_i32(num)
    };
    let word = string_of(slice_subrange(v.as_slice(), i, v.len()));
    assert(word@ =~= item@.skip(i as int));
    match parse_day_code(word.as_str()) {
        Some(day) => Some(NDay { type_: "NDay".to_string(), day, nth_of_period }),
        None => None,
    }
}

fn parse_freq(s: &str) -> (r: Option<Frequency>)
    ensures
        r == freq_code(s@),
{
    if str_eq(s, "DAILY") {
        Some(Frequency::Daily)
    } else if str_eq(s, "WEEKLY") {
        Some(Frequency::Weekly)
    } else if str_eq(s, "MONTHLY") {
        Some(Frequency::Monthly)
    } else if str_eq(s, "YEARLY") {
        Some(Frequency::Yearly)
    } else if str_eq(s, "HOURLY") {
        Some(Frequency::Hourly)
    } else if str_eq(s, "MINUTELY") {
        Some(Frequency::Minutely)
    } else if str_eq(s, "SECONDLY") {
        Some(Frequency::Secondly)
    } else {
        None
    }
}

/// A rule that is being read.
struct RuleRead {
    frequency: Option<Frequency>,
    interval: Option<u32>,
    count: Option<u32>,
    until: Option<LocalDateTime>,
    by_day: Vec<NDay>,
    by_month_day: Vec<i32>,
    by_month: Vec<String>,
    unsupported: bool,
}

impl DeepView for RuleRead {
    type V = RuleReadV;

    closed spec fn deep_view(&self) -> RuleReadV {
        RuleReadV {
            frequency: self.frequency,
            interval: self.interval,
            count: self.count,
            until: self.until.deep_view(),
            by_day: self.by_day.deep_view(),
            by_month_day: self.by_month_day.deep_view(),
            by_month: self.by_month.deep_view(),
            unsupported: self.unsupported,
        }
    }
}

impl RuleRead {
    fn add_days(&mut self, items: &Vec<String>)
        ensures
            final(self).deep_view() == (RuleReadV {
                by_day: old(self).deep_view().by_day + byday_items(items.deep_view()).0,
                unsupported: old(self).unsupported || !byday_items(items.deep_view()).1,
                ..old(self).deep_view()
            }),
    {
        let ghost iv = items.deep_view();
        let ghost start = self.deep_view();
        let mut i: usize = 0;
        assert(iv.take(0) =~= Seq::empty());
        assert(start.by_day + Seq::empty() =~= start.by_day);
        while i < items.len()
            invariant
                0 <= i <= items@.len(),
                iv == items.deep_view(),
                self.deep_view() == (RuleReadV {
                    by_day: start.by_day + byday_items(iv.take(i as int)).0,
                    unsupported: start.unsupported || !byday_items(iv.take(i as int)).1,
                    ..start
                }),
            decreases items@.len() - i,
        {
            proof {
                assert(iv.take(i + 1).drop_last() =~= iv.take(i as int));
                assert(iv.take(i + 1).last() == items@[i as int]@);
            }
            let ghost before = self.deep_view().by_day;
            match parse_byday(items[i].as_str()) {
                Some(d) => {
                    self.by_day.push(d);
                    assert(self.by_day.deep_view() =~= before.push(d.deep_view()));
                    assert(before.push(d.deep_view()) =~= start.by_day + byday_items(
                        iv.take(i as int),
                    ).0.push(d.deep_view()));
                },
                None => {
                    self.unsupported = true;
                },
            }
            i = i + 1;
        }
        assert(iv.take(i as int) =~= iv);
    }

    fn add_month_days(&mut self, items: &Vec<String>)
        ensures
            final(self).deep_view() == (RuleReadV {
                by_month_day: old(self).deep_view().by_month_day + int_items(items.deep_view()),
                ..old(self).deep_view()
            }),
    {
        let ghost iv = items.deep_view();
        let ghost start = self.deep_view();
        let mut i: usize = 0;
        assert(iv.take(0) =~= Seq::empty());
        assert(start.by_month_day + Seq::empty() =~= start.by_month_day);
        while i < items.len()
            invariant
                0 <= i <= items@.len(),
                iv == items.deep_view(),
                self.deep_view() == (RuleReadV {
                    by_month_day: start.by_month_day + int_items(iv.take(i as int)),
                    ..start
                }),
            decreases items@.len() - i,
        {
            proof {
                assert(iv.take(i + 1).drop_last() =~= iv.take(i as int));
                assert(iv.take(i + 1).last() == items@[i as int]@);
            }
            let ghost before = self.deep_view().by_month_day;
            if let Some(n) = parse_i32_str(items[i].as_str()) {
                self.by_month_day.push(n);
                assert(self.by_month_day.deep_view() =~= before.push(n));
                assert(before.push(n) =~= start.by_month_day + int_items(iv.take(i as int)).push(
                    n,
                ));
            }
            i = i + 1;
        }
        assert(iv.take(i as int) =~= iv);
    }

    /// Takes one more part; whether it has the shape of one.
    fn take_part(&mut self, part: &str) -> (r: bool)
        ensures
            r == (rule_part(old(self).deep_view(), part@) is Some),
            r ==> Some(final(self).deep_view()) == rule_part(old(self).deep_view(), part@),
    {
        let (raw_key, val) = match split_once_str(part, '=') {
            Some(p) => p,
            None => {
                return false;
            },
        };
        let key_text = upper_str(raw_key.as_str());
        let key = key_text.as_str();
        assert(key@ == upper(raw_key@));
        if str_eq(key, "FREQ") {
            self.frequency = parse_freq(val.as_str());
        } else if str_eq(key, "INTERVAL") {
            self.interval = parse_u32_str(val.as_str());
        } else if str_eq(key, "COUNT") {
            self.count = parse_u32_str(val.as_str());
        } else if str_eq(key, "UNTIL") {
            let none: Params = Vec::new();
            assert(none.deep_view() =~= Seq::empty());
            match parse_datetime(val.as_str(), &none) {
                Some(t) => {
                    self.until = Some(LocalDateTime::from_naive(t.0));
                },
                None => {
                    self.unsupported = true;
                },
            }
        } else if str_eq(key, "BYDAY") {
            let items = split_str(val.as_str(), ',');
            self.add_days(&items);
        } else if str_eq(key, "BYMONTHDAY") {
            let items = split_str(val.as_str(), ',');
            self.add_month_days(&items);
        } else if str_eq(key, "BYMONTH") {
            let mut items = split_str(val.as_str(), ',');
            let ghost added = items.deep_view();
            let ghost before = self.by_month.deep_view();
            self.by_month.append(&mut items);
            assert(self.by_month.deep_view() =~= before + added);
        } else if str_eq(key, "BYSETPOS") || str_eq(key, "BYWEEKNO") || str_eq(key, "BYYEARDAY")
            || str_eq(key, "BYHOUR") || str_eq(key, "BYMINUTE") || str_eq(key, "BYSECOND") {
            self.unsupported = true;
        }
        true
    }
}

/// The rule that an `RRULE` value stands for, where it is one that can be expanded.
pub fn parse_rrule(s: &str) -> (r: Option<RecurrenceRule>)
    ensures
        r.deep_view() == rrule_value(s@),
{
    let parts = split_str(s, ';');
    let ghost pv = parts.deep_view();
    let mut rule = RuleRead {
        frequency: None,
        interval: None,
        count: None,
        until: None,
        by_day: Vec::new(),
        by_month_day: Vec::new(),
        by_month: Vec::new(),
        unsupported: false,
    };
    assert(rule.deep_view() =~= rule_read_start());
    let mut i: usize = 0;
    assert(pv.take(0) =~= Seq::empty());
    while i < parts.len()
        invariant
            0 <= i <= parts@.len(),
            pv == parts.deep_view(),
            pv == split(s@, ';'),
            rule_parts(pv.take(i as int)) == Some(rule.deep_view()),
        decreases parts@.len() - i,
    {
        proof {
            assert(pv.take(i + 1).drop_last() =~= pv.take(i as int));
            assert(pv.take(i + 1).last() == parts@[i as int]@);
        }
        if !rule.take_part(parts[i].as_str()) {
            proof {
                rule_parts_prefix(pv, i + 1);
            }
            return None;
        }
        i = i + 1;
    }
    assert(pv.take(i as int) =~= pv);
    if rule.unsupported {
        return None;
    }
    match rule.frequency {
        Some(frequency) => {
            let r = RecurrenceRule {
                type_: "RecurrenceRule".to_string(),
                frequency,
                interval: rule.interval,
                count: rule.count,
                until: rule.until,
                by_day: rule.by_day,
                by_month_day: rule.by_month_day,
                by_month: rule.by_month,
                by_set_position: Vec::new(),
                extra: StrMap::new(),
            };
            assert(r.by_set_position.deep_view() =~= Seq::empty());
            Some(r)
        },
        None => None,
    }
}

proof fn rule_parts_prefix(parts: Seq<Seq<char>>, k: int)
    requires
        0 <= k <= parts.len(),
        rule_parts(parts.take(k)) is None,
    ensures
        rule_parts(parts) is None,
    decreases parts.len() - k,
{
    if k == parts.len() {
        assert(parts.take(k) =~= parts);
    } else {
        assert(parts.take(k + 1).drop_last() =~= parts.take(k));
        rule_parts_prefix(parts, k + 1);
    }
}

// ---------------------------------------------------------------------------
// Events
// ---------------------------------------------------------------------------

/// The properties of a `VEVENT` that is being read, as they stand in the text.
#[derive(Debug)]
pub struct RawEvent {
    pub uid: Option<String>,
    pub summary: Option<String>,
    pub dtstart: Option<(String, Params)>,
    pub dtend: Option<(String, Params)>,
    pub duration: Option<String>,
    pub rrule: Option<String>,
    pub exdates: Vec<(String, Params)>,
    /// It stands for one instance of another event.
    pub is_instance: bool,
    /// The component inside it that is open.
    pub inner: Option<String>,
}

/// What a [`RawEvent`] stands for.
#[verifier::ext_equal]
pub struct RawEventV {
    pub uid: Option<Seq<char>>,
    pub summary: Option<Seq<char>>,
    pub dtstart: Option<(Seq<char>, ParamsV)>,
    pub dtend: Option<(Seq<char>, ParamsV)>,
    pub duration: Option<Seq<char>>,
    pub rrule: Option<Seq<char>>,
    pub exdates: Seq<(Seq<char>, ParamsV)>,
    pub is_instance: bool,
    pub inner: Option<Seq<char>>,
}

impl DeepView for RawEvent {
    type V = RawEventV;

    open spec fn deep_view(&self) -> RawEventV {
        RawEventV {
            uid: self.uid.deep_view(),
            summary: self.summary.deep_view(),
            dtstart: self.dtstart.deep_view(),
            dtend: self.dtend.deep_view(),
            duration: self.duration.deep_view(),
            rrule: self.rrule.deep_view(),
            exdates: self.exdates.deep_view(),
            is_instance: self.is_instance,
            inner: self.inner.deep_view(),
        }
    }
}

impl RawEventV {
    /// Every part empty, absent or zero.
    pub open spec fn blank() -> RawEventV {
        RawEventV {
            uid: None,
            summary: None,
            dtstart: None,
            dtend: None,
            duration: None,
            rrule: None,
            exdates: Seq::empty(),
            is_instance: false,
            inner: None,
        }
    }
}

impl Default for RawEvent {
    fn default() -> (r: Self)
        ensures
            r.deep_view() == RawEventV::blank(),
    {
        let r = RawEvent {
            uid: None,
            summary: None,
            dtstart: None,
            dtend: None,
            duration: None,
            rrule: None,
            exdates: Vec::new(),
            is_instance: false,
            inner: None,
        };
        assert(r.deep_view() =~= RawEventV::blank());
        r
    }
}

/// `exdates` with one entry more for each item.
pub open spec fn with_exdates(
    exdates: Seq<(Seq<char>, ParamsV)>,
    items: Seq<Seq<char>>,
    params: ParamsV,
) -> Seq<(Seq<char>, ParamsV)> {
    exdates + Seq::new(items.len(), |i: int| (items[i], params))
}

/// The properties after one more line. The lines of a component inside the event, such as an
/// alarm, are none of its properties.
pub open spec fn raw_set(
    raw: RawEventV,
    name: Seq<char>,
    params: ParamsV,
    value: Seq<char>,
) -> RawEventV {
    if raw.inner is Some {
        if name == "END"@ && raw.inner == Some(value) {
            RawEventV { inner: None, ..raw }
        } else {
            raw
        }
    } else if name == "BEGIN"@ {
        RawEventV { inner: Some(value), ..raw }
    } else if name == "UID"@ {
        RawEventV { uid: Some(unescaped(value)), ..raw }
    } else if name == "SUMMARY"@ {
        RawEventV { summary: Some(unescaped(value)), ..raw }
    } else if name == "DTSTART"@ {
        RawEventV { dtstart: Some((value, params)), ..raw }
    } else if name == "DTEND"@ {
        RawEventV { dtend: Some((value, params)), ..raw }
    } else if name == "DURATION"@ {
        RawEventV { duration: Some(value), ..raw }
    } else if name == "RRULE"@ {
        RawEventV { rrule: Some(value), ..raw }
    } else if name == "EXDATE"@ {
        RawEventV { exdates: with_exdates(raw.exdates, split(value, ','), params), ..raw }
    } else if name == "RECURRENCE-ID"@ {
        RawEventV { is_instance: true, ..raw }
    } else {
        raw
    }
}

/// The patch that takes an instance out.
pub open spec fn exclusion() -> Seq<(Seq<char>, ValueV)> {
    map_insert(Seq::empty(), "excluded"@, ValueV::Bool(true))
}

/// The overrides that take the given instances out.
pub open spec fn exclusions(exdates: Seq<(Seq<char>, ParamsV)>) -> Seq<
    (Seq<char>, Seq<(Seq<char>, ValueV)>),
>
    decreases exdates.len(),
{
    if exdates.len() == 0 {
        Seq::empty()
    } else {
        let before = exclusions(exdates.drop_last());
        match time_value(exdates.last().0, exdates.last().1) {
            Some(t) => map_insert(before, iso_text(t.0), exclusion()),
            None => before,
        }
    }
}

/// The length of an event: its duration, or the time to its end, or a day for a whole-day
/// event. `None` for one that is too long.
pub open spec fn raw_secs(raw: RawEventV, start: NaiveDateTime, all_day: bool) -> Option<int> {
    match (raw.duration, raw.dtend) {
        (Some(d), _) => match duration_secs(d) {
            Some(Some(n)) => Some(n),
            Some(None) => Some(0),
            None => None,
        },
        (None, Some(e)) => match time_value(e.0, e.1) {
            Some(t) => Some(secs_between(t.0, start)),
            None => Some(0),
        },
        (None, None) => Some(
            if all_day {
                86400
            } else {
                0
            },
        ),
    }
}

/// The uid of an event, made up from its start and summary where it has none.
pub open spec fn raw_uid(raw: RawEventV) -> Seq<char> {
    match raw.uid {
        Some(u) => u,
        None => "anon-"@ + (raw.dtstart->0).0 + "-"@ + (match raw.summary {
            Some(s) => s,
            None => Seq::empty(),
        }),
    }
}

/// The event that the properties describe: none without a start, and none where they only change
/// one instance of another event. The outer `None` is an
/// event that is too long. A rule that is not understood leaves an event that does not
/// repeat.
pub open spec fn raw_event(raw: RawEventV, calendar_id: Seq<char>) -> Option<
    Option<CalendarEventV>,
> {
    if raw.is_instance {
        Some(None)
    } else {
        match raw.dtstart {
            None => Some(None),
            Some(d) => match time_value(d.0, d.1) {
                None => Some(None),
                Some(t) => match raw_secs(raw, t.0, t.1) {
                    None => None,
                    Some(secs) => Some(
                        Some(
                            CalendarEventV {
                                title: raw.summary,
                                show_without_time: t.1,
                                time_zone: t.2,
                                calendar_ids: Some(map_insert(Seq::empty(), calendar_id, true)),
                                duration: duration_text(secs),
                                recurrence_rules: match raw.rrule {
                                    Some(r) => match rrule_value(r) {
                                        Some(rule) => Some(seq![rule]),
                                        None => None,
                                    },
                                    None => None,
                                },
                                recurrence_overrides: if exclusions(raw.exdates).len() > 0 {
                                    Some(exclusions(raw.exdates))
                                } else {
                                    None
                                },
                                ..CalendarEventV::bare(
                                    calendar_id + ":"@ + raw_uid(raw),
                                    iso_text(t.0),
                                )
                            },
                        ),
                    ),
                },
            },
        }
    }
}

impl RawEvent {
    fn set(&mut self, name: &str, params: &Params, value: &str)
        ensures
            final(self).deep_view() == raw_set(
                old(self).deep_view(),
                name@,
                params.deep_view(),
                value@,
            ),
    {
        if let Some(open) = &self.inner {
            if str_eq(name, "END") && str_eq(open.as_str(), value) {
                self.inner = None;
            }
        } else if str_eq(name, "BEGIN") {
            self.inner = Some(value.to_string());
        } else if str_eq(name, "UID") {
            self.uid = Some(unescape_text(value));
        } else if str_eq(name, "SUMMARY") {
            self.summary = Some(unescape_text(value));
        } else if str_eq(name, "DTSTART") {
            self.dtstart = Some((value.to_string(), params.clone_view()));
        } else if str_eq(name, "DTEND") {
            self.dtend = Some((value.to_string(), params.clone_view()));
        } else if str_eq(name, "DURATION") {
            self.duration = Some(value.to_string());
        } else if str_eq(name, "RRULE") {
            self.rrule = Some(value.to_string());
        } else if str_eq(name, "EXDATE") {
            let items = split_str(value, ',');
            let ghost iv = items.deep_view();
            let ghost start = self.deep_view();
            let ghost pv = params.deep_view();
            let mut i: usize = 0;
            assert(start.exdates =~= start.exdates + Seq::new(0, |j: int| (iv[j], pv)));
            while i < items.len()
                invariant
                    0 <= i <= items@.len(),
                    iv == items.deep_view(),
                    pv == params.deep_view(),
                    self.deep_view() == (RawEventV {
                        exdates: start.exdates + Seq::new(i as nat, |j: int| (iv[j], pv)),
                        ..start
                    }),
                decreases items@.len() - i,
            {
                let ghost before = self.exdates.deep_view();
                let e = (items[i].clone(), params.clone_view());
                self.exdates.push(e);
                assert(self.exdates.deep_view() =~= before.push((iv[i as int], pv)));
                assert(before.push((iv[i as int], pv)) =~= start.exdates + Seq::new(
                    (i + 1) as nat,
                    |j: int| (iv[j], pv),
                ));
                i = i + 1;
            }
        } else if str_eq(name, "RECURRENCE-ID") {
            self.is_instance = true;
        }
    }

    fn secs(&self, start: NaiveDateTime, all_day: bool) -> (r: Option<i64>)
        requires
            start.valid(),
        ensures
            match r {
                Some(n) => raw_secs(self.deep_view(), start, all_day) == Some(n as int)
                    && secs_fit(n as int),
                None => raw_secs(self.deep_view(), start, all_day) is None,
            },
    {
        if let Some(d) = &self.duration {
            match try_parse_duration(d.as_str()) {
                Some(Some(d)) => Some(d.secs),
                Some(None) => Some(0),
                None => None,
            }
        } else if let Some(e) = &self.dtend {
            match parse_datetime(e.0.as_str(), &e.1) {
                Some(t) => Some(seconds_between(t.0, start)),
                None => Some(0),
            }
        } else if all_day {
            Some(86400)
        } else {
            Some(0)
        }
    }

    fn exclusion_map(&self) -> (r: StrMap<StrMap<Value>>)
        ensures
            r.deep_view() == exclusions(self.deep_view().exdates),
            r.wf(),
    {
        let ghost ev = self.exdates.deep_view();
        let mut overrides: StrMap<StrMap<Value>> = StrMap::new();
        let mut i: usize = 0;
        assert(ev.take(0) =~= Seq::empty());
        while i < self.exdates.len()
            invariant
                0 <= i <= self.exdates@.len(),
                ev == self.exdates.deep_view(),
                overrides.wf(),
                overrides.deep_view() == exclusions(ev.take(i as int)),
            decreases self.exdates@.len() - i,
        {
            let e = &self.exdates[i];
            proof {
                assert(ev.take(i + 1).drop_last() =~= ev.take(i as int));
                assert(ev.take(i + 1).last() == (e.0@, e.1.deep_view()));
            }
            if let Some(t) = parse_datetime(e.0.as_str(), &e.1) {
                let mut patch: StrMap<Value> = StrMap::new();
                patch.insert("excluded".to_string(), Value::Bool(true));
                let key = LocalDateTime::from_naive(t.0);
                overrides.insert(key.0, patch);
            }
            i = i + 1;
        }
        assert(ev.take(i as int) =~= ev);
        overrides
    }

    fn uid_text(&self) -> (r: String)
        requires
            self.dtstart is Some,
        ensures
            r@ == raw_uid(self.deep_view()),
    {
        match &self.uid {
            Some(u) => u.clone(),
            None => {
                let mut out = String::new();
                out.append("anon-");
                if let Some(d) = &self.dtstart {
                    out.append(d.0.as_str());
                }
                out.append("-");
                if let Some(s) = &self.summary {
                    out.append(s.as_str());
                }
                assert(out@ =~= raw_uid(self.deep_view()));
                out
            },
        }
    }

    /// The event that the properties describe.
    fn into_event(&self, calendar_id: &str) -> (r: Option<Option<CalendarEvent>>)
        ensures
            r.deep_view() == raw_event(self.deep_view(), calendar_id@),
    {
        if self.is_instance {
            return Some(None);
        }
        let d = match &self.dtstart {
            Some(d) => d,
            None => {
                return Some(None);
            },
        };
        let (start, all_day, zone) = match parse_datetime(d.0.as_str(), &d.1) {
            Some(t) => t,
            None => {
                return Some(None);
            },
        };
        let secs: i64 = match self.secs(start, all_day) {
            Some(n) => n,
            None => {
                return None;
            },
        };
        let uid = self.uid_text();
        let mut full = String::new();
        full.append(calendar_id);
        full.append(":");
        full.append(uid.as_str());
        assert(full@ =~= calendar_id@ + ":"@ + uid@);
        let mut event = CalendarEvent::new(full.as_str(), LocalDateTime::from_naive(start));
        event.title = self.summary.clone_view();
        event.show_without_time = all_day;
        event.time_zone = zone;
        let mut ids: StrMap<bool> = StrMap::new();
        ids.insert(calendar_id.to_string(), true);
        event.calendar_ids = Some(ids);
        event.duration = format_duration(Duration { secs });
        if let Some(s) = &self.rrule {
            if let Some(rule) = parse_rrule(s.as_str()) {
                let mut rules: Vec<RecurrenceRule> = Vec::new();
                rules.push(rule);
                assert(rules.deep_view() =~= seq![rule.deep_view()]);
                event.recurrence_rules = Some(rules);
            }
        }
        let overrides = self.exclusion_map();
        if !overrides.is_empty() {
            event.recurrence_overrides = Some(overrides);
        }
        assert(event.deep_view() =~= raw_event(self.deep_view(), calendar_id@)->0->0);
        Some(Some(event))
    }
}

/// A document that is being read: the events so far, and the one that is open.
#[verifier::ext_equal]
pub struct ReadV {
    pub events: Seq<CalendarEventV>,
    pub current: Option<RawEventV>,
}

/// The document after one more line; `None` where an event is too long.
pub open spec fn read_line(st: ReadV, line: Seq<char>, calendar_id: Seq<char>) -> Option<ReadV> {
    match line_parts(line) {
        None => Some(st),
        Some(p) => if p.0 == "BEGIN"@ && p.2 == "VEVENT"@ {
            Some(ReadV { events: st.events, current: Some(RawEventV::blank()) })
        } else if p.0 == "END"@ && p.2 == "VEVENT"@ {
            match st.current {
                None => Some(st),
                Some(raw) => match raw_event(raw, calendar_id) {
                    None => None,
                    Some(Some(e)) => Some(ReadV { events: st.events.push(e), current: None }),
                    Some(None) => Some(ReadV { events: st.events, current: None }),
                },
            }
        } else {
            match st.current {
                None => Some(st),
                Some(raw) => Some(
                    ReadV { events: st.events, current: Some(raw_set(raw, p.0, p.1, p.2)) },
                ),
            }
        },
    }
}

/// The document after all its lines.
pub open spec fn read_lines(lines: Seq<Seq<char>>, calendar_id: Seq<char>) -> Option<ReadV>
    decreases lines.len(),
{
    if lines.len() == 0 {
        Some(ReadV { events: Seq::empty(), current: None })
    } else {
        match read_lines(lines.drop_last(), calendar_id) {
            Some(st) => read_line(st, lines.last(), calendar_id),
            None => None,
        }
    }
}

/// The events of an iCalendar document, in the calendar of a subscription; `None` where one
/// is too long.
pub open spec fn events_of(text: Seq<char>, subscription_id: Seq<char>) -> Option<
    Seq<CalendarEventV>,
> {
    match read_lines(unfolded(text), "ics:"@ + subscription_id) {
        Some(st) => Some(st.events),
        None => None,
    }
}

proof fn read_lines_prefix(lines: Seq<Seq<char>>, calendar_id: Seq<char>, k: int)
    requires
        0 <= k <= lines.len(),
        read_lines(lines.take(k), calendar_id) is None,
    ensures
        read_lines(lines, calendar_id) is None,
    decreases lines.len() - k,
{
    if k == lines.len() {
        assert(lines.take(k) =~= lines);
    } else {
        assert(lines.take(k + 1).drop_last() =~= lines.take(k));
        read_lines_prefix(lines, calendar_id, k + 1);
    }
}

pub(crate) fn parse_events_checked(ics_text: &str, subscription_id: &str) -> (r: Option<
    Vec<CalendarEvent>,
>)
    ensures
        r.deep_view() == events_of(ics_text@, subscription_id@),
{
    let calendar_id = pseudo_calendar_id(subscription_id);
    let lines = unfold(ics_text);
    let ghost lv = lines.deep_view();
    let ghost cal = calendar_id@;
    let mut events: Vec<CalendarEvent> = Vec::new();
    let mut current: Option<RawEvent> = None;
    let mut i: usize = 0;
    assert(lv.take(0) =~= Seq::empty());
    assert(events.deep_view() =~= Seq::empty());
    while i < lines.len()
        invariant
            0 <= i <= lines@.len(),
            lv == lines.deep_view(),
            lv == unfolded(ics_text@),
            cal == calendar_id@,
            cal == "ics:"@ + subscription_id@,
            read_lines(lv.take(i as int), cal) == Some(
                ReadV { events: events.deep_view(), current: current.deep_view() },
            ),
        decreases lines@.len() - i,
    {
        proof {
            assert(lv.take(i + 1).drop_last() =~= lv.take(i as int));
            assert(lv.take(i + 1).last() == lines@[i as int]@);
        }
        let ghost st = ReadV { events: events.deep_view(), current: current.deep_view() };
        if let Some((name, params, value)) = parse_line(lines[i].as_str()) {
            let is_event = str_eq(value.as_str(), "VEVENT");
            if str_eq(name.as_str(), "BEGIN") && is_event {
                current = Some(RawEvent::default());
            } else if str_eq(name.as_str(), "END") && is_event {
                if let Some(raw) = current {
                    match raw.into_event(calendar_id.as_str()) {
                        Some(Some(e)) => {
                            events.push(e);
                            assert(events.deep_view() =~= st.events.push(e.deep_view()));
                        },
                        Some(None) => {},
                        None => {
                            proof {
                                read_lines_prefix(lv, cal, i + 1);
                            }
                            return None;
                        },
                    }
                }
                current = None;
            } else {
                if let Some(raw) = current {
                    let mut raw = raw;
                    raw.set(name.as_str(), &params, value.as_str());
                    current = Some(raw);
                } else {
                    current = None;
                }
            }
        }
        i = i + 1;
    }
    assert(lv.take(i as int) =~= lv);
    Some(events)
}

/// The events of an iCalendar document, in the calendar of a subscription.
pub fn parse_events(ics_text: &str, subscription_id: &str) -> (r: Vec<CalendarEvent>)
    requires
        events_of(ics_text@, subscription_id@) is Some,
    ensures
        Some(r.deep_view()) == events_of(ics_text@, subscription_id@),
{
    match parse_events_checked(ics_text, subscription_id) {
        Some(v) => v,
        None => Vec::new(),
    }
}

/// Like [`parse_events`], but `None` where an event is too long.
pub fn try_parse_events(ics_text: &str, subscription_id: &str) -> (r: Option<Vec<CalendarEvent>>)
    ensures
        r.deep_view() == events_of(ics_text@, subscription_id@),
{
    parse_events_checked(ics_text, subscription_id)
}

// ---------------------------------------------------------------------------
// Writing
// ---------------------------------------------------------------------------

/// An item of a `BYDAY` list.
pub open spec fn byday_text(d: NDayV) -> Seq<char> {
    match d.nth_of_period {
        Some(n) => int_text(n as int) + day_word(d.day),
        None => day_word(d.day),
    }
}

/// Numbers with commas between them.
pub open spec fn int_list(s: Seq<i32>) -> Seq<char> {
    join(Seq::new(s.len(), |i: int| int_text(s[i] as int)), ","@)
}

/// `parts` with one more where `cond` holds.
pub open spec fn push_if(parts: Seq<Seq<char>>, cond: bool, part: Seq<char>) -> Seq<Seq<char>> {
    if cond {
        parts.push(part)
    } else {
        parts
    }
}

/// The parts of an `RRULE` value.
pub open spec fn rrule_parts(rule: RecurrenceRuleV) -> Seq<Seq<char>> {
    let p0 = seq!["FREQ="@ + freq_word(rule.frequency)];
    let p1 = push_if(
        p0,
        rule.interval is Some && rule.interval->0 > 1,
        "INTERVAL="@ + dec(rule.interval->0 as nat),
    );
    let p2 = push_if(p1, rule.count is Some, "COUNT="@ + dec(rule.count->0 as nat));
    let until = match rule.until {
        Some(u) => local_time(u),
        None => None,
    };
    let p3 = push_if(p2, until is Some, "UNTIL="@ + basic_text(until->0).push('Z'));
    let p4 = push_if(
        p3,
        rule.by_day.len() > 0,
        "BYDAY="@ + join(Seq::new(rule.by_day.len(), |i: int| byday_text(rule.by_day[i])), ","@),
    );
    let p5 = push_if(
        p4,
        rule.by_month_day.len() > 0,
        "BYMONTHDAY="@ + int_list(rule.by_month_day),
    );
    let p6 = push_if(p5, rule.by_month.len() > 0, "BYMONTH="@ + join(rule.by_month, ","@));
    push_if(p6, rule.by_set_position.len() > 0, "BYSETPOS="@ + int_list(rule.by_set_position))
}

/// The `RRULE` value for a rule.
pub open spec fn rrule_text(rule: RecurrenceRuleV) -> Seq<char> {
    join(rrule_parts(rule), ";"@)
}

/// Midnight at the start of 1970.
pub open spec fn epoch() -> NaiveDateTime {
    NaiveDateTime {
        date: NaiveDate { year: 1970, month: 1, day: 1 },
        secs: 0,
        leap: false,
    }
}

/// The lines for the start and, where it has a length, the end of an event.
pub open spec fn span_lines(
    event: CalendarEventV,
    start: NaiveDateTime,
    end: NaiveDateTime,
    secs: int,
) -> Seq<Seq<char>> {
    if event.show_without_time {
        push_if(
            seq!["DTSTART;VALUE=DATE:"@ + basic_date_text(start.date)],
            secs != 0,
            "DTEND;VALUE=DATE:"@ + basic_date_text(end.date),
        )
    } else if event.time_zone == Some("UTC"@) || event.time_zone == Some("Etc/UTC"@) {
        push_if(
            seq!["DTSTART:"@ + basic_text(start).push('Z')],
            secs != 0,
            "DTEND:"@ + basic_text(end).push('Z'),
        )
    } else {
        match event.time_zone {
            Some(zone) => push_if(
                seq!["DTSTART;TZID="@ + zone + ":"@ + basic_text(start)],
                secs != 0,
                "DTEND;TZID="@ + zone + ":"@ + basic_text(end),
            ),
            None => push_if(
                seq!["DTSTART:"@ + basic_text(start)],
                secs != 0,
                "DTEND:"@ + basic_text(end),
            ),
        }
    }
}

/// `s` where it is there and not empty.
pub open spec fn nonempty(s: Option<Seq<char>>) -> bool {
    s is Some && s->0.len() > 0
}

/// The name of the first location.
pub open spec fn first_location(event: CalendarEventV) -> Option<Seq<char>> {
    match event.locations {
        Some(m) => if m.len() > 0 {
            m[0].1.name
        } else {
            None
        },
        None => None,
    }
}

/// The lines that describe an event, behind those for its span.
pub open spec fn text_lines(event: CalendarEventV) -> Seq<Seq<char>> {
    let l0 = push_if(
        Seq::empty(),
        nonempty(event.title),
        "SUMMARY:"@ + escaped(event.title->0),
    );
    let l1 = push_if(l0, nonempty(event.description), "DESCRIPTION:"@ + escaped(event.description->0));
    let l2 = push_if(
        l1,
        nonempty(first_location(event)),
        "LOCATION:"@ + escaped(first_location(event)->0),
    );
    push_if(
        l2,
        event.recurrence_rules is Some && event.recurrence_rules->0.len() > 0,
        "RRULE:"@ + rrule_text(event.recurrence_rules->0[0]),
    )
}

/// The lines before those for the span of an event.
pub open spec fn head_lines(event: CalendarEventV, now: NaiveDateTime) -> Seq<Seq<char>> {
    seq![
        "BEGIN:VCALENDAR"@,
        "VERSION:2.0"@,
        "PRODID:-//JSCalendar//EN"@,
        "BEGIN:VEVENT"@,
        "UID:"@ + escaped(event.uid),
        "DTSTAMP:"@ + basic_text(now).push('Z'),
    ]
}

/// The lines of the document for an event, written at `now`; `None` where its length or its
/// end is out of range. An event whose start cannot be read starts with the year 1970.
pub open spec fn ics_lines(event: CalendarEventV, now: NaiveDateTime) -> Option<Seq<Seq<char>>> {
    let start = match local_time(event.start) {
        Some(t) => t,
        None => epoch(),
    };
    match duration_secs(event.duration) {
        None => None,
        Some(d) => {
            let secs = match d {
                Some(n) => n,
                None => 0,
            };
            match plus_secs(start, secs) {
                None => None,
                Some(end) => Some(
                    head_lines(event, now) + span_lines(event, start, end, secs) + text_lines(event)
                        + seq!["END:VEVENT"@, "END:VCALENDAR"@],
                ),
            }
        },
    }
}

/// The document for an event, written at `now`.
pub open spec fn ics_text(event: CalendarEventV, now: NaiveDateTime) -> Option<Seq<char>> {
    match ics_lines(event, now) {
        Some(lines) => Some(document(lines)),
        None => None,
    }
}

fn freq_name(f: Frequency) -> (r: String)
    ensures
        r@ == freq_word(f),
{
    match f {
        Frequency::Daily => "DAILY".to_string(),
        Frequency::Weekly => "WEEKLY".to_string(),
        Frequency::Monthly => "MONTHLY".to_string(),
        Frequency::Yearly => "YEARLY".to_string(),
        Frequency::Hourly => "HOURLY".to_string(),
        Frequency::Minutely => "MINUTELY".to_string(),
        Frequency::Secondly => "SECONDLY".to_string(),
    }
}

fn day_name(d: Weekday) -> (r: String)
    ensures
        r@ == day_word(d),
{
    match d {
        Weekday::Monday => "MO".to_string(),
        Weekday::Tuesday => "TU".to_string(),
        Weekday::Wednesday => "WE".to_string(),
        Weekday::Thursday => "TH".to_string(),
        Weekday::Friday => "FR".to_string(),
        Weekday::Saturday => "SA".to_string(),
        Weekday::Sunday => "SU".to_string(),
    }
}

/// Appends `prefix` and `value` as one part.
fn push_part(parts: &mut Vec<String>, prefix: &str, value: &str)
    ensures
        final(parts).deep_view() == old(parts).deep_view().push(prefix@ + value@),
{
    let p = concat2(prefix, value);
    parts.push(p);
    assert(parts.deep_view() =~= old(parts).deep_view().push(prefix@ + value@));
}

fn join_ints(s: &Vec<i32>) -> (r: String)
    ensures
        r@ == int_list(s.deep_view()),
{
    let mut parts: Vec<String> = Vec::new();
    let mut i: usize = 0;
    while i < s.len()
        invariant
            0 <= i <= s@.len(),
            parts.deep_view() =~= Seq::new(i as nat, |j: int| int_text(s.deep_view()[j] as int)),
        decreases s@.len() - i,
    {
        let ghost before = parts.deep_view();
        let t = i64_text(s[i] as i64);
        parts.push(t);
        assert(parts.deep_view() =~= before.push(int_text(s.deep_view()[i as int] as int)));
        i = i + 1;
    }
    join_str(&parts, ",")
}

fn join_days(s: &Vec<NDay>) -> (r: String)
    ensures
        r@ == join(Seq::new(s.deep_view().len(), |i: int| byday_text(s.deep_view()[i])), ","@),
{
    let mut parts: Vec<String> = Vec::new();
    let mut i: usize = 0;
    while i < s.len()
        invariant
            0 <= i <= s@.len(),
            parts.deep_view() =~= Seq::new(i as nat, |j: int| byday_text(s.deep_view()[j])),
        decreases s@.len() - i,
    {
        let ghost before = parts.deep_view();
        let word = day_name(s[i].day);
        let t = match s[i].nth_of_period {
            Some(n) => {
                let num = i64_text(n as i64);
                concat2(num.as_str(), word.as_str())
            },
            None => word,
        };
        assert(t@ == byday_text(s.deep_view()[i as int]));
        parts.push(t);
        assert(parts.deep_view() =~= before.push(byday_text(s.deep_view()[i as int])));
        i = i + 1;
    }
    join_str(&parts, ",")
}

/// The `RRULE` value for a rule.
pub fn rrule_to_ics(rule: &RecurrenceRule) -> (r: String)
    ensures
        r@ == rrule_text(rule.deep_view()),
{
    let mut parts: Vec<String> = Vec::new();
    assert(parts.deep_view() =~= Seq::empty());
    let freq = freq_name(rule.frequency);
    push_part(&mut parts, "FREQ=", freq.as_str());
    assert(parts.deep_view() =~= seq!["FREQ="@ + freq_word(rule.frequency)]);
    if let Some(interval) = rule.interval {
        if interval > 1 {
            let t = u64_text(interval as u64);
            push_part(&mut parts, "INTERVAL=", t.as_str());
        }
    }
    if let Some(count) = rule.count {
        let t = u64_text(count as u64);
        push_part(&mut parts, "COUNT=", t.as_str());
    }
    let until = match &rule.until {
        Some(u) => u.to_naive(),
        None => None,
    };
    if let Some(u) = until {
        let t = format_time(u, "%Y%m%dT%H%M%SZ");
        push_part(&mut parts, "UNTIL=", t.as_str());
    }
    if rule.by_day.len() > 0 {
        let t = join_days(&rule.by_day);
        push_part(&mut parts, "BYDAY=", t.as_str());
    }
    if rule.by_month_day.len() > 0 {
        let t = join_ints(&rule.by_month_day);
        push_part(&mut parts, "BYMONTHDAY=", t.as_str());
    }
    if rule.by_month.len() > 0 {
        let t = join_str(&rule.by_month, ",");
        push_part(&mut parts, "BYMONTH=", t.as_str());
    }
    if rule.by_set_position.len() > 0 {
        let t = join_ints(&rule.by_set_position);
        push_part(&mut parts, "BYSETPOS=", t.as_str());
    }
    join_str(&parts, ";")
}

/// The text of the lines, each folded.
pub fn fold_lines(lines: &Vec<String>) -> (r: String)
    ensures
        r@ == document(lines.deep_view()),
{
    let ghost lv = lines.deep_view();
    let ghost texts = Seq::new(lv.len(), |i: int| crate::contentline::folded(lv[i]));
    let mut out = String::new();
    let mut i: usize = 0;
    assert(texts.take(0) =~= Seq::empty());
    while i < lines.len()
        invariant
            0 <= i <= lines@.len(),
            lv == lines.deep_view(),
            texts == Seq::new(lv.len(), |i: int| crate::contentline::folded(lv[i])),
            out@ == concat_all(texts.take(i as int)),
        decreases lines@.len() - i,
    {
        let ghost before = out@;
        let t = fold_line(lines[i].as_str());
        out.append(t.as_str());
        proof {
            assert(texts.take(i + 1).drop_last() =~= texts.take(i as int));
            assert(texts.take(i + 1).last() == t@);
            assert(out@ =~= before + t@);
        }
        i = i + 1;
    }
    assert(texts.take(i as int) =~= texts);
    out
}

fn push_span(
    lines: &mut Vec<String>,
    event: &CalendarEvent,
    start: NaiveDateTime,
    end: NaiveDateTime,
    secs: i64,
)
    requires
        start.valid(),
        end.valid(),
    ensures
        final(lines).deep_view() == old(lines).deep_view() + span_lines(
            event.deep_view(),
            start,
            end,
            secs as int,
        ),
{
    let ghost base = lines.deep_view();
    let ghost ev = event.deep_view();
    if event.show_without_time {
        let t = format_time(start, "%Y%m%d");
        push_part(lines, "DTSTART;VALUE=DATE:", t.as_str());
        if secs != 0 {
            let t = format_time(end, "%Y%m%d");
            push_part(lines, "DTEND;VALUE=DATE:", t.as_str());
        }
        assert(lines.deep_view() =~= base + span_lines(ev, start, end, secs as int));
        return;
    }
    match &event.time_zone {
        Some(zone) => {
            if str_eq(zone.as_str(), "UTC") || str_eq(zone.as_str(), "Etc/UTC") {
                let t = format_time(start, "%Y%m%dT%H%M%SZ");
                push_part(lines, "DTSTART:", t.as_str());
                if secs != 0 {
                    let t = format_time(end, "%Y%m%dT%H%M%SZ");
                    push_part(lines, "DTEND:", t.as_str());
                }
            } else {
                let mut head = String::new();
                head.append("DTSTART;TZID=");
                head.append(zone.as_str());
                head.append(":");
                assert(head@ =~= "DTSTART;TZID="@ + zone@ + ":"@);
                let t = format_time(start, "%Y%m%dT%H%M%S");
                push_part(lines, head.as_str(), t.as_str());
                if secs != 0 {
                    let mut head = String::new();
                    head.append("DTEND;TZID=");
                    head.append(zone.as_str());
                    head.append(":");
                    assert(head@ =~= "DTEND;TZID="@ + zone@ + ":"@);
                    let t = format_time(end, "%Y%m%dT%H%M%S");
                    push_part(lines, head.as_str(), t.as_str());
                }
            }
        },
        None => {
            let t = format_time(start, "%Y%m%dT%H%M%S");
            push_part(lines, "DTSTART:", t.as_str());
            if secs != 0 {
                let t = format_time(end, "%Y%m%dT%H%M%S");
                push_part(lines, "DTEND:", t.as_str());
            }
        },
    }
    assert(lines.deep_view() =~= base + span_lines(ev, start, end, secs as int));
}

fn push_texts(lines: &mut Vec<String>, event: &CalendarEvent)
    ensures
        final(lines).deep_view() == old(lines).deep_view() + text_lines(event.deep_view()),
{
    let ghost base = lines.deep_view();
    let ghost ev = event.deep_view();
    if let Some(title) = &event.title {
        if title.as_str().unicode_len() > 0 {
            let t = escape_text(title.as_str());
            push_part(lines, "SUMMARY:", t.as_str());
        }
    }
    if let Some(desc) = &event.description {
        if desc.as_str().unicode_len() > 0 {
            let t = escape_text(desc.as_str());
            push_part(lines, "DESCRIPTION:", t.as_str());
        }
    }
    if let Some(m) = &event.locations {
        if m.entries.len() > 0 {
            assert(m.deep_view()[0] == m.entries@[0].deep_view());
            if let Some(name) = &m.entries[0].1.name {
                if name.as_str().unicode_len() > 0 {
                    let t = escape_text(name.as_str());
                    push_part(lines, "LOCATION:", t.as_str());
                }
            }
        }
    }
    if let Some(rules) = &event.recurrence_rules {
        if rules.len() > 0 {
            let t = rrule_to_ics(&rules[0]);
            assert(rules.deep_view()[0] == rules@[0].deep_view());
            push_part(lines, "RRULE:", t.as_str());
        }
    }
    assert(lines.deep_view() =~= base + text_lines(ev));
}

/// The iCalendar document for an event, written at `now`, or `None` where its length or its
/// end is out of range.
pub fn try_to_ics_at(event: &CalendarEvent, now: NaiveDateTime) -> (r: Option<String>)
    requires
        now.valid(),
    ensures
        r.deep_view() == ics_text(event.deep_view(), now),
{
    let start = match event.start.to_naive() {
        Some(t) => t,
        None => NaiveDateTime {
            date: NaiveDate { year: 1970, month: 1, day: 1 },
            secs: 0,
            leap: false,
        },
    };
    let secs: i64 = match try_parse_duration(event.duration.as_str()) {
        Some(Some(d)) => d.secs,
        Some(None) => 0,
        None => {
            return None;
        },
    };
    let end = match start.plus(secs) {
        Some(t) => t,
        None => {
            return None;
        },
    };
    let ghost ev = event.deep_view();
    let mut lines: Vec<String> = Vec::new();
    push_part(&mut lines, "BEGIN:VCALENDAR", "");
    push_part(&mut lines, "VERSION:2.0", "");
    push_part(&mut lines, "PRODID:-//JSCalendar//EN", "");
    push_part(&mut lines, "BEGIN:VEVENT", "");
    let uid = escape_text(event.uid.as_str());
    push_part(&mut lines, "UID:", uid.as_str());
    let stamp = format_time(now, "%Y%m%dT%H%M%SZ");
    push_part(&mut lines, "DTSTAMP:", stamp.as_str());
    proof {
        reveal_strlit("");
        assert("BEGIN:VCALENDAR"@ + ""@ =~= "BEGIN:VCALENDAR"@);
        assert("VERSION:2.0"@ + ""@ =~= "VERSION:2.0"@);
        assert("PRODID:-//JSCalendar//EN"@ + ""@ =~= "PRODID:-//JSCalendar//EN"@);
        assert("BEGIN:VEVENT"@ + ""@ =~= "BEGIN:VEVENT"@);
        assert("END:VEVENT"@ + ""@ =~= "END:VEVENT"@);
        assert("END:VCALENDAR"@ + ""@ =~= "END:VCALENDAR"@);
        assert(lines.deep_view() =~= head_lines(ev, now));
    }
    push_span(&mut lines, event, start, end, secs);
    push_texts(&mut lines, event);
    push_part(&mut lines, "END:VEVENT", "");
    push_part(&mut lines, "END:VCALENDAR", "");
    assert(lines.deep_view() =~= ics_lines(ev, now)->0);
    Some(fold_lines(&lines))
}

/// `chrono::Utc::now`: the time on the clock, in UTC. Nothing is said of it but that it is a
/// time.
#[verifier::external_body]
fn utc_now() -> (r: NaiveDateTime)
    ensures
        r.valid(),
        !r.leap,
{
    let t = chrono::Utc::now().naive_utc();
    let date = NaiveDate { year: t.year(), month: t.month(), day: t.day() };
    NaiveDateTime { date, secs: t.num_seconds_from_midnight(), leap: false }
}

/// An event as an iCalendar document of its own (one `VEVENT`), stamped with the time on the
/// clock. Only the first recurrence rule is written, and a time zone as a bare `TZID`
/// parameter.
pub fn to_ics(event: &CalendarEvent) -> (r: String)
    requires
        exists|now: NaiveDateTime| now.valid() && #[trigger] ics_text(event.deep_view(), now) is Some,
    ensures
        exists|now: NaiveDateTime|
            now.valid() && #[trigger] ics_text(event.deep_view(), now) == Some(r@),
{
    let now = utc_now();
    match try_to_ics_at(event, now) {
        Some(text) => text,
        None => String::new(),
    }
}

/// Like [`to_ics`], but `None` where the length or the end of the event is out of range.
pub fn try_to_ics(event: &CalendarEvent) -> (r: Option<String>)
    ensures
        exists|now: NaiveDateTime|
            now.valid() && #[trigger] ics_text(event.deep_view(), now) == r.deep_view(),
{
    try_to_ics_at(event, utc_now())
}

} // verus!
