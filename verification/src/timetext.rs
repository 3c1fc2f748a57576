//! Dates and times as text: what is written, and what is read back.

use chrono::{Datelike, Timelike};
use vstd::prelude::*;
use crate::calendar::{NaiveDate, NaiveDateTime};
use crate::numbers::{
    all_digits, dec, dec_len, dec_reads_back, value_of, value_of_zero_fill, zero_fill,
};
use crate::text::{ends_with, is_digit};

verus! {

/// The English name of month `m`.
pub open spec fn month_name(m: int) -> Seq<char> {
    if m == 1 {
        "January"@
    } else if m == 2 {
        "February"@
    } else if m == 3 {
        "March"@
    } else if m == 4 {
        "April"@
    } else if m == 5 {
        "May"@
    } else if m == 6 {
        "June"@
    } else if m == 7 {
        "July"@
    } else if m == 8 {
        "August"@
    } else if m == 9 {
        "September"@
    } else if m == 10 {
        "October"@
    } else if m == 11 {
        "November"@
    } else {
        "December"@
    }
}

/// The first three letters of the name of month `m`.
pub open spec fn month_abbr(m: int) -> Seq<char> {
    month_name(m).take(3)
}

/// The English name of a day of the week, 0 for Monday.
pub open spec fn weekday_name(w: int) -> Seq<char> {
    if w == 0 {
        "Monday"@
    } else if w == 1 {
        "Tuesday"@
    } else if w == 2 {
        "Wednesday"@
    } else if w == 3 {
        "Thursday"@
    } else if w == 4 {
        "Friday"@
    } else if w == 5 {
        "Saturday"@
    } else {
        "Sunday"@
    }
}

/// The first three letters of the name of a day of the week.
pub open spec fn weekday_abbr(w: int) -> Seq<char> {
    weekday_name(w).take(3)
}

/// `n` with at least two digits.
pub open spec fn two(n: int) -> Seq<char> {
    zero_fill(dec(n as nat), 2)
}

/// A year with at least four digits, and with a sign where it is not from 0 to 9999.
pub open spec fn year_text(y: int) -> Seq<char> {
    if 0 <= y <= 9999 {
        zero_fill(dec(y as nat), 4)
    } else if y < 0 {
        seq!['-'] + zero_fill(dec((-y) as nat), 4)
    } else {
        seq!['+'] + zero_fill(dec(y as nat), 4)
    }
}

/// `YYYY-MM-DD`.
pub open spec fn date_text(d: NaiveDate) -> Seq<char> {
    year_text(d.year as int).push('-') + two(d.month as int).push('-') + two(d.day as int)
}

/// `HH:MM:SS`.
pub open spec fn time_text(t: NaiveDateTime) -> Seq<char> {
    two(t.hour()).push(':') + two(t.minute()).push(':') + two(t.second())
}

/// `YYYY-MM-DDTHH:MM:SS`.
pub open spec fn iso_text(t: NaiveDateTime) -> Seq<char> {
    date_text(t.date).push('T') + time_text(t)
}

/// `YYYYMMDD`.
pub open spec fn basic_date_text(d: NaiveDate) -> Seq<char> {
    year_text(d.year as int) + two(d.month as int) + two(d.day as int)
}

/// `YYYYMMDDTHHMMSS`.
pub open spec fn basic_text(t: NaiveDateTime) -> Seq<char> {
    basic_date_text(t.date).push('T') + two(t.hour()) + two(t.minute()) + two(t.second())
}

/// A month's name and a day, as `July 4`.
pub open spec fn month_day_text(d: NaiveDate) -> Seq<char> {
    month_name(d.month as int).push(' ') + dec(d.day as nat)
}

/// A time on the twelve-hour clock, as `9:05 AM`.
pub open spec fn clock_text(t: NaiveDateTime) -> Seq<char> {
    let h = t.hour() % 12;
    dec((if h == 0 { 12int } else { h }) as nat).push(':') + two(t.minute()).push(' ') + (if t.hour() < 12 {
        "AM"@
    } else {
        "PM"@
    })
}

/// The formats that the crate writes.
pub open spec fn known_format(f: Seq<char>) -> bool {
    ||| f == "%Y-%m-%d"@
    ||| f == "%Y-%m-%dT%H:%M:%S"@
    ||| f == "%Y-%m-%dT%H:%M:%SZ"@
    ||| f == "%Y%m%d"@
    ||| f == "%Y%m%dT%H%M%S"@
    ||| f == "%Y%m%dT%H%M%SZ"@
    ||| f == "%B %Y"@
    ||| f == "%b"@
    ||| f == "%b %-d"@
    ||| f == "%b %-d, %Y"@
    ||| f == "%B %-d"@
    ||| f == "%A, %B %-d"@
    ||| f == "%A, %B %-d, %Y"@
    ||| f == "%a %-d"@
    ||| f == "%A, %-d %B"@
    ||| f == "%-I:%M %p"@
    ||| f == "%H:%M"@
    ||| f == "%m-%d"@
}

/// `chrono::NaiveDateTime::format`: the time written by the format `f`, with English names.
/// The contract gives the text for each format that `requires` admits.
#[verifier::external_body]
pub(crate) fn format_time(t: NaiveDateTime, f: &str) -> (r: String)
    requires
        t.valid(),
        known_format(f@),
    ensures
        f@ == "%Y-%m-%d"@ ==> r@ == date_text(t.date),
        f@ == "%Y-%m-%dT%H:%M:%S"@ ==> r@ == iso_text(t),
        f@ == "%Y-%m-%dT%H:%M:%SZ"@ ==> r@ == iso_text(t).push('Z'),
        f@ == "%Y%m%d"@ ==> r@ == basic_date_text(t.date),
        f@ == "%Y%m%dT%H%M%S"@ ==> r@ == basic_text(t),
        f@ == "%Y%m%dT%H%M%SZ"@ ==> r@ == basic_text(t).push('Z'),
        f@ == "%B %Y"@ ==> r@
            == month_name(t.date.month as int).push(' ') + year_text(t.date.year as int),
        f@ == "%b"@ ==> r@ == month_abbr(t.date.month as int),
        f@ == "%b %-d"@ ==> r@
            == month_abbr(t.date.month as int).push(' ') + dec(t.date.day as nat),
        f@ == "%b %-d, %Y"@ ==> r@
            == month_abbr(t.date.month as int).push(' ') + dec(t.date.day as nat)
            + seq![',', ' '] + year_text(t.date.year as int),
        f@ == "%B %-d"@ ==> r@ == month_day_text(t.date),
        f@ == "%A, %B %-d"@ ==> r@
            == weekday_name(t.date.weekday_num()) + seq![',', ' '] + month_day_text(t.date),
        f@ == "%A, %B %-d, %Y"@ ==> r@
            == weekday_name(t.date.weekday_num()) + seq![',', ' '] + month_day_text(t.date)
            + seq![',', ' '] + year_text(t.date.year as int),
        f@ == "%a %-d"@ ==> r@
            == weekday_abbr(t.date.weekday_num()).push(' ') + dec(t.date.day as nat),
        f@ == "%A, %-d %B"@ ==> r@
            == weekday_name(t.date.weekday_num()) + seq![',', ' ']
            + dec(t.date.day as nat).push(' ') + month_name(t.date.month as int),
        f@ == "%-I:%M %p"@ ==> r@ == clock_text(t),
        f@ == "%H:%M"@ ==> r@ == two(t.hour()).push(':') + two(t.minute()),
        f@ == "%m-%d"@ ==> r@ == two(t.date.month as int).push('-') + two(t.date.day as int),
{
    let d = chrono::NaiveDate::from_ymd_opt(t.date.year, t.date.month, t.date.day).unwrap();
    let s = chrono::NaiveTime::from_num_seconds_from_midnight_opt(t.secs, 0).unwrap();
    let nano = match t.leap {
        true => 1_000_000_000,
        false => 0,
    };
    d.and_time(s.with_nanosecond(nano).unwrap()).format(f).to_string()
}

/// `s` is the text of `t` in the format `f`, in a form that reads back: with the extended
/// format any year, with the basic format one of four digits; a leap second only at the
/// end of a minute.
pub open spec fn writes_time(t: NaiveDateTime, f: Seq<char>, s: Seq<char>) -> bool {
    &&& t.on_clock()
    &&& {
        ||| f == "%Y-%m-%dT%H:%M:%S"@ && s == iso_text(t)
        ||| f == "%Y%m%dT%H%M%S"@ && 0 <= t.date.year <= 9999 && s == basic_text(t)
    }
}

/// `s` is the text of `d` in the format `f`, in a form that reads back.
pub open spec fn writes_date(d: NaiveDate, f: Seq<char>, s: Seq<char>) -> bool {
    &&& d.valid()
    &&& {
        ||| f == "%Y-%m-%d"@ && s == date_text(d)
        ||| f == "%Y%m%d"@ && 0 <= d.year <= 9999 && s == basic_date_text(d)
    }
}

/// What `chrono::NaiveDateTime::parse_from_str` makes of the text `s` in the format `f`.
pub uninterp spec fn parsed_time(s: Seq<char>, f: Seq<char>) -> Option<NaiveDateTime>;

/// What `chrono::NaiveDate::parse_from_str` makes of the text `s` in the format `f`.
pub uninterp spec fn parsed_date(s: Seq<char>, f: Seq<char>) -> Option<NaiveDate>;

/// A time that can be read from `s`: one that a clock can show, and no leap second where `s`
/// ends a minute with no seconds in it.
pub open spec fn fits_text(t: NaiveDateTime, s: Seq<char>) -> bool {
    t.on_clock() && (ends_with(s, ":00"@) ==> !t.leap)
}

/// The time that `s` stands for in the format `f`: the one whose text it is, or else what
/// the more lenient reader makes of it.
pub open spec fn read_time(s: Seq<char>, f: Seq<char>) -> Option<NaiveDateTime> {
    if exists|t: NaiveDateTime| writes_time(t, f, s) {
        Some(choose|t: NaiveDateTime| writes_time(t, f, s))
    } else if parsed_time(s, f) is Some && !fits_text(parsed_time(s, f)->0, s) {
        None
    } else {
        parsed_time(s, f)
    }
}

/// The date that `s` stands for in the format `f`.
pub open spec fn read_date(s: Seq<char>, f: Seq<char>) -> Option<NaiveDate> {
    if exists|d: NaiveDate| writes_date(d, f, s) {
        Some(choose|d: NaiveDate| writes_date(d, f, s))
    } else if parsed_date(s, f) is Some && !parsed_date(s, f)->0.valid() {
        None
    } else {
        parsed_date(s, f)
    }
}

/// `chrono::NaiveDateTime::parse_from_str`: the time that `s` stands for, always a valid
/// one, and no leap second from a text that ends in `:00`. The text of a time, as `format`
/// writes it, reads back as that time; of other texts the contract says only that they alone
/// decide.
#[verifier::external_body]
pub(crate) fn parse_time(s: &str, f: &str) -> (r: Option<NaiveDateTime>)
    requires
        f@ == "%Y-%m-%dT%H:%M:%S"@ || f@ == "%Y%m%dT%H%M%S"@,
    ensures
        forall|t: NaiveDateTime| #[trigger] writes_time(t, f@, s@) ==> r == Some(t),
        (forall|t: NaiveDateTime| !#[trigger] writes_time(t, f@, s@)) ==> r == parsed_time(s@, f@),
        r is Some ==> fits_text(r->0, s@),
{
    let t = chrono::NaiveDateTime::parse_from_str(s, f).ok()?;
    Some(
        NaiveDateTime {
            date: NaiveDate { year: t.year(), month: t.month(), day: t.day() },
            secs: t.num_seconds_from_midnight(),
            leap: t.nanosecond() >= 1_000_000_000,
        },
    )
}

/// `chrono::NaiveDate::parse_from_str`: the date that `s` stands for, always a valid one.
/// The text of a date, as `format` writes it, reads back as that date; of other texts the
/// contract says only that they alone decide.
#[verifier::external_body]
pub(crate) fn parse_date(s: &str, f: &str) -> (r: Option<NaiveDate>)
    requires
        f@ == "%Y-%m-%d"@ || f@ == "%Y%m%d"@,
    ensures
        forall|d: NaiveDate| #[trigger] writes_date(d, f@, s@) ==> r == Some(d),
        (forall|d: NaiveDate| !#[trigger] writes_date(d, f@, s@)) ==> r == parsed_date(s@, f@),
        r is Some ==> r->0.valid(),
{
    let d = chrono::NaiveDate::parse_from_str(s, f).ok()?;
    Some(NaiveDate { year: d.year(), month: d.month(), day: d.day() })
}

/// The time that `s` stands for in the extended format.
pub fn read_iso(s: &str) -> (r: Option<NaiveDateTime>)
    ensures
        r == read_time(s@, "%Y-%m-%dT%H:%M:%S"@),
        r is Some ==> r->0.valid(),
{
    parse_time(s, "%Y-%m-%dT%H:%M:%S")
}

/// The time that `s` stands for in the basic format.
pub fn read_basic(s: &str) -> (r: Option<NaiveDateTime>)
    ensures
        r == read_time(s@, "%Y%m%dT%H%M%S"@),
        r is Some ==> r->0.valid(),
{
    parse_time(s, "%Y%m%dT%H%M%S")
}

/// The date that `s` stands for in the extended format.
pub fn read_iso_date(s: &str) -> (r: Option<NaiveDate>)
    ensures
        r == read_date(s@, "%Y-%m-%d"@),
        r is Some ==> r->0.valid(),
{
    parse_date(s, "%Y-%m-%d")
}

/// The date that `s` stands for in the basic format.
pub fn read_basic_date(s: &str) -> (r: Option<NaiveDate>)
    ensures
        r == read_date(s@, "%Y%m%d"@),
        r is Some ==> r->0.valid(),
{
    parse_date(s, "%Y%m%d")
}

// ---------------------------------------------------------------------------
// What is written reads back
// ---------------------------------------------------------------------------

pub proof fn two_text(n: int)
    requires
        0 <= n < 100,
    ensures
        two(n).len() == 2,
        all_digits(two(n)),
        value_of(two(n)) == n,
{
    dec_reads_back(n as nat);
    dec_len(n as nat);
    value_of_zero_fill(dec(n as nat), 2);
}

/// A year's text tells the year.
pub proof fn year_text_tells(a: int, b: int)
    requires
        year_text(a) == year_text(b),
    ensures
        a == b,
{
    year_text_shape(a);
    year_text_shape(b);
    let s = year_text(a);
    let d = if is_digit(s[0]) {
        s
    } else {
        s.skip(1)
    };
}

pub proof fn year_text_shape(y: int)
    ensures
        year_text(y).len() >= 4,
        0 <= y <= 9999 ==> year_text(y).len() == 4 && all_digits(year_text(y)) && value_of(
            year_text(y),
        ) == y,
        y < 0 ==> year_text(y)[0] == '-' && value_of(year_text(y).skip(1)) == -y,
        y > 9999 ==> year_text(y)[0] == '+' && value_of(year_text(y).skip(1)) == y,
        0 <= y <= 9999 ==> is_digit(year_text(y)[0]),
{
    let m = if y < 0 {
        (-y) as nat
    } else {
        y as nat
    };
    dec_reads_back(m);
    dec_len(m);
    value_of_zero_fill(dec(m), 4);
    if y < 0 || y > 9999 {
        assert(year_text(y).skip(1) =~= zero_fill(dec(m), 4));
    } else {
        assert(is_digit(year_text(y)[0]));
    }
}

/// A date's text tells the date.
pub proof fn date_text_tells(a: NaiveDate, b: NaiveDate)
    requires
        a.valid(),
        b.valid(),
        date_text(a) == date_text(b),
    ensures
        a == b,
{
    let s = date_text(a);
    two_text(a.month as int);
    two_text(a.day as int);
    two_text(b.month as int);
    two_text(b.day as int);
    let n = s.len() - 6;
    assert(s.take(n) =~= year_text(a.year as int));
    assert(s.take(n) =~= year_text(b.year as int));
    assert(s.subrange(n + 1, n + 3) =~= two(a.month as int));
    assert(s.subrange(n + 1, n + 3) =~= two(b.month as int));
    assert(s.subrange(n + 4, n + 6) =~= two(a.day as int));
    assert(s.subrange(n + 4, n + 6) =~= two(b.day as int));
    year_text_tells(a.year as int, b.year as int);
}

/// A four-digit year's basic date text tells the date.
pub proof fn basic_date_text_tells(a: NaiveDate, b: NaiveDate)
    requires
        a.valid(),
        b.valid(),
        0 <= a.year <= 9999,
        0 <= b.year <= 9999,
        basic_date_text(a) == basic_date_text(b),
    ensures
        a == b,
{
    let s = basic_date_text(a);
    two_text(a.month as int);
    two_text(a.day as int);
    two_text(b.month as int);
    two_text(b.day as int);
    year_text_shape(a.year as int);
    year_text_shape(b.year as int);
    assert(s.take(4) =~= year_text(a.year as int));
    assert(s.take(4) =~= year_text(b.year as int));
    assert(s.subrange(4, 6) =~= two(a.month as int));
    assert(s.subrange(4, 6) =~= two(b.month as int));
    assert(s.subrange(6, 8) =~= two(a.day as int));
    assert(s.subrange(6, 8) =~= two(b.day as int));
    year_text_tells(a.year as int, b.year as int);
}

proof fn clock_tells(a: NaiveDateTime, b: NaiveDateTime)
    requires
        a.secs < 86400,
        b.secs < 86400,
        a.leap ==> a.secs % 60 == 59,
        b.leap ==> b.secs % 60 == 59,
        a.hour() == b.hour(),
        a.minute() == b.minute(),
        a.second() == b.second(),
    ensures
        a.secs == b.secs,
        a.leap == b.leap,
{
}

/// At most one time has the text `s` in the format `f`.
pub proof fn written_time_is_unique(a: NaiveDateTime, b: NaiveDateTime, f: Seq<char>, s: Seq<char>)
    requires
        writes_time(a, f, s),
        writes_time(b, f, s),
    ensures
        a == b,
{
    reveal_strlit("%Y-%m-%dT%H:%M:%S");
    reveal_strlit("%Y%m%dT%H%M%S");
    assert("%Y-%m-%dT%H:%M:%S"@[2] != "%Y%m%dT%H%M%S"@[2]);
    two_text(a.hour());
    two_text(a.minute());
    two_text(a.second());
    two_text(b.hour());
    two_text(b.minute());
    two_text(b.second());
    if f == "%Y-%m-%dT%H:%M:%S"@ {
        let n = s.len() - 9;
        assert(s.take(n) =~= date_text(a.date));
        assert(s.take(n) =~= date_text(b.date));
        date_text_tells(a.date, b.date);
        assert(s.subrange(n + 1, n + 3) =~= two(a.hour()));
        assert(s.subrange(n + 1, n + 3) =~= two(b.hour()));
        assert(s.subrange(n + 4, n + 6) =~= two(a.minute()));
        assert(s.subrange(n + 4, n + 6) =~= two(b.minute()));
        assert(s.subrange(n + 7, n + 9) =~= two(a.second()));
        assert(s.subrange(n + 7, n + 9) =~= two(b.second()));
    } else {
        let n = s.len() - 7;
        assert(s.take(n) =~= basic_date_text(a.date));
        assert(s.take(n) =~= basic_date_text(b.date));
        basic_date_text_tells(a.date, b.date);
        assert(s.subrange(n + 1, n + 3) =~= two(a.hour()));
        assert(s.subrange(n + 1, n + 3) =~= two(b.hour()));
        assert(s.subrange(n + 3, n + 5) =~= two(a.minute()));
        assert(s.subrange(n + 3, n + 5) =~= two(b.minute()));
        assert(s.subrange(n + 5, n + 7) =~= two(a.second()));
        assert(s.subrange(n + 5, n + 7) =~= two(b.second()));
    }
    clock_tells(a, b);
}

/// The extended text of a time reads back as that time.
pub proof fn iso_text_reads_back(t: NaiveDateTime)
    requires
        t.on_clock(),
    ensures
        read_time(iso_text(t), "%Y-%m-%dT%H:%M:%S"@) == Some(t),
{
    let f = "%Y-%m-%dT%H:%M:%S"@;
    assert(writes_time(t, f, iso_text(t)));
    let u = choose|u: NaiveDateTime| writes_time(u, f, iso_text(t));
    written_time_is_unique(t, u, f, iso_text(t));
}

/// The basic text of a time with a four-digit year reads back as that time.
pub proof fn basic_text_reads_back(t: NaiveDateTime)
    requires
        t.on_clock(),
        0 <= t.date.year <= 9999,
    ensures
        read_time(basic_text(t), "%Y%m%dT%H%M%S"@) == Some(t),
{
    let f = "%Y%m%dT%H%M%S"@;
    assert(writes_time(t, f, basic_text(t)));
    let u = choose|u: NaiveDateTime| writes_time(u, f, basic_text(t));
    written_time_is_unique(t, u, f, basic_text(t));
}

/// The extended text of a date reads back as that date.
pub proof fn date_text_reads_back(d: NaiveDate)
    requires
        d.valid(),
    ensures
        read_date(date_text(d), "%Y-%m-%d"@) == Some(d),
{
    reveal_strlit("%Y-%m-%d");
    reveal_strlit("%Y%m%d");
    assert("%Y-%m-%d"@[2] != "%Y%m%d"@[2]);
    let f = "%Y-%m-%d"@;
    assert(writes_date(d, f, date_text(d)));
    let u = choose|u: NaiveDate| writes_date(u, f, date_text(d));
    date_text_tells(d, u);
}

/// The basic text of a date with a four-digit year reads back as that date.
pub proof fn basic_date_text_reads_back(d: NaiveDate)
    requires
        d.valid(),
        0 <= d.year <= 9999,
    ensures
        read_date(basic_date_text(d), "%Y%m%d"@) == Some(d),
{
    reveal_strlit("%Y-%m-%d");
    reveal_strlit("%Y%m%d");
    assert("%Y-%m-%d"@[2] != "%Y%m%d"@[2]);
    let f = "%Y%m%d"@;
    assert(writes_date(d, f, basic_date_text(d)));
    let u = choose|u: NaiveDate| writes_date(u, f, basic_date_text(d));
    basic_date_text_tells(d, u);
}

/// A text that ends in `:00` never reads as a leap second.
pub proof fn no_leap_at_zero_seconds(s: Seq<char>, f: Seq<char>)
    requires
        ends_with(s, ":00"@),
    ensures
        read_time(s, f) is Some ==> !read_time(s, f)->0.leap,
{
    reveal_strlit(":00");
    if exists|t: NaiveDateTime| writes_time(t, f, s) {
        let t = choose|t: NaiveDateTime| writes_time(t, f, s);
        two_text(t.second());
        two_text(t.minute());
        let n = s.len() as int;
        assert(s.skip(n - 3)[0] == s[n - 3]);
        assert(s.skip(n - 3)[1] == s[n - 2]);
        assert(s.skip(n - 3)[2] == s[n - 1]);
        if s == iso_text(t) {
            assert(two(t.second())[0] == s[n - 2]);
            assert(two(t.second())[1] == s[n - 1]);
            assert(two(t.second()) =~= seq!['0', '0']);
            assert(seq!['0', '0'].drop_last() =~= seq!['0']);
            assert(seq!['0'].drop_last() =~= Seq::<char>::empty());
            reveal_with_fuel(value_of, 3);
            assert(value_of(seq!['0', '0']) == 0);
        } else {
            assert(s == basic_text(t));
            assert(two(t.minute())[1] == s[n - 3]);
            assert(is_digit(two(t.minute())[1]));
        }
    }
}

} // verus!
