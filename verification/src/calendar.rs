//! Dates and wall-clock times of the proleptic Gregorian calendar, over the range that
//! `chrono` can represent.

use chrono::Datelike;
use vstd::prelude::*;
use crate::collections::{CloneView, Ordered};

verus! {

/// The first year with dates.
pub const MIN_YEAR: i32 = -262143;

/// The last year with dates.
pub const MAX_YEAR: i32 = 262142;

/// A calendar date.
#[derive(Debug, Clone, Copy, PartialEq, Eq, Structural)]
pub struct NaiveDate {
    pub year: i32,
    pub month: u32,
    pub day: u32,
}

/// A date and a time of day, without a time zone. `secs` counts the seconds since
/// midnight; `leap` marks the leap second that follows that second.
#[derive(Debug, Clone, Copy, PartialEq, Eq, Structural)]
pub struct NaiveDateTime {
    pub date: NaiveDate,
    pub secs: u32,
    pub leap: bool,
}

/// Whether `y` is a leap year.
pub open spec fn leap_year(y: int) -> bool {
    (y % 4 == 0 && y % 100 != 0) || y % 400 == 0
}

/// How many days month `m` of year `y` has.
pub open spec fn month_len(y: int, m: int) -> int {
    if m == 2 {
        if leap_year(y) {
            29
        } else {
            28
        }
    } else if m == 4 || m == 6 || m == 9 || m == 11 {
        30
    } else {
        31
    }
}

/// How many days of year `y` come before month `m`.
pub open spec fn days_before_month(y: int, m: int) -> int
    decreases m,
{
    if m <= 1 {
        0
    } else {
        days_before_month(y, m - 1) + month_len(y, m - 1)
    }
}

/// How many days come before year `y`, counted from the first day of year 1.
pub open spec fn days_before_year(y: int) -> int {
    365 * (y - 1) + (y - 1) / 4 - (y - 1) / 100 + (y - 1) / 400
}

impl NaiveDate {
    /// The date exists and is in range.
    pub open spec fn valid(self) -> bool {
        &&& MIN_YEAR <= self.year <= MAX_YEAR
        &&& 1 <= self.month <= 12
        &&& 1 <= self.day <= month_len(self.year as int, self.month as int)
    }

    /// The number of the day: 1 for the first day of year 1.
    pub open spec fn num(self) -> int {
        days_before_year(self.year as int) + days_before_month(self.year as int, self.month as int)
            + self.day
    }

    /// The day of the week, 0 for Monday.
    pub open spec fn weekday_num(self) -> int {
        (self.num() - 1) % 7
    }

    /// Midnight at the start of the day.
    pub open spec fn midnight(self) -> NaiveDateTime {
        NaiveDateTime { date: self, secs: 0, leap: false }
    }
}

impl NaiveDateTime {
    pub open spec fn valid(self) -> bool {
        self.date.valid() && self.secs < 86400
    }

    /// A time that a clock can show: a leap second only at the end of a minute.
    pub open spec fn on_clock(self) -> bool {
        self.valid() && (self.leap ==> self.secs % 60 == 59)
    }

    /// The number of the second, without leap seconds.
    pub open spec fn num(self) -> int {
        self.date.num() * 86400 + self.secs
    }

    /// A number in the order of the times: a leap second comes between its neighbours.
    pub open spec fn order(self) -> int {
        self.num() * 2 + (if self.leap { 1int } else { 0int })
    }

    pub open spec fn hour(self) -> int {
        self.secs as int / 3600
    }

    pub open spec fn minute(self) -> int {
        self.secs as int % 3600 / 60
    }

    /// The second of the minute, 60 for a leap second at the end of a minute.
    pub open spec fn second(self) -> int {
        self.secs as int % 60 + (if self.leap { 1int } else { 0int })
    }
}

/// The first day of the range.
pub open spec fn first_date() -> NaiveDate {
    NaiveDate { year: MIN_YEAR, month: 1, day: 1 }
}

/// The last day of the range.
pub open spec fn last_date() -> NaiveDate {
    NaiveDate { year: MAX_YEAR, month: 12, day: 31 }
}

/// `n` is the number of a day in range.
pub open spec fn day_in_range(n: int) -> bool {
    first_date().num() <= n <= last_date().num()
}

/// The date with number `n`.
pub open spec fn date_of(n: int) -> NaiveDate {
    choose|d: NaiveDate| d.valid() && #[trigger] d.num() == n
}

/// The date `n` days after `d`, if it is in range.
pub open spec fn plus_days(d: NaiveDate, n: int) -> Option<NaiveDate> {
    if day_in_range(d.num() + n) {
        Some(date_of(d.num() + n))
    } else {
        None
    }
}

/// The day that is `n` months after `d`, or the last of its month where that is shorter.
pub open spec fn plus_months(d: NaiveDate, n: int) -> Option<NaiveDate> {
    let t = d.year * 12 + (d.month - 1) + n;
    let y = t / 12;
    let m = t % 12 + 1;
    if MIN_YEAR <= y <= MAX_YEAR {
        Some(
            NaiveDate {
                year: y as i32,
                month: m as u32,
                day: (if d.day <= month_len(y, m) { d.day as int } else { month_len(y, m) }) as u32,
            },
        )
    } else {
        None
    }
}

// ---------------------------------------------------------------------------
// Facts about day numbers
// ---------------------------------------------------------------------------

pub proof fn month_starts(y: int)
    ensures
        days_before_month(y, 1) == 0,
        days_before_month(y, 2) == 31,
        days_before_month(y, 3) == 31 + month_len(y, 2),
        days_before_month(y, 4) == 62 + month_len(y, 2),
        days_before_month(y, 5) == 92 + month_len(y, 2),
        days_before_month(y, 6) == 123 + month_len(y, 2),
        days_before_month(y, 7) == 153 + month_len(y, 2),
        days_before_month(y, 8) == 184 + month_len(y, 2),
        days_before_month(y, 9) == 215 + month_len(y, 2),
        days_before_month(y, 10) == 245 + month_len(y, 2),
        days_before_month(y, 11) == 276 + month_len(y, 2),
        days_before_month(y, 12) == 306 + month_len(y, 2),
        days_before_month(y, 13) == 337 + month_len(y, 2),
{
    reveal_with_fuel(days_before_month, 14);
}

proof fn fourth_year(k: int)
    ensures
        (k + 1) / 4 == k / 4 + (if (k + 1) % 4 == 0 {
            1int
        } else {
            0int
        }),
{
}

proof fn hundredth_year(k: int)
    ensures
        (k + 1) / 100 == k / 100 + (if (k + 1) % 100 == 0 {
            1int
        } else {
            0int
        }),
        (k + 1) % 100 == 0 ==> (k + 1) % 4 == 0,
{
}

proof fn four_hundredth_year(k: int)
    ensures
        (k + 1) / 400 == k / 400 + (if (k + 1) % 400 == 0 {
            1int
        } else {
            0int
        }),
        (k + 1) % 400 == 0 ==> (k + 1) % 100 == 0,
{
}

/// A year's length.
pub proof fn year_step(y: int)
    ensures
        days_before_year(y + 1) == days_before_year(y) + 337 + month_len(y, 2),
{
    fourth_year(y - 1);
    hundredth_year(y - 1);
    four_hundredth_year(y - 1);
}

pub proof fn years_ascend(y: int, z: int)
    requires
        y < z,
    ensures
        days_before_year(y) + 337 + month_len(y, 2) <= days_before_year(z),
    decreases z - y,
{
    year_step(y);
    if y + 1 < z {
        years_ascend(y + 1, z);
    }
}

pub proof fn months_ascend(y: int, m: int, n: int)
    requires
        1 <= m < n <= 13,
    ensures
        days_before_month(y, m) + month_len(y, m) <= days_before_month(y, n),
    decreases n - m,
{
    assert(days_before_month(y, m + 1) == days_before_month(y, m) + month_len(y, m));
    if m + 1 < n {
        months_ascend(y, m + 1, n);
    }
}

/// The numbers of dates ascend as the dates do, by year, then month, then day.
pub proof fn nums_ascend(a: NaiveDate, b: NaiveDate)
    requires
        a.valid(),
        b.valid(),
    ensures
        (a.num() < b.num()) == (a.year < b.year || (a.year == b.year && (a.month < b.month || (
        a.month == b.month && a.day < b.day)))),
        a.num() == b.num() ==> a == b,
{
    before_next(a, b);
    before_next(b, a);
}

proof fn before_next(a: NaiveDate, b: NaiveDate)
    requires
        a.valid(),
        b.valid(),
    ensures
        a.year < b.year || (a.year == b.year && (a.month < b.month || (a.month == b.month && a.day
            < b.day))) ==> a.num() < b.num(),
{
    if a.year < b.year {
        years_ascend(a.year as int, b.year as int);
        month_starts(a.year as int);
        if a.month < 13 {
            months_ascend(a.year as int, a.month as int, 13);
        }
        if b.month > 1 {
            months_ascend(b.year as int, 1, b.month as int);
        }
    } else if a.year == b.year && a.month < b.month {
        months_ascend(a.year as int, a.month as int, b.month as int);
    }
}

/// A date is the date of its number.
pub proof fn date_of_num(d: NaiveDate)
    requires
        d.valid(),
    ensures
        date_of(d.num()) == d,
        day_in_range(d.num()),
{
    let e = date_of(d.num());
    assert(e.valid() && e.num() == d.num());
    nums_ascend(d, e);
    nums_ascend(first_date(), d);
    nums_ascend(d, last_date());
}

/// Every number in range is the number of a date.
pub proof fn date_of_exists(n: int)
    requires
        day_in_range(n),
    ensures
        date_of(n).valid(),
        date_of(n).num() == n,
    decreases n - first_date().num(),
{
    let f = first_date();
    if n == f.num() {
        assert(f.valid() && f.num() == n);
    } else {
        date_of_exists(n - 1);
        let p = date_of(n - 1);
        let y = p.year as int;
        let m = p.month as int;
        let d = if p.day < month_len(y, m) {
            NaiveDate { year: p.year, month: p.month, day: (p.day + 1) as u32 }
        } else if m < 12 {
            NaiveDate { year: p.year, month: (p.month + 1) as u32, day: 1 }
        } else {
            NaiveDate { year: (p.year + 1) as i32, month: 1, day: 1 }
        };
        month_starts(y);
        year_step(y);
        if p.day == month_len(y, m) && m == 12 && p.year == MAX_YEAR {
            assert(p == last_date());
        }
        assert(d.num() == n) by {
            if p.day == month_len(y, m) {
                if m < 12 {
                    assert(days_before_month(y, m + 1) == days_before_month(y, m) + month_len(
                        y,
                        m,
                    ));
                } else {
                    assert(days_before_month(y, 13) == days_before_month(y, 12) + month_len(y, 12));
                    assert(days_before_month(y + 1, 1) == 0);
                }
            }
        }
        assert(d.valid());
    }
}

/// The numbers of the first and the last day.
pub proof fn range_bounds()
    ensures
        first_date().num() == -95746129,
        last_date().num() == 95745399,
        first_date().valid(),
        last_date().valid(),
{
    month_starts(MIN_YEAR as int);
    month_starts(MAX_YEAR as int);
}

// ---------------------------------------------------------------------------
// Calls into chrono
// ---------------------------------------------------------------------------

/// `chrono::NaiveDate::from_ymd_opt`: the date with these parts, where there is one in
/// range.
#[verifier::external_body]
pub(crate) fn date_from_parts(year: i32, month: u32, day: u32) -> (r: Option<NaiveDate>)
    ensures
        r == (if (NaiveDate { year, month, day }).valid() {
            Some(NaiveDate { year, month, day })
        } else {
            None
        }),
{
    let d = chrono::NaiveDate::from_ymd_opt(year, month, day);
    d.map(|d| NaiveDate { year: d.year(), month: d.month(), day: d.day() })
}

/// `chrono::NaiveDate::checked_add_signed` on a whole number of days: the date that many
/// days later, or `None` where it is out of range. `chrono::TimeDelta::days`, which makes
/// the argument, takes the numbers that `requires` admits.
#[verifier::external_body]
pub(crate) fn date_plus_days(d: NaiveDate, days: i64) -> (r: Option<NaiveDate>)
    requires
        d.valid(),
        -106_751_991_167 <= days <= 106_751_991_167,
    ensures
        r is Some == day_in_range(d.num() + days),
        r is Some ==> r->0.valid() && r->0.num() == d.num() + days,
{
    let x = chrono::NaiveDate::from_ymd_opt(d.year, d.month, d.day).unwrap();
    let y = x.checked_add_signed(chrono::TimeDelta::days(days));
    y.map(|y| NaiveDate { year: y.year(), month: y.month(), day: y.day() })
}

/// `chrono::NaiveDate::checked_add_months`: the same day of a later month, or the last day
/// of that month where it is shorter; `None` where it is out of range or `months` is more
/// than an `i32` holds.
#[verifier::external_body]
pub(crate) fn date_plus_months(d: NaiveDate, months: u32) -> (r: Option<NaiveDate>)
    requires
        d.valid(),
    ensures
        r == plus_months(d, months as int),
{
    let x = chrono::NaiveDate::from_ymd_opt(d.year, d.month, d.day).unwrap();
    let y = x.checked_add_months(chrono::Months::new(months));
    y.map(|y| NaiveDate { year: y.year(), month: y.month(), day: y.day() })
}

/// `chrono::NaiveDate::checked_sub_months`: the same day of an earlier month, or the last
/// day of that month where it is shorter; `None` where it is out of range.
#[verifier::external_body]
pub(crate) fn date_minus_months(d: NaiveDate, months: u32) -> (r: Option<NaiveDate>)
    requires
        d.valid(),
    ensures
        r == plus_months(d, -(months as int)),
{
    let x = chrono::NaiveDate::from_ymd_opt(d.year, d.month, d.day).unwrap();
    let y = x.checked_sub_months(chrono::Months::new(months));
    y.map(|y| NaiveDate { year: y.year(), month: y.month(), day: y.day() })
}

/// `chrono::Datelike::weekday` and `chrono::Weekday::num_days_from_monday`: the day of the
/// week, counted from Monday. The first day of year 1 is a Monday.
#[verifier::external_body]
pub(crate) fn date_weekday(d: NaiveDate) -> (r: u32)
    requires
        d.valid(),
    ensures
        r == d.weekday_num(),
        r < 7,
{
    let x = chrono::NaiveDate::from_ymd_opt(d.year, d.month, d.day).unwrap();
    x.weekday().num_days_from_monday()
}

// ---------------------------------------------------------------------------
// Arithmetic and order
// ---------------------------------------------------------------------------

impl DeepView for NaiveDate {
    type V = NaiveDate;

    open spec fn deep_view(&self) -> NaiveDate {
        *self
    }
}

impl CloneView for NaiveDate {
    fn clone_view(&self) -> (r: Self) {
        *self
    }
}

impl DeepView for NaiveDateTime {
    type V = NaiveDateTime;

    open spec fn deep_view(&self) -> NaiveDateTime {
        *self
    }
}

impl CloneView for NaiveDateTime {
    fn clone_view(&self) -> (r: Self) {
        *self
    }
}

/// Whether `a` comes before `b`, by year, then month, then day.
pub open spec fn date_less(a: NaiveDate, b: NaiveDate) -> bool {
    a.year < b.year || (a.year == b.year && (a.month < b.month || (a.month == b.month && a.day
        < b.day)))
}

/// Whether `a` comes before `b`, by date, then second; a leap second comes after its second.
pub open spec fn time_less(a: NaiveDateTime, b: NaiveDateTime) -> bool {
    date_less(a.date, b.date) || (a.date == b.date && (a.secs < b.secs || (a.secs == b.secs
        && !a.leap && b.leap)))
}

impl Ordered for NaiveDate {
    open spec fn le_view(a: NaiveDate, b: NaiveDate) -> bool {
        !date_less(b, a)
    }

    fn le(&self, other: &Self) -> (r: bool) {
        !other.is_before(*self)
    }
}

impl Ordered for NaiveDateTime {
    open spec fn le_view(a: NaiveDateTime, b: NaiveDateTime) -> bool {
        !time_less(b, a)
    }

    fn le(&self, other: &Self) -> (r: bool) {
        !other.is_before(*self)
    }
}

/// The order of times is the order of their numbers.
pub proof fn time_less_is_order(a: NaiveDateTime, b: NaiveDateTime)
    requires
        a.valid(),
        b.valid(),
    ensures
        time_less(a, b) == (a.order() < b.order()),
        date_less(a.date, b.date) == (a.date.num() < b.date.num()),
        a.order() == b.order() ==> a == b,
{
    nums_ascend(a.date, b.date);
    nums_ascend(b.date, a.date);
}

impl NaiveDate {
    /// The date with these parts, where there is one in range.
    pub fn from_ymd_opt(year: i32, month: u32, day: u32) -> (r: Option<NaiveDate>)
        ensures
            r == (if (NaiveDate { year, month, day }).valid() {
                Some(NaiveDate { year, month, day })
            } else {
                None
            }),
    {
        date_from_parts(year, month, day)
    }

    /// Whether the date exists and is in range.
    pub fn is_valid(self) -> (r: bool)
        ensures
            r == self.valid(),
    {
        date_from_parts(self.year, self.month, self.day).is_some()
    }

    pub fn is_before(self, other: NaiveDate) -> (r: bool)
        ensures
            r == date_less(self, other),
    {
        self.year < other.year || (self.year == other.year && (self.month < other.month || (
        self.month == other.month && self.day < other.day)))
    }

    /// The date `n` days later, if it is in range.
    pub fn add_days(self, n: i64) -> (r: Option<NaiveDate>)
        requires
            self.valid(),
        ensures
            r == plus_days(self, n as int),
            r is Some ==> r->0.valid() && r->0.num() == self.num() + n,
    {
        proof {
            range_bounds();
            date_of_num(self);
        }
        if n < -200_000_000 || n > 200_000_000 {
            return None;
        }
        let r = date_plus_days(self, n);
        proof {
            if r is Some {
                date_of_num(r->0);
            }
        }
        r
    }

    /// The day of the week, 0 for Monday.
    pub fn weekday(self) -> (r: u32)
        requires
            self.valid(),
        ensures
            r == self.weekday_num(),
            r < 7,
    {
        date_weekday(self)
    }

    /// Midnight at the start of the day.
    pub fn at_midnight(self) -> (r: NaiveDateTime)
        ensures
            r == self.midnight(),
    {
        NaiveDateTime { date: self, secs: 0, leap: false }
    }

    /// The time of day `hour:min:sec` on this date, where there is one.
    pub fn and_hms_opt(self, hour: u32, min: u32, sec: u32) -> (r: Option<NaiveDateTime>)
        ensures
            r == (if hour < 24 && min < 60 && sec < 60 {
                Some(
                    NaiveDateTime {
                        date: self,
                        secs: (hour * 3600 + min * 60 + sec) as u32,
                        leap: false,
                    },
                )
            } else {
                None
            }),
    {
        if hour < 24 && min < 60 && sec < 60 {
            Some(NaiveDateTime { date: self, secs: hour * 3600 + min * 60 + sec, leap: false })
        } else {
            None
        }
    }
}

/// The time `d` seconds after `t`, if it is in range. A leap second counts as the second
/// before it when time goes on, and as the one after it when time goes back.
pub open spec fn plus_secs(t: NaiveDateTime, d: int) -> Option<NaiveDateTime> {
    if d == 0 {
        Some(t)
    } else {
        let n = t.num() + d + (if t.leap && d < 0 {
            1int
        } else {
            0int
        });
        if day_in_range(n / 86400) {
            Some(NaiveDateTime { date: date_of(n / 86400), secs: (n % 86400) as u32, leap: false })
        } else {
            None
        }
    }
}

/// The clock moved by `d` seconds, a leap second staying one, if that is in range.
pub open spec fn shift_secs(t: NaiveDateTime, d: int) -> Option<NaiveDateTime> {
    let n = t.num() + d;
    if day_in_range(n / 86400) {
        Some(NaiveDateTime { date: date_of(n / 86400), secs: (n % 86400) as u32, leap: t.leap })
    } else {
        None
    }
}

/// The seconds from `b` to `a`. A leap second that lies between them counts.
pub open spec fn secs_between(a: NaiveDateTime, b: NaiveDateTime) -> int {
    a.num() - b.num() + (if a.secs > b.secs && b.leap {
        1int
    } else if a.secs < b.secs && a.leap {
        -1int
    } else {
        0int
    }) + (if a.leap {
        1int
    } else {
        0int
    }) - (if b.leap {
        1int
    } else {
        0int
    })
}

impl NaiveDateTime {
    pub fn is_before(self, other: NaiveDateTime) -> (r: bool)
        ensures
            r == time_less(self, other),
    {
        self.date.is_before(other.date) || (self.date == other.date && (self.secs < other.secs || (
        self.secs == other.secs && !self.leap && other.leap)))
    }

    /// The clock moved by `d` seconds, a leap second staying one, if that is in range.
    pub fn shift(self, d: i64) -> (r: Option<NaiveDateTime>)
        requires
            self.valid(),
            -9_223_372_036_854_776 <= d <= 9_223_372_036_854_776,
        ensures
            r == shift_secs(self, d as int),
            r is Some ==> r->0.valid() && r->0.num() == self.num() + d,
    {
        let total: i64 = self.secs as i64 + d + 86400 * 110_000_000_000;
        let days: i64 = total / 86400 - 110_000_000_000;
        let secs: i64 = total % 86400;
        let ghost n = self.num() + d;
        assert(n == (self.date.num() + days) * 86400 + secs);
        assert(n / 86400 == self.date.num() + days && n % 86400 == secs) by (nonlinear_arith)
            requires
                n == (self.date.num() + days) * 86400 + secs,
                0 <= secs < 86400,
        ;
        match self.date.add_days(days) {
            Some(date) => Some(NaiveDateTime { date, secs: secs as u32, leap: self.leap }),
            None => None,
        }
    }

    /// The time `d` seconds later, if it is in range.
    pub fn plus(self, d: i64) -> (r: Option<NaiveDateTime>)
        requires
            self.valid(),
            -9_223_372_036_854_775 <= d <= 9_223_372_036_854_775,
        ensures
            r == plus_secs(self, d as int),
            r is Some ==> r->0.valid(),
    {
        if d == 0 {
            return Some(self);
        }
        let d2: i64 = if self.leap && d < 0 {
            d + 1
        } else {
            d
        };
        match self.shift(d2) {
            Some(t) => Some(NaiveDateTime { date: t.date, secs: t.secs, leap: false }),
            None => None,
        }
    }

    /// Whether the date and the second of the day are in range.
    pub fn is_valid(self) -> (r: bool)
        ensures
            r == self.valid(),
    {
        self.date.is_valid() && self.secs < 86400
    }
}

/// `chrono::Datelike::num_days_from_ce`: the number of the day, 1 for the first day of
/// year 1.
#[verifier::external_body]
pub(crate) fn date_number(d: NaiveDate) -> (r: i32)
    requires
        d.valid(),
    ensures
        r == d.num(),
{
    chrono::NaiveDate::from_ymd_opt(d.year, d.month, d.day).unwrap().num_days_from_ce()
}

/// The seconds from `b` to `a`.
pub fn seconds_between(a: NaiveDateTime, b: NaiveDateTime) -> (r: i64)
    requires
        a.valid(),
        b.valid(),
    ensures
        r == secs_between(a, b),
        -16_600_000_000_000 <= r <= 16_600_000_000_000,
{
    proof {
        range_bounds();
        date_of_num(a.date);
        date_of_num(b.date);
    }
    let days: i64 = date_number(a.date) as i64 - date_number(b.date) as i64;
    let mut secs: i64 = days * 86400 + a.secs as i64 - b.secs as i64;
    if a.secs > b.secs && b.leap {
        secs = secs + 1;
    } else if a.secs < b.secs && a.leap {
        secs = secs - 1;
    }
    if a.leap {
        secs = secs + 1;
    }
    if b.leap {
        secs = secs - 1;
    }
    secs
}

/// Without leap seconds, adding what lies between two times to the first gives the second.
pub proof fn plus_secs_between(a: NaiveDateTime, b: NaiveDateTime)
    requires
        a.valid(),
        b.valid(),
        !a.leap,
        !b.leap,
    ensures
        plus_secs(b, secs_between(a, b)) == Some(a),
{
    date_of_num(a.date);
    date_of_num(b.date);
    assert((a.date.num() * 86400 + a.secs) / 86400 == a.date.num() && (a.date.num() * 86400
        + a.secs) % 86400 == a.secs);
    if a.num() == b.num() {
        time_less_is_order(a, b);
    }
}

/// A time that is some seconds later is a time, and one that a clock can show if the first is.
pub proof fn plus_secs_stays_valid(t: NaiveDateTime, d: int)
    requires
        t.valid(),
        plus_secs(t, d) is Some,
    ensures
        plus_secs(t, d)->0.valid(),
        t.on_clock() ==> plus_secs(t, d)->0.on_clock(),
{
    if d != 0 {
        let n = t.num() + d + (if t.leap && d < 0 {
            1int
        } else {
            0int
        });
        date_of_exists(n / 86400);
    }
}

} // verus!
