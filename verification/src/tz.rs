//! Time zone conversion for JSCalendar's `LocalDateTime` and `timeZone` pair: a
//! wall-clock time with no zone is "floating" and shows the same in any zone;
//! otherwise it is the wall-clock time in the named IANA zone.

use std::str::FromStr;
use chrono::{Datelike, Offset, TimeZone, Timelike};
use vstd::prelude::*;
use vstd::string::*;
use crate::calendar::{shift_secs, NaiveDate, NaiveDateTime};
use crate::collections::CloneView;
use crate::text::str_eq;

verus! {

/// An IANA time zone, known by its name.
#[derive(Debug)]
pub struct Tz {
    name: String,
}

/// `name` is the name of a time zone that `chrono_tz` has.
pub uninterp spec fn is_zone(name: Seq<char>) -> bool;

/// The earliest instant, in UTC, at which clocks in a zone show `t`, as `chrono` has it.
pub uninterp spec fn utc_of(name: Seq<char>, t: NaiveDateTime) -> Option<NaiveDateTime>;

/// How many seconds the clocks in a zone are ahead of UTC at the instant `t`.
pub uninterp spec fn zone_offset(name: Seq<char>, t: NaiveDateTime) -> int;

impl Tz {
    #[verifier::type_invariant]
    spec fn known(self) -> bool {
        is_zone(self.name@)
    }
}

impl DeepView for Tz {
    type V = Seq<char>;

    closed spec fn deep_view(&self) -> Seq<char> {
        self.name@
    }
}

impl CloneView for Tz {
    fn clone_view(&self) -> (r: Self) {
        proof {
            use_type_invariant(self);
        }
        Tz { name: self.name.clone() }
    }
}

impl Clone for Tz {
    fn clone(&self) -> (r: Self)
        ensures
            r.deep_view() == self.deep_view(),
    {
        self.clone_view()
    }
}

/// `chrono_tz::Tz::from_str`: whether there is a zone of that name. There is one named
/// `UTC`.
#[verifier::external_body]
fn zone_exists(name: &str) -> (r: bool)
    ensures
        r == is_zone(name@),
        name@ == "UTC"@ ==> r,
{
    chrono_tz::Tz::from_str(name).is_ok()
}

/// `chrono::TimeZone::from_local_datetime` and `chrono::MappedLocalTime::earliest` for a
/// zone of `chrono_tz`: the earliest instant, in UTC, at which clocks in the zone show `t`,
/// `None` where they never do or it is out of range. It is less than a day away from `t`.
#[verifier::external_body]
fn local_to_utc(name: &str, t: NaiveDateTime) -> (r: Option<NaiveDateTime>)
    requires
        is_zone(name@),
        t.valid(),
    ensures
        r == utc_of(name@, t),
        r is Some ==> r->0.valid() && -86400 < r->0.num() - t.num() < 86400,
{
    let d = chrono::NaiveDate::from_ymd_opt(t.date.year, t.date.month, t.date.day)?;
    let s = chrono::NaiveTime::from_num_seconds_from_midnight_opt(t.secs, 0)?;
    let nano = match t.leap {
        true => 1_000_000_000,
        false => 0,
    };
    let zone = chrono_tz::Tz::from_str(name).ok()?;
    let u = zone.from_local_datetime(&d.and_time(s.with_nanosecond(nano)?)).earliest()?.naive_utc();
    let date = NaiveDate { year: u.year(), month: u.month(), day: u.day() };
    let leap = u.nanosecond() >= 1_000_000_000;
    Some(NaiveDateTime { date, secs: u.num_seconds_from_midnight(), leap })
}

/// `chrono::TimeZone::offset_from_utc_datetime` for a zone of `chrono_tz`: how many seconds
/// its clocks are ahead of UTC at the instant `t`. It is less than a day.
#[verifier::external_body]
fn offset_at(name: &str, t: NaiveDateTime) -> (r: i64)
    requires
        is_zone(name@),
        t.valid(),
    ensures
        r == zone_offset(name@, t),
        -86400 < r < 86400,
{
    let d = chrono::NaiveDate::from_ymd_opt(t.date.year, t.date.month, t.date.day).unwrap();
    let s = chrono::NaiveTime::from_num_seconds_from_midnight_opt(t.secs, 0).unwrap();
    let zone = chrono_tz::Tz::from_str(name).unwrap();
    zone.offset_from_utc_datetime(&d.and_time(s)).fix().local_minus_utc() as i64
}

/// The wall-clock time in the zone `to` when clocks in the zone `from` show `t`. A floating
/// time, a time in the same zone and one that `from` never shows stay as they are. `None`
/// where the result is out of range.
pub open spec fn converted(t: NaiveDateTime, from: Option<Seq<char>>, to: Seq<char>) -> Option<
    NaiveDateTime,
> {
    match from {
        None => Some(t),
        Some(f) => if f == to {
            Some(t)
        } else {
            match utc_of(f, t) {
                None => Some(t),
                Some(u) => shift_secs(u, zone_offset(to, u)),
            }
        },
    }
}

/// The zone with a name, where there is one.
pub fn parse_tz(name: &str) -> (r: Option<Tz>)
    ensures
        r.deep_view() == (if is_zone(name@) {
            Some(name@)
        } else {
            None
        }),
{
    if zone_exists(name) {
        Some(Tz { name: name.to_string() })
    } else {
        None
    }
}

impl Tz {
    /// Coordinated universal time.
    pub fn utc() -> (r: Tz)
        ensures
            r.deep_view() == "UTC"@,
    {
        let name = "UTC".to_string();
        let known = zone_exists(name.as_str());
        assert(is_zone(name@));
        Tz { name }
    }

    pub fn name(&self) -> (r: &str)
        ensures
            r@ == self.deep_view(),
    {
        self.name.as_str()
    }
}

pub(crate) fn convert_checked(t: NaiveDateTime, from: Option<&Tz>, to: &Tz) -> (r: Option<
    NaiveDateTime,
>)
    requires
        t.valid(),
    ensures
        r == converted(t, from.deep_view(), to.deep_view()),
        r is Some ==> r->0.valid(),
{
    proof {
        use_type_invariant(to);
    }
    let from = match from {
        Some(f) => f,
        None => {
            return Some(t);
        },
    };
    proof {
        use_type_invariant(from);
    }
    if str_eq(from.name.as_str(), to.name.as_str()) {
        return Some(t);
    }
    match local_to_utc(from.name.as_str(), t) {
        None => Some(t),
        Some(u) => u.shift(offset_at(to.name.as_str(), u)),
    }
}

/// Takes `naive`, a wall-clock time in `from` or a floating one, to the wall-clock time in
/// `to`.
pub fn convert(naive: NaiveDateTime, from: Option<&Tz>, to: &Tz) -> (r: NaiveDateTime)
    requires
        naive.valid(),
        converted(naive, from.deep_view(), to.deep_view()) is Some,
    ensures
        Some(r) == converted(naive, from.deep_view(), to.deep_view()),
        r.valid(),
{
    match convert_checked(naive, from, to) {
        Some(t) => t,
        None => naive,
    }
}

/// Like [`convert`], but `None` where the result is out of range.
pub fn try_convert(naive: NaiveDateTime, from: Option<&Tz>, to: &Tz) -> (r: Option<NaiveDateTime>)
    requires
        naive.valid(),
    ensures
        r == converted(naive, from.deep_view(), to.deep_view()),
        r is Some ==> r->0.valid(),
{
    convert_checked(naive, from, to)
}

/// A floating time, and a time that is already in the zone, stay as they are.
pub proof fn conversion_keeps(t: NaiveDateTime, zone: Seq<char>)
    ensures
        converted(t, None, zone) == Some(t),
        converted(t, Some(zone), zone) == Some(t),
{
}

/// What clocks in a zone show at an instant of UTC, or `None` where it is out of range.
pub fn at_zone(utc: NaiveDateTime, tz: &Tz) -> (r: Option<NaiveDateTime>)
    requires
        utc.valid(),
    ensures
        r == shift_secs(utc, zone_offset(tz.deep_view(), utc)),
        r is Some ==> r->0.valid(),
{
    proof {
        use_type_invariant(tz);
    }
    utc.shift(offset_at(tz.name.as_str(), utc))
}

} // verus!
