//! What the server holds while it runs: how it shows things by default, and what it remembers
//! of what it fetched.

use vstd::prelude::*;
use vstd::string::*;
use crate::calendar::NaiveDate;
use crate::collections::CloneView;
use crate::jscalendar::{CalendarEvent, CalendarEventV};
use crate::jscontact::{Card, CardV};
use crate::numbers::{parse_int, parse_u32_str};
use crate::regions::{
    days_ascend, holidays_between, holidays_in_range, holidays_valid, GermanRegion,
};
use crate::text::str_eq;
use crate::tz::{is_zone, parse_tz, Tz};
use crate::view::{shown_dates, try_display_range, ViewParams};

verus! {

/// How long fetched contacts are trusted, in seconds.
pub const CONTACTS_CACHE_TTL_SECS: u64 = 900;

/// How long a fetched calendar of a subscription is trusted, in seconds.
pub const ICS_CACHE_TTL_SECS: u64 = 1800;

/// The id that stands for public holidays among those of calendars.
pub const HOLIDAYS_PSEUDO_ID: &'static str = "holidays";

pub const HOLIDAYS_COLOR: &'static str = "#22c55e";

/// The clock by which times are shown.
#[derive(Debug, Clone, Copy, PartialEq, Eq, Structural)]
pub enum TimeFormat {
    Twelve,
    TwentyFour,
}

impl DeepView for TimeFormat {
    type V = TimeFormat;

    open spec fn deep_view(&self) -> TimeFormat {
        *self
    }
}

impl CloneView for TimeFormat {
    fn clone_view(&self) -> (r: Self) {
        *self
    }
}

/// The clock that a word asks for, if any.
pub open spec fn time_format_of(s: Seq<char>) -> Option<TimeFormat> {
    if s == "12h"@ {
        Some(TimeFormat::Twelve)
    } else if s == "24h"@ {
        Some(TimeFormat::TwentyFour)
    } else {
        None
    }
}

/// The name of a clock.
pub open spec fn time_format_label(f: TimeFormat) -> Seq<char> {
    match f {
        TimeFormat::Twelve => "12-hour"@,
        TimeFormat::TwentyFour => "24-hour"@,
    }
}

impl TimeFormat {
    pub fn parse(s: &str) -> (r: Option<Self>)
        ensures
            r == time_format_of(s@),
    {
        if str_eq(s, "12h") {
            Some(TimeFormat::Twelve)
        } else if str_eq(s, "24h") {
            Some(TimeFormat::TwentyFour)
        } else {
            None
        }
    }

    pub fn label(&self) -> (r: &'static str)
        ensures
            r@ == time_format_label(*self),
    {
        match self {
            TimeFormat::Twelve => "12-hour",
            TimeFormat::TwentyFour => "24-hour",
        }
    }
}

/// What the form to sign in is filled with on a demonstration server.
#[derive(Debug)]
pub struct DemoLogin {
    pub server_url: String,
    pub username: String,
    pub password: String,
}

/// What a [`DemoLogin`] stands for.
#[verifier::ext_equal]
pub struct DemoLoginV {
    pub server_url: Seq<char>,
    pub username: Seq<char>,
    pub password: Seq<char>,
}

impl DeepView for DemoLogin {
    type V = DemoLoginV;

    open spec fn deep_view(&self) -> DemoLoginV {
        DemoLoginV {
            server_url: self.server_url.deep_view(),
            username: self.username.deep_view(),
            password: self.password.deep_view(),
        }
    }
}

impl CloneView for DemoLogin {
    fn clone_view(&self) -> (r: Self) {
        DemoLogin {
            server_url: self.server_url.clone_view(),
            username: self.username.clone_view(),
            password: self.password.clone_view(),
        }
    }
}

impl Clone for DemoLogin {
    fn clone(&self) -> (r: Self)
        ensures
            r.deep_view() == self.deep_view(),
    {
        self.clone_view()
    }
}

/// How things are shown: the zone of the views, the state whose holidays are shown, and the
/// clock.
#[derive(Debug)]
pub struct DisplaySettings {
    pub viewer_tz: Tz,
    pub holidays_region: Option<GermanRegion>,
    pub time_format: TimeFormat,
}

/// What a [`DisplaySettings`] stands for.
#[verifier::ext_equal]
pub struct DisplaySettingsV {
    pub viewer_tz: Seq<char>,
    pub holidays_region: Option<GermanRegion>,
    pub time_format: TimeFormat,
}

impl DeepView for DisplaySettings {
    type V = DisplaySettingsV;

    open spec fn deep_view(&self) -> DisplaySettingsV {
        DisplaySettingsV {
            viewer_tz: self.viewer_tz.deep_view(),
            holidays_region: self.holidays_region.deep_view(),
            time_format: self.time_format.deep_view(),
        }
    }
}

impl CloneView for DisplaySettings {
    fn clone_view(&self) -> (r: Self) {
        DisplaySettings {
            viewer_tz: self.viewer_tz.clone_view(),
            holidays_region: self.holidays_region.clone_view(),
            time_format: self.time_format.clone_view(),
        }
    }
}

impl Clone for DisplaySettings {
    fn clone(&self) -> (r: Self)
        ensures
            r.deep_view() == self.deep_view(),
    {
        self.clone_view()
    }
}

/// The zone that an operator asks for, or UTC.
pub open spec fn zone_or_utc(s: Option<Seq<char>>) -> Seq<char> {
    match s {
        Some(z) => if is_zone(z) {
            z
        } else {
            "UTC"@
        },
        None => "UTC"@,
    }
}

/// The zone that an operator asks for, or UTC where there is none of that name.
pub fn configured_tz(name: Option<&str>) -> (r: Tz)
    ensures
        r.deep_view() == zone_or_utc(
            match name {
                Some(n) => Some(n@),
                None => None,
            },
        ),
{
    match name {
        Some(n) => match parse_tz(n) {
            Some(tz) => tz,
            None => Tz::utc(),
        },
        None => Tz::utc(),
    }
}

/// What the form to sign in is filled with: nothing, unless a server is named; then `demo` for
/// what is not given.
pub fn demo_login(
    server_url: Option<String>,
    username: Option<String>,
    password: Option<String>,
) -> (r: Option<DemoLogin>)
    ensures
        r.deep_view() == (match server_url {
            Some(url) => Some(
                DemoLoginV {
                    server_url: url@,
                    username: match username {
                        Some(u) => u@,
                        None => "demo"@,
                    },
                    password: match password {
                        Some(p) => p@,
                        None => "demo"@,
                    },
                },
            ),
            None => None,
        }),
{
    match server_url {
        Some(server_url) => Some(
            DemoLogin {
                server_url,
                username: match username {
                    Some(u) => u,
                    None => "demo".to_string(),
                },
                password: match password {
                    Some(p) => p,
                    None => "demo".to_string(),
                },
            },
        ),
        None => None,
    }
}

// ---------------------------------------------------------------------------
// Holidays
// ---------------------------------------------------------------------------

/// The public holidays that a view shows: none where they are not asked for, or where no state
/// is configured. `None` where the view leaves the calendar.
pub fn try_fetch_holidays(region: Option<GermanRegion>, params: &ViewParams) -> (r: Option<
    Vec<(NaiveDate, String)>,
>)
    requires
        params.date.valid(),
    ensures
        !params.visible.deep_view().contains(HOLIDAYS_PSEUDO_ID@) || region is None ==> r is Some
            && r->0.deep_view() == Seq::<(NaiveDate, Seq<char>)>::empty(),
        params.visible.deep_view().contains(HOLIDAYS_PSEUDO_ID@) && region is Some ==> (match
            shown_dates(params.view, params.date) {
            Some(range) => {
                &&& r is Some
                &&& r->0.deep_view().to_multiset() == holidays_between(
                    region->0,
                    range.0,
                    range.1,
                )
                &&& days_ascend(r->0.deep_view())
                &&& holidays_valid(r->0.deep_view())
            },
            None => r is None,
        }),
{
    let none: Vec<(NaiveDate, String)> = Vec::new();
    assert(none.deep_view() =~= Seq::<(NaiveDate, Seq<char>)>::empty());
    if !params.visible.contains(HOLIDAYS_PSEUDO_ID) {
        return Some(none);
    }
    match region {
        Some(region) => match try_display_range(params) {
            Some((start, end)) => Some(holidays_in_range(region, start.date, end.date)),
            None => None,
        },
        None => Some(none),
    }
}

/// The public holidays that a view shows: none where they are not asked for, or where no state
/// is configured.
pub fn fetch_holidays(region: Option<GermanRegion>, params: &ViewParams) -> (r: Vec<
    (NaiveDate, String),
>)
    requires
        params.date.valid(),
        shown_dates(params.view, params.date) is Some,
    ensures
        !params.visible.deep_view().contains(HOLIDAYS_PSEUDO_ID@) || region is None
            ==> r.deep_view() == Seq::<(NaiveDate, Seq<char>)>::empty(),
        params.visible.deep_view().contains(HOLIDAYS_PSEUDO_ID@) && region is Some
            ==> r.deep_view().to_multiset() == holidays_between(
            region->0,
            (shown_dates(params.view, params.date)->0).0,
            (shown_dates(params.view, params.date)->0).1,
        ) && days_ascend(r.deep_view()) && holidays_valid(r.deep_view()),
{
    match try_fetch_holidays(region, params) {
        Some(v) => v,
        None => Vec::new(),
    }
}

// ---------------------------------------------------------------------------
// What was fetched
// ---------------------------------------------------------------------------

/// The contacts of an account, and when they were fetched, in seconds on a clock that never goes
/// back.
#[derive(Debug)]
pub struct CachedContacts {
    pub cards: Vec<Card>,
    pub fetched_at: u64,
}

/// What a [`CachedContacts`] stands for.
#[verifier::ext_equal]
pub struct CachedContactsV {
    pub cards: Seq<CardV>,
    pub fetched_at: u64,
}

impl DeepView for CachedContacts {
    type V = CachedContactsV;

    open spec fn deep_view(&self) -> CachedContactsV {
        CachedContactsV {
            cards: self.cards.deep_view(),
            fetched_at: self.fetched_at.deep_view(),
        }
    }
}

/// The events of a subscription from its last good fetch, and when they were last asked for.
#[derive(Debug)]
pub struct CachedIcsEvents {
    pub events: Vec<CalendarEvent>,
    pub fetched_at: u64,
    /// Why the last fetch failed, where it did.
    pub error: Option<String>,
}

/// What a [`CachedIcsEvents`] stands for.
#[verifier::ext_equal]
pub struct CachedIcsEventsV {
    pub events: Seq<CalendarEventV>,
    pub fetched_at: u64,
    pub error: Option<Seq<char>>,
}

impl DeepView for CachedIcsEvents {
    type V = CachedIcsEventsV;

    open spec fn deep_view(&self) -> CachedIcsEventsV {
        CachedIcsEventsV {
            events: self.events.deep_view(),
            fetched_at: self.fetched_at.deep_view(),
            error: self.error.deep_view(),
        }
    }
}

/// Whether what was fetched at one time can be trusted at another.
pub open spec fn is_fresh(fetched_at: int, now: int, ttl: int) -> bool {
    now - fetched_at < ttl
}

/// The key of an account among the contacts that are remembered: accounts of two servers
/// may have the same id.
pub fn contacts_cache_key(api_url: Option<&str>, contacts_account_id: &str) -> (r: String)
    ensures
        r@ == (match api_url {
            Some(u) => u@,
            None => Seq::empty(),
        }) + "#"@ + contacts_account_id@,
{
    let mut out = match api_url {
        Some(u) => u.to_string(),
        None => String::new(),
    };
    out.append("#");
    out.append(contacts_account_id);
    out
}

/// The contacts that need not be fetched again, if any.
pub fn fresh_contacts(cached: Option<&CachedContacts>, now: u64) -> (r: Option<Vec<Card>>)
    requires
        cached matches Some(c) ==> c.fetched_at <= now,
    ensures
        r.deep_view() == (match cached {
            Some(c) => if is_fresh(
                c.fetched_at as int,
                now as int,
                CONTACTS_CACHE_TTL_SECS as int,
            ) {
                Some(c.cards.deep_view())
            } else {
                None
            },
            None => None,
        }),
{
    match cached {
        Some(c) => {
            if now - c.fetched_at < CONTACTS_CACHE_TTL_SECS {
                Some(c.cards.clone_view())
            } else {
                None
            }
        },
        None => None,
    }
}

/// The events of a subscription that need not be fetched again, if any.
pub fn fresh_ics_events(cached: Option<&CachedIcsEvents>, now: u64) -> (r: Option<
    Vec<CalendarEvent>,
>)
    requires
        cached matches Some(c) ==> c.fetched_at <= now,
    ensures
        r.deep_view() == (match cached {
            Some(c) => if is_fresh(c.fetched_at as int, now as int, ICS_CACHE_TTL_SECS as int) {
                Some(c.events.deep_view())
            } else {
                None
            },
            None => None,
        }),
{
    match cached {
        Some(c) => {
            if now - c.fetched_at < ICS_CACHE_TTL_SECS {
                Some(c.events.clone_view())
            } else {
                None
            }
        },
        None => None,
    }
}

/// What is remembered of a subscription after a fetch: its events where the fetch went well,
/// else those from before, with what went wrong.
pub open spec fn after_fetch(
    cached: Option<CachedIcsEventsV>,
    fetched: Result<Seq<CalendarEventV>, Seq<char>>,
    now: u64,
) -> CachedIcsEventsV {
    match fetched {
        Ok(events) => CachedIcsEventsV { events, fetched_at: now, error: None },
        Err(e) => CachedIcsEventsV {
            events: match cached {
                Some(c) => c.events,
                None => Seq::empty(),
            },
            fetched_at: now,
            error: Some(e),
        },
    }
}

/// What is remembered of a subscription after a fetch.
pub fn ics_after_fetch(
    cached: Option<&CachedIcsEvents>,
    fetched: Result<Vec<CalendarEvent>, String>,
    now: u64,
) -> (r: CachedIcsEvents)
    ensures
        r.deep_view() == after_fetch(
            match cached {
                Some(c) => Some(c.deep_view()),
                None => None,
            },
            match fetched {
                Ok(v) => Ok(v.deep_view()),
                Err(e) => Err(e@),
            },
            now,
        ),
{
    match fetched {
        Ok(events) => CachedIcsEvents { events, fetched_at: now, error: None },
        Err(e) => {
            let events = match cached {
                Some(c) => c.events.clone_view(),
                None => Vec::new(),
            };
            assert(cached is None ==> events.deep_view() =~= Seq::empty());
            CachedIcsEvents { events, fetched_at: now, error: Some(e) }
        },
    }
}

/// Failed fetches, however many, leave the events of the last good one in place; and what was
/// just fetched is not fetched again at once.
pub proof fn failed_fetch_keeps_events(
    cached: Option<CachedIcsEventsV>,
    events: Seq<CalendarEventV>,
    first: Seq<char>,
    second: Seq<char>,
    t0: u64,
    t1: u64,
    t2: u64,
)
    ensures
        after_fetch(
            Some(after_fetch(Some(after_fetch(cached, Ok(events), t0)), Err(first), t1)),
            Err(second),
            t2,
        ).events == events,
        is_fresh(
            after_fetch(cached, Ok(events), t0).fetched_at as int,
            t0 as int,
            ICS_CACHE_TTL_SECS as int,
        ),
{
}

/// The port to listen on: the one that is asked for, or the usual one where that is none.
pub fn configured_port(wanted: Option<&str>, usual: u16) -> (r: u16)
    ensures
        r == (match wanted {
            Some(s) => match parse_int(s@, 0, u16::MAX as int) {
                Some(v) => v as u16,
                None => usual,
            },
            None => usual,
        }),
{
    match wanted {
        Some(s) => match parse_u32_str(s) {
            Some(v) => {
                if v <= 65_535 {
                    v as u16
                } else {
                    usual
                }
            },
            None => usual,
        },
        None => usual,
    }
}

} // verus!
