//! The forms for calendars and for subscriptions.

use vstd::prelude::*;
use vstd::slice::*;
use vstd::string::*;
use crate::jscalendar::{Calendar, CalendarV};
use crate::text::{chars_of, str_eq, string_of, trim, trim_str};
use crate::timetext::{date_text, format_time};
use crate::urls::{parse_url, parsed_url, url_view, UrlParts, UrlPartsV};
use crate::users::{is_blank, IcsSubscription};
use crate::view::{view_word, ViewParams, ViewParamsV};
use crate::webutil::{urlencode, urlencoded};

verus! {

pub const DEFAULT_CALENDAR_COLOR: &'static str = "#3b82f6";

pub const DEFAULT_ICS_COLOR: &'static str = "#0ea5e9";

/// How many bytes of a subscription are read at most: 5 MiB.
pub const ICS_MAX_RESPONSE_BYTES: usize = 5_242_880;

/// What the form for a calendar holds when it is sent.
#[derive(Debug)]
pub struct CalendarFormBody {
    pub back_view: String,
    pub back_date: String,
    pub back_cal: String,
    pub back_q: String,
    pub name: String,
    pub color: String,
    pub description: String,
}

/// What a [`CalendarFormBody`] stands for.
#[verifier::ext_equal]
pub struct CalendarFormBodyV {
    pub back_view: Seq<char>,
    pub back_date: Seq<char>,
    pub back_cal: Seq<char>,
    pub back_q: Seq<char>,
    pub name: Seq<char>,
    pub color: Seq<char>,
    pub description: Seq<char>,
}

impl DeepView for CalendarFormBody {
    type V = CalendarFormBodyV;

    open spec fn deep_view(&self) -> CalendarFormBodyV {
        CalendarFormBodyV {
            back_view: self.back_view.deep_view(),
            back_date: self.back_date.deep_view(),
            back_cal: self.back_cal.deep_view(),
            back_q: self.back_q.deep_view(),
            name: self.name.deep_view(),
            color: self.color.deep_view(),
            description: self.description.deep_view(),
        }
    }
}

/// What is sent to delete a calendar.
#[derive(Debug)]
pub struct CalendarDeleteFormBody {
    pub back_view: String,
    pub back_date: String,
    pub back_cal: String,
}

/// What a [`CalendarDeleteFormBody`] stands for.
#[verifier::ext_equal]
pub struct CalendarDeleteFormBodyV {
    pub back_view: Seq<char>,
    pub back_date: Seq<char>,
    pub back_cal: Seq<char>,
}

impl DeepView for CalendarDeleteFormBody {
    type V = CalendarDeleteFormBodyV;

    open spec fn deep_view(&self) -> CalendarDeleteFormBodyV {
        CalendarDeleteFormBodyV {
            back_view: self.back_view.deep_view(),
            back_date: self.back_date.deep_view(),
            back_cal: self.back_cal.deep_view(),
        }
    }
}

/// The form for a calendar, as it is shown.
#[derive(Debug)]
pub struct CalendarForm {
    pub is_edit: bool,
    pub calendar_id: String,
    pub back_view: String,
    pub back_date: String,
    pub back_cal: String,
    pub back_q: String,
    pub name: String,
    pub color: String,
    pub description: String,
    pub error: Option<String>,
}

/// What a [`CalendarForm`] stands for.
#[verifier::ext_equal]
pub struct CalendarFormV {
    pub is_edit: bool,
    pub calendar_id: Seq<char>,
    pub back_view: Seq<char>,
    pub back_date: Seq<char>,
    pub back_cal: Seq<char>,
    pub back_q: Seq<char>,
    pub name: Seq<char>,
    pub color: Seq<char>,
    pub description: Seq<char>,
    pub error: Option<Seq<char>>,
}

impl DeepView for CalendarForm {
    type V = CalendarFormV;

    open spec fn deep_view(&self) -> CalendarFormV {
        CalendarFormV {
            is_edit: self.is_edit.deep_view(),
            calendar_id: self.calendar_id.deep_view(),
            back_view: self.back_view.deep_view(),
            back_date: self.back_date.deep_view(),
            back_cal: self.back_cal.deep_view(),
            back_q: self.back_q.deep_view(),
            name: self.name.deep_view(),
            color: self.color.deep_view(),
            description: self.description.deep_view(),
            error: self.error.deep_view(),
        }
    }
}

/// What the form for a subscription holds when it is sent.
#[derive(Debug)]
pub struct IcsFormBody {
    pub back_view: String,
    pub back_date: String,
    pub back_cal: String,
    pub back_q: String,
    pub name: String,
    pub color: String,
    pub url: String,
}

/// What a [`IcsFormBody`] stands for.
#[verifier::ext_equal]
pub struct IcsFormBodyV {
    pub back_view: Seq<char>,
    pub back_date: Seq<char>,
    pub back_cal: Seq<char>,
    pub back_q: Seq<char>,
    pub name: Seq<char>,
    pub color: Seq<char>,
    pub url: Seq<char>,
}

impl DeepView for IcsFormBody {
    type V = IcsFormBodyV;

    open spec fn deep_view(&self) -> IcsFormBodyV {
        IcsFormBodyV {
            back_view: self.back_view.deep_view(),
            back_date: self.back_date.deep_view(),
            back_cal: self.back_cal.deep_view(),
            back_q: self.back_q.deep_view(),
            name: self.name.deep_view(),
            color: self.color.deep_view(),
            url: self.url.deep_view(),
        }
    }
}

/// What is sent to delete a subscription.
#[derive(Debug)]
pub struct IcsDeleteFormBody {
    pub back_view: String,
    pub back_date: String,
    pub back_cal: String,
}

/// What a [`IcsDeleteFormBody`] stands for.
#[verifier::ext_equal]
pub struct IcsDeleteFormBodyV {
    pub back_view: Seq<char>,
    pub back_date: Seq<char>,
    pub back_cal: Seq<char>,
}

impl DeepView for IcsDeleteFormBody {
    type V = IcsDeleteFormBodyV;

    open spec fn deep_view(&self) -> IcsDeleteFormBodyV {
        IcsDeleteFormBodyV {
            back_view: self.back_view.deep_view(),
            back_date: self.back_date.deep_view(),
            back_cal: self.back_cal.deep_view(),
        }
    }
}

/// The form for a subscription, as it is shown.
#[derive(Debug)]
pub struct IcsForm {
    pub is_edit: bool,
    pub subscription_id: String,
    pub back_view: String,
    pub back_date: String,
    pub back_cal: String,
    pub back_q: String,
    pub name: String,
    pub color: String,
    pub url: String,
    pub error: Option<String>,
}

/// What a [`IcsForm`] stands for.
#[verifier::ext_equal]
pub struct IcsFormV {
    pub is_edit: bool,
    pub subscription_id: Seq<char>,
    pub back_view: Seq<char>,
    pub back_date: Seq<char>,
    pub back_cal: Seq<char>,
    pub back_q: Seq<char>,
    pub name: Seq<char>,
    pub color: Seq<char>,
    pub url: Seq<char>,
    pub error: Option<Seq<char>>,
}

impl DeepView for IcsForm {
    type V = IcsFormV;

    open spec fn deep_view(&self) -> IcsFormV {
        IcsFormV {
            is_edit: self.is_edit.deep_view(),
            subscription_id: self.subscription_id.deep_view(),
            back_view: self.back_view.deep_view(),
            back_date: self.back_date.deep_view(),
            back_cal: self.back_cal.deep_view(),
            back_q: self.back_q.deep_view(),
            name: self.name.deep_view(),
            color: self.color.deep_view(),
            url: self.url.deep_view(),
            error: self.error.deep_view(),
        }
    }
}

// ---------------------------------------------------------------------------
// Colors
// ---------------------------------------------------------------------------

/// A hexadecimal digit of either case.
pub open spec fn is_hex_digit(c: char) -> bool {
    ('0' <= c && c <= '9') || ('a' <= c && c <= 'f') || ('A' <= c && c <= 'F')
}

/// Three or six hexadecimal digits.
pub open spec fn is_color_code(s: Seq<char>) -> bool {
    (s.len() == 3 || s.len() == 6) && forall|i: int|
        0 <= i < s.len() ==> is_hex_digit(#[trigger] s[i])
}

/// A text without the `#` that it may start with.
pub open spec fn without_hash(s: Seq<char>) -> Seq<char> {
    if s.len() > 0 && s[0] == '#' {
        s.skip(1)
    } else {
        s
    }
}

/// The color that a text stands for: `#` and three or six hexadecimal digits.
pub open spec fn color_read(s: Seq<char>) -> Option<Seq<char>> {
    if is_color_code(without_hash(s)) {
        Some(seq!['#'] + without_hash(s))
    } else {
        None
    }
}

fn all_hex(s: &[char]) -> (r: bool)
    ensures
        r == (forall|i: int| 0 <= i < s@.len() ==> is_hex_digit(#[trigger] s@[i])),
{
    let mut i: usize = 0;
    while i < s.len()
        invariant
            0 <= i <= s@.len(),
            forall|j: int| 0 <= j < i ==> is_hex_digit(#[trigger] s@[j]),
        decreases s@.len() - i,
    {
        let c = s[i];
        if !(('0' <= c && c <= '9') || ('a' <= c && c <= 'f') || ('A' <= c && c <= 'F')) {
            assert(!is_hex_digit(s@[i as int]));
            return false;
        }
        i = i + 1;
    }
    true
}

/// The color that a text stands for: `#` and three or six hexadecimal digits, so that nothing
/// else gets into the styles of a page.
pub fn validate_color(s: &str) -> (r: Result<String, String>)
    ensures
        match color_read(s@) {
            Some(c) => r is Ok && r->Ok_0@ == c,
            None => r is Err && r->Err_0@ == "color must be a hex value like #6366f1"@,
        },
{
    let all = chars_of(s);
    let from: usize = if all.len() > 0 && all[0] == '#' {
        1
    } else {
        0
    };
    let code = slice_subrange(all.as_slice(), from, all.len());
    assert(code@ =~= without_hash(s@));
    if (code.len() == 3 || code.len() == 6) && all_hex(code) {
        let mut out = String::new();
        out.push('#');
        out.append(string_of(code).as_str());
        assert(out@ =~= seq!['#'] + without_hash(s@));
        Ok(out)
    } else {
        Err("color must be a hex value like #6366f1".to_string())
    }
}

/// A color that was taken is `#` and hexadecimal digits, and is taken again as it is.
pub proof fn colors_are_plain(s: Seq<char>)
    requires
        color_read(s) is Some,
    ensures
        color_read(s)->0[0] == '#',
        color_read(s)->0.len() == 4 || color_read(s)->0.len() == 7,
        forall|i: int|
            1 <= i < color_read(s)->0.len() ==> is_hex_digit(#[trigger] color_read(s)->0[i]),
        color_read(color_read(s)->0) == color_read(s),
{
    let c = color_read(s)->0;
    assert(c.skip(1) =~= without_hash(s));
    assert forall|i: int| 1 <= i < c.len() implies is_hex_digit(#[trigger] c[i]) by {
        assert(c[i] == without_hash(s)[i - 1]);
    }
}

// ---------------------------------------------------------------------------
// Calendars
// ---------------------------------------------------------------------------

/// The search that a page is for, if any.
pub open spec fn search_of(p: ViewParamsV) -> Seq<char> {
    match p.q {
        Some(q) => q,
        None => Seq::empty(),
    }
}

fn copy_search(params: &ViewParams) -> (r: String)
    ensures
        r@ == search_of(params.deep_view()),
{
    match &params.q {
        Some(q) => q.clone(),
        None => String::new(),
    }
}

/// A form with nothing filled in.
pub open spec fn empty_calendar_form(p: ViewParamsV, error: Option<Seq<char>>) -> CalendarFormV {
    CalendarFormV {
        is_edit: false,
        calendar_id: Seq::empty(),
        back_view: view_word(p.view),
        back_date: date_text(p.date),
        back_cal: p.cal_param(),
        back_q: search_of(p),
        name: Seq::empty(),
        color: DEFAULT_CALENDAR_COLOR@,
        description: Seq::empty(),
        error,
    }
}

/// The form for a new calendar.
pub fn blank_calendar_form(params: &ViewParams, error: Option<String>) -> (r: CalendarForm)
    requires
        params.date.valid(),
    ensures
        r.deep_view() == empty_calendar_form(params.deep_view(), error.deep_view()),
{
    let r = CalendarForm {
        is_edit: false,
        calendar_id: String::new(),
        back_view: params.view.as_str().to_string(),
        back_date: format_time(params.date.at_midnight(), "%Y-%m-%d"),
        back_cal: params.cal_param(),
        back_q: copy_search(params),
        name: String::new(),
        color: DEFAULT_CALENDAR_COLOR.to_string(),
        description: String::new(),
        error,
    };
    assert(r.deep_view() =~= empty_calendar_form(params.deep_view(), error.deep_view()));
    r
}

/// The form for a calendar that is there.
pub fn calendar_to_form(calendar: &Calendar, params: &ViewParams, error: Option<String>) -> (r:
    CalendarForm)
    requires
        params.date.valid(),
    ensures
        r.deep_view() == (CalendarFormV {
            is_edit: true,
            calendar_id: match calendar.deep_view().id {
                Some(id) => id,
                None => Seq::empty(),
            },
            name: calendar.name@,
            color: match calendar.deep_view().color {
                Some(c) => c,
                None => DEFAULT_CALENDAR_COLOR@,
            },
            description: match calendar.deep_view().description {
                Some(d) => d,
                None => Seq::empty(),
            },
            ..empty_calendar_form(params.deep_view(), error.deep_view())
        }),
{
    let mut r = blank_calendar_form(params, error);
    r.is_edit = true;
    if let Some(id) = &calendar.id {
        r.calendar_id = id.clone();
    }
    r.name = calendar.name.clone();
    if let Some(c) = &calendar.color {
        r.color = c.clone();
    }
    if let Some(d) = &calendar.description {
        r.description = d.clone();
    }
    r
}

/// The form again with what was sent in it, and what is wrong with that.
pub fn calendar_form_with_error(
    form: &CalendarFormBody,
    is_edit: bool,
    calendar_id: Option<String>,
    params: &ViewParams,
    message: String,
) -> (r: CalendarForm)
    requires
        params.date.valid(),
    ensures
        r.deep_view() == (CalendarFormV {
            is_edit,
            calendar_id: match calendar_id.deep_view() {
                Some(id) => id,
                None => Seq::empty(),
            },
            name: form.name@,
            color: form.color@,
            description: form.description@,
            ..empty_calendar_form(params.deep_view(), Some(message@))
        }),
{
    let mut r = blank_calendar_form(params, Some(message));
    r.is_edit = is_edit;
    if let Some(id) = calendar_id {
        r.calendar_id = id;
    }
    r.name = form.name.clone();
    r.color = form.color.clone();
    r.description = form.description.clone();
    r
}

impl CalendarFormBodyV {
    /// The calendar that the form asks for, or the first thing that is wrong with it.
    pub open spec fn built(self) -> Result<CalendarV, Seq<char>> {
        if trim(self.name).len() == 0 {
            Err("name is required"@)
        } else if self.color.len() > 0 && color_read(self.color) is None {
            Err("color must be a hex value like #6366f1"@)
        } else {
            Ok(
                CalendarV {
                    id: None,
                    name: trim(self.name),
                    description: if self.description.len() > 0 {
                        Some(self.description)
                    } else {
                        None
                    },
                    color: if self.color.len() > 0 {
                        color_read(self.color)
                    } else {
                        None
                    },
                    sort_order: 0,
                    is_subscribed: true,
                    is_visible: true,
                    my_rights: None,
                    share_with: None,
                    extra: Seq::empty(),
                },
            )
        }
    }
}

/// The calendar that a form asks for, or what is wrong with it.
pub fn build_calendar_from_form(form: &CalendarFormBody) -> (r: Result<Calendar, String>)
    ensures
        match form.deep_view().built() {
            Ok(c) => r is Ok && r->Ok_0.deep_view() == c,
            Err(e) => r is Err && r->Err_0@ == e,
        },
{
    let name = trim_str(form.name.as_str());
    if is_blank(name.as_str()) {
        return Err("name is required".to_string());
    }
    let mut calendar = Calendar::new(name.as_str());
    if !is_blank(form.color.as_str()) {
        match validate_color(form.color.as_str()) {
            Ok(c) => {
                calendar.color = Some(c);
            },
            Err(e) => {
                return Err(e);
            },
        }
    }
    if !is_blank(form.description.as_str()) {
        calendar.description = Some(form.description.clone());
    }
    assert(calendar.deep_view() =~= form.deep_view().built()->Ok_0);
    Ok(calendar)
}

// ---------------------------------------------------------------------------
// Subscriptions
// ---------------------------------------------------------------------------

/// A form with nothing filled in.
pub open spec fn empty_ics_form(p: ViewParamsV, error: Option<Seq<char>>) -> IcsFormV {
    IcsFormV {
        is_edit: false,
        subscription_id: Seq::empty(),
        back_view: view_word(p.view),
        back_date: date_text(p.date),
        back_cal: p.cal_param(),
        back_q: search_of(p),
        name: Seq::empty(),
        color: DEFAULT_ICS_COLOR@,
        url: Seq::empty(),
        error,
    }
}

/// The form for a new subscription.
pub fn blank_ics_form(params: &ViewParams, error: Option<String>) -> (r: IcsForm)
    requires
        params.date.valid(),
    ensures
        r.deep_view() == empty_ics_form(params.deep_view(), error.deep_view()),
{
    let r = IcsForm {
        is_edit: false,
        subscription_id: String::new(),
        back_view: params.view.as_str().to_string(),
        back_date: format_time(params.date.at_midnight(), "%Y-%m-%d"),
        back_cal: params.cal_param(),
        back_q: copy_search(params),
        name: String::new(),
        color: DEFAULT_ICS_COLOR.to_string(),
        url: String::new(),
        error,
    };
    assert(r.deep_view() =~= empty_ics_form(params.deep_view(), error.deep_view()));
    r
}

/// The form for a subscription that is there.
pub fn ics_sub_to_form(sub: &IcsSubscription, params: &ViewParams, error: Option<String>) -> (r:
    IcsForm)
    requires
        params.date.valid(),
    ensures
        r.deep_view() == (IcsFormV {
            is_edit: true,
            subscription_id: sub.id@,
            name: sub.name@,
            color: sub.color@,
            url: sub.url@,
            ..empty_ics_form(params.deep_view(), error.deep_view())
        }),
{
    let mut r = blank_ics_form(params, error);
    r.is_edit = true;
    r.subscription_id = sub.id.clone();
    r.name = sub.name.clone();
    r.color = sub.color.clone();
    r.url = sub.url.clone();
    r
}

/// The form again with what was sent in it, and what is wrong with that.
pub fn ics_form_with_error(
    form: &IcsFormBody,
    is_edit: bool,
    subscription_id: Option<String>,
    params: &ViewParams,
    message: String,
) -> (r: IcsForm)
    requires
        params.date.valid(),
    ensures
        r.deep_view() == (IcsFormV {
            is_edit,
            subscription_id: match subscription_id.deep_view() {
                Some(id) => id,
                None => Seq::empty(),
            },
            name: form.name@,
            color: form.color@,
            url: form.url@,
            ..empty_ics_form(params.deep_view(), Some(message@))
        }),
{
    let mut r = blank_ics_form(params, Some(message));
    r.is_edit = is_edit;
    if let Some(id) = subscription_id {
        r.subscription_id = id;
    }
    r.name = form.name.clone();
    r.color = form.color.clone();
    r.url = form.url.clone();
    r
}

/// The host and the port of an address, or what it lacks.
pub open spec fn endpoint_of(u: UrlPartsV) -> Result<(Seq<char>, u16), Seq<char>> {
    match u.host {
        Some(host) => match u.port {
            Some(port) => Ok((host, port)),
            None => Err("URL has no known port"@),
        },
        None => Err("URL has no host"@),
    }
}

/// The host and the port of an address, or what it lacks.
pub fn endpoint(u: &UrlParts) -> (r: Result<(String, u16), String>)
    ensures
        match endpoint_of(u.deep_view()) {
            Ok((host, port)) => r is Ok && (r->Ok_0).0@ == host && (r->Ok_0).1 == port,
            Err(e) => r is Err && r->Err_0@ == e,
        },
{
    match &u.host {
        Some(host) => match u.port {
            Some(port) => Ok((host.clone(), port)),
            None => Err("URL has no known port".to_string()),
        },
        None => Err("URL has no host".to_string()),
    }
}

/// Where a subscription is to be fetched from, by its address as it was parsed.
pub open spec fn fetch_target(
    u: Result<UrlPartsV, Seq<char>>,
) -> Result<(Seq<char>, u16), Seq<char>> {
    match u {
        Ok(u) => endpoint_of(u),
        Err(e) => Err("invalid URL: "@ + e),
    }
}

/// The host and the port that a subscription is to be fetched from, or why it cannot be.
pub fn ics_fetch_target(url: &str) -> (r: Result<(String, u16), String>)
    ensures
        match fetch_target(parsed_url(url@)) {
            Ok((host, port)) => r is Ok && (r->Ok_0).0@ == host && (r->Ok_0).1 == port,
            Err(e) => r is Err && r->Err_0@ == e,
        },
{
    match parse_url(url) {
        Ok(u) => endpoint(&u),
        Err(e) => {
            let mut out = "invalid URL: ".to_string();
            out.append(e.as_str());
            Err(out)
        },
    }
}

/// Whether one more piece of a subscription still fits what is read of it.
pub fn piece_fits(so_far: usize, piece: usize) -> (r: bool)
    ensures
        r == (so_far + piece <= ICS_MAX_RESPONSE_BYTES),
{
    so_far <= ICS_MAX_RESPONSE_BYTES && piece <= ICS_MAX_RESPONSE_BYTES - so_far
}

/// What is wrong with the address of a subscription, if anything, by how it was parsed.
pub open spec fn address_fault(u: Result<UrlPartsV, Seq<char>>) -> Option<Seq<char>> {
    match u {
        Ok(u) => if u.scheme != "http"@ && u.scheme != "https"@ {
            Some("URL must be http:// or https://"@)
        } else {
            match endpoint_of(u) {
                Ok(_) => None,
                Err(e) => Some(e),
            }
        },
        Err(_) => Some("not a valid URL"@),
    }
}

/// The host and the port of the address of a subscription, or what is wrong with it.
pub fn check_ics_address(u: Result<UrlParts, String>) -> (r: Result<(String, u16), String>)
    ensures
        match address_fault(url_view(u)) {
            None => r is Ok && endpoint_of(url_view(u)->Ok_0) == Ok::<(Seq<char>, u16), Seq<char>>(
                ((r->Ok_0).0@, (r->Ok_0).1),
            ),
            Some(e) => r is Err && r->Err_0@ == e,
        },
{
    match u {
        Ok(u) => {
            if !str_eq(u.scheme.as_str(), "http") && !str_eq(u.scheme.as_str(), "https") {
                Err("URL must be http:// or https://".to_string())
            } else {
                endpoint(&u)
            }
        },
        Err(_) => Err("not a valid URL".to_string()),
    }
}

impl IcsFormBodyV {
    /// What is wrong with the name and the address of the form, if anything.
    pub open spec fn fault(self) -> Option<Seq<char>> {
        if trim(self.name).len() == 0 {
            Some("name is required"@)
        } else {
            address_fault(parsed_url(trim(self.url)))
        }
    }

    /// The color that the form asks for.
    pub open spec fn color_wanted(self) -> Option<Seq<char>> {
        if self.color.len() == 0 {
            Some(DEFAULT_ICS_COLOR@)
        } else {
            color_read(self.color)
        }
    }
}

/// The host and the port that a form for a subscription names, which have yet to be looked up,
/// or what is wrong with it.
pub fn check_ics_form(form: &IcsFormBody) -> (r: Result<(String, u16), String>)
    ensures
        match form.deep_view().fault() {
            None => r is Ok && endpoint_of(parsed_url(trim(form.url@))->Ok_0) == Ok::<
                (Seq<char>, u16),
                Seq<char>,
            >(((r->Ok_0).0@, (r->Ok_0).1)),
            Some(e) => r is Err && r->Err_0@ == e,
        },
{
    let name = trim_str(form.name.as_str());
    if is_blank(name.as_str()) {
        return Err("name is required".to_string());
    }
    let url = trim_str(form.url.as_str());
    check_ics_address(parse_url(url.as_str()))
}

/// The name, the color and the address that a form for a subscription asks for, once its host
/// was looked up; `lookup` tells what was wrong with that, if anything.
pub fn finish_ics_form(form: &IcsFormBody, lookup: Result<(), String>) -> (r: Result<
    (String, String, String),
    String,
>)
    ensures
        match lookup {
            Err(e) => r is Err && r->Err_0@ == e@,
            Ok(_) => match form.deep_view().color_wanted() {
                Some(c) => r is Ok && (r->Ok_0).0@ == trim(form.name@) && (r->Ok_0).1@ == c && (
                r->Ok_0).2@ == trim(form.url@),
                None => r is Err && r->Err_0@ == "color must be a hex value like #6366f1"@,
            },
        },
{
    match lookup {
        Ok(_) => {},
        Err(e) => {
            return Err(e);
        },
    }
    let color = if is_blank(form.color.as_str()) {
        DEFAULT_ICS_COLOR.to_string()
    } else {
        match validate_color(form.color.as_str()) {
            Ok(c) => c,
            Err(e) => {
                return Err(e);
            },
        }
    };
    Ok((trim_str(form.name.as_str()), color, trim_str(form.url.as_str())))
}

/// The page that a form goes back to.
pub open spec fn back_address(
    view: Seq<char>,
    date: Seq<char>,
    cal: Seq<char>,
    q: Option<Seq<char>>,
) -> Seq<char> {
    "/app?view="@ + view + "&date="@ + date + "&cal="@ + cal + match q {
        Some(q) => if q.len() > 0 {
            "&q="@ + urlencoded(q)
        } else {
            Seq::empty()
        },
        None => Seq::empty(),
    }
}

/// The page that a form goes back to.
pub fn back_url(
    back_view: &str,
    back_date: &str,
    back_cal: &str,
    back_q: Option<&str>,
) -> (r: String)
    ensures
        r@ == back_address(
            back_view@,
            back_date@,
            back_cal@,
            match back_q {
                Some(q) => Some(q@),
                None => None,
            },
        ),
{
    let mut out = "/app?view=".to_string();
    out.append(back_view);
    out.append("&date=");
    out.append(back_date);
    out.append("&cal=");
    out.append(back_cal);
    if let Some(q) = back_q {
        if !is_blank(q) {
            out.append("&q=");
            out.append(urlencode(q).as_str());
        }
    }
    assert(out@ =~= back_address(
        back_view@,
        back_date@,
        back_cal@,
        match back_q {
            Some(q) => Some(q@),
            None => None,
        },
    ));
    out
}

} // verus!
