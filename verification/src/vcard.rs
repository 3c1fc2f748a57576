//! A minimal vCard parser and writer (version 4.0, and the common version 3.0 shapes that
//! most address books export) for contact import and export.
//!
//! It is narrow on purpose: a name (`FN`, else `N`), one email address (one marked as
//! preferred before others), and a birthday (`BDAY`, with or without a year). Everything else
//! in a vCard is ignored.

use vstd::prelude::*;
use vstd::string::*;
use vstd::slice::slice_subrange;
use crate::calendar::NaiveDate;
use crate::collections::CloneView;
use crate::contentline::{
    document, escape_text, escaped, line_parts, parse_line, unescape_text, unescaped, unfold,
    unfolded, Params, ParamsV,
};
use crate::ics::fold_lines;
use crate::jscontact::{AnniversaryV, Card, CardV};
use crate::numbers::{padded, padded_text, parse_int, parse_u32};
use crate::text::{
    chars_of, concat2, digits_of, eq_ignore_case, has_prefix, lower, only_digits, split, split_str,
    starts_with, str_eq, string_of, trim, trim_slice, trim_str,
};
use crate::timetext::{read_basic_date, read_date};

verus! {

/// A contact read from a vCard.
#[derive(Debug)]
pub struct ParsedContact {
    pub name: String,
    pub email: Option<String>,
    /// The birthday, and whether its year is known: without one the date's year is a stand-in.
    pub birthday: Option<(NaiveDate, bool)>,
}

/// What a [`ParsedContact`] stands for.
#[verifier::ext_equal]
pub struct ParsedContactV {
    pub name: Seq<char>,
    pub email: Option<Seq<char>>,
    pub birthday: Option<(NaiveDate, bool)>,
}

impl DeepView for ParsedContact {
    type V = ParsedContactV;

    open spec fn deep_view(&self) -> ParsedContactV {
        ParsedContactV {
            name: self.name.deep_view(),
            email: self.email.deep_view(),
            birthday: self.birthday.deep_view(),
        }
    }
}

/// The properties of a vCard that is being read.
#[derive(Debug)]
pub struct RawContact {
    pub fn_: Option<String>,
    pub n: Option<String>,
    pub email: Option<String>,
    pub email_is_preferred: bool,
    pub bday: Option<(String, Params)>,
}

/// What a [`RawContact`] stands for.
#[verifier::ext_equal]
pub struct RawContactV {
    pub fn_: Option<Seq<char>>,
    pub n: Option<Seq<char>>,
    pub email: Option<Seq<char>>,
    pub email_is_preferred: bool,
    pub bday: Option<(Seq<char>, ParamsV)>,
}

impl DeepView for RawContact {
    type V = RawContactV;

    open spec fn deep_view(&self) -> RawContactV {
        RawContactV {
            fn_: self.fn_.deep_view(),
            n: self.n.deep_view(),
            email: self.email.deep_view(),
            email_is_preferred: self.email_is_preferred.deep_view(),
            bday: self.bday.deep_view(),
        }
    }
}

impl RawContactV {
    /// Every part empty, absent or zero.
    pub open spec fn blank() -> RawContactV {
        RawContactV {
            fn_: None,
            n: None,
            email: None,
            email_is_preferred: false,
            bday: None,
        }
    }
}

impl Default for RawContact {
    fn default() -> (r: Self)
        ensures
            r.deep_view() == RawContactV::blank(),
    {
        let r = RawContact {
            fn_: None,
            n: None,
            email: None,
            email_is_preferred: false,
            bday: None,
        };
        assert(r.deep_view() =~= RawContactV::blank());
        r
    }
}

/// A parameter that marks an email address as the preferred one.
pub open spec fn marks_preferred(p: (Seq<char>, Seq<char>)) -> bool {
    (p.0 == "TYPE"@ && lower(p.1) == lower("pref"@)) || p.0 == "PREF"@
}

/// The parameters mark an email address as the preferred one.
pub open spec fn prefers(params: ParamsV) -> bool {
    exists|i: int| 0 <= i < params.len() && marks_preferred(#[trigger] params[i])
}

/// The properties after one more line.
pub open spec fn contact_set(
    raw: RawContactV,
    name: Seq<char>,
    params: ParamsV,
    value: Seq<char>,
) -> RawContactV {
    if name == "FN"@ {
        RawContactV { fn_: Some(unescaped(value)), ..raw }
    } else if name == "N"@ {
        RawContactV { n: Some(unescaped(value)), ..raw }
    } else if name == "EMAIL"@ {
        if prefers(params) || raw.email is None {
            RawContactV {
                email: Some(trim(value)),
                email_is_preferred: prefers(params),
                ..raw
            }
        } else {
            raw
        }
    } else if name == "BDAY"@ {
        RawContactV { bday: Some((value, params)), ..raw }
    } else {
        raw
    }
}

/// A display name from an `N` value (`Family;Given;Additional;Prefix;Suffix`), so that
/// `Lovelace;Ada;;;` gives `Ada Lovelace`.
pub open spec fn name_of_n(n: Seq<char>) -> Seq<char> {
    let parts = split(n, ';');
    let family = trim(parts[0]);
    let given = if parts.len() > 1 {
        trim(parts[1])
    } else {
        Seq::empty()
    };
    if given.len() > 0 && family.len() > 0 {
        given + " "@ + family
    } else if given.len() > 0 {
        given
    } else {
        family
    }
}

/// A parameter that says that a birthday is free text.
pub open spec fn is_free_text(p: (Seq<char>, Seq<char>)) -> bool {
    p.0 == "VALUE"@ && lower(p.1) == lower("text"@)
}

/// The birthday that a `BDAY` value stands for, and whether its year is known. Without a year
/// it is written `--MMDD`, and stands in the year 2000. A free text is no date.
pub open spec fn bday_value(raw: Seq<char>, params: ParamsV) -> Option<(NaiveDate, bool)> {
    if exists|i: int| 0 <= i < params.len() && is_free_text(#[trigger] params[i]) {
        None
    } else {
        let s = trim(raw);
        if starts_with(s, "--"@) {
            let digits = only_digits(s.skip(2));
            if digits.len() != 4 {
                None
            } else {
                match (
                    parse_int(digits.subrange(0, 2), 0, u32::MAX as int),
                    parse_int(digits.subrange(2, 4), 0, u32::MAX as int),
                ) {
                    (Some(m), Some(d)) => {
                        let date = NaiveDate { year: 2000, month: m as u32, day: d as u32 };
                        if date.valid() {
                            Some((date, false))
                        } else {
                            None
                        }
                    },
                    _ => None,
                }
            }
        } else if only_digits(s).len() == 8 {
            match read_date(only_digits(s), "%Y%m%d"@) {
                Some(d) => Some((d, true)),
                None => None,
            }
        } else {
            None
        }
    }
}

/// The contact that the properties describe: none without a name.
pub open spec fn contact_of(raw: RawContactV) -> Option<ParsedContactV> {
    let name = trim(
        match (raw.fn_, raw.n) {
            (Some(f), _) => f,
            (None, Some(n)) => name_of_n(n),
            (None, None) => Seq::empty(),
        },
    );
    if name.len() == 0 {
        None
    } else {
        Some(
            ParsedContactV {
                name,
                email: raw.email,
                birthday: match raw.bday {
                    Some(b) => bday_value(b.0, b.1),
                    None => None,
                },
            },
        )
    }
}

/// A text that is being read: the contacts so far, and the one that is open.
#[verifier::ext_equal]
pub struct CardsV {
    pub contacts: Seq<ParsedContactV>,
    pub current: Option<RawContactV>,
}

/// The text after one more line.
pub open spec fn cards_line(st: CardsV, line: Seq<char>) -> CardsV {
    match line_parts(line) {
        None => st,
        Some(p) => if p.0 == "BEGIN"@ && lower(p.2) == lower("VCARD"@) {
            CardsV { contacts: st.contacts, current: Some(RawContactV::blank()) }
        } else if p.0 == "END"@ && lower(p.2) == lower("VCARD"@) {
            match st.current {
                None => st,
                Some(raw) => CardsV {
                    contacts: match contact_of(raw) {
                        Some(c) => st.contacts.push(c),
                        None => st.contacts,
                    },
                    current: None,
                },
            }
        } else {
            match st.current {
                None => st,
                Some(raw) => CardsV {
                    contacts: st.contacts,
                    current: Some(contact_set(raw, p.0, p.1, p.2)),
                },
            }
        },
    }
}

/// The text after all its lines.
pub open spec fn cards_lines(lines: Seq<Seq<char>>) -> CardsV
    decreases lines.len(),
{
    if lines.len() == 0 {
        CardsV { contacts: Seq::empty(), current: None }
    } else {
        cards_line(cards_lines(lines.drop_last()), lines.last())
    }
}

/// The contacts in a text of vCards.
pub open spec fn contacts_of(text: Seq<char>) -> Seq<ParsedContactV> {
    cards_lines(unfolded(text)).contacts
}

fn any_preferred(params: &Params) -> (r: bool)
    ensures
        r == prefers(params.deep_view()),
{
    let ghost pv = params.deep_view();
    let mut i: usize = 0;
    while i < params.len()
        invariant
            0 <= i <= params@.len(),
            pv == params.deep_view(),
            forall|j: int| 0 <= j < i ==> !marks_preferred(#[trigger] pv[j]),
        decreases params@.len() - i,
    {
        let p = &params[i];
        assert(pv[i as int] == (p.0@, p.1@));
        if (str_eq(p.0.as_str(), "TYPE") && eq_ignore_case(p.1.as_str(), "pref")) || str_eq(
            p.0.as_str(),
            "PREF",
        ) {
            assert(marks_preferred(pv[i as int]));
            return true;
        }
        i = i + 1;
    }
    false
}

fn any_free_text(params: &Params) -> (r: bool)
    ensures
        r == (exists|i: int|
            0 <= i < params.deep_view().len() && is_free_text(#[trigger] params.deep_view()[i])),
{
    let ghost pv = params.deep_view();
    let mut i: usize = 0;
    while i < params.len()
        invariant
            0 <= i <= params@.len(),
            pv == params.deep_view(),
            forall|j: int| 0 <= j < i ==> !is_free_text(#[trigger] pv[j]),
        decreases params@.len() - i,
    {
        let p = &params[i];
        assert(pv[i as int] == (p.0@, p.1@));
        if str_eq(p.0.as_str(), "VALUE") && eq_ignore_case(p.1.as_str(), "text") {
            assert(is_free_text(pv[i as int]));
            return true;
        }
        i = i + 1;
    }
    false
}

/// A display name from an `N` value.
fn name_from_n(n: &str) -> (r: String)
    ensures
        r@ == name_of_n(n@),
{
    let parts = split_str(n, ';');
    assert(parts.deep_view()[0] == parts@[0]@);
    let family = trim_str(parts[0].as_str());
    let given = if parts.len() > 1 {
        assert(parts.deep_view()[1] == parts@[1]@);
        trim_str(parts[1].as_str())
    } else {
        let e = String::new();
        assert(e@ =~= Seq::empty());
        e
    };
    if given.as_str().unicode_len() > 0 && family.as_str().unicode_len() > 0 {
        let mut out = String::new();
        out.append(given.as_str());
        out.append(" ");
        out.append(family.as_str());
        assert(out@ =~= given@ + " "@ + family@);
        out
    } else if given.as_str().unicode_len() > 0 {
        given
    } else {
        family
    }
}

/// The birthday that a `BDAY` value stands for, and whether its year is known.
fn parse_bday(raw: &str, params: &Params) -> (r: Option<(NaiveDate, bool)>)
    ensures
        r == bday_value(raw@, params.deep_view()),
{
    if any_free_text(params) {
        return None;
    }
    let v = chars_of(raw);
    let s = trim_slice(v.as_slice());
    let dashes = chars_of("--");
    if has_prefix(s, dashes.as_slice()) {
        proof {
            reveal_strlit("--");
        }
        let rest = slice_subrange(s, 2, s.len());
        assert(rest@ =~= s@.skip(2));
        let digits = digits_of(rest);
        if digits.len() != 4 {
            return None;
        }
        let month: u32 = match parse_u32(slice_subrange(digits.as_slice(), 0, 2)) {
            Some(m) => m,
            None => {
                return None;
            },
        };
        let day: u32 = match parse_u32(slice_subrange(digits.as_slice(), 2, 4)) {
            Some(d) => d,
            None => {
                return None;
            },
        };
        return match NaiveDate::from_ymd_opt(2000, month, day) {
            Some(d) => Some((d, false)),
            None => None,
        };
    }
    let digits = digits_of(s);
    if digits.len() == 8 {
        let text = string_of(digits.as_slice());
        return match read_basic_date(text.as_str()) {
            Some(d) => Some((d, true)),
            None => None,
        };
    }
    None
}

impl RawContact {
    fn set(&mut self, name: &str, params: &Params, value: &str)
        ensures
            final(self).deep_view() == contact_set(
                old(self).deep_view(),
                name@,
                params.deep_view(),
                value@,
            ),
    {
        if str_eq(name, "FN") {
            self.fn_ = Some(unescape_text(value));
        } else if str_eq(name, "N") {
            self.n = Some(unescape_text(value));
        } else if str_eq(name, "EMAIL") {
            let preferred = any_preferred(params);
            if preferred || self.email.is_none() {
                self.email = Some(trim_str(value));
                self.email_is_preferred = preferred;
            }
        } else if str_eq(name, "BDAY") {
            self.bday = Some((value.to_string(), params.clone_view()));
        }
    }

    /// The contact that the properties describe.
    fn into_contact(&self) -> (r: Option<ParsedContact>)
        ensures
            r.deep_view() == contact_of(self.deep_view()),
    {
        let full = match &self.fn_ {
            Some(f) => f.clone(),
            None => match &self.n {
                Some(n) => name_from_n(n.as_str()),
                None => {
                    let e = String::new();
                    assert(e@ =~= Seq::empty());
                    e
                },
            },
        };
        let name = trim_str(full.as_str());
        if name.as_str().unicode_len() == 0 {
            return None;
        }
        let birthday = match &self.bday {
            Some(b) => parse_bday(b.0.as_str(), &b.1),
            None => None,
        };
        let c = ParsedContact { name, email: self.email.clone_view(), birthday };
        assert(c.birthday.deep_view() == c.birthday);
        Some(c)
    }
}

/// The contacts in a text of vCards. Cards without a name are left out.
pub fn parse_vcards(text: &str) -> (r: Vec<ParsedContact>)
    ensures
        r.deep_view() == contacts_of(text@),
{
    let lines = unfold(text);
    let ghost lv = lines.deep_view();
    let mut contacts: Vec<ParsedContact> = Vec::new();
    let mut current: Option<RawContact> = None;
    let mut i: usize = 0;
    assert(lv.take(0) =~= Seq::empty());
    assert(contacts.deep_view() =~= Seq::empty());
    while i < lines.len()
        invariant
            0 <= i <= lines@.len(),
            lv == lines.deep_view(),
            cards_lines(lv.take(i as int)) == (CardsV {
                contacts: contacts.deep_view(),
                current: current.deep_view(),
            }),
        decreases lines@.len() - i,
    {
        proof {
            assert(lv.take(i + 1).drop_last() =~= lv.take(i as int));
            assert(lv.take(i + 1).last() == lines@[i as int]@);
        }
        let ghost before = contacts.deep_view();
        if let Some((name, params, value)) = parse_line(lines[i].as_str()) {
            let is_card = eq_ignore_case(value.as_str(), "VCARD");
            if str_eq(name.as_str(), "BEGIN") && is_card {
                current = Some(RawContact::default());
            } else if str_eq(name.as_str(), "END") && is_card {
                if let Some(raw) = current {
                    if let Some(c) = raw.into_contact() {
                        contacts.push(c);
                        assert(contacts.deep_view() =~= before.push(c.deep_view()));
                    }
                }
                current = None;
            } else {
                if let Some(raw) = current {
                    let mut raw = raw;
                    raw.set(name.as_str(), &params, value.as_str());
                    current = Some(raw);
                } else {
                    current = None;
                }
            }
        }
        i = i + 1;
    }
    assert(lv.take(i as int) =~= lv);
    contacts
}

// ---------------------------------------------------------------------------
// Writing
// ---------------------------------------------------------------------------

/// The full name of a card, empty where it has none.
pub open spec fn full_name(card: CardV) -> Seq<char> {
    match card.name {
        Some(n) => match n.full {
            Some(f) => f,
            None => Seq::empty(),
        },
        None => Seq::empty(),
    }
}

/// The first birth among anniversaries.
pub open spec fn first_birth(entries: Seq<(Seq<char>, AnniversaryV)>) -> Option<AnniversaryV>
    decreases entries.len(),
{
    if entries.len() == 0 {
        None
    } else if entries[0].1.kind == Some("birth"@) {
        Some(entries[0].1)
    } else {
        first_birth(entries.skip(1))
    }
}

/// A `BDAY` value: `YYYY-MM-DD`, or `--MMDD` without a year.
pub open spec fn bday_text(p: (u32, u32, Option<i32>)) -> Seq<char> {
    match p.2 {
        Some(y) => padded(y as int, 4) + "-"@ + padded(p.0 as int, 2) + "-"@ + padded(
            p.1 as int,
            2,
        ),
        None => "--"@ + padded(p.0 as int, 2) + padded(p.1 as int, 2),
    }
}

/// The month, day and year of birth that a card tells.
pub open spec fn birth_parts(card: CardV) -> Option<(u32, u32, Option<i32>)> {
    match card.anniversaries {
        Some(m) => match first_birth(m) {
            Some(a) => a.date.parts(),
            None => None,
        },
        None => None,
    }
}

/// The lines for the email addresses of a card.
pub open spec fn email_lines(card: CardV) -> Seq<Seq<char>> {
    match card.emails {
        Some(m) => Seq::new(m.len(), |i: int| "EMAIL:"@ + escaped(m[i].1.address)),
        None => Seq::empty(),
    }
}

/// The lines of the vCard for a card.
pub open spec fn vcard_lines(card: CardV) -> Seq<Seq<char>> {
    let head = seq![
        "BEGIN:VCARD"@,
        "VERSION:3.0"@,
        "FN:"@ + escaped(full_name(card)),
        "N:"@ + escaped(full_name(card)) + ";;;;"@,
    ] + email_lines(card);
    let body = match birth_parts(card) {
        Some(p) => head.push("BDAY:"@ + bday_text(p)),
        None => head,
    };
    body.push("UID:"@ + escaped(card.uid)).push("END:VCARD"@)
}

fn birth_of(card: &Card) -> (r: Option<(u32, u32, Option<i32>)>)
    ensures
        r == birth_parts(card.deep_view()),
{
    let entries = match &card.anniversaries {
        Some(m) => &m.entries,
        None => {
            return None;
        },
    };
    let ghost all = entries.deep_view();
    let mut i: usize = 0;
    assert(all.skip(0) =~= all);
    while i < entries.len()
        invariant
            0 <= i <= entries@.len(),
            all == entries.deep_view(),
            card.anniversaries is Some,
            card.deep_view().anniversaries == Some(all),
            first_birth(all.skip(i as int)) == first_birth(all),
        decreases entries@.len() - i,
    {
        let a = &entries[i].1;
        assert(all.skip(i as int)[0].1 == a.deep_view());
        let is_birth = match &a.kind {
            Some(k) => str_eq(k.as_str(), "birth"),
            None => false,
        };
        assert(is_birth == (a.deep_view().kind == Some("birth"@)));
        if is_birth {
            return a.date.month_day_year();
        }
        assert(all.skip(i as int).skip(1) =~= all.skip(i + 1));
        i = i + 1;
    }
    assert(all.skip(i as int) =~= Seq::empty());
    None
}

fn push_line(lines: &mut Vec<String>, prefix: &str, value: &str)
    ensures
        final(lines).deep_view() == old(lines).deep_view().push(prefix@ + value@),
{
    let p = concat2(prefix, value);
    lines.push(p);
    assert(lines.deep_view() =~= old(lines).deep_view().push(prefix@ + value@));
}

fn bday_value_text(p: (u32, u32, Option<i32>)) -> (r: String)
    ensures
        r@ == bday_text(p),
{
    let m = padded_text(p.0 as i64, 2);
    let d = padded_text(p.1 as i64, 2);
    let mut out = String::new();
    match p.2 {
        Some(y) => {
            let y = padded_text(y as i64, 4);
            out.append(y.as_str());
            out.append("-");
            out.append(m.as_str());
            out.append("-");
            out.append(d.as_str());
        },
        None => {
            out.append("--");
            out.append(m.as_str());
            out.append(d.as_str());
        },
    }
    assert(out@ =~= bday_text(p));
    out
}

/// A card as a vCard of its own: the display name, every email address, and a birthday if
/// there is one.
pub fn to_vcard(card: &Card) -> (r: String)
    ensures
        r@ == document(vcard_lines(card.deep_view())),
{
    let ghost cv = card.deep_view();
    let name = match &card.name {
        Some(n) => match &n.full {
            Some(f) => f.clone(),
            None => String::new(),
        },
        None => String::new(),
    };
    assert(name@ =~= full_name(cv));
    let mut lines: Vec<String> = Vec::new();
    push_line(&mut lines, "BEGIN:VCARD", "");
    push_line(&mut lines, "VERSION:3.0", "");
    let e = escape_text(name.as_str());
    push_line(&mut lines, "FN:", e.as_str());
    let n = concat2(e.as_str(), ";;;;");
    push_line(&mut lines, "N:", n.as_str());
    let ghost head = seq![
        "BEGIN:VCARD"@,
        "VERSION:3.0"@,
        "FN:"@ + escaped(full_name(cv)),
        "N:"@ + escaped(full_name(cv)) + ";;;;"@,
    ];
    proof {
        reveal_strlit("");
        assert("BEGIN:VCARD"@ + ""@ =~= "BEGIN:VCARD"@);
        assert("VERSION:3.0"@ + ""@ =~= "VERSION:3.0"@);
        assert("END:VCARD"@ + ""@ =~= "END:VCARD"@);
        assert("N:"@ + n@ =~= "N:"@ + escaped(full_name(cv)) + ";;;;"@);
        assert(lines.deep_view() =~= head);
    }
    if let Some(emails) = &card.emails {
        let ghost m = emails.deep_view();
        let mut i: usize = 0;
        assert(head + Seq::new(0, |j: int| "EMAIL:"@ + escaped(m[j].1.address)) =~= head);
        while i < emails.entries.len()
            invariant
                0 <= i <= emails.entries@.len(),
                m == emails.deep_view(),
                lines.deep_view() == head + Seq::new(
                    i as nat,
                    |j: int| "EMAIL:"@ + escaped(m[j].1.address),
                ),
            decreases emails.entries@.len() - i,
        {
            let ghost before = lines.deep_view();
            assert(m[i as int] == emails.entries@[i as int].deep_view());
            let t = escape_text(emails.entries[i].1.address.as_str());
            push_line(&mut lines, "EMAIL:", t.as_str());
            assert(lines.deep_view() =~= head + Seq::new(
                (i + 1) as nat,
                |j: int| "EMAIL:"@ + escaped(m[j].1.address),
            ));
            i = i + 1;
        }
        assert(lines.deep_view() =~= head + email_lines(cv));
    } else {
        assert(head + email_lines(cv) =~= head);
    }
    if let Some(p) = birth_of(card) {
        let t = bday_value_text(p);
        push_line(&mut lines, "BDAY:", t.as_str());
    }
    let uid = escape_text(card.uid.as_str());
    push_line(&mut lines, "UID:", uid.as_str());
    push_line(&mut lines, "END:VCARD", "");
    assert(lines.deep_view() =~= vcard_lines(cv));
    fold_lines(&lines)
}

} // verus!
