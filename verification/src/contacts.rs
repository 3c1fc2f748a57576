//! Contacts: the list of them, the form for one, and reading many from a file.

use vstd::prelude::*;
use vstd::string::*;
use crate::calendar::NaiveDate;
use crate::collections::{sort_items, stable_sorted, Ordered, StrMap};
use crate::contentline::{lowercase_str, lowered, unfolded, upper, upper_str};
use crate::jscontact::{
    timestamp_date, AddressBook, AddressBookV, Anniversary, AnniversaryDate, AnniversaryDateV,
    AnniversaryV, Card, CardV, EmailAddress, EmailAddressV, NameProperty, NamePropertyV,
};
use crate::numbers::{dec, i64_text, int_text, u64_text};
use crate::options::{
    address_book_options, book_options_with, chosen_book, CalendarOption, CalendarOptionV,
};
use crate::text::{
    chars_of, find_slice, find_text, str_eq, str_less, string_of, text_less, trim, trim_str,
};
use crate::timetext::{
    date_text, format_time, month_day_text, read_date, read_iso_date, two, two_text, year_text,
};
use crate::users::{is_blank, is_uuid, new_id};
use crate::vcard::{cards_lines, contacts_of, parse_vcards, ParsedContact, ParsedContactV};
use crate::view::{ViewKind, ViewParams, ViewParamsV};

verus! {

/// A contact in the list of them.
#[derive(Debug)]
pub struct ContactRow {
    pub id: String,
    pub name: String,
    pub initial: String,
    pub email: Option<String>,
    pub birthday_label: Option<String>,
    pub edit_href: String,
}

/// What a [`ContactRow`] stands for.
#[verifier::ext_equal]
pub struct ContactRowV {
    pub id: Seq<char>,
    pub name: Seq<char>,
    pub initial: Seq<char>,
    pub email: Option<Seq<char>>,
    pub birthday_label: Option<Seq<char>>,
    pub edit_href: Seq<char>,
}

impl DeepView for ContactRow {
    type V = ContactRowV;

    open spec fn deep_view(&self) -> ContactRowV {
        ContactRowV {
            id: self.id.deep_view(),
            name: self.name.deep_view(),
            initial: self.initial.deep_view(),
            email: self.email.deep_view(),
            birthday_label: self.birthday_label.deep_view(),
            edit_href: self.edit_href.deep_view(),
        }
    }
}

/// What the form for a contact holds when it is sent.
#[derive(Debug)]
pub struct ContactFormBody {
    pub back_view: String,
    pub back_date: String,
    pub back_cal: String,
    pub back_q: String,
    pub address_book_id: String,
    pub name: String,
    pub email: String,
    pub birthday_date: String,
    pub hide_birth_year: Option<String>,
}

/// What a [`ContactFormBody`] stands for.
#[verifier::ext_equal]
pub struct ContactFormBodyV {
    pub back_view: Seq<char>,
    pub back_date: Seq<char>,
    pub back_cal: Seq<char>,
    pub back_q: Seq<char>,
    pub address_book_id: Seq<char>,
    pub name: Seq<char>,
    pub email: Seq<char>,
    pub birthday_date: Seq<char>,
    pub hide_birth_year: Option<Seq<char>>,
}

impl DeepView for ContactFormBody {
    type V = ContactFormBodyV;

    open spec fn deep_view(&self) -> ContactFormBodyV {
        ContactFormBodyV {
            back_view: self.back_view.deep_view(),
            back_date: self.back_date.deep_view(),
            back_cal: self.back_cal.deep_view(),
            back_q: self.back_q.deep_view(),
            address_book_id: self.address_book_id.deep_view(),
            name: self.name.deep_view(),
            email: self.email.deep_view(),
            birthday_date: self.birthday_date.deep_view(),
            hide_birth_year: self.hide_birth_year.deep_view(),
        }
    }
}

/// What is sent to delete a contact.
#[derive(Debug)]
pub struct ContactDeleteFormBody {
    pub back_view: String,
    pub back_date: String,
    pub back_cal: String,
    pub back_q: String,
}

/// What a [`ContactDeleteFormBody`] stands for.
#[verifier::ext_equal]
pub struct ContactDeleteFormBodyV {
    pub back_view: Seq<char>,
    pub back_date: Seq<char>,
    pub back_cal: Seq<char>,
    pub back_q: Seq<char>,
}

impl DeepView for ContactDeleteFormBody {
    type V = ContactDeleteFormBodyV;

    open spec fn deep_view(&self) -> ContactDeleteFormBodyV {
        ContactDeleteFormBodyV {
            back_view: self.back_view.deep_view(),
            back_date: self.back_date.deep_view(),
            back_cal: self.back_cal.deep_view(),
            back_q: self.back_q.deep_view(),
        }
    }
}

/// The form for a contact, as it is shown.
#[derive(Debug)]
pub struct ContactForm {
    pub is_edit: bool,
    pub contact_id: String,
    pub back_view: String,
    pub back_date: String,
    pub back_cal: String,
    pub back_q: String,
    pub address_books: Vec<CalendarOption>,
    pub name: String,
    pub email: String,
    pub birthday_date: String,
    pub hide_birth_year: bool,
    pub error: Option<String>,
}

/// What a [`ContactForm`] stands for.
#[verifier::ext_equal]
pub struct ContactFormV {
    pub is_edit: bool,
    pub contact_id: Seq<char>,
    pub back_view: Seq<char>,
    pub back_date: Seq<char>,
    pub back_cal: Seq<char>,
    pub back_q: Seq<char>,
    pub address_books: Seq<CalendarOptionV>,
    pub name: Seq<char>,
    pub email: Seq<char>,
    pub birthday_date: Seq<char>,
    pub hide_birth_year: bool,
    pub error: Option<Seq<char>>,
}

impl DeepView for ContactForm {
    type V = ContactFormV;

    open spec fn deep_view(&self) -> ContactFormV {
        ContactFormV {
            is_edit: self.is_edit.deep_view(),
            contact_id: self.contact_id.deep_view(),
            back_view: self.back_view.deep_view(),
            back_date: self.back_date.deep_view(),
            back_cal: self.back_cal.deep_view(),
            back_q: self.back_q.deep_view(),
            address_books: self.address_books.deep_view(),
            name: self.name.deep_view(),
            email: self.email.deep_view(),
            birthday_date: self.birthday_date.deep_view(),
            hide_birth_year: self.hide_birth_year.deep_view(),
            error: self.error.deep_view(),
        }
    }
}

// ---------------------------------------------------------------------------
// Birthdays
// ---------------------------------------------------------------------------

/// The first of some anniversaries that is a birth.
pub open spec fn first_birth(entries: Seq<(Seq<char>, AnniversaryV)>) -> Option<AnniversaryV>
    decreases entries.len(),
{
    if entries.len() == 0 {
        None
    } else if entries[0].1.kind == Some("birth"@) {
        Some(entries[0].1)
    } else {
        first_birth(entries.skip(1))
    }
}

/// The day on which a card says that someone was born, and the year where it is told; the day
/// is in 2000 where it is not.
pub open spec fn birth_of(card: CardV) -> Option<(NaiveDate, Option<i32>)> {
    match card.anniversaries {
        Some(m) => match first_birth(m) {
            Some(a) => match a.date.parts() {
                Some((month, day, year)) => {
                    let date = NaiveDate {
                        year: match year {
                            Some(y) => y,
                            None => 2000,
                        },
                        month,
                        day,
                    };
                    if date.valid() {
                        Some((date, year))
                    } else {
                        None
                    }
                },
                None => None,
            },
            None => None,
        },
        None => None,
    }
}

/// How a birthday is told of: with the year where it is told.
pub open spec fn birth_label(card: CardV) -> Option<Seq<char>> {
    match birth_of(card) {
        Some((date, year)) => Some(
            match year {
                Some(y) => month_day_text(date) + " "@ + int_text(y as int),
                None => month_day_text(date),
            },
        ),
        None => None,
    }
}

fn find_birth(m: &StrMap<Anniversary>) -> (r: Option<&Anniversary>)
    ensures
        r.deep_view() == first_birth(m.deep_view()),
{
    let ghost all = m.deep_view();
    let mut i: usize = 0;
    assert(all.skip(0) =~= all);
    while i < m.entries.len()
        invariant
            0 <= i <= m.entries@.len(),
            all == m.deep_view(),
            first_birth(all) == first_birth(all.skip(i as int)),
        decreases m.entries@.len() - i,
    {
        proof {
            assert(all.skip(i as int)[0] == m.entries@[i as int].deep_view());
            assert(all.skip(i as int).skip(1) =~= all.skip(i + 1));
        }
        if let Some(kind) = &m.entries[i].1.kind {
            if str_eq(kind.as_str(), "birth") {
                return Some(&m.entries[i].1);
            }
        }
        i = i + 1;
    }
    None
}

fn birth(card: &Card) -> (r: Option<(NaiveDate, Option<i32>)>)
    ensures
        r == birth_of(card.deep_view()),
        r is Some ==> (r->0).0.valid(),
{
    let anniversaries = match &card.anniversaries {
        Some(m) => m,
        None => {
            return None;
        },
    };
    match find_birth(anniversaries) {
        Some(a) => match a.date.month_day_year() {
            Some((month, day, year)) => {
                let y: i32 = match year {
                    Some(y) => y,
                    None => 2000,
                };
                match NaiveDate::from_ymd_opt(y, month, day) {
                    Some(date) => Some((date, year)),
                    None => None,
                }
            },
            None => None,
        },
        None => None,
    }
}

/// How the birthday of a contact is told of, where it is known.
pub fn birthday_label(card: &Card) -> (r: Option<String>)
    ensures
        r.deep_view() == birth_label(card.deep_view()),
{
    match birth(card) {
        Some((date, year)) => {
            let mut out = format_time(date.at_midnight(), "%B %-d");
            if let Some(y) = year {
                out.append(" ");
                out.append(i64_text(y as i64).as_str());
            }
            Some(out)
        },
        None => None,
    }
}

// ---------------------------------------------------------------------------
// The list
// ---------------------------------------------------------------------------

/// Whether a text occurs in another, whatever the case.
pub open spec fn occurs_in(q: Seq<char>, s: Seq<char>) -> bool {
    find_text(lowered(s), lowered(q)) is Some
}

/// Whether a contact is one that is looked for: by its name or its address.
pub open spec fn is_sought(card: CardV, q: Seq<char>) -> bool {
    occurs_in(q, card.display_name()) || (card.primary_email() matches Some(e) && occurs_in(q, e))
}

fn occurs(q: &Vec<char>, s: &str) -> (r: bool)
    ensures
        r == (find_text(lowered(s@), q@) is Some),
{
    let low = lowercase_str(s);
    assert(low@ == lowered(s@));
    let chars = chars_of(low.as_str());
    find_slice(chars.as_slice(), q.as_slice()).is_some()
}

/// Whether a contact is one that is looked for.
pub fn matches_filter(card: &Card, q: &str) -> (r: bool)
    ensures
        r == is_sought(card.deep_view(), q@),
{
    let low = lowercase_str(q);
    assert(low@ == lowered(q@));
    let pattern = chars_of(low.as_str());
    if occurs(&pattern, card.display_name().as_str()) {
        return true;
    }
    match card.primary_email() {
        Some(e) => occurs(&pattern, e),
        None => false,
    }
}

/// The letter that stands for a name.
pub open spec fn initial_of(name: Seq<char>) -> Seq<char> {
    if name.len() > 0 {
        upper(seq![name[0]])
    } else {
        upper(seq!['?'])
    }
}

fn initial(name: &str) -> (r: String)
    ensures
        r@ == initial_of(name@),
{
    let chars = chars_of(name);
    let first = if chars.len() > 0 {
        chars[0]
    } else {
        '?'
    };
    let one = string_of(vec![first].as_slice());
    assert(one@ =~= seq![first]);
    upper_str(one.as_str())
}

/// A contact as it stands in the list.
pub open spec fn contact_row(card: CardV, p: ViewParamsV) -> ContactRowV {
    let id = match card.id {
        Some(i) => i,
        None => Seq::empty(),
    };
    ContactRowV {
        id,
        name: card.display_name(),
        initial: initial_of(card.display_name()),
        email: card.primary_email(),
        birthday_label: birth_label(card),
        edit_href: "/app/contact/"@ + id + "/edit?"@ + p.query_string(ViewKind::Contacts, p.date),
    }
}

/// The contacts that are looked for, as they stand in the list.
pub open spec fn sought_rows(cards: Seq<CardV>, p: ViewParamsV) -> Seq<ContactRowV>
    decreases cards.len(),
{
    if cards.len() == 0 {
        Seq::empty()
    } else {
        let before = sought_rows(cards.drop_last(), p);
        if p.q matches Some(q) ==> is_sought(cards.last(), q) {
            before.push(contact_row(cards.last(), p))
        } else {
            before
        }
    }
}

impl Ordered for ContactRow {
    open spec fn le_view(a: ContactRowV, b: ContactRowV) -> bool {
        !text_less(b.name, a.name)
    }

    fn le(&self, other: &Self) -> (r: bool) {
        !str_less(other.name.as_str(), self.name.as_str())
    }
}

fn make_row(card: &Card, params: &ViewParams) -> (r: ContactRow)
    requires
        params.date.valid(),
    ensures
        r.deep_view() == contact_row(card.deep_view(), params.deep_view()),
{
    let id = match &card.id {
        Some(i) => i.clone(),
        None => String::new(),
    };
    let name = card.display_name();
    let mut edit_href = "/app/contact/".to_string();
    edit_href.append(id.as_str());
    edit_href.append("/edit?");
    edit_href.append(params.query_string(ViewKind::Contacts, params.date).as_str());
    let email = match card.primary_email() {
        Some(e) => Some(e.to_string()),
        None => None,
    };
    let r = ContactRow {
        id,
        initial: initial(name.as_str()),
        name,
        email,
        birthday_label: birthday_label(card),
        edit_href,
    };
    assert(r.deep_view() =~= contact_row(card.deep_view(), params.deep_view()));
    r
}

/// The list of the contacts that are looked for, by their names.
pub fn contact_rows(cards: &Vec<Card>, params: &ViewParams) -> (r: Vec<ContactRow>)
    requires
        params.date.valid(),
    ensures
        r.deep_view() == stable_sorted(
            sought_rows(cards.deep_view(), params.deep_view()),
            |a: ContactRowV, b: ContactRowV| ContactRow::le_view(a, b),
        ),
{
    let ghost all = cards.deep_view();
    let ghost p = params.deep_view();
    let mut out: Vec<ContactRow> = Vec::new();
    let mut i: usize = 0;
    assert(all.take(0) =~= Seq::empty());
    assert(out.deep_view() =~= Seq::empty());
    while i < cards.len()
        invariant
            0 <= i <= cards@.len(),
            params.date.valid(),
            all == cards.deep_view(),
            p == params.deep_view(),
            out.deep_view() == sought_rows(all.take(i as int), p),
        decreases cards@.len() - i,
    {
        proof {
            assert(all.take(i + 1).drop_last() =~= all.take(i as int));
            assert(all.take(i + 1).last() == cards@[i as int].deep_view());
        }
        let sought = match &params.q {
            Some(q) => matches_filter(&cards[i], q.as_str()),
            None => true,
        };
        if sought {
            let ghost before = out.deep_view();
            let row = make_row(&cards[i], params);
            out.push(row);
            assert(out.deep_view() =~= before.push(row.deep_view()));
        }
        i = i + 1;
    }
    assert(all.take(i as int) =~= all);
    sort_items(out)
}

// ---------------------------------------------------------------------------
// The form
// ---------------------------------------------------------------------------

/// A text, or none.
pub open spec fn text_of(s: Option<Seq<char>>) -> Seq<char> {
    match s {
        Some(t) => t,
        None => Seq::empty(),
    }
}

fn copy_text(s: &Option<String>) -> (r: String)
    ensures
        r@ == text_of(s.deep_view()),
{
    match s {
        Some(t) => t.clone(),
        None => String::new(),
    }
}

/// A form with nothing filled in.
pub open spec fn empty_contact_form(
    books: Seq<AddressBookV>,
    p: ViewParamsV,
    error: Option<Seq<char>>,
) -> ContactFormV {
    ContactFormV {
        is_edit: false,
        contact_id: Seq::empty(),
        back_view: "contacts"@,
        back_date: date_text(p.date),
        back_cal: p.cal_param(),
        back_q: text_of(p.q),
        address_books: book_options_with(books, chosen_book(books, None)),
        name: Seq::empty(),
        email: Seq::empty(),
        birthday_date: Seq::empty(),
        hide_birth_year: false,
        error,
    }
}

/// The form for a new contact.
pub fn blank_contact_form(
    address_books: &Vec<AddressBook>,
    params: &ViewParams,
    error: Option<String>,
) -> (r: ContactForm)
    requires
        params.date.valid(),
    ensures
        r.deep_view() == empty_contact_form(
            address_books.deep_view(),
            params.deep_view(),
            error.deep_view(),
        ),
{
    let r = ContactForm {
        is_edit: false,
        contact_id: String::new(),
        back_view: ViewKind::Contacts.as_str().to_string(),
        back_date: format_time(params.date.at_midnight(), "%Y-%m-%d"),
        back_cal: params.cal_param(),
        back_q: copy_text(&params.q),
        address_books: address_book_options(address_books, None),
        name: String::new(),
        email: String::new(),
        birthday_date: String::new(),
        hide_birth_year: false,
        error,
    };
    assert(r.deep_view() =~= empty_contact_form(
        address_books.deep_view(),
        params.deep_view(),
        error.deep_view(),
    ));
    r
}

/// The address book that is chosen for a contact: its first, if any.
pub open spec fn book_of(card: CardV) -> Option<Seq<char>> {
    match card.address_book_ids {
        Some(m) => if m.len() > 0 {
            Some(m[0].0)
        } else {
            None
        },
        None => None,
    }
}

/// The form for a contact that is there.
pub open spec fn contact_form(
    card: CardV,
    books: Seq<AddressBookV>,
    p: ViewParamsV,
    error: Option<Seq<char>>,
) -> ContactFormV {
    ContactFormV {
        is_edit: true,
        contact_id: text_of(card.id),
        back_view: "contacts"@,
        back_date: date_text(p.date),
        back_cal: p.cal_param(),
        back_q: text_of(p.q),
        address_books: book_options_with(books, chosen_book(books, book_of(card))),
        name: match card.name {
            Some(n) => text_of(n.full),
            None => Seq::empty(),
        },
        email: text_of(card.primary_email()),
        birthday_date: match birth_of(card) {
            Some((date, _)) => date_text(date),
            None => Seq::empty(),
        },
        hide_birth_year: birth_of(card) matches Some((_, None)),
        error,
    }
}

fn show_books(card: &Card, address_books: &Vec<AddressBook>) -> (r: Vec<CalendarOption>)
    ensures
        r.deep_view() == book_options_with(
            address_books.deep_view(),
            chosen_book(address_books.deep_view(), book_of(card.deep_view())),
        ),
{
    if let Some(m) = &card.address_book_ids {
        if m.entries.len() > 0 {
            assert(m.deep_view()[0] == m.entries@[0].deep_view());
            return address_book_options(address_books, Some(m.entries[0].0.as_str()));
        }
    }
    address_book_options(address_books, None)
}

/// The form for a contact that is there.
pub fn contact_to_form(
    card: &Card,
    address_books: &Vec<AddressBook>,
    params: &ViewParams,
    error: Option<String>,
) -> (r: ContactForm)
    requires
        params.date.valid(),
    ensures
        r.deep_view() == contact_form(
            card.deep_view(),
            address_books.deep_view(),
            params.deep_view(),
            error.deep_view(),
        ),
{
    let (birthday_date, hide_birth_year) = match birth(card) {
        Some((date, year)) => (format_time(date.at_midnight(), "%Y-%m-%d"), year.is_none()),
        None => (String::new(), false),
    };
    let name = match &card.name {
        Some(n) => copy_text(&n.full),
        None => String::new(),
    };
    let email = match card.primary_email() {
        Some(e) => e.to_string(),
        None => String::new(),
    };
    let r = ContactForm {
        is_edit: true,
        contact_id: copy_text(&card.id),
        back_view: ViewKind::Contacts.as_str().to_string(),
        back_date: format_time(params.date.at_midnight(), "%Y-%m-%d"),
        back_cal: params.cal_param(),
        back_q: copy_text(&params.q),
        address_books: show_books(card, address_books),
        name,
        email,
        birthday_date,
        hide_birth_year,
        error,
    };
    assert(r.deep_view() =~= contact_form(
        card.deep_view(),
        address_books.deep_view(),
        params.deep_view(),
        error.deep_view(),
    ));
    r
}

/// The form again with what was sent in it, and what is wrong with that.
pub fn contact_form_with_error(
    form: &ContactFormBody,
    is_edit: bool,
    contact_id: Option<String>,
    address_books: &Vec<AddressBook>,
    params: &ViewParams,
    message: String,
) -> (r: ContactForm)
    requires
        params.date.valid(),
    ensures
        r.deep_view() == (ContactFormV {
            is_edit,
            contact_id: text_of(contact_id.deep_view()),
            address_books: book_options_with(
                address_books.deep_view(),
                Some(form.address_book_id@),
            ),
            name: form.name@,
            email: form.email@,
            birthday_date: form.birthday_date@,
            hide_birth_year: form.hide_birth_year is Some,
            ..empty_contact_form(address_books.deep_view(), params.deep_view(), Some(message@))
        }),
{
    let mut r = blank_contact_form(address_books, params, Some(message));
    r.is_edit = is_edit;
    r.contact_id = copy_text(&contact_id);
    r.address_books = address_book_options(address_books, Some(form.address_book_id.as_str()));
    r.name = form.name.clone();
    r.email = form.email.clone();
    r.birthday_date = form.birthday_date.clone();
    r.hide_birth_year = form.hide_birth_year.is_some();
    r
}

/// How a birthday is kept: the day, and the year where it is to be told.
pub open spec fn birthday_kept(date: NaiveDate, with_year: bool) -> AnniversaryV {
    AnniversaryV {
        type_: "Anniversary"@,
        kind: Some("birth"@),
        date: if with_year {
            AnniversaryDateV::Timestamp { utc: date_text(date) + "T00:00:00Z"@ }
        } else {
            AnniversaryDateV::PartialDate {
                year: None,
                month: Some(date.month),
                day: Some(date.day),
            }
        },
        extra: Seq::empty(),
    }
}

/// A card with what the form and files tell of a contact.
pub open spec fn simple_card(
    uid: Seq<char>,
    name: Seq<char>,
    email: Option<Seq<char>>,
    birthday: Option<(NaiveDate, bool)>,
    book: Seq<char>,
) -> CardV {
    CardV {
        name: Some(NamePropertyV { full: Some(name), ..NamePropertyV::blank() }),
        emails: match email {
            Some(e) => Some(seq![("e1"@, EmailAddressV { address: e, ..EmailAddressV::blank() })]),
            None => None,
        },
        anniversaries: match birthday {
            Some((date, with_year)) => Some(seq![("bday"@, birthday_kept(date, with_year))]),
            None => None,
        },
        address_book_ids: Some(seq![(book, true)]),
        ..CardV::bare(uid)
    }
}

fn make_card(
    uid: &str,
    name: &str,
    email: Option<&str>,
    birthday: Option<(NaiveDate, bool)>,
    book: &str,
) -> (r: Card)
    requires
        birthday matches Some((d, _)) ==> d.valid(),
    ensures
        r.deep_view() == simple_card(
            uid@,
            name@,
            match email {
                Some(e) => Some(e@),
                None => None,
            },
            birthday,
            book@,
        ),
{
    let mut card = Card::new(uid);
    let mut full = NameProperty::default();
    full.full = Some(name.to_string());
    card.name = Some(full);
    if let Some(e) = email {
        let mut address = EmailAddress::default();
        address.address = e.to_string();
        let mut emails: StrMap<EmailAddress> = StrMap::new();
        emails.insert("e1".to_string(), address);
        assert(emails.deep_view() =~= seq![("e1"@, address.deep_view())]);
        card.emails = Some(emails);
    }
    if let Some((date, with_year)) = birthday {
        let value = if with_year {
            let mut utc = format_time(date.at_midnight(), "%Y-%m-%d");
            utc.append("T00:00:00Z");
            AnniversaryDate::Timestamp { utc }
        } else {
            AnniversaryDate::PartialDate {
                year: None,
                month: Some(date.month),
                day: Some(date.day),
            }
        };
        let kept = Anniversary {
            type_: "Anniversary".to_string(),
            kind: Some("birth".to_string()),
            date: value,
            extra: StrMap::new(),
        };
        assert(kept.deep_view() =~= birthday_kept(date, with_year));
        let mut anniversaries: StrMap<Anniversary> = StrMap::new();
        anniversaries.insert("bday".to_string(), kept);
        assert(anniversaries.deep_view() =~= seq![("bday"@, kept.deep_view())]);
        card.anniversaries = Some(anniversaries);
    }
    let mut books: StrMap<bool> = StrMap::new();
    books.insert(book.to_string(), true);
    assert(books.deep_view() =~= seq![(book@, true)]);
    card.address_book_ids = Some(books);
    assert(card.deep_view() =~= simple_card(
        uid@,
        name@,
        match email {
            Some(e) => Some(e@),
            None => None,
        },
        birthday,
        book@,
    ));
    card
}

impl ContactFormBodyV {
    /// The birthday that the form tells, if any, and whether with its year.
    pub open spec fn birthday(self) -> Result<Option<(NaiveDate, bool)>, Seq<char>> {
        if self.birthday_date.len() == 0 {
            Ok(None)
        } else {
            match read_date(self.birthday_date, "%Y-%m-%d"@) {
                Some(d) => Ok(Some((d, self.hide_birth_year is None))),
                None => Err("invalid birthday date"@),
            }
        }
    }

    /// The card that the form asks for, or the first thing that is wrong with it.
    pub open spec fn built(self, uid: Seq<char>) -> Result<CardV, Seq<char>> {
        if trim(self.name).len() == 0 {
            Err("name is required"@)
        } else {
            match self.birthday() {
                Ok(birthday) => Ok(
                    simple_card(
                        uid,
                        trim(self.name),
                        if self.email.len() > 0 {
                            Some(self.email)
                        } else {
                            None
                        },
                        birthday,
                        self.address_book_id,
                    ),
                ),
                Err(e) => Err(e),
            }
        }
    }
}

/// The card that a form asks for, or what is wrong with it.
pub fn build_card_from_form(form: &ContactFormBody, uid: &str) -> (r: Result<Card, String>)
    ensures
        match form.deep_view().built(uid@) {
            Ok(c) => r is Ok && r->Ok_0.deep_view() == c,
            Err(e) => r is Err && r->Err_0@ == e,
        },
{
    let name = trim_str(form.name.as_str());
    if is_blank(name.as_str()) {
        return Err("name is required".to_string());
    }
    let birthday = if is_blank(form.birthday_date.as_str()) {
        None
    } else {
        match read_iso_date(form.birthday_date.as_str()) {
            Some(d) => Some((d, form.hide_birth_year.is_none())),
            None => {
                return Err("invalid birthday date".to_string());
            },
        }
    };
    let email = if is_blank(form.email.as_str()) {
        None
    } else {
        Some(form.email.as_str())
    };
    Ok(make_card(uid, name.as_str(), email, birthday, form.address_book_id.as_str()))
}

/// The card of the new contact that a form asks for, with an id of its own.
pub fn new_card_from_form(form: &ContactFormBody) -> (r: Result<Card, String>)
    ensures
        match r {
            Ok(c) => is_uuid(c.uid@) && form.deep_view().built(c.uid@) == Ok::<CardV, Seq<char>>(
                c.deep_view(),
            ),
            Err(e) => forall|uid: Seq<char>| #[trigger]
                form.deep_view().built(uid) == Err::<CardV, Seq<char>>(e@),
        },
{
    build_card_from_form(form, new_id().as_str())
}

// ---------------------------------------------------------------------------
// Reading many
// ---------------------------------------------------------------------------

/// How many contacts one file may hold.
pub const MAX_IMPORT_CONTACTS: usize = 500;

/// How reading a file went.
#[derive(Debug)]
pub struct ImportResult {
    pub imported: usize,
    pub skipped: usize,
}

/// What a [`ImportResult`] stands for.
#[verifier::ext_equal]
pub struct ImportResultV {
    pub imported: usize,
    pub skipped: usize,
}

impl DeepView for ImportResult {
    type V = ImportResultV;

    open spec fn deep_view(&self) -> ImportResultV {
        ImportResultV {
            imported: self.imported.deep_view(),
            skipped: self.skipped.deep_view(),
        }
    }
}

/// The card of a contact that was read from a file.
pub fn card_from_parsed_contact(c: &ParsedContact, uid: &str, address_book_id: &str) -> (r: Card)
    requires
        c.birthday_exists(),
    ensures
        r.deep_view() == simple_card(
            uid@,
            c.name@,
            c.email.deep_view(),
            c.birthday,
            address_book_id@,
        ),
{
    let email = match &c.email {
        Some(e) => Some(e.as_str()),
        None => None,
    };
    make_card(uid, c.name.as_str(), email, c.birthday, address_book_id)
}

/// A contact from a file has a name, and a birthday that exists where it has one.
pub open spec fn contact_sound(c: ParsedContactV) -> bool {
    c.name.len() > 0 && (c.birthday matches Some((d, _)) ==> d.valid())
}

proof fn lines_give_sound(lines: Seq<Seq<char>>)
    ensures
        forall|i: int|
            0 <= i < cards_lines(lines).contacts.len() ==> contact_sound(
                #[trigger] cards_lines(lines).contacts[i],
            ),
    decreases lines.len(),
{
    if lines.len() > 0 {
        lines_give_sound(lines.drop_last());
    }
}

/// Every contact that is read from a file has a name, and a birthday that exists where it has
/// one.
pub proof fn parsed_contacts_are_sound(text: Seq<char>, i: int)
    requires
        0 <= i < contacts_of(text).len(),
    ensures
        contact_sound(contacts_of(text)[i]),
{
    lines_give_sound(unfolded(text));
}

/// What is wrong with a file that is to be read, if anything: `text` is what it holds, where one
/// was sent.
pub open spec fn import_fault(has_contacts: bool, text: Option<Seq<char>>) -> Option<Seq<char>> {
    if !has_contacts {
        Some("this server does not support contacts"@)
    } else {
        match text {
            None => Some("choose a .vcf file to import"@),
            Some(t) => if contacts_of(t).len() == 0 {
                Some("no contacts found in that file"@)
            } else if contacts_of(t).len() > MAX_IMPORT_CONTACTS {
                Some(
                    "that file has "@ + dec(contacts_of(t).len())
                        + " contacts; please split it into batches of 500 or fewer"@,
                )
            } else {
                None
            },
        }
    }
}

impl ParsedContact {
    /// The birthday exists, where there is one.
    pub open spec fn birthday_exists(self) -> bool {
        self.birthday matches Some((d, _)) ==> d.valid()
    }
}

/// The birthdays of some contacts exist.
pub open spec fn birthdays_exist(s: Seq<ParsedContact>) -> bool {
    forall|i: int| 0 <= i < s.len() ==> (#[trigger] s[i]).birthday_exists()
}

/// The contacts of a file that is to be read, or what is wrong with it.
pub fn check_import(
    has_contacts: bool,
    text: Option<&str>,
) -> (r: Result<Vec<ParsedContact>, String>)
    ensures
        ({
            let t = match text {
                Some(s) => Some(s@),
                None => None,
            };
            match import_fault(has_contacts, t) {
                Some(msg) => r is Err && r->Err_0@ == msg,
                None => r is Ok && r->Ok_0.deep_view() == contacts_of(t->0),
            }
        }),
        r matches Ok(v) ==> birthdays_exist(v@),
{
    if !has_contacts {
        return Err("this server does not support contacts".to_string());
    }
    match text {
        None => Err("choose a .vcf file to import".to_string()),
        Some(t) => {
            let parsed = parse_vcards(t);
            if parsed.len() == 0 {
                return Err("no contacts found in that file".to_string());
            }
            if parsed.len() > MAX_IMPORT_CONTACTS {
                let mut msg = "that file has ".to_string();
                msg.append(u64_text(parsed.len() as u64).as_str());
                msg.append(" contacts; please split it into batches of 500 or fewer");
                return Err(msg);
            }
            proof {
                assert forall|i: int| 0 <= i < parsed@.len() implies (
                #[trigger] parsed@[i]).birthday_exists() by {
                    assert(parsed.deep_view()[i] == parsed@[i].deep_view());
                    parsed_contacts_are_sound(t@, i);
                }
            }
            Ok(parsed)
        },
    }
}

/// A file being read: the contacts, and how far that has come.
pub struct Import {
    cards: Vec<Card>,
    imported: usize,
    skipped: usize,
}

/// What an [`Import`] stands for.
#[verifier::ext_equal]
pub struct ImportV {
    /// What is sent to the server, one after the other.
    pub cards: Seq<CardV>,
    pub imported: int,
    pub skipped: int,
}

impl Import {
    #[verifier::type_invariant]
    spec fn counts_fit(self) -> bool {
        self.imported + self.skipped <= self.cards@.len()
    }
}

impl DeepView for Import {
    type V = ImportV;

    closed spec fn deep_view(&self) -> ImportV {
        ImportV {
            cards: self.cards.deep_view(),
            imported: self.imported as int,
            skipped: self.skipped as int,
        }
    }
}

impl ImportV {
    /// How many contacts have been tried.
    pub open spec fn tried(self) -> int {
        self.imported + self.skipped
    }

    /// The counts are of contacts of the file.
    pub open spec fn wf(self) -> bool {
        0 <= self.imported && 0 <= self.skipped && self.tried() <= self.cards.len()
    }
}

/// The cards are those of the contacts, in the address book, each with an id of its own.
pub open spec fn cards_for(
    cards: Seq<CardV>,
    contacts: Seq<ParsedContactV>,
    book: Seq<char>,
) -> bool {
    &&& cards.len() == contacts.len()
    &&& forall|i: int|
        0 <= i < cards.len() ==> is_uuid((#[trigger] cards[i]).uid) && cards[i] == simple_card(
            cards[i].uid,
            contacts[i].name,
            contacts[i].email,
            contacts[i].birthday,
            book,
        )
}

impl Import {
    /// Starts to read the contacts of a file into the first address book.
    pub fn start(contacts: &Vec<ParsedContact>, address_books: &Vec<AddressBook>) -> (r: Result<
        Import,
        String,
    >)
        requires
            birthdays_exist(contacts@),
        ensures
            ({
                let books = address_books.deep_view();
                match (if books.len() > 0 {
                    books[0].id
                } else {
                    None
                }) {
                    Some(book) => {
                        &&& r is Ok
                        &&& cards_for(r->Ok_0.deep_view().cards, contacts.deep_view(), book)
                        &&& r->Ok_0.deep_view().imported == 0
                        &&& r->Ok_0.deep_view().skipped == 0
                    },
                    None => r is Err && r->Err_0@ == "no address book to import into"@,
                }
            }),
    {
        let ghost books = address_books.deep_view();
        if address_books.len() == 0 {
            return Err("no address book to import into".to_string());
        }
        assert(books[0] == address_books@[0].deep_view());
        let book = match &address_books[0].id {
            Some(id) => id,
            None => {
                return Err("no address book to import into".to_string());
            },
        };
        let ghost all = contacts.deep_view();
        let mut cards: Vec<Card> = Vec::new();
        let mut i: usize = 0;
        while i < contacts.len()
            invariant
                0 <= i <= contacts@.len(),
                all == contacts.deep_view(),
                birthdays_exist(contacts@),
                cards_for(cards.deep_view(), all.take(i as int), book@),
            decreases contacts@.len() - i,
        {
            let ghost before = cards.deep_view();
            let c = &contacts[i];
            assert(all[i as int] == c.deep_view());
            assert(contacts@[i as int].birthday_exists());
            let card = card_from_parsed_contact(c, new_id().as_str(), book.as_str());
            cards.push(card);
            proof {
                let now = cards.deep_view();
                assert(now =~= before.push(card.deep_view()));
                assert forall|k: int| 0 <= k < now.len() implies is_uuid((#[trigger] now[k]).uid)
                    && now[k] == simple_card(
                    now[k].uid,
                    all.take(i + 1)[k].name,
                    all.take(i + 1)[k].email,
                    all.take(i + 1)[k].birthday,
                    book@,
                ) by {
                    if k < before.len() {
                        assert(now[k] == before[k]);
                        assert(all.take(i + 1)[k] == all.take(i as int)[k]);
                    }
                }
            }
            i = i + 1;
        }
        assert(all.take(i as int) =~= all);
        Ok(Import { cards, imported: 0, skipped: 0 })
    }

    /// The next card to send, if any is left.
    pub fn next_card(&self) -> (r: Option<&Card>)
        ensures
            self.deep_view().wf(),
            r.deep_view() == (if self.deep_view().tried() < self.deep_view().cards.len() {
                Some(self.deep_view().cards[self.deep_view().tried()])
            } else {
                None
            }),
    {
        proof {
            use_type_invariant(self);
        }
        let n = self.cards.len();
        let k: usize = self.imported + self.skipped;
        if k < self.cards.len() {
            assert(self.deep_view().cards[k as int] == self.cards@[k as int].deep_view());
            Some(&self.cards[k])
        } else {
            None
        }
    }

    /// Takes note of whether the server took the card that was sent last.
    pub fn record(&mut self, taken: bool)
        requires
            old(self).deep_view().tried() < old(self).deep_view().cards.len(),
        ensures
            final(self).deep_view().wf(),
            final(self).deep_view() == (ImportV {
                imported: old(self).deep_view().imported + (if taken {
                    1int
                } else {
                    0int
                }),
                skipped: old(self).deep_view().skipped + (if taken {
                    0int
                } else {
                    1int
                }),
                ..old(self).deep_view()
            }),
    {
        proof {
            use_type_invariant(&*self);
        }
        let n = self.cards.len();
        if taken {
            self.imported = self.imported + 1;
        } else {
            self.skipped = self.skipped + 1;
        }
    }

    /// How reading the file went: once no card is left, every contact is counted once.
    pub fn result(&self) -> (r: ImportResult)
        ensures
            self.deep_view().wf(),
            r.imported == self.deep_view().imported,
            r.skipped == self.deep_view().skipped,
    {
        proof {
            use_type_invariant(self);
        }
        ImportResult { imported: self.imported, skipped: self.skipped }
    }
}

// ---------------------------------------------------------------------------
// What was saved is shown again
// ---------------------------------------------------------------------------

/// The date of a timestamp of a day with a four-digit year.
pub proof fn timestamp_of_day(d: NaiveDate)
    requires
        d.valid(),
        0 <= d.year <= 9999,
    ensures
        timestamp_date(date_text(d) + "T00:00:00Z"@) == Some((d.month, d.day, Some(d.year))),
{
    let s = date_text(d) + "T00:00:00Z"@;
    let y = year_text(d.year as int);
    let m = two(d.month as int);
    let e = two(d.day as int);
    crate::numbers::dec_reads_back(d.year as nat);
    crate::numbers::dec_len(d.year as nat);
    crate::numbers::value_of_zero_fill(crate::numbers::dec(d.year as nat), 4);
    two_text(d.month as int);
    two_text(d.day as int);
    assert(y.len() == 4);
    assert(s.subrange(0, 4) =~= y);
    assert(s.subrange(5, 7) =~= m);
    assert(s.subrange(8, 10) =~= e);
    assert forall|i: int| 0 <= i < 10 implies (#[trigger] s[i] as int) < 128 by {
        if i < 4 {
            assert(s[i] == y[i]);
        } else if i == 4 {
        } else if i < 7 {
            assert(s[i] == m[i - 5]);
        } else if i == 7 {
        } else {
            assert(s[i] == e[i - 8]);
        }
    }
}

/// What a form saves of a contact is what the form for it shows: the name, the address and the
/// birthday. Where the year is hidden, 2000 stands for it. Years are told with four digits.
pub proof fn saved_card_is_shown(
    form: ContactFormBodyV,
    uid: Seq<char>,
    books: Seq<AddressBookV>,
    p: ViewParamsV,
)
    requires
        form.built(uid) is Ok,
        form.birthday() matches Ok(Some((d, true))) ==> 0 <= d.year <= 9999,
    ensures
        ({
            let shown = contact_form(form.built(uid)->Ok_0, books, p, None);
            &&& shown.name == trim(form.name)
            &&& shown.email == form.email
            &&& shown.address_books == book_options_with(books, Some(form.address_book_id))
            &&& match form.birthday()->Ok_0 {
                None => shown.birthday_date.len() == 0 && !shown.hide_birth_year,
                Some((d, true)) => shown.birthday_date == date_text(d) && !shown.hide_birth_year,
                Some((d, false)) => shown.hide_birth_year && shown.birthday_date == date_text(
                    NaiveDate { year: 2000, month: d.month, day: d.day },
                ),
            }
        }),
{
    let card = form.built(uid)->Ok_0;
    if form.email.len() == 0 {
        assert(form.email =~= Seq::empty());
    }
    if let Some((d, with_year)) = form.birthday()->Ok_0 {
        assert(d.valid());
        let entries = seq![("bday"@, birthday_kept(d, with_year))];
        assert(entries[0].1 == birthday_kept(d, with_year));
        if with_year {
            timestamp_of_day(d);
            assert(NaiveDate { year: d.year, month: d.month, day: d.day } == d);
        } else {
            assert((NaiveDate { year: 2000, month: d.month, day: d.day }).valid());
        }
    }
}

} // verus!
