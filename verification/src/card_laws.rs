//! What is read of a vCard, and what the forms for contacts, calendars and subscriptions give.

use vstd::prelude::*;
use vstd::string::*;
use crate::calendarform::{
    address_fault, color_read, is_color_code, is_hex_digit, without_hash, CalendarFormBodyV,
    IcsFormBodyV, DEFAULT_ICS_COLOR,
};
use crate::contacts::{
    birth_label, birth_of, contact_form, import_fault, timestamp_of_day, ContactFormBodyV,
};
use crate::contentline::{escaped, line_parts, unescaped, ParamsV};
use crate::jscalendar::CalendarV;
use crate::jscontact::{AddressBookV, CardV};
use crate::numbers::int_text;
use crate::options::{book_options_with, chosen_calendar, options_with};
use crate::text::{lower, split, trim};
use crate::timetext::{date_text, month_day_text, read_date};
use crate::urls::UrlPartsV;
use crate::vcard::{
    bday_text, bday_value, birth_parts, cards_line, contact_of, contact_set, contacts_of,
    email_lines, full_name, marks_preferred, name_of_n, prefers, vcard_lines, CardsV, RawContactV,
};
use crate::view::ViewParamsV;

verus! {

// ---------------------------------------------------------------------------
// vCards
// ---------------------------------------------------------------------------

/// Each property of a vCard goes where its name says, and nowhere else. Of several addresses the
/// first is kept, unless a later one is preferred.
pub proof fn card_property_goes_by_name(
    raw: RawContactV,
    name: Seq<char>,
    params: ParamsV,
    value: Seq<char>,
)
    ensures
        ({
            let r = contact_set(raw, name, params, value);
            &&& r.fn_ == (if name == "FN"@ {
                Some(unescaped(value))
            } else {
                raw.fn_
            })
            &&& r.n == (if name == "N"@ {
                Some(unescaped(value))
            } else {
                raw.n
            })
            &&& r.bday == (if name == "BDAY"@ {
                Some((value, params))
            } else {
                raw.bday
            })
            &&& name != "EMAIL"@ ==> r.email == raw.email
            &&& name == "EMAIL"@ && raw.email is None ==> r.email == Some(trim(value))
            &&& name == "EMAIL"@ && prefers(params) ==> r.email == Some(trim(value))
            &&& name == "EMAIL"@ && raw.email is Some && !prefers(params) ==> r.email == raw.email
        }),
{
    reveal_strlit("FN");
    reveal_strlit("N");
    reveal_strlit("EMAIL");
    reveal_strlit("BDAY");
    assert("FN"@.len() == 2 && "N"@.len() == 1 && "EMAIL"@.len() == 5 && "BDAY"@.len() == 4);
}

/// An address is preferred by a parameter `PREF`, or by a `TYPE` of that name.
pub proof fn preference_is_marked(params: ParamsV, i: int)
    requires
        0 <= i < params.len(),
        params[i].0 == "PREF"@ || params[i].0 == "TYPE"@ && params[i].1 == "pref"@,
    ensures
        prefers(params),
{
    assert(marks_preferred(params[i]));
}

/// The contact that is read has the full name, or else the given name before the family name;
/// without either there is no contact. Its address and birthday are those of the card.
pub proof fn contact_is_read(raw: RawContactV)
    ensures
        raw.fn_ matches Some(f) ==> (trim(f).len() > 0 ==> (contact_of(raw) matches Some(c)
            && c.name == trim(f))),
        raw.fn_ matches Some(f) ==> (trim(f).len() == 0 ==> contact_of(raw) is None),
        raw.fn_ is None && raw.n is None ==> contact_of(raw) is None,
        contact_of(raw) matches Some(c) ==> c.email == raw.email && c.name.len() > 0 && (
        match raw.bday {
            Some(b) => c.birthday == bday_value(b.0, b.1),
            None => c.birthday is None,
        }),
{
}

/// A name in parts is read with the given name first.
pub proof fn given_name_comes_first(n: Seq<char>)
    requires
        split(n, ';').len() > 1,
    ensures
        ({
            let family = trim(split(n, ';')[0]);
            let given = trim(split(n, ';')[1]);
            &&& given.len() > 0 && family.len() > 0 ==> name_of_n(n) == given + " "@ + family
            &&& family.len() == 0 ==> name_of_n(n) == given
            &&& given.len() == 0 ==> name_of_n(n) == family
        }),
{
    let family = trim(split(n, ';')[0]);
    let given = trim(split(n, ';')[1]);
    if given.len() == 0 && family.len() == 0 {
        assert(given =~= family);
    }
}

/// A line of a file leaves the contacts before it as they are; the end of a card adds the contact
/// that the card tells of, if any.
pub proof fn cards_are_read_in_turn(st: CardsV, line: Seq<char>)
    ensures
        ({
            let r = cards_line(st, line);
            &&& st.contacts.len() <= r.contacts.len() <= st.contacts.len() + 1
            &&& forall|i: int|
                0 <= i < st.contacts.len() ==> #[trigger] r.contacts[i] == st.contacts[i]
            &&& r.contacts.len() > st.contacts.len() ==> (st.current matches Some(raw)
                && contact_of(raw) == Some(r.contacts.last()))
            &&& line_parts(line) matches Some(p) ==> (p.0 == "END"@ && lower(p.2) == lower(
                "VCARD"@,
            ) ==> r.current is None && (st.current matches Some(raw) ==> (contact_of(
                raw,
            ) matches Some(c) ==> r.contacts.len() == st.contacts.len() + 1)))
        }),
{
    reveal_strlit("END");
    reveal_strlit("BEGIN");
    assert("END"@.len() == 3 && "BEGIN"@.len() == 5);
}

/// A card is written with its full name, its uid, each of its addresses, and its birthday.
pub proof fn card_is_written(card: CardV, i: int)
    ensures
        ({
            let lines = vcard_lines(card);
            &&& card.name matches Some(n) ==> (n.full matches Some(f) ==> lines.contains(
                "FN:"@ + escaped(f),
            ))
            &&& lines.contains("UID:"@ + escaped(card.uid))
            &&& card.emails matches Some(m) ==> (0 <= i < m.len() ==> lines.contains(
                "EMAIL:"@ + escaped(m[i].1.address),
            ))
            &&& birth_parts(card) matches Some(p) ==> lines.contains("BDAY:"@ + bday_text(p))
        }),
{
    let lines = vcard_lines(card);
    let n = lines.len() as int;
    assert(lines[2] == "FN:"@ + escaped(full_name(card)));
    assert(lines[n - 2] == "UID:"@ + escaped(card.uid));
    if let Some(m) = card.emails {
        if 0 <= i < m.len() {
            assert(lines[4 + i] == email_lines(card)[i]);
        }
    }
    if let Some(p) = birth_parts(card) {
        assert(lines[n - 3] == "BDAY:"@ + bday_text(p));
    }
}

// ---------------------------------------------------------------------------
// Contacts
// ---------------------------------------------------------------------------

/// A contact is saved exactly where its name is more than blanks and its birthday, where there is
/// one, can be read.
pub proof fn contact_is_saved(form: ContactFormBodyV, uid: Seq<char>)
    ensures
        form.built(uid) is Ok <==> trim(form.name).len() > 0 && (form.birthday_date.len() == 0
            || read_date(form.birthday_date, "%Y-%m-%d"@) is Some),
        trim(form.name).len() == 0 ==> form.built(uid) == Err::<CardV, Seq<char>>(
            "name is required"@,
        ),
{
}

/// A contact that is saved has the name, the address and the book of the form, and its birthday
/// with the year, unless that is to be hidden.
pub proof fn saved_contact_has_fields(form: ContactFormBodyV, uid: Seq<char>)
    requires
        form.built(uid) is Ok,
    ensures
        ({
            let card = form.built(uid)->Ok_0;
            &&& card.uid == uid
            &&& card.display_name() == trim(form.name)
            &&& form.email.len() > 0 ==> card.primary_email() == Some(form.email)
            &&& form.email.len() == 0 ==> card.primary_email() is None
            &&& card.address_book_ids matches Some(m) && m.len() == 1 && m[0].0
                == form.address_book_id && m[0].1
            &&& form.birthday_date.len() == 0 ==> card.anniversaries is None
            &&& form.birthday_date.len() > 0 ==> {
                &&& read_date(form.birthday_date, "%Y-%m-%d"@) matches Some(d)
                &&& card.anniversaries matches Some(m)
                &&& m.len() == 1
                &&& m[0].1.kind == Some("birth"@)
                &&& form.hide_birth_year is Some ==> m[0].1.date.parts() == Some(
                    (d.month, d.day, None::<i32>),
                )
                &&& form.hide_birth_year is None && 0 <= d.year <= 9999 ==> m[0].1.date.parts()
                    == Some((d.month, d.day, Some(d.year)))
            }
        }),
{
    if form.birthday_date.len() > 0 {
        let d = read_date(form.birthday_date, "%Y-%m-%d"@)->0;
        assert(d.valid());
        if form.hide_birth_year is None && 0 <= d.year <= 9999 {
            timestamp_of_day(d);
        }
    }
}

/// A contact is shown with its name, its first address and its birthday.
pub proof fn contact_is_shown(
    card: CardV,
    books: Seq<AddressBookV>,
    p: ViewParamsV,
    error: Option<Seq<char>>,
)
    ensures
        ({
            let form = contact_form(card, books, p, error);
            &&& card.name matches Some(n) ==> (n.full matches Some(f) ==> form.name == f)
            &&& card.emails matches Some(m) ==> (m.len() > 0 ==> form.email == m[0].1.address)
            &&& card.id matches Some(i) ==> form.contact_id == i
            &&& birth_of(card) matches Some((d, y)) ==> form.birthday_date == date_text(d)
                && form.hide_birth_year == (y is None)
            &&& birth_of(card) is None ==> form.birthday_date.len() == 0 && !form.hide_birth_year
            &&& card.address_book_ids matches Some(m) ==> (m.len() > 0 ==> form.address_books
                == book_options_with(books, Some(m[0].0)))
            &&& form.error == error
        }),
{
}

// ---------------------------------------------------------------------------
// Calendars and subscriptions
// ---------------------------------------------------------------------------

/// A calendar is saved exactly where its name is more than blanks and its color, where it has one,
/// is one; it has what the form says, and starts out visible.
pub proof fn calendar_is_saved(form: CalendarFormBodyV)
    ensures
        form.built() is Ok <==> trim(form.name).len() > 0 && (form.color.len() == 0 || color_read(
            form.color,
        ) is Some),
        form.built() matches Ok(c) ==> {
            &&& c.name == trim(form.name)
            &&& c.is_visible
            &&& c.is_subscribed
            &&& c.id is None
            &&& form.color.len() == 0 ==> c.color is None
            &&& form.color.len() > 0 ==> c.color == color_read(form.color)
            &&& form.description.len() > 0 ==> c.description == Some(form.description)
            &&& form.description.len() == 0 ==> c.description is None
        },
{
}

/// A color is a `#`, which may be left out, with three or six hexadecimal digits; and it is read as
/// it stands.
pub proof fn color_is_read(s: Seq<char>)
    ensures
        color_read(s) matches Some(c) ==> {
            &&& c.len() == 4 || c.len() == 7
            &&& c[0] == '#'
            &&& c == s || c == seq!['#'] + s
            &&& forall|i: int|
                1 <= i < c.len() ==> '0' <= #[trigger] c[i] <= '9' || 'a' <= c[i] <= 'f' || 'A'
                    <= c[i] <= 'F'
        },
        s.len() == 7 && s[0] == '#' && (forall|i: int|
            1 <= i < 7 ==> '0' <= #[trigger] s[i] <= '9' || 'a' <= s[i] <= 'f' || 'A' <= s[i]
                <= 'F') ==> color_read(s) == Some(s),
{
    let t = without_hash(s);
    let c = seq!['#'] + t;
    if s.len() > 0 && s[0] == '#' {
        assert(c =~= s);
    }
    if is_color_code(t) {
        assert forall|i: int| 1 <= i < c.len() implies ('0' <= #[trigger] c[i] <= '9' || 'a' <= c[i]
            <= 'f' || 'A' <= c[i] <= 'F') by {
            assert(c[i] == t[i - 1]);
            assert(is_hex_digit(t[i - 1]));
        }
    }
    if s.len() == 7 && s[0] == '#' && (forall|i: int|
        1 <= i < 7 ==> '0' <= #[trigger] s[i] <= '9' || 'a' <= s[i] <= 'f' || 'A' <= s[i] <= 'F') {
        assert forall|i: int| 0 <= i < t.len() implies is_hex_digit(
            #[trigger] t[i],
        ) by {
            assert(t[i] == s[i + 1]);
        }
    }
}

/// The address of a subscription is one of the web, with a host and a port that is known.
pub proof fn address_is_of_the_web(u: Result<UrlPartsV, Seq<char>>)
    ensures
        address_fault(u) is None <==> (u matches Ok(p) && (p.scheme == "http"@ || p.scheme
            == "https"@) && p.host is Some && p.port is Some),
{
}

/// A subscription without a color gets the usual one; with one it keeps it.
pub proof fn subscription_gets_color(form: IcsFormBodyV)
    ensures
        form.color.len() == 0 ==> form.color_wanted() == Some(DEFAULT_ICS_COLOR@),
        form.color.len() > 0 ==> form.color_wanted() == color_read(form.color),
        trim(form.name).len() == 0 ==> form.fault() == Some("name is required"@),
{
}

/// Each calendar that has an id is offered under its name, and the one that is chosen is marked:
/// the one asked for, or else the first.
pub proof fn calendar_is_offered(
    calendars: Seq<CalendarV>,
    selected: Option<Seq<char>>,
    i: int,
) -> (j: int)
    requires
        0 <= i < calendars.len(),
        calendars[i].id is Some,
    ensures
        ({
            let offered = options_with(calendars, chosen_calendar(calendars, selected));
            &&& 0 <= j < offered.len()
            &&& offered[j].id == calendars[i].id->0
            &&& offered[j].name == calendars[i].name
            &&& selected matches Some(s) ==> (offered[j].selected <==> calendars[i].id == Some(s))
            &&& selected is None ==> (offered[j].selected <==> calendars[i].id == calendars[0].id)
        }),
{
    offered_with(calendars, chosen_calendar(calendars, selected), i)
}

proof fn offered_with(calendars: Seq<CalendarV>, chosen: Option<Seq<char>>, i: int) -> (j: int)
    requires
        0 <= i < calendars.len(),
        calendars[i].id is Some,
    ensures
        ({
            let offered = options_with(calendars, chosen);
            &&& 0 <= j < offered.len()
            &&& offered[j].id == calendars[i].id->0
            &&& offered[j].name == calendars[i].name
            &&& offered[j].selected <==> calendars[i].id == chosen
        }),
    decreases calendars.len(),
{
    let t = calendars.drop_last();
    if i < t.len() {
        assert(t[i] == calendars[i]);
        offered_with(t, chosen, i)
    } else {
        options_with(calendars, chosen).len() - 1
    }
}

/// A birthday is told of by its day and month, and by its year where that is told.
pub proof fn birthday_is_told(card: CardV)
    ensures
        birth_of(card) is None ==> birth_label(card) is None,
        birth_of(card) matches Some((d, None)) ==> birth_label(card) == Some(month_day_text(d)),
        birth_of(card) matches Some((d, Some(y))) ==> birth_label(card) == Some(
            month_day_text(d) + " "@ + int_text(y as int),
        ) && d.year == y,
{
}

/// A file of contacts is taken exactly where the server has contacts, a file was sent, and it holds
/// from one to five hundred of them.
pub proof fn file_is_taken(has_contacts: bool, text: Option<Seq<char>>)
    ensures
        import_fault(has_contacts, text) is None <==> has_contacts && (text matches Some(t) && 1
            <= contacts_of(t).len() <= 500),
{
}

} // verus!
