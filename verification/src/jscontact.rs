//! A pragmatic subset of JSContact and the JMAP Contacts extension layered on
//! top of it: a display name, email addresses and birth anniversaries. Unknown and extension
//! properties are kept in `extra`.

use vstd::prelude::*;
use vstd::string::*;
use vstd::slice::slice_subrange;
use crate::calendar::{date_less, NaiveDate};
use crate::collections::{
    sort_items, stable_sorted, stable_sorted_in_order, total_preorder, CloneView, Ordered, StrMap,
};
use crate::jscalendar::Id;
use crate::json::{Value, ValueV};
use crate::numbers::{parse_i32, parse_int, parse_u32};
use crate::text::{ascii_prefix, chars_of, str_eq};

verus! {

/// A part of a name.
#[derive(Debug)]
pub struct NameComponent {
    pub type_: String,
    pub kind: String,
    pub value: String,
}

/// What a [`NameComponent`] stands for.
#[verifier::ext_equal]
pub struct NameComponentV {
    pub type_: Seq<char>,
    pub kind: Seq<char>,
    pub value: Seq<char>,
}

impl DeepView for NameComponent {
    type V = NameComponentV;

    open spec fn deep_view(&self) -> NameComponentV {
        NameComponentV {
            type_: self.type_.deep_view(),
            kind: self.kind.deep_view(),
            value: self.value.deep_view(),
        }
    }
}

impl CloneView for NameComponent {
    fn clone_view(&self) -> (r: Self) {
        NameComponent {
            type_: self.type_.clone_view(),
            kind: self.kind.clone_view(),
            value: self.value.clone_view(),
        }
    }
}

impl Clone for NameComponent {
    fn clone(&self) -> (r: Self)
        ensures
            r.deep_view() == self.deep_view(),
    {
        self.clone_view()
    }
}

impl NameComponentV {
    /// Every part empty, absent or zero.
    pub open spec fn blank() -> NameComponentV {
        NameComponentV {
            type_: Seq::empty(),
            kind: Seq::empty(),
            value: Seq::empty(),
        }
    }
}

impl Default for NameComponent {
    fn default() -> (r: Self)
        ensures
            r.deep_view() == NameComponentV::blank(),
    {
        let r = NameComponent {
            type_: String::new(),
            kind: String::new(),
            value: String::new(),
        };
        assert(r.deep_view() =~= NameComponentV::blank());
        r
    }
}

/// A name.
#[derive(Debug)]
pub struct NameProperty {
    pub type_: String,
    pub full: Option<String>,
    pub components: Vec<NameComponent>,
    pub extra: StrMap<Value>,
}

/// What a [`NameProperty`] stands for.
#[verifier::ext_equal]
pub struct NamePropertyV {
    pub type_: Seq<char>,
    pub full: Option<Seq<char>>,
    pub components: Seq<NameComponentV>,
    pub extra: Seq<(Seq<char>, ValueV)>,
}

impl DeepView for NameProperty {
    type V = NamePropertyV;

    open spec fn deep_view(&self) -> NamePropertyV {
        NamePropertyV {
            type_: self.type_.deep_view(),
            full: self.full.deep_view(),
            components: self.components.deep_view(),
            extra: self.extra.deep_view(),
        }
    }
}

impl CloneView for NameProperty {
    fn clone_view(&self) -> (r: Self) {
        NameProperty {
            type_: self.type_.clone_view(),
            full: self.full.clone_view(),
            components: self.components.clone_view(),
            extra: self.extra.clone_view(),
        }
    }
}

impl Clone for NameProperty {
    fn clone(&self) -> (r: Self)
        ensures
            r.deep_view() == self.deep_view(),
    {
        self.clone_view()
    }
}

impl NamePropertyV {
    /// Every part empty, absent or zero.
    pub open spec fn blank() -> NamePropertyV {
        NamePropertyV {
            type_: Seq::empty(),
            full: None,
            components: Seq::empty(),
            extra: Seq::empty(),
        }
    }
}

impl Default for NameProperty {
    fn default() -> (r: Self)
        ensures
            r.deep_view() == NamePropertyV::blank(),
    {
        let r = NameProperty {
            type_: String::new(),
            full: None,
            components: Vec::new(),
            extra: StrMap::new(),
        };
        assert(r.deep_view() =~= NamePropertyV::blank());
        r
    }
}

/// An email address.
#[derive(Debug)]
pub struct EmailAddress {
    pub type_: String,
    pub address: String,
    pub extra: StrMap<Value>,
}

/// What a [`EmailAddress`] stands for.
#[verifier::ext_equal]
pub struct EmailAddressV {
    pub type_: Seq<char>,
    pub address: Seq<char>,
    pub extra: Seq<(Seq<char>, ValueV)>,
}

impl DeepView for EmailAddress {
    type V = EmailAddressV;

    open spec fn deep_view(&self) -> EmailAddressV {
        EmailAddressV {
            type_: self.type_.deep_view(),
            address: self.address.deep_view(),
            extra: self.extra.deep_view(),
        }
    }
}

impl CloneView for EmailAddress {
    fn clone_view(&self) -> (r: Self) {
        EmailAddress {
            type_: self.type_.clone_view(),
            address: self.address.clone_view(),
            extra: self.extra.clone_view(),
        }
    }
}

impl Clone for EmailAddress {
    fn clone(&self) -> (r: Self)
        ensures
            r.deep_view() == self.deep_view(),
    {
        self.clone_view()
    }
}

impl EmailAddressV {
    /// Every part empty, absent or zero.
    pub open spec fn blank() -> EmailAddressV {
        EmailAddressV {
            type_: Seq::empty(),
            address: Seq::empty(),
            extra: Seq::empty(),
        }
    }
}

impl Default for EmailAddress {
    fn default() -> (r: Self)
        ensures
            r.deep_view() == EmailAddressV::blank(),
    {
        let r = EmailAddress {
            type_: String::new(),
            address: String::new(),
            extra: StrMap::new(),
        };
        assert(r.deep_view() =~= EmailAddressV::blank());
        r
    }
}

/// Either a full timestamp or a partial calendar date, whose year may be
/// kept back.
#[derive(Debug)]
pub enum AnniversaryDate {
    Timestamp { utc: String },
    PartialDate { year: Option<i32>, month: Option<u32>, day: Option<u32> },
}

/// What an [`AnniversaryDate`] stands for.
#[verifier::ext_equal]
pub enum AnniversaryDateV {
    Timestamp { utc: Seq<char> },
    PartialDate { year: Option<i32>, month: Option<u32>, day: Option<u32> },
}

impl DeepView for AnniversaryDate {
    type V = AnniversaryDateV;

    open spec fn deep_view(&self) -> AnniversaryDateV {
        match self {
            AnniversaryDate::Timestamp { utc } => AnniversaryDateV::Timestamp { utc: utc@ },
            AnniversaryDate::PartialDate { year, month, day } => AnniversaryDateV::PartialDate {
                year: *year,
                month: *month,
                day: *day,
            },
        }
    }
}

impl CloneView for AnniversaryDate {
    fn clone_view(&self) -> (r: Self) {
        match self {
            AnniversaryDate::Timestamp { utc } => AnniversaryDate::Timestamp { utc: utc.clone() },
            AnniversaryDate::PartialDate { year, month, day } => AnniversaryDate::PartialDate {
                year: *year,
                month: *month,
                day: *day,
            },
        }
    }
}

/// The month, day and year at the start of a timestamp: `YYYY`, `MM` and `DD` with one
/// character between each two, all of them ASCII.
pub open spec fn timestamp_date(s: Seq<char>) -> Option<(u32, u32, Option<i32>)> {
    if s.len() >= 10 && (forall|i: int| 0 <= i < 10 ==> (#[trigger] s[i] as int) < 128) {
        match (
            parse_int(s.subrange(0, 4), i32::MIN as int, i32::MAX as int),
            parse_int(s.subrange(5, 7), 0, u32::MAX as int),
            parse_int(s.subrange(8, 10), 0, u32::MAX as int),
        ) {
            (Some(y), Some(m), Some(d)) => Some((m as u32, d as u32, Some(y as i32))),
            _ => None,
        }
    } else {
        None
    }
}

impl AnniversaryDateV {
    /// The month, day and, where it is disclosed, year of an anniversary.
    pub open spec fn parts(self) -> Option<(u32, u32, Option<i32>)> {
        match self {
            AnniversaryDateV::Timestamp { utc } => timestamp_date(utc),
            AnniversaryDateV::PartialDate { year, month, day } => match (month, day) {
                (Some(m), Some(d)) => Some((m, d, year)),
                _ => None,
            },
        }
    }
}

impl AnniversaryDate {
    /// The month, day and year that this anniversary falls on; no year where the owner of
    /// the card chose not to disclose it.
    pub fn month_day_year(&self) -> (r: Option<(u32, u32, Option<i32>)>)
        ensures
            r == self.deep_view().parts(),
    {
        match self {
            AnniversaryDate::Timestamp { utc } => {
                let v = chars_of(utc.as_str());
                if v.len() < 10 {
                    return None;
                }
                if !ascii_prefix(v.as_slice(), 10) {
                    return None;
                }
                let s = v.as_slice();
                let y: i32 = match parse_i32(slice_subrange(s, 0, 4)) {
                    Some(y) => y,
                    None => {
                        return None;
                    },
                };
                let m: u32 = match parse_u32(slice_subrange(s, 5, 7)) {
                    Some(m) => m,
                    None => {
                        return None;
                    },
                };
                let d: u32 = match parse_u32(slice_subrange(s, 8, 10)) {
                    Some(d) => d,
                    None => {
                        return None;
                    },
                };
                Some((m, d, Some(y)))
            },
            AnniversaryDate::PartialDate { year, month, day } => match (month, day) {
                (Some(m), Some(d)) => Some((*m, *d, *year)),
                _ => None,
            },
        }
    }
}

/// An anniversary of some kind.
#[derive(Debug)]
pub struct Anniversary {
    pub type_: String,
    pub kind: Option<String>,
    pub date: AnniversaryDate,
    pub extra: StrMap<Value>,
}

/// What a [`Anniversary`] stands for.
#[verifier::ext_equal]
pub struct AnniversaryV {
    pub type_: Seq<char>,
    pub kind: Option<Seq<char>>,
    pub date: AnniversaryDateV,
    pub extra: Seq<(Seq<char>, ValueV)>,
}

impl DeepView for Anniversary {
    type V = AnniversaryV;

    open spec fn deep_view(&self) -> AnniversaryV {
        AnniversaryV {
            type_: self.type_.deep_view(),
            kind: self.kind.deep_view(),
            date: self.date.deep_view(),
            extra: self.extra.deep_view(),
        }
    }
}

impl CloneView for Anniversary {
    fn clone_view(&self) -> (r: Self) {
        Anniversary {
            type_: self.type_.clone_view(),
            kind: self.kind.clone_view(),
            date: self.date.clone_view(),
            extra: self.extra.clone_view(),
        }
    }
}

impl Clone for Anniversary {
    fn clone(&self) -> (r: Self)
        ensures
            r.deep_view() == self.deep_view(),
    {
        self.clone_view()
    }
}

/// A JSContact `Card`, as JMAP `ContactCard/get` returns it.
#[derive(Debug)]
pub struct Card {
    pub type_: String,
    pub version: String,
    pub id: Option<Id>,
    pub uid: Id,
    pub kind: Option<String>,
    pub name: Option<NameProperty>,
    pub emails: Option<StrMap<EmailAddress>>,
    pub anniversaries: Option<StrMap<Anniversary>>,
    /// JMAP Contacts: which address books the card belongs to.
    pub address_book_ids: Option<StrMap<bool>>,
    pub extra: StrMap<Value>,
}

/// What a [`Card`] stands for.
#[verifier::ext_equal]
pub struct CardV {
    pub type_: Seq<char>,
    pub version: Seq<char>,
    pub id: Option<Seq<char>>,
    pub uid: Seq<char>,
    pub kind: Option<Seq<char>>,
    pub name: Option<NamePropertyV>,
    pub emails: Option<Seq<(Seq<char>, EmailAddressV)>>,
    pub anniversaries: Option<Seq<(Seq<char>, AnniversaryV)>>,
    pub address_book_ids: Option<Seq<(Seq<char>, bool)>>,
    pub extra: Seq<(Seq<char>, ValueV)>,
}

impl DeepView for Card {
    type V = CardV;

    open spec fn deep_view(&self) -> CardV {
        CardV {
            type_: self.type_.deep_view(),
            version: self.version.deep_view(),
            id: self.id.deep_view(),
            uid: self.uid.deep_view(),
            kind: self.kind.deep_view(),
            name: self.name.deep_view(),
            emails: self.emails.deep_view(),
            anniversaries: self.anniversaries.deep_view(),
            address_book_ids: self.address_book_ids.deep_view(),
            extra: self.extra.deep_view(),
        }
    }
}

impl CloneView for Card {
    fn clone_view(&self) -> (r: Self) {
        Card {
            type_: self.type_.clone_view(),
            version: self.version.clone_view(),
            id: self.id.clone_view(),
            uid: self.uid.clone_view(),
            kind: self.kind.clone_view(),
            name: self.name.clone_view(),
            emails: self.emails.clone_view(),
            anniversaries: self.anniversaries.clone_view(),
            address_book_ids: self.address_book_ids.clone_view(),
            extra: self.extra.clone_view(),
        }
    }
}

impl Clone for Card {
    fn clone(&self) -> (r: Self)
        ensures
            r.deep_view() == self.deep_view(),
    {
        self.clone_view()
    }
}

impl CardV {
    /// A card with nothing but its uid.
    pub open spec fn bare(uid: Seq<char>) -> CardV {
        CardV {
            type_: "Card"@,
            version: "1.0"@,
            id: None,
            uid,
            kind: None,
            name: None,
            emails: None,
            anniversaries: None,
            address_book_ids: None,
            extra: Seq::empty(),
        }
    }

    /// The full name where there is one that is not empty, else the uid.
    pub open spec fn display_name(self) -> Seq<char> {
        match self.name {
            Some(n) => match n.full {
                Some(f) => if f.len() > 0 {
                    f
                } else {
                    self.uid
                },
                None => self.uid,
            },
            None => self.uid,
        }
    }

    /// The first email address.
    pub open spec fn primary_email(self) -> Option<Seq<char>> {
        match self.emails {
            Some(m) => if m.len() > 0 {
                Some(m[0].1.address)
            } else {
                None
            },
            None => None,
        }
    }
}

impl Card {
    pub fn new(uid: &str) -> (r: Self)
        ensures
            r.deep_view() == CardV::bare(uid@),
    {
        Card {
            type_: "Card".to_string(),
            version: "1.0".to_string(),
            id: None,
            uid: uid.to_string(),
            kind: None,
            name: None,
            emails: None,
            anniversaries: None,
            address_book_ids: None,
            extra: StrMap::new(),
        }
    }

    pub fn display_name(&self) -> (r: String)
        ensures
            r@ == self.deep_view().display_name(),
    {
        match &self.name {
            Some(n) => match &n.full {
                Some(f) => {
                    if f.as_str().unicode_len() > 0 {
                        f.clone()
                    } else {
                        self.uid.clone()
                    }
                },
                None => self.uid.clone(),
            },
            None => self.uid.clone(),
        }
    }

    pub fn primary_email(&self) -> (r: Option<&str>)
        ensures
            r.deep_view() == self.deep_view().primary_email(),
    {
        match &self.emails {
            Some(m) => {
                if m.entries.len() > 0 {
                    let e = &m.entries[0];
                    assert(m.deep_view()[0] == e.deep_view());
                    Some(e.1.address.as_str())
                } else {
                    None
                }
            },
            None => None,
        }
    }
}

/// An `AddressBook`, for contacts what `Calendar` is for events.
#[derive(Debug)]
pub struct AddressBook {
    pub id: Option<Id>,
    pub name: String,
    pub sort_order: u32,
    pub is_subscribed: bool,
    pub extra: StrMap<Value>,
}

/// What a [`AddressBook`] stands for.
#[verifier::ext_equal]
pub struct AddressBookV {
    pub id: Option<Seq<char>>,
    pub name: Seq<char>,
    pub sort_order: u32,
    pub is_subscribed: bool,
    pub extra: Seq<(Seq<char>, ValueV)>,
}

impl DeepView for AddressBook {
    type V = AddressBookV;

    open spec fn deep_view(&self) -> AddressBookV {
        AddressBookV {
            id: self.id.deep_view(),
            name: self.name.deep_view(),
            sort_order: self.sort_order.deep_view(),
            is_subscribed: self.is_subscribed.deep_view(),
            extra: self.extra.deep_view(),
        }
    }
}

impl CloneView for AddressBook {
    fn clone_view(&self) -> (r: Self) {
        AddressBook {
            id: self.id.clone_view(),
            name: self.name.clone_view(),
            sort_order: self.sort_order.clone_view(),
            is_subscribed: self.is_subscribed.clone_view(),
            extra: self.extra.clone_view(),
        }
    }
}

impl Clone for AddressBook {
    fn clone(&self) -> (r: Self)
        ensures
            r.deep_view() == self.deep_view(),
    {
        self.clone_view()
    }
}

/// A birthday of a contact, with the name to show and, where it is known, the year of
/// birth.
#[derive(Debug)]
pub struct Birthday {
    pub uid: Id,
    pub name: String,
    pub month: u32,
    pub day: u32,
    pub birth_year: Option<i32>,
}

/// What a [`Birthday`] stands for.
#[verifier::ext_equal]
pub struct BirthdayV {
    pub uid: Seq<char>,
    pub name: Seq<char>,
    pub month: u32,
    pub day: u32,
    pub birth_year: Option<i32>,
}

impl DeepView for Birthday {
    type V = BirthdayV;

    open spec fn deep_view(&self) -> BirthdayV {
        BirthdayV {
            uid: self.uid.deep_view(),
            name: self.name.deep_view(),
            month: self.month.deep_view(),
            day: self.day.deep_view(),
            birth_year: self.birth_year.deep_view(),
        }
    }
}

impl CloneView for Birthday {
    fn clone_view(&self) -> (r: Self) {
        Birthday {
            uid: self.uid.clone_view(),
            name: self.name.clone_view(),
            month: self.month.clone_view(),
            day: self.day.clone_view(),
            birth_year: self.birth_year.clone_view(),
        }
    }
}

impl Clone for Birthday {
    fn clone(&self) -> (r: Self)
        ensures
            r.deep_view() == self.deep_view(),
    {
        self.clone_view()
    }
}

/// A birthday on a date.
#[derive(Debug)]
pub struct BirthdayOccurrence {
    pub date: NaiveDate,
    pub name: String,
    pub uid: Id,
    pub turns: Option<i32>,
}

/// What a [`BirthdayOccurrence`] stands for.
#[verifier::ext_equal]
pub struct BirthdayOccurrenceV {
    pub date: NaiveDate,
    pub name: Seq<char>,
    pub uid: Seq<char>,
    pub turns: Option<i32>,
}

impl DeepView for BirthdayOccurrence {
    type V = BirthdayOccurrenceV;

    open spec fn deep_view(&self) -> BirthdayOccurrenceV {
        BirthdayOccurrenceV {
            date: self.date.deep_view(),
            name: self.name.deep_view(),
            uid: self.uid.deep_view(),
            turns: self.turns.deep_view(),
        }
    }
}

impl CloneView for BirthdayOccurrence {
    fn clone_view(&self) -> (r: Self) {
        BirthdayOccurrence {
            date: self.date.clone_view(),
            name: self.name.clone_view(),
            uid: self.uid.clone_view(),
            turns: self.turns.clone_view(),
        }
    }
}

impl Clone for BirthdayOccurrence {
    fn clone(&self) -> (r: Self)
        ensures
            r.deep_view() == self.deep_view(),
    {
        self.clone_view()
    }
}

impl Birthday {
    /// The birthday in a year, where that year has the day.
    fn occurrence_in_year(&self, year: i32) -> (r: Option<NaiveDate>)
        ensures
            r == day_in_year(self.deep_view(), year as int),
            r is Some ==> r->0.valid(),
    {
        NaiveDate::from_ymd_opt(year, self.month, self.day)
    }

    /// How old the contact gets in a year.
    pub fn turns_years_old(&self, occurrence_year: i32) -> (r: Option<i32>)
        requires
            self.birth_year is Some ==> i32::MIN <= occurrence_year - self.birth_year->0 <= i32::MAX,
        ensures
            r == (match self.birth_year {
                Some(b) => Some((occurrence_year - b) as i32),
                None => None,
            }),
    {
        match self.birth_year {
            Some(b) => Some(occurrence_year - b),
            None => None,
        }
    }
}

/// The birthday in year `y`, where that year has the day.
pub open spec fn day_in_year(b: BirthdayV, y: int) -> Option<NaiveDate> {
    let d = NaiveDate { year: y as i32, month: b.month, day: b.day };
    if d.valid() {
        Some(d)
    } else {
        None
    }
}

/// The birthdays among the anniversaries of a card.
pub open spec fn births(card: CardV, entries: Seq<(Seq<char>, AnniversaryV)>) -> Seq<BirthdayV>
    decreases entries.len(),
{
    if entries.len() == 0 {
        Seq::empty()
    } else {
        let before = births(card, entries.drop_last());
        let a = entries.last().1;
        match a.date.parts() {
            Some(p) => if a.kind == Some("birth"@) {
                before.push(
                    BirthdayV {
                        uid: card.uid,
                        name: card.display_name(),
                        month: p.0,
                        day: p.1,
                        birth_year: p.2,
                    },
                )
            } else {
                before
            },
            None => before,
        }
    }
}

/// The birthdays that a card tells of.
pub open spec fn card_birthdays(card: CardV) -> Seq<BirthdayV> {
    match card.anniversaries {
        Some(m) => births(card, m),
        None => Seq::empty(),
    }
}

/// The occurrences of a birthday in `[start, end)` during the `n` years from `first` on;
/// `None` where an age does not fit.
pub open spec fn birthday_years(
    b: BirthdayV,
    first: int,
    n: nat,
    start: NaiveDate,
    end: NaiveDate,
) -> Option<Seq<BirthdayOccurrenceV>>
    decreases n,
{
    if n == 0 {
        Some(Seq::empty())
    } else {
        let y = first + n - 1;
        match (birthday_years(b, first, (n - 1) as nat, start, end), day_in_year(b, y)) {
            (None, _) => None,
            (Some(out), Some(d)) => if !date_less(d, start) && date_less(d, end) {
                match b.birth_year {
                    Some(by) => if i32::MIN <= y - by <= i32::MAX {
                        Some(
                            out.push(
                                BirthdayOccurrenceV {
                                    date: d,
                                    name: b.name,
                                    uid: b.uid,
                                    turns: Some((y - by) as i32),
                                },
                            ),
                        )
                    } else {
                        None
                    },
                    None => Some(
                        out.push(
                            BirthdayOccurrenceV { date: d, name: b.name, uid: b.uid, turns: None },
                        ),
                    ),
                }
            } else {
                Some(out)
            },
            (Some(out), None) => Some(out),
        }
    }
}

/// The occurrences of several birthdays.
pub open spec fn birthdays_in(bs: Seq<BirthdayV>, start: NaiveDate, end: NaiveDate) -> Option<
    Seq<BirthdayOccurrenceV>,
>
    decreases bs.len(),
{
    if bs.len() == 0 {
        Some(Seq::empty())
    } else {
        let first = start.year - 1;
        let n = end.year + 2 - first;
        match (
            birthdays_in(bs.drop_last(), start, end),
            birthday_years(bs.last(), first, (if n < 0 { 0 } else { n }) as nat, start, end),
        ) {
            (Some(a), Some(b)) => Some(a + b),
            _ => None,
        }
    }
}

/// The birthdays of all the cards, one card after the other.
pub open spec fn all_birthdays(cards: Seq<CardV>) -> Seq<BirthdayV>
    decreases cards.len(),
{
    if cards.len() == 0 {
        Seq::empty()
    } else {
        all_birthdays(cards.drop_last()) + card_birthdays(cards.last())
    }
}

/// The birthdays of the cards in `[start, end)`, in the order of their dates.
pub open spec fn birthday_expansion(cards: Seq<CardV>, start: NaiveDate, end: NaiveDate) -> Option<
    Seq<BirthdayOccurrenceV>,
> {
    match birthdays_in(all_birthdays(cards), start, end) {
        Some(s) => Some(
            stable_sorted(
                s,
                |a: BirthdayOccurrenceV, b: BirthdayOccurrenceV|
                    BirthdayOccurrence::le_view(a, b),
            ),
        ),
        None => None,
    }
}

impl Ordered for BirthdayOccurrence {
    open spec fn le_view(a: BirthdayOccurrenceV, b: BirthdayOccurrenceV) -> bool {
        !date_less(b.date, a.date)
    }

    fn le(&self, other: &Self) -> (r: bool) {
        !other.date.is_before(self.date)
    }
}

fn birthdays_from_card(card: &Card) -> (r: Vec<Birthday>)
    ensures
        r.deep_view() == card_birthdays(card.deep_view()),
{
    let mut out: Vec<Birthday> = Vec::new();
    assert(out.deep_view() =~= Seq::empty());
    let entries = match &card.anniversaries {
        Some(m) => &m.entries,
        None => {
            return out;
        },
    };
    let ghost all = entries.deep_view();
    let ghost cv = card.deep_view();
    let mut i: usize = 0;
    assert(all.take(0) =~= Seq::empty());
    while i < entries.len()
        invariant
            0 <= i <= entries@.len(),
            all == entries.deep_view(),
            cv == card.deep_view(),
            out.deep_view() == births(cv, all.take(i as int)),
        decreases entries@.len() - i,
    {
        let a = &entries[i].1;
        proof {
            assert(all.take(i + 1).drop_last() =~= all.take(i as int));
            assert(all.take(i + 1).last().1 == a.deep_view());
        }
        let is_birth = match &a.kind {
            Some(k) => str_eq(k.as_str(), "birth"),
            None => false,
        };
        assert(is_birth == (a.deep_view().kind == Some("birth"@)));
        if is_birth {
            if let Some(p) = a.date.month_day_year() {
                let ghost before = out.deep_view();
                let b = Birthday {
                    uid: card.uid.clone(),
                    name: card.display_name(),
                    month: p.0,
                    day: p.1,
                    birth_year: p.2,
                };
                out.push(b);
                assert(out.deep_view() =~= before.push(b.deep_view()));
            }
        }
        i = i + 1;
    }
    assert(all.take(i as int) =~= all);
    out
}

/// Adds the occurrences of one birthday; whether every age fitted.
fn add_occurrences(
    out: &mut Vec<BirthdayOccurrence>,
    b: &Birthday,
    start: NaiveDate,
    end: NaiveDate,
) -> (r: bool)
    requires
        start.valid(),
        end.valid(),
    ensures
        ({
            let first = start.year - 1;
            let n = end.year + 2 - first;
            let found = birthday_years(
                b.deep_view(),
                first,
                (if n < 0 { 0 } else { n }) as nat,
                start,
                end,
            );
            &&& r == (found is Some)
            &&& r ==> final(out).deep_view() == old(out).deep_view() + found->0
        }),
{
    let first: i32 = start.year - 1;
    let last: i32 = end.year + 1;
    let ghost bv = b.deep_view();
    let ghost total = (if last + 1 - first < 0 {
        0
    } else {
        last + 1 - first
    }) as nat;
    let ghost base = out.deep_view();
    let mut y: i32 = first;
    assert(base + Seq::empty() =~= base);
    while y <= last
        invariant
            first <= y,
            y <= last + 1 || y == first,
            start.valid(),
            end.valid(),
            last == end.year + 1,
            first == start.year - 1,
            bv == b.deep_view(),
            total == (if last + 1 - first < 0 {
                0
            } else {
                last + 1 - first
            }),
            birthday_years(bv, first as int, (y - first) as nat, start, end) is Some,
            out.deep_view() == base + birthday_years(
                bv,
                first as int,
                (y - first) as nat,
                start,
                end,
            )->0,
        decreases last + 1 - y,
    {
        let ghost so_far = birthday_years(bv, first as int, (y - first) as nat, start, end)->0;
        assert((y + 1 - first) as nat - 1 == (y - first) as nat);
        if let Some(date) = b.occurrence_in_year(y) {
            if !date.is_before(start) && date.is_before(end) {
                if let Some(by) = b.birth_year {
                    let age: i64 = y as i64 - by as i64;
                    if age < i32::MIN as i64 || age > i32::MAX as i64 {
                        proof {
                            years_prefix(bv, first as int, (y + 1 - first) as nat, total, start, end);
                        }
                        return false;
                    }
                }
                let o = BirthdayOccurrence {
                    date,
                    name: b.name.clone(),
                    uid: b.uid.clone(),
                    turns: b.turns_years_old(y),
                };
                let ghost before = out.deep_view();
                out.push(o);
                assert(out.deep_view() =~= before.push(o.deep_view()));
                assert(out.deep_view() =~= base + so_far.push(o.deep_view()));
            }
        }
        y = y + 1;
    }
    assert((y - first) as nat == total);
    true
}

proof fn years_prefix(b: BirthdayV, first: int, k: nat, n: nat, start: NaiveDate, end: NaiveDate)
    requires
        k <= n,
        birthday_years(b, first, k, start, end) is None,
    ensures
        birthday_years(b, first, n, start, end) is None,
    decreases n - k,
{
    if k < n {
        years_prefix(b, first, k + 1, n, start, end);
    }
}

proof fn birthdays_prefix(bs: Seq<BirthdayV>, k: int, start: NaiveDate, end: NaiveDate)
    requires
        0 <= k <= bs.len(),
        birthdays_in(bs.take(k), start, end) is None,
    ensures
        birthdays_in(bs, start, end) is None,
    decreases bs.len() - k,
{
    if k == bs.len() {
        assert(bs.take(k) =~= bs);
    } else {
        assert(bs.take(k + 1).drop_last() =~= bs.take(k));
        birthdays_prefix(bs, k + 1, start, end);
    }
}

/// The birthdays of the cards in `[range_start, range_end)`, recurring each year, in the
/// order of their dates; `None` where an age does not fit.
pub fn try_expand_birthdays(cards: &Vec<Card>, range_start: NaiveDate, range_end: NaiveDate) -> (r:
    Option<Vec<BirthdayOccurrence>>)
    requires
        range_start.valid(),
        range_end.valid(),
    ensures
        r.deep_view() == birthday_expansion(cards.deep_view(), range_start, range_end),
{
    let mut bdays: Vec<Birthday> = Vec::new();
    let ghost cv = cards.deep_view();
    let mut i: usize = 0;
    assert(cv.take(0) =~= Seq::empty());
    assert(bdays.deep_view() =~= Seq::empty());
    while i < cards.len()
        invariant
            0 <= i <= cards@.len(),
            cv == cards.deep_view(),
            bdays.deep_view() == all_birthdays(cv.take(i as int)),
        decreases cards@.len() - i,
    {
        proof {
            assert(cv.take(i + 1).drop_last() =~= cv.take(i as int));
            assert(cv.take(i + 1).last() == cards@[i as int].deep_view());
        }
        let mut more = birthdays_from_card(&cards[i]);
        let ghost before = bdays.deep_view();
        let ghost added = more.deep_view();
        bdays.append(&mut more);
        assert(bdays.deep_view() =~= before + added);
        i = i + 1;
    }
    assert(cv.take(i as int) =~= cv);
    let mut out: Vec<BirthdayOccurrence> = Vec::new();
    let ghost bv = bdays.deep_view();
    let mut j: usize = 0;
    assert(bv.take(0) =~= Seq::empty());
    assert(out.deep_view() =~= Seq::empty());
    while j < bdays.len()
        invariant
            0 <= j <= bdays@.len(),
            range_start.valid(),
            range_end.valid(),
            bv == bdays.deep_view(),
            bv == all_birthdays(cards.deep_view()),
            birthdays_in(bv.take(j as int), range_start, range_end) == Some(out.deep_view()),
        decreases bdays@.len() - j,
    {
        proof {
            assert(bv.take(j + 1).drop_last() =~= bv.take(j as int));
            assert(bv.take(j + 1).last() == bdays@[j as int].deep_view());
        }
        if !add_occurrences(&mut out, &bdays[j], range_start, range_end) {
            proof {
                birthdays_prefix(bv, j + 1, range_start, range_end);
            }
            return None;
        }
        j = j + 1;
    }
    assert(bv.take(j as int) =~= bv);
    Some(sort_items(out))
}

/// The birthdays of the cards in `[range_start, range_end)`, recurring each year, in the
/// order of their dates.
pub fn expand_birthdays(cards: &Vec<Card>, range_start: NaiveDate, range_end: NaiveDate) -> (r: Vec<
    BirthdayOccurrence,
>)
    requires
        range_start.valid(),
        range_end.valid(),
        birthday_expansion(cards.deep_view(), range_start, range_end) is Some,
    ensures
        Some(r.deep_view()) == birthday_expansion(cards.deep_view(), range_start, range_end),
{
    match try_expand_birthdays(cards, range_start, range_end) {
        Some(v) => v,
        None => Vec::new(),
    }
}

// ---------------------------------------------------------------------------
// Laws
// ---------------------------------------------------------------------------

/// A birthday's occurrence falls into the range, on a day of the calendar.
pub open spec fn occurrence_in_range(
    o: BirthdayOccurrenceV,
    start: NaiveDate,
    end: NaiveDate,
) -> bool {
    o.date.valid() && !date_less(o.date, start) && date_less(o.date, end)
}

proof fn years_in_range(b: BirthdayV, first: int, n: nat, start: NaiveDate, end: NaiveDate)
    requires
        birthday_years(b, first, n, start, end) is Some,
    ensures
        forall|i: int|
            0 <= i < birthday_years(b, first, n, start, end)->0.len() ==> occurrence_in_range(
                #[trigger] birthday_years(b, first, n, start, end)->0[i],
                start,
                end,
            ),
    decreases n,
{
    if n > 0 {
        years_in_range(b, first, (n - 1) as nat, start, end);
    }
}

proof fn all_in_range(bs: Seq<BirthdayV>, start: NaiveDate, end: NaiveDate)
    requires
        birthdays_in(bs, start, end) is Some,
    ensures
        forall|i: int|
            0 <= i < birthdays_in(bs, start, end)->0.len() ==> occurrence_in_range(
                #[trigger] birthdays_in(bs, start, end)->0[i],
                start,
                end,
            ),
    decreases bs.len(),
{
    if bs.len() > 0 {
        let first = start.year - 1;
        let n = end.year + 2 - first;
        all_in_range(bs.drop_last(), start, end);
        years_in_range(bs.last(), first, (if n < 0 { 0 } else { n }) as nat, start, end);
    }
}

/// The birthdays in a range fall into it and come in the order of their dates.
pub proof fn birthdays_in_order(cards: Seq<CardV>, start: NaiveDate, end: NaiveDate)
    requires
        birthday_expansion(cards, start, end) is Some,
    ensures
        ({
            let out = birthday_expansion(cards, start, end)->0;
            &&& forall|i: int|
                0 <= i < out.len() ==> occurrence_in_range(#[trigger] out[i], start, end)
            &&& forall|i: int, j: int|
                0 <= i <= j < out.len() ==> !date_less(
                    (#[trigger] out[j]).date,
                    (#[trigger] out[i]).date,
                )
        }),
{
    let all = birthdays_in(all_birthdays(cards), start, end)->0;
    all_in_range(all_birthdays(cards), start, end);
    let le = |a: BirthdayOccurrenceV, b: BirthdayOccurrenceV| BirthdayOccurrence::le_view(a, b);
    let out = birthday_expansion(cards, start, end)->0;
    assert(total_preorder(le)) by {
        assert forall|a: BirthdayOccurrenceV, b: BirthdayOccurrenceV, c: BirthdayOccurrenceV|
            #[trigger] le(a, b) && #[trigger] le(b, c) implies le(a, c) by {}
    }
    stable_sorted_in_order(all, le);
    assert forall|i: int, j: int| 0 <= i <= j < out.len() implies !date_less(
        (#[trigger] out[j]).date,
        (#[trigger] out[i]).date,
    ) by {
        assert(le(out[i], out[j]));
    }
    assert forall|i: int| 0 <= i < out.len() implies occurrence_in_range(
        #[trigger] out[i],
        start,
        end,
    ) by {
        broadcast use vstd::seq_lib::group_to_multiset_ensures;

        assert(out.contains(out[i]));
        assert(out.to_multiset().count(out[i]) > 0);
        assert(all.to_multiset().count(out[i]) > 0);
        assert(all.contains(out[i]));
    }
}

} // verus!
