//! Which birthdays fall into a range: those that the cards tell of, every year, and no other.

use vstd::prelude::*;
use vstd::string::*;
use crate::calendar::{date_less, NaiveDate};
use crate::collections::{stable_sorted_in_order, total_preorder, Ordered};
use crate::jscontact::{
    all_birthdays, birthday_expansion, birthday_years, birthdays_in, births, card_birthdays,
    AnniversaryV, BirthdayOccurrence, BirthdayOccurrenceV, BirthdayV, CardV,
};

verus! {

/// An occurrence is that of an anniversary of a card: the card's birthday, on its day and month,
/// with the age that the contact gets, where the year of birth is told.
pub open spec fn is_birthday_of(o: BirthdayOccurrenceV, card: CardV, a: AnniversaryV) -> bool {
    &&& a.kind == Some("birth"@)
    &&& a.date.parts() matches Some(p) && o.date.month == p.0 && o.date.day == p.1 && (match p.2 {
        Some(year) => o.turns matches Some(age) && age == o.date.year - year,
        None => o.turns is None,
    })
    &&& o.uid == card.uid
    &&& o.name == card.display_name()
}

proof fn births_come_from_entries(
    card: CardV,
    entries: Seq<(Seq<char>, AnniversaryV)>,
    i: int,
) -> (j: int)
    requires
        0 <= i < births(card, entries).len(),
    ensures
        0 <= j < entries.len(),
        entries[j].1.kind == Some("birth"@),
        ({
            let b = births(card, entries)[i];
            &&& b.uid == card.uid
            &&& b.name == card.display_name()
            &&& entries[j].1.date.parts() == Some((b.month, b.day, b.birth_year))
        }),
    decreases entries.len(),
{
    let t = entries.drop_last();
    if i < births(card, t).len() {
        let j = births_come_from_entries(card, t, i);
        assert(t[j] == entries[j]);
        j
    } else {
        entries.len() - 1
    }
}

proof fn entry_gives_birth(card: CardV, entries: Seq<(Seq<char>, AnniversaryV)>, j: int) -> (i: int)
    requires
        0 <= j < entries.len(),
        entries[j].1.kind == Some("birth"@),
        entries[j].1.date.parts() is Some,
    ensures
        0 <= i < births(card, entries).len(),
        ({
            let b = births(card, entries)[i];
            &&& b.uid == card.uid
            &&& b.name == card.display_name()
            &&& entries[j].1.date.parts() == Some((b.month, b.day, b.birth_year))
        }),
    decreases entries.len(),
{
    let t = entries.drop_last();
    if j < t.len() {
        assert(t[j] == entries[j]);
        entry_gives_birth(card, t, j)
    } else {
        births(card, entries).len() - 1
    }
}

proof fn birthday_has_card(cards: Seq<CardV>, i: int) -> (r: (int, int))
    requires
        0 <= i < all_birthdays(cards).len(),
    ensures
        0 <= r.0 < cards.len(),
        card_birthdays(cards[r.0]).len() > r.1 >= 0,
        all_birthdays(cards)[i] == card_birthdays(cards[r.0])[r.1],
    decreases cards.len(),
{
    let t = cards.drop_last();
    let n = all_birthdays(t).len();
    if i < n {
        let r = birthday_has_card(t, i);
        assert(t[r.0] == cards[r.0]);
        r
    } else {
        (cards.len() - 1, i - n)
    }
}

proof fn card_has_birthday(cards: Seq<CardV>, c: int, k: int) -> (i: int)
    requires
        0 <= c < cards.len(),
        0 <= k < card_birthdays(cards[c]).len(),
    ensures
        0 <= i < all_birthdays(cards).len(),
        all_birthdays(cards)[i] == card_birthdays(cards[c])[k],
    decreases cards.len(),
{
    let t = cards.drop_last();
    if c < t.len() {
        assert(t[c] == cards[c]);
        card_has_birthday(t, c, k)
    } else {
        all_birthdays(t).len() + k
    }
}

/// An occurrence of a birthday.
spec fn recurs(o: BirthdayOccurrenceV, b: BirthdayV) -> bool {
    &&& o.date.month == b.month
    &&& o.date.day == b.day
    &&& o.uid == b.uid
    &&& o.name == b.name
    &&& match b.birth_year {
        Some(year) => o.turns matches Some(age) && age == o.date.year - year,
        None => o.turns is None,
    }
}

proof fn years_recur(b: BirthdayV, first: int, n: nat, start: NaiveDate, end: NaiveDate, i: int)
    requires
        i32::MIN <= first,
        first + n <= i32::MAX,
        birthday_years(b, first, n, start, end) is Some,
        0 <= i < birthday_years(b, first, n, start, end)->0.len(),
    ensures
        recurs(birthday_years(b, first, n, start, end)->0[i], b),
    decreases n,
{
    if n > 0 {
        let before = birthday_years(b, first, (n - 1) as nat, start, end)->0;
        if i < before.len() {
            years_recur(b, first, (n - 1) as nat, start, end, i);
        }
    }
}

proof fn year_is_given(
    b: BirthdayV,
    first: int,
    n: nat,
    start: NaiveDate,
    end: NaiveDate,
    d: NaiveDate,
) -> (i: int)
    requires
        i32::MIN <= first,
        first + n <= i32::MAX,
        birthday_years(b, first, n, start, end) is Some,
        d.valid(),
        d.month == b.month,
        d.day == b.day,
        first <= d.year < first + n,
        !date_less(d, start),
        date_less(d, end),
    ensures
        0 <= i < birthday_years(b, first, n, start, end)->0.len(),
        birthday_years(b, first, n, start, end)->0[i].date == d,
        recurs(birthday_years(b, first, n, start, end)->0[i], b),
    decreases n,
{
    if d.year == first + n - 1 {
        let i = birthday_years(b, first, n, start, end)->0.len() - 1;
        i
    } else {
        year_is_given(b, first, (n - 1) as nat, start, end, d)
    }
}

proof fn occurrence_recurs(bs: Seq<BirthdayV>, start: NaiveDate, end: NaiveDate, i: int) -> (k: int)
    requires
        start.valid(),
        end.valid(),
        birthdays_in(bs, start, end) is Some,
        0 <= i < birthdays_in(bs, start, end)->0.len(),
    ensures
        0 <= k < bs.len(),
        recurs(birthdays_in(bs, start, end)->0[i], bs[k]),
    decreases bs.len(),
{
    let t = bs.drop_last();
    let before = birthdays_in(t, start, end)->0;
    let first = start.year - 1;
    let n = end.year + 2 - first;
    if i < before.len() {
        let k = occurrence_recurs(t, start, end, i);
        assert(t[k] == bs[k]);
        k
    } else {
        years_recur(
            bs.last(),
            first,
            (if n < 0 { 0 } else { n }) as nat,
            start,
            end,
            i - before.len(),
        );
        bs.len() - 1
    }
}

proof fn date_recurs(
    bs: Seq<BirthdayV>,
    start: NaiveDate,
    end: NaiveDate,
    k: int,
    d: NaiveDate,
) -> (i: int)
    requires
        start.valid(),
        end.valid(),
        birthdays_in(bs, start, end) is Some,
        0 <= k < bs.len(),
        d.valid(),
        d.month == bs[k].month,
        d.day == bs[k].day,
        !date_less(d, start),
        date_less(d, end),
    ensures
        0 <= i < birthdays_in(bs, start, end)->0.len(),
        birthdays_in(bs, start, end)->0[i].date == d,
        recurs(birthdays_in(bs, start, end)->0[i], bs[k]),
    decreases bs.len(),
{
    let t = bs.drop_last();
    let before = birthdays_in(t, start, end)->0;
    let first = start.year - 1;
    let n = end.year + 2 - first;
    if k < t.len() {
        assert(t[k] == bs[k]);
        date_recurs(t, start, end, k, d)
    } else {
        let i = year_is_given(
            bs.last(),
            first,
            (if n < 0 { 0 } else { n }) as nat,
            start,
            end,
            d,
        );
        before.len() + i
    }
}

proof fn sorting_keeps_birthdays(
    s: Seq<BirthdayOccurrenceV>,
    cards: Seq<CardV>,
    start: NaiveDate,
    end: NaiveDate,
)
    requires
        birthdays_in(all_birthdays(cards), start, end) == Some(s),
    ensures
        birthday_expansion(cards, start, end) is Some,
        birthday_expansion(cards, start, end)->0.len() == s.len(),
        forall|o: BirthdayOccurrenceV|
            #[trigger] birthday_expansion(cards, start, end)->0.contains(o) == s.contains(o),
{
    let le = |a: BirthdayOccurrenceV, b: BirthdayOccurrenceV| BirthdayOccurrence::le_view(a, b);
    let out = birthday_expansion(cards, start, end)->0;
    assert(total_preorder(le)) by {
        assert forall|a: BirthdayOccurrenceV, b: BirthdayOccurrenceV, c: BirthdayOccurrenceV|
            #[trigger] le(a, b) && #[trigger] le(b, c) implies le(a, c) by {}
    }
    stable_sorted_in_order(s, le);
    s.to_multiset_ensures();
    out.to_multiset_ensures();
    assert forall|o: BirthdayOccurrenceV| #[trigger] out.contains(o) == s.contains(o) by {
        assert(out.contains(o) <==> out.to_multiset().count(o) > 0);
        assert(s.contains(o) <==> s.to_multiset().count(o) > 0);
    }
}

/// Each birthday in a range is the birthday of a contact.
#[verifier::spinoff_prover]
#[verifier::rlimit(60)]
pub proof fn shown_birthday_has_card(
    cards: Seq<CardV>,
    start: NaiveDate,
    end: NaiveDate,
    i: int,
) -> (r: (int, int))
    requires
        start.valid(),
        end.valid(),
        birthday_expansion(cards, start, end) is Some,
        0 <= i < birthday_expansion(cards, start, end)->0.len(),
    ensures
        0 <= r.0 < cards.len(),
        cards[r.0].anniversaries matches Some(m) && 0 <= r.1 < m.len() && is_birthday_of(
            birthday_expansion(cards, start, end)->0[i],
            cards[r.0],
            m[r.1].1,
        ),
{
    let bs = all_birthdays(cards);
    let s = birthdays_in(bs, start, end)->0;
    let out = birthday_expansion(cards, start, end)->0;
    sorting_keeps_birthdays(s, cards, start, end);
    assert(out.contains(out[i]));
    assert(s.contains(out[i]));
    let x = choose|x: int| 0 <= x < s.len() && s[x] == out[i];
    let k = occurrence_recurs(bs, start, end, x);
    let c = birthday_has_card(cards, k);
    let card = cards[c.0];
    let j = births_come_from_entries(card, card.anniversaries->0, c.1);
    (c.0, j)
}

/// Each birthday of a contact is shown on each date in the range that has its day and month.
#[verifier::spinoff_prover]
#[verifier::rlimit(60)]
pub proof fn birthday_is_shown(
    cards: Seq<CardV>,
    start: NaiveDate,
    end: NaiveDate,
    c: int,
    j: int,
    d: NaiveDate,
)
    requires
        start.valid(),
        end.valid(),
        birthday_expansion(cards, start, end) is Some,
        0 <= c < cards.len(),
        cards[c].anniversaries matches Some(m) && 0 <= j < m.len() && m[j].1.kind == Some(
            "birth"@,
        ) && (m[j].1.date.parts() matches Some(p) && p.0 == d.month && p.1 == d.day),
        d.valid(),
        !date_less(d, start),
        date_less(d, end),
    ensures
        exists|i: int|
            0 <= i < birthday_expansion(cards, start, end)->0.len() && (
            #[trigger] birthday_expansion(cards, start, end)->0[i]).date == d && is_birthday_of(
                birthday_expansion(cards, start, end)->0[i],
                cards[c],
                cards[c].anniversaries->0[j].1,
            ),
{
    let bs = all_birthdays(cards);
    let s = birthdays_in(bs, start, end)->0;
    let out = birthday_expansion(cards, start, end)->0;
    let k = entry_gives_birth(cards[c], cards[c].anniversaries->0, j);
    let b = card_has_birthday(cards, c, k);
    let x = date_recurs(bs, start, end, b, d);
    sorting_keeps_birthdays(s, cards, start, end);
    assert(s.contains(s[x]));
    assert(out.contains(s[x]));
    let i = choose|i: int| 0 <= i < out.len() && out[i] == s[x];
    assert(out[i].date == d);
}

} // verus!
