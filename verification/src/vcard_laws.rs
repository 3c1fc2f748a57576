//! What is written as a vCard reads back.

use vstd::prelude::*;
use vstd::string::*;
use crate::calendar::NaiveDate;
use crate::contentline::{
    continues, document, document_lines, escaped, one_line, unescape_undoes_escape, unescaped,
    unfold_undoes_fold, unfolded, ParamsV,
};
use crate::ics_laws::{
    digits_are_one_line, escaped_one_line, line_ok, line_ok_concat, lines_ok, one_line_concat,
    parts_of_plain_line,
};
use crate::jscontact::CardV;
use crate::numbers::{
    all_digits, dec, dec_reads_back, padded, parse_int, value_of_zero_fill, zero_fill,
};
use crate::text::{is_digit, is_white, only_digits, starts_with, trim};
use crate::timetext::{
    basic_date_text, basic_date_text_reads_back, two, two_text, year_text, year_text_shape,
};
use crate::vcard::{
    bday_text, bday_value, birth_parts, cards_line, cards_lines, contact_of, contacts_of,
    email_lines, full_name, prefers, vcard_lines, CardsV, ParsedContactV, RawContactV,
};

verus! {

// ---------------------------------------------------------------------------
// What a line does
// ---------------------------------------------------------------------------

proof fn fn_line(st: CardsV, v: Seq<char>)
    requires
        st.current is Some,
    ensures
        cards_line(st, "FN:"@ + v) == (CardsV {
            contacts: st.contacts,
            current: Some(RawContactV { fn_: Some(unescaped(v)), ..st.current->0 }),
        }),
{
    reveal_strlit("FN:");
    reveal_strlit("FN");
    reveal_strlit("BEGIN");
    reveal_strlit("END");
    assert("FN"@.len() != "BEGIN"@.len());
    assert("FN"@.len() != "END"@.len());
    let name = "FN"@;
    assert("FN:"@ =~= name.push(':'));
    assert("FN:"@ + v =~= name + seq![':'] + v);
    assert forall|i: int| 0 <= i < name.len() implies 'A' <= #[trigger] name[i] <= 'Z' by {}
    parts_of_plain_line(name, v);
}

proof fn n_line(st: CardsV, v: Seq<char>)
    requires
        st.current is Some,
    ensures
        cards_line(st, "N:"@ + v) == (CardsV {
            contacts: st.contacts,
            current: Some(RawContactV { n: Some(unescaped(v)), ..st.current->0 }),
        }),
{
    reveal_strlit("N:");
    reveal_strlit("N");
    reveal_strlit("BEGIN");
    reveal_strlit("END");
    reveal_strlit("FN");
    assert("N"@.len() != "BEGIN"@.len());
    assert("N"@.len() != "END"@.len());
    assert("N"@.len() != "FN"@.len());
    let name = "N"@;
    assert("N:"@ =~= name.push(':'));
    assert("N:"@ + v =~= name + seq![':'] + v);
    assert forall|i: int| 0 <= i < name.len() implies 'A' <= #[trigger] name[i] <= 'Z' by {}
    parts_of_plain_line(name, v);
}

proof fn email_line(st: CardsV, v: Seq<char>)
    requires
        st.current is Some,
    ensures
        cards_line(st, "EMAIL:"@ + v) == (CardsV {
            contacts: st.contacts,
            current: Some(if st.current->0.email is None {
                RawContactV {
                    email: Some(trim(v)),
                    email_is_preferred: false,
                    ..st.current->0
                }
            } else {
                st.current->0
            }),
        }),
{
    reveal_strlit("EMAIL:");
    reveal_strlit("EMAIL");
    reveal_strlit("BEGIN");
    reveal_strlit("END");
    reveal_strlit("FN");
    reveal_strlit("N");
    assert("EMAIL"@[0] != "BEGIN"@[0]);
    assert("EMAIL"@.len() != "END"@.len());
    assert("EMAIL"@.len() != "FN"@.len());
    assert("EMAIL"@.len() != "N"@.len());
    let name = "EMAIL"@;
    assert("EMAIL:"@ =~= name.push(':'));
    assert("EMAIL:"@ + v =~= name + seq![':'] + v);
    assert forall|i: int| 0 <= i < name.len() implies 'A' <= #[trigger] name[i] <= 'Z' by {}
    parts_of_plain_line(name, v);
    assert(!prefers(ParamsV::empty()));
}

proof fn bday_line(st: CardsV, v: Seq<char>)
    requires
        st.current is Some,
    ensures
        cards_line(st, "BDAY:"@ + v) == (CardsV {
            contacts: st.contacts,
            current: Some(RawContactV { bday: Some((v, ParamsV::empty())), ..st.current->0 }),
        }),
{
    reveal_strlit("BDAY:");
    reveal_strlit("BDAY");
    reveal_strlit("BEGIN");
    reveal_strlit("END");
    reveal_strlit("FN");
    reveal_strlit("N");
    reveal_strlit("EMAIL");
    assert("BDAY"@.len() != "BEGIN"@.len());
    assert("BDAY"@.len() != "END"@.len());
    assert("BDAY"@.len() != "FN"@.len());
    assert("BDAY"@.len() != "N"@.len());
    assert("BDAY"@.len() != "EMAIL"@.len());
    let name = "BDAY"@;
    assert("BDAY:"@ =~= name.push(':'));
    assert("BDAY:"@ + v =~= name + seq![':'] + v);
    assert forall|i: int| 0 <= i < name.len() implies 'A' <= #[trigger] name[i] <= 'Z' by {}
    parts_of_plain_line(name, v);
}

proof fn version_line(st: CardsV, v: Seq<char>)
    requires
        st.current is Some,
    ensures
        cards_line(st, "VERSION:"@ + v) == (CardsV {
            contacts: st.contacts,
            current: Some(st.current->0),
        }),
{
    reveal_strlit("VERSION:");
    reveal_strlit("VERSION");
    reveal_strlit("BEGIN");
    reveal_strlit("END");
    reveal_strlit("FN");
    reveal_strlit("N");
    reveal_strlit("EMAIL");
    reveal_strlit("BDAY");
    assert("VERSION"@.len() != "BEGIN"@.len());
    assert("VERSION"@.len() != "END"@.len());
    assert("VERSION"@.len() != "FN"@.len());
    assert("VERSION"@.len() != "N"@.len());
    assert("VERSION"@.len() != "EMAIL"@.len());
    assert("VERSION"@.len() != "BDAY"@.len());
    let name = "VERSION"@;
    assert("VERSION:"@ =~= name.push(':'));
    assert("VERSION:"@ + v =~= name + seq![':'] + v);
    assert forall|i: int| 0 <= i < name.len() implies 'A' <= #[trigger] name[i] <= 'Z' by {}
    parts_of_plain_line(name, v);
}

proof fn uid_line(st: CardsV, v: Seq<char>)
    requires
        st.current is Some,
    ensures
        cards_line(st, "UID:"@ + v) == (CardsV {
            contacts: st.contacts,
            current: Some(st.current->0),
        }),
{
    reveal_strlit("UID:");
    reveal_strlit("UID");
    reveal_strlit("BEGIN");
    reveal_strlit("END");
    reveal_strlit("FN");
    reveal_strlit("N");
    reveal_strlit("EMAIL");
    reveal_strlit("BDAY");
    assert("UID"@.len() != "BEGIN"@.len());
    assert("UID"@[0] != "END"@[0]);
    assert("UID"@.len() != "FN"@.len());
    assert("UID"@.len() != "N"@.len());
    assert("UID"@.len() != "EMAIL"@.len());
    assert("UID"@.len() != "BDAY"@.len());
    let name = "UID"@;
    assert("UID:"@ =~= name.push(':'));
    assert("UID:"@ + v =~= name + seq![':'] + v);
    assert forall|i: int| 0 <= i < name.len() implies 'A' <= #[trigger] name[i] <= 'Z' by {}
    parts_of_plain_line(name, v);
}

proof fn begin_card_line(st: CardsV)
    ensures
        cards_line(st, "BEGIN:VCARD"@) == (CardsV {
            contacts: st.contacts,
            current: Some(RawContactV::blank()),
        }),
{
    reveal_strlit("BEGIN");
    reveal_strlit("VCARD");
    reveal_strlit("BEGIN:VCARD");
    let name = "BEGIN"@;
    assert("BEGIN:VCARD"@ =~= name + seq![':'] + "VCARD"@);
    assert forall|i: int| 0 <= i < name.len() implies 'A' <= #[trigger] name[i] <= 'Z' by {}
    parts_of_plain_line(name, "VCARD"@);
}

proof fn end_card_line(st: CardsV)
    requires
        st.current is Some,
    ensures
        cards_line(st, "END:VCARD"@) == (CardsV {
            contacts: match contact_of(st.current->0) {
                Some(c) => st.contacts.push(c),
                None => st.contacts,
            },
            current: None,
        }),
{
    reveal_strlit("BEGIN");
    reveal_strlit("END");
    reveal_strlit("VCARD");
    reveal_strlit("END:VCARD");
    assert("END"@.len() != "BEGIN"@.len());
    let name = "END"@;
    assert("END:VCARD"@ =~= name + seq![':'] + "VCARD"@);
    assert forall|i: int| 0 <= i < name.len() implies 'A' <= #[trigger] name[i] <= 'Z' by {}
    parts_of_plain_line(name, "VCARD"@);
}

proof fn card_one_more(lines: Seq<Seq<char>>, l: Seq<char>)
    ensures
        cards_lines(lines.push(l)) == cards_line(cards_lines(lines), l),
{
    assert(lines.push(l).drop_last() =~= lines);
}

// ---------------------------------------------------------------------------
// Lines that stay lines
// ---------------------------------------------------------------------------

proof fn card_literals_ok()
    ensures
        line_ok("BEGIN:VCARD"@),
        line_ok("VERSION:3.0"@),
        line_ok("END:VCARD"@),
        line_ok("FN:"@),
        line_ok("N:"@),
        line_ok("EMAIL:"@),
        line_ok("BDAY:"@),
        line_ok("UID:"@),
        one_line(";;;;"@),
        one_line("-"@),
        one_line("--"@),
{
    reveal_strlit(";;;;");
    reveal_strlit("-");
    reveal_strlit("--");
    reveal_strlit("BEGIN:VCARD");
    reveal_strlit("VERSION:3.0");
    reveal_strlit("END:VCARD");
    reveal_strlit("FN:");
    reveal_strlit("N:");
    reveal_strlit("EMAIL:");
    reveal_strlit("BDAY:");
    reveal_strlit("UID:");
}

proof fn padded_is_one_line(i: int, w: int)
    ensures
        one_line(padded(i, w)),
{
    let m = if i < 0 {
        (-i) as nat
    } else {
        i as nat
    };
    dec_reads_back(m);
    if i < 0 {
        value_of_zero_fill(dec(m), w - 1);
        digits_are_one_line(zero_fill(dec(m), w - 1));
        one_line_concat(seq!['-'], zero_fill(dec(m), w - 1));
    } else {
        value_of_zero_fill(dec(m), w);
        digits_are_one_line(zero_fill(dec(m), w));
    }
}

proof fn bday_is_one_line(p: (u32, u32, Option<i32>))
    ensures
        one_line(bday_text(p)),
{
    card_literals_ok();
    padded_is_one_line(p.0 as int, 2);
    padded_is_one_line(p.1 as int, 2);
    let m = padded(p.0 as int, 2);
    let d = padded(p.1 as int, 2);
    match p.2 {
        Some(y) => {
            padded_is_one_line(y as int, 4);
            let t = padded(y as int, 4);
            one_line_concat(t, "-"@);
            one_line_concat(t + "-"@, m);
            one_line_concat(t + "-"@ + m, "-"@);
            one_line_concat(t + "-"@ + m + "-"@, d);
        },
        None => {
            one_line_concat("--"@, m);
            one_line_concat("--"@ + m, d);
        },
    }
}

proof fn vcard_lines_ok(card: CardV)
    ensures
        lines_ok(vcard_lines(card)),
{
    card_literals_ok();
    let name = escaped(full_name(card));
    escaped_one_line(full_name(card));
    line_ok_concat("FN:"@, name);
    line_ok_concat("N:"@, name);
    line_ok_concat("N:"@ + name, ";;;;"@);
    escaped_one_line(card.uid);
    line_ok_concat("UID:"@, escaped(card.uid));
    if birth_parts(card) is Some {
        bday_is_one_line(birth_parts(card)->0);
        line_ok_concat("BDAY:"@, bday_text(birth_parts(card)->0));
    }
    let es = email_lines(card);
    assert forall|i: int| 0 <= i < es.len() implies line_ok(#[trigger] es[i]) by {
        let a = card.emails->0[i].1.address;
        escaped_one_line(a);
        line_ok_concat("EMAIL:"@, escaped(a));
    }
    let head = seq!["BEGIN:VCARD"@, "VERSION:3.0"@, "FN:"@ + name, "N:"@ + name + ";;;;"@];
    assert(lines_ok(head));
    let all = head + es;
    assert forall|i: int| 0 <= i < all.len() implies line_ok(#[trigger] all[i]) by {
        if i < head.len() {
            assert(all[i] == head[i]);
        } else {
            assert(all[i] == es[i - head.len()]);
        }
    }
}

/// Unfolding the vCard for a card gives its lines.
pub proof fn vcard_unfolds(card: CardV)
    ensures
        unfolded(document(vcard_lines(card))) == vcard_lines(card),
{
    vcard_lines_ok(card);
    let lines = vcard_lines(card);
    assert(document_lines(lines)) by {
        assert forall|i: int| 0 <= i < lines.len() implies (#[trigger] lines[i]).len() > 0
            && one_line(lines[i]) by {
            assert(line_ok(lines[i]));
        }
        assert forall|i: int| 1 <= i < lines.len() implies !continues(#[trigger] lines[i]) by {
            assert(line_ok(lines[i]));
        }
    }
    unfold_undoes_fold(lines);
}

// ---------------------------------------------------------------------------
// Reading what was written
// ---------------------------------------------------------------------------

/// The properties that are read from the vCard for a card.
pub open spec fn card_read(card: CardV) -> RawContactV {
    RawContactV {
        fn_: Some(full_name(card).filter(|c: char| c != '\r')),
        n: Some(unescaped(escaped(full_name(card)) + ";;;;"@)),
        email: match card.emails {
            Some(m) => if m.len() > 0 {
                Some(trim(escaped(m[0].1.address)))
            } else {
                None
            },
            None => None,
        },
        email_is_preferred: false,
        bday: match birth_parts(card) {
            Some(p) => Some((bday_text(p), ParamsV::empty())),
            None => None,
        },
    }
}

proof fn email_lines_read(lines: Seq<Seq<char>>, es: Seq<Seq<char>>, addresses: Seq<Seq<char>>)
    requires
        cards_lines(lines).current is Some,
        cards_lines(lines).current->0.email is None,
        !cards_lines(lines).current->0.email_is_preferred,
        es.len() == addresses.len(),
        forall|i: int| 0 <= i < es.len() ==> #[trigger] es[i] == "EMAIL:"@ + addresses[i],
    ensures
        cards_lines(lines + es) == (CardsV {
            contacts: cards_lines(lines).contacts,
            current: Some(
                RawContactV {
                    email: if es.len() > 0 {
                        Some(trim(addresses[0]))
                    } else {
                        None
                    },
                    ..cards_lines(lines).current->0
                },
            ),
        }),
    decreases es.len(),
{
    if es.len() == 0 {
        assert(lines + es =~= lines);
    } else {
        let t = es.drop_last();
        let l = es.last();
        assert(es[es.len() - 1] == l);
        email_lines_read(lines, t, addresses.drop_last());
        let st = cards_lines(lines + t);
        email_line(st, addresses.last());
        card_one_more(lines + t, l);
        assert((lines + t).push(l) =~= lines + es);
    }
}

proof fn head_read(card: CardV)
    ensures
        cards_lines(
            seq![
                "BEGIN:VCARD"@,
                "VERSION:3.0"@,
                "FN:"@ + escaped(full_name(card)),
                "N:"@ + escaped(full_name(card)) + ";;;;"@,
            ],
        ) == (CardsV {
            contacts: Seq::empty(),
            current: Some(
                RawContactV {
                    fn_: Some(full_name(card).filter(|c: char| c != '\r')),
                    n: Some(unescaped(escaped(full_name(card)) + ";;;;"@)),
                    ..RawContactV::blank()
                },
            ),
        }),
{
    let name = escaped(full_name(card));
    let none = Seq::<Seq<char>>::empty();
    let st0 = CardsV { contacts: Seq::empty(), current: None };
    assert(cards_lines(none) == st0);
    begin_card_line(st0);
    card_one_more(none, "BEGIN:VCARD"@);
    let l1 = none.push("BEGIN:VCARD"@);
    let st1 = cards_lines(l1);
    reveal_strlit("VERSION:");
    reveal_strlit("3.0");
    reveal_strlit("VERSION:3.0");
    assert("VERSION:3.0"@ =~= "VERSION:"@ + "3.0"@);
    version_line(st1, "3.0"@);
    card_one_more(l1, "VERSION:3.0"@);
    let l2 = l1.push("VERSION:3.0"@);
    fn_line(cards_lines(l2), name);
    card_one_more(l2, "FN:"@ + name);
    let l3 = l2.push("FN:"@ + name);
    n_line(cards_lines(l3), name + ";;;;"@);
    assert("N:"@ + (name + ";;;;"@) =~= "N:"@ + name + ";;;;"@);
    card_one_more(l3, "N:"@ + name + ";;;;"@);
    let l4 = l3.push("N:"@ + name + ";;;;"@);
    unescape_undoes_escape(full_name(card));
    assert(l4 =~= seq!["BEGIN:VCARD"@, "VERSION:3.0"@, "FN:"@ + name, "N:"@ + name + ";;;;"@]);
}

/// Reading what was written for a card gives back one contact: its name, its first email
/// address and its birthday; and none where the card has no name.
pub proof fn vcard_round_trip(card: CardV)
    ensures
        contacts_of(document(vcard_lines(card))) == (match contact_of(card_read(card)) {
            Some(c) => seq![c],
            None => Seq::empty(),
        }),
{
    vcard_unfolds(card);
    head_read(card);
    let name = escaped(full_name(card));
    let head = seq!["BEGIN:VCARD"@, "VERSION:3.0"@, "FN:"@ + name, "N:"@ + name + ";;;;"@];
    let es = email_lines(card);
    let addresses = match card.emails {
        Some(m) => Seq::new(m.len(), |i: int| escaped(m[i].1.address)),
        None => Seq::empty(),
    };
    email_lines_read(head, es, addresses);
    let l1 = head + es;
    let l2 = match birth_parts(card) {
        Some(p) => l1.push("BDAY:"@ + bday_text(p)),
        None => l1,
    };
    if birth_parts(card) is Some {
        bday_line(cards_lines(l1), bday_text(birth_parts(card)->0));
        card_one_more(l1, "BDAY:"@ + bday_text(birth_parts(card)->0));
    }
    let st2 = cards_lines(l2);
    uid_line(st2, escaped(card.uid));
    card_one_more(l2, "UID:"@ + escaped(card.uid));
    let l3 = l2.push("UID:"@ + escaped(card.uid));
    let st3 = cards_lines(l3);
    assert(st3.current == Some(card_read(card)));
    end_card_line(st3);
    card_one_more(l3, "END:VCARD"@);
    assert(vcard_lines(card) == l3.push("END:VCARD"@));
    if contact_of(card_read(card)) is Some {
        let c = contact_of(card_read(card))->0;
        assert(Seq::<ParsedContactV>::empty().push(c) =~= seq![c]);
    }
}

proof fn digits_filter(s: Seq<char>)
    requires
        all_digits(s),
    ensures
        only_digits(s) == s,
    decreases s.len(),
{
    reveal(Seq::filter);
    if s.len() > 0 {
        let t = s.drop_last();
        assert forall|i: int| 0 <= i < t.len() implies is_digit(#[trigger] t[i]) by {
            assert(t[i] == s[i]);
        }
        digits_filter(t);
        assert(is_digit(s[s.len() - 1]));
        assert(s =~= t.push(s.last()));
    } else {
        assert(only_digits(s) =~= s);
    }
}

proof fn dash_filter()
    ensures
        only_digits("-"@) == Seq::<char>::empty(),
{
    reveal_strlit("-");
    reveal(Seq::filter);
    reveal_with_fuel(Seq::filter, 2);
    let s = "-"@;
    assert(s.drop_last() =~= Seq::empty());
    assert(only_digits(s) =~= Seq::empty());
}

proof fn filter_concat(a: Seq<char>, b: Seq<char>)
    ensures
        only_digits(a + b) == only_digits(a) + only_digits(b),
{
    Seq::<char>::filter_distributes_over_add(a, b, |c: char| is_digit(c));
}

proof fn trim_nothing(s: Seq<char>)
    requires
        s.len() > 0,
        !is_white(s[0]),
        !is_white(s.last()),
    ensures
        trim(s) == s,
{
}

proof fn two_is_padded(n: int)
    requires
        0 <= n < 100,
    ensures
        padded(n, 2) == two(n),
        padded(n, 2).len() == 2,
        all_digits(padded(n, 2)),
{
    two_text(n);
}

/// A written birthday with a four-digit year reads back as that date.
pub proof fn bday_with_year_reads_back(d: NaiveDate)
    requires
        d.valid(),
        0 <= d.year <= 9999,
    ensures
        bday_value(bday_text((d.month, d.day, Some(d.year))), ParamsV::empty()) == Some((d, true)),
{
    let y = padded(d.year as int, 4);
    let m = padded(d.month as int, 2);
    let dd = padded(d.day as int, 2);
    two_is_padded(d.month as int);
    two_is_padded(d.day as int);
    year_text_shape(d.year as int);
    assert(y == year_text(d.year as int));
    reveal_strlit("-");
    reveal_strlit("--");
    let s = bday_text((d.month, d.day, Some(d.year)));
    assert(is_digit(y[0]));
    assert(s[0] == y[0]);
    assert(s.last() == dd[1]);
    assert(is_digit(dd[1]));
    trim_nothing(s);
    assert(!starts_with(s, "--"@)) by {
        if starts_with(s, "--"@) {
            assert(s.take(2)[0] == "--"@[0]);
        }
    }
    digits_filter(y);
    digits_filter(m);
    digits_filter(dd);
    dash_filter();
    filter_concat(y, "-"@);
    filter_concat(y + "-"@, m);
    filter_concat(y + "-"@ + m, "-"@);
    filter_concat(y + "-"@ + m + "-"@, dd);
    assert(only_digits(s) =~= y + m + dd);
    assert(only_digits(s) =~= basic_date_text(d));
    basic_date_text_reads_back(d);
}

proof fn two_parses(n: int)
    requires
        0 <= n < 100,
    ensures
        parse_int(padded(n, 2), 0, u32::MAX as int) == Some(n),
{
    two_text(n);
    let s = two(n);
    assert(padded(n, 2) == s);
    assert(is_digit(s[0]));
}

proof fn yearless_text(month: int, day: int)
    requires
        0 <= month < 100,
        0 <= day < 100,
    ensures
        ({
            let s = "--"@ + padded(month, 2) + padded(day, 2);
            &&& trim(s) == s
            &&& starts_with(s, "--"@)
            &&& only_digits(s.skip(2)) == padded(month, 2) + padded(day, 2)
            &&& padded(month, 2).len() == 2
            &&& padded(day, 2).len() == 2
        }),
{
    let m = padded(month, 2);
    let d = padded(day, 2);
    two_is_padded(month);
    two_is_padded(day);
    reveal_strlit("--");
    let s = "--"@ + m + d;
    assert(s[0] == '-');
    assert(s.last() == d[1]);
    assert(is_digit(d[1]));
    trim_nothing(s);
    assert(s.take(2) =~= "--"@);
    assert(s.skip(2) =~= m + d);
    digits_filter(m);
    digits_filter(d);
    filter_concat(m, d);
}

/// A written birthday without a year reads back as that month and day.
pub proof fn bday_without_year_reads_back(month: u32, day: u32)
    requires
        (NaiveDate { year: 2000, month, day }).valid(),
    ensures
        bday_value(bday_text((month, day, None)), ParamsV::empty()) == Some(
            (NaiveDate { year: 2000, month, day }, false),
        ),
{
    let m = padded(month as int, 2);
    let d = padded(day as int, 2);
    yearless_text(month as int, day as int);
    two_parses(month as int);
    two_parses(day as int);
    let digits = m + d;
    assert(digits.subrange(0, 2) =~= m);
    assert(digits.subrange(2, 4) =~= d);
}

} // verus!
