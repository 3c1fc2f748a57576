//! What the fields of forms offer to choose from.

use vstd::prelude::*;
use vstd::string::*;
use crate::jscalendar::{Calendar, CalendarV};
use crate::jscontact::{AddressBook, AddressBookV};
use crate::regions::{
    german_region_label, german_region_name, region_at, region_label, region_with_number,
    region_word,
};
use crate::text::{join, join_str, split, split_str, str_eq};
use crate::users::is_blank;

verus! {

/// Something to choose.
#[derive(Debug)]
pub struct SelectOption {
    pub value: String,
    pub label: String,
    pub selected: bool,
}

/// What a [`SelectOption`] stands for.
#[verifier::ext_equal]
pub struct SelectOptionV {
    pub value: Seq<char>,
    pub label: Seq<char>,
    pub selected: bool,
}

impl DeepView for SelectOption {
    type V = SelectOptionV;

    open spec fn deep_view(&self) -> SelectOptionV {
        SelectOptionV {
            value: self.value.deep_view(),
            label: self.label.deep_view(),
            selected: self.selected.deep_view(),
        }
    }
}

/// A calendar to choose.
#[derive(Debug)]
pub struct CalendarOption {
    pub id: String,
    pub name: String,
    pub selected: bool,
}

/// What a [`CalendarOption`] stands for.
#[verifier::ext_equal]
pub struct CalendarOptionV {
    pub id: Seq<char>,
    pub name: Seq<char>,
    pub selected: bool,
}

impl DeepView for CalendarOption {
    type V = CalendarOptionV;

    open spec fn deep_view(&self) -> CalendarOptionV {
        CalendarOptionV {
            id: self.id.deep_view(),
            name: self.name.deep_view(),
            selected: self.selected.deep_view(),
        }
    }
}

/// The zones that are always offered.
pub open spec fn common_zones() -> Seq<Seq<char>> {
    seq![
        "UTC"@,
        "Europe/London"@,
        "Europe/Berlin"@,
        "Europe/Paris"@,
        "Europe/Moscow"@,
        "America/New_York"@,
        "America/Chicago"@,
        "America/Denver"@,
        "America/Los_Angeles"@,
        "America/Sao_Paulo"@,
        "Asia/Tokyo"@,
        "Asia/Shanghai"@,
        "Asia/Kolkata"@,
        "Asia/Dubai"@,
        "Australia/Sydney"@,
    ]
}

fn list_common_zones() -> (r: Vec<String>)
    ensures
        r.deep_view() == common_zones(),
{
    let r = vec![
        "UTC".to_string(),
        "Europe/London".to_string(),
        "Europe/Berlin".to_string(),
        "Europe/Paris".to_string(),
        "Europe/Moscow".to_string(),
        "America/New_York".to_string(),
        "America/Chicago".to_string(),
        "America/Denver".to_string(),
        "America/Los_Angeles".to_string(),
        "America/Sao_Paulo".to_string(),
        "Asia/Tokyo".to_string(),
        "Asia/Shanghai".to_string(),
        "Asia/Kolkata".to_string(),
        "Asia/Dubai".to_string(),
        "Australia/Sydney".to_string(),
    ];
    assert(r.deep_view() =~= common_zones());
    r
}

/// A text with blanks for underscores.
pub open spec fn spaced(s: Seq<char>) -> Seq<char> {
    join(split(s, '_'), " "@)
}

fn spaced_text(s: &str) -> (r: String)
    ensures
        r@ == spaced(s@),
{
    join_str(&split_str(s, '_'), " ")
}

/// A zone to choose.
pub open spec fn zone_option(z: Seq<char>, selected: Seq<char>) -> SelectOptionV {
    SelectOptionV { value: z, label: spaced(z), selected: z == selected }
}

/// The zones to choose from: none, under a label of its own; those that are always offered; and
/// the one that is chosen, where it is not among them.
pub open spec fn zone_options(selected: Seq<char>, none_label: Seq<char>) -> Seq<SelectOptionV> {
    seq![
        SelectOptionV {
            value: Seq::empty(),
            label: none_label,
            selected: selected.len() == 0,
        },
    ] + Seq::new(common_zones().len(), |i: int| zone_option(common_zones()[i], selected)) + (if
        selected.len() > 0 && !common_zones().contains(selected) {
        seq![zone_option(selected, selected)]
    } else {
        Seq::empty()
    })
}

fn option(value: &str, label: &str, selected: bool) -> (r: SelectOption)
    ensures
        r.deep_view() == (SelectOptionV { value: value@, label: label@, selected }),
{
    SelectOption { value: value.to_string(), label: label.to_string(), selected }
}

fn list_zone_options(selected: &str, none_label: &str) -> (r: Vec<SelectOption>)
    ensures
        r.deep_view() == zone_options(selected@, none_label@),
{
    let ghost zs = common_zones();
    let ghost first = SelectOptionV {
        value: Seq::empty(),
        label: none_label@,
        selected: selected@.len() == 0,
    };
    let ghost rows = Seq::new(zs.len(), |i: int| zone_option(zs[i], selected@));
    let zones = list_common_zones();
    let mut out = vec![option("", none_label, is_blank(selected))];
    proof {
        reveal_strlit("");
        assert(""@ =~= Seq::empty());
        assert(out.deep_view() =~= seq![first]);
    }
    let mut seen = is_blank(selected);
    let mut i: usize = 0;
    assert(out.deep_view() =~= seq![first] + rows.take(0));
    while i < zones.len()
        invariant
            0 <= i <= zones@.len(),
            zs == zones.deep_view(),
            rows == Seq::new(zs.len(), |i: int| zone_option(zs[i], selected@)),
            out.deep_view() == seq![first] + rows.take(i as int),
            seen == (selected@.len() == 0 || zs.take(i as int).contains(selected@)),
        decreases zones@.len() - i,
    {
        let z = zones[i].as_str();
        let ghost before = out.deep_view();
        proof {
            assert(zs[i as int] == z@);
            let a = zs.take(i as int);
            let b = zs.take(i + 1);
            assert(b =~= a.push(z@));
            if a.contains(selected@) {
                let k = choose|k: int| 0 <= k < a.len() && a[k] == selected@;
                assert(b[k] == selected@);
            }
            if z@ == selected@ {
                assert(b[i as int] == selected@);
            } else if b.contains(selected@) {
                let k = choose|k: int| 0 <= k < b.len() && b[k] == selected@;
                assert(a[k] == selected@);
            }
        }
        let is_selected = str_eq(z, selected);
        if is_selected {
            seen = true;
        }
        let o = option(z, spaced_text(z).as_str(), is_selected);
        out.push(o);
        proof {
            assert(rows[i as int] == zone_option(zs[i as int], selected@));
            assert(out.deep_view() =~= before.push(o.deep_view()));
            assert(out.deep_view() =~= seq![first] + rows.take(i + 1));
        }
        i = i + 1;
    }
    assert(zs.take(i as int) =~= zs);
    assert(rows.take(i as int) =~= rows);
    let ghost before = out.deep_view();
    if !seen && !is_blank(selected) {
        let o = option(selected, spaced_text(selected).as_str(), true);
        out.push(o);
        assert(out.deep_view() =~= before.push(o.deep_view()));
    }
    assert(out.deep_view() =~= zone_options(selected@, none_label@));
    out
}

/// The zones that an event can be in.
pub fn tz_options(selected: &str) -> (r: Vec<SelectOption>)
    ensures
        r.deep_view() == zone_options(selected@, "Floating (no time zone)"@),
{
    list_zone_options(selected, "Floating (no time zone)")
}

/// The zones that a user can look from.
pub fn display_tz_options(selected: &str) -> (r: Vec<SelectOption>)
    ensures
        r.deep_view() == zone_options(selected@, "Use server default"@),
{
    list_zone_options(selected, "Use server default")
}

/// What is chosen is always on offer, and nothing else is marked as chosen.
pub proof fn chosen_zone_is_offered(selected: Seq<char>, none_label: Seq<char>)
    ensures
        exists|i: int|
            0 <= i < zone_options(selected, none_label).len() && (#[trigger] zone_options(
                selected,
                none_label,
            )[i]).value == selected && zone_options(selected, none_label)[i].selected,
        forall|i: int|
            0 <= i < zone_options(selected, none_label).len() ==> (#[trigger] zone_options(
                selected,
                none_label,
            )[i]).selected == (zone_options(selected, none_label)[i].value == selected),
{
    let o = zone_options(selected, none_label);
    let zs = common_zones();
    assert(o[0].value.len() == 0);
    assert forall|i: int| 0 <= i < o.len() implies (#[trigger] o[i]).selected == (o[i].value
        == selected) by {
        if i == 0 {
            if selected.len() == 0 {
                assert(selected =~= Seq::<char>::empty());
            }
        } else if i <= zs.len() {
            assert(o[i] == zone_option(zs[i - 1], selected));
        }
    }
    if selected.len() == 0 {
        assert(selected =~= Seq::<char>::empty());
        assert(o[0].value == selected);
    } else if zs.contains(selected) {
        let k = choose|k: int| 0 <= k < zs.len() && zs[k] == selected;
        assert(o[k + 1] == zone_option(zs[k], selected));
    } else {
        assert(o[zs.len() as int + 1] == zone_option(selected, selected));
    }
}

/// Which of some calendars is chosen: the one that is asked for, or else the first.
pub open spec fn chosen_calendar(calendars: Seq<CalendarV>, selected: Option<Seq<char>>) -> Option<
    Seq<char>,
> {
    match selected {
        Some(s) => Some(s),
        None => if calendars.len() > 0 {
            calendars[0].id
        } else {
            None
        },
    }
}

/// The calendars to choose from: those that have an id.
pub open spec fn options_with(calendars: Seq<CalendarV>, chosen: Option<Seq<char>>) -> Seq<
    CalendarOptionV,
>
    decreases calendars.len(),
{
    if calendars.len() == 0 {
        Seq::empty()
    } else {
        let c = calendars.last();
        let before = options_with(calendars.drop_last(), chosen);
        match c.id {
            Some(id) => before.push(
                CalendarOptionV { id, name: c.name, selected: Some(id) == chosen },
            ),
            None => before,
        }
    }
}

fn is_chosen(id: &str, chosen: Option<&str>) -> (r: bool)
    ensures
        r == (match chosen {
            Some(c) => Some(id@) == Some(c@),
            None => false,
        }),
{
    match chosen {
        Some(c) => str_eq(id, c),
        None => false,
    }
}

/// The calendars to choose from.
pub fn calendar_options(
    calendars: &Vec<Calendar>,
    selected: Option<&str>,
) -> (r: Vec<CalendarOption>)
    ensures
        r.deep_view() == options_with(
            calendars.deep_view(),
            chosen_calendar(
                calendars.deep_view(),
                match selected {
                    Some(s) => Some(s@),
                    None => None,
                },
            ),
        ),
{
    let ghost all = calendars.deep_view();
    let chosen: Option<&str> = match selected {
        Some(s) => Some(s),
        None => {
            if calendars.len() > 0 {
                assert(all[0] == calendars@[0].deep_view());
                match &calendars[0].id {
                    Some(id) => Some(id.as_str()),
                    None => None,
                }
            } else {
                None
            }
        },
    };
    let ghost c = match chosen {
        Some(s) => Some(s@),
        None => None,
    };
    let mut out: Vec<CalendarOption> = Vec::new();
    let mut i: usize = 0;
    assert(all.take(0) =~= Seq::empty());
    assert(out.deep_view() =~= Seq::empty());
    while i < calendars.len()
        invariant
            0 <= i <= calendars@.len(),
            all == calendars.deep_view(),
            c == (match chosen {
                Some(s) => Some(s@),
                None => None,
            }),
            out.deep_view() == options_with(all.take(i as int), c),
        decreases calendars@.len() - i,
    {
        proof {
            assert(all.take(i + 1).drop_last() =~= all.take(i as int));
            assert(all.take(i + 1).last() == calendars@[i as int].deep_view());
        }
        if let Some(id) = &calendars[i].id {
            let ghost before = out.deep_view();
            let o = CalendarOption {
                id: id.clone(),
                name: calendars[i].name.clone(),
                selected: is_chosen(id.as_str(), chosen),
            };
            out.push(o);
            assert(out.deep_view() =~= before.push(o.deep_view()));
        }
        i = i + 1;
    }
    assert(all.take(i as int) =~= all);
    out
}

/// Which of some address books is chosen: the one that is asked for, or else the first.
pub open spec fn chosen_book(books: Seq<AddressBookV>, selected: Option<Seq<char>>) -> Option<
    Seq<char>,
> {
    match selected {
        Some(s) => Some(s),
        None => if books.len() > 0 {
            books[0].id
        } else {
            None
        },
    }
}

/// The address books to choose from: those that have an id.
pub open spec fn book_options_with(books: Seq<AddressBookV>, chosen: Option<Seq<char>>) -> Seq<
    CalendarOptionV,
>
    decreases books.len(),
{
    if books.len() == 0 {
        Seq::empty()
    } else {
        let c = books.last();
        let before = book_options_with(books.drop_last(), chosen);
        match c.id {
            Some(id) => before.push(
                CalendarOptionV { id, name: c.name, selected: Some(id) == chosen },
            ),
            None => before,
        }
    }
}

/// The address books to choose from.
pub fn address_book_options(
    books: &Vec<AddressBook>,
    selected: Option<&str>,
) -> (r: Vec<CalendarOption>)
    ensures
        r.deep_view() == book_options_with(
            books.deep_view(),
            chosen_book(
                books.deep_view(),
                match selected {
                    Some(s) => Some(s@),
                    None => None,
                },
            ),
        ),
{
    let ghost all = books.deep_view();
    let chosen: Option<&str> = match selected {
        Some(s) => Some(s),
        None => {
            if books.len() > 0 {
                assert(all[0] == books@[0].deep_view());
                match &books[0].id {
                    Some(id) => Some(id.as_str()),
                    None => None,
                }
            } else {
                None
            }
        },
    };
    let ghost c = match chosen {
        Some(s) => Some(s@),
        None => None,
    };
    let mut out: Vec<CalendarOption> = Vec::new();
    let mut i: usize = 0;
    assert(all.take(0) =~= Seq::empty());
    assert(out.deep_view() =~= Seq::empty());
    while i < books.len()
        invariant
            0 <= i <= books@.len(),
            all == books.deep_view(),
            c == (match chosen {
                Some(s) => Some(s@),
                None => None,
            }),
            out.deep_view() == book_options_with(all.take(i as int), c),
        decreases books@.len() - i,
    {
        proof {
            assert(all.take(i + 1).drop_last() =~= all.take(i as int));
            assert(all.take(i + 1).last() == books@[i as int].deep_view());
        }
        if let Some(id) = &books[i].id {
            let ghost before = out.deep_view();
            let o = CalendarOption {
                id: id.clone(),
                name: books[i].name.clone(),
                selected: is_chosen(id.as_str(), chosen),
            };
            out.push(o);
            assert(out.deep_view() =~= before.push(o.deep_view()));
        }
        i = i + 1;
    }
    assert(all.take(i as int) =~= all);
    out
}

/// The states to choose from: the default of the server, none at all, or one of them.
pub open spec fn region_options(selected: Seq<char>) -> Seq<SelectOptionV> {
    seq![
        SelectOptionV {
            value: Seq::empty(),
            label: "Use server default"@,
            selected: selected.len() == 0,
        },
        SelectOptionV {
            value: "none"@,
            label: "None (disabled)"@,
            selected: selected == "none"@,
        },
    ] + Seq::new(
        16,
        |i: int|
            SelectOptionV {
                value: region_word(region_at(i)),
                label: region_label(region_at(i)),
                selected: selected == region_word(region_at(i)),
            },
    )
}

/// The states to choose from.
pub fn holiday_region_options(selected: &str) -> (r: Vec<SelectOption>)
    ensures
        r.deep_view() == region_options(selected@),
{
    let ghost all = region_options(selected@);
    let mut out = vec![
        option("", "Use server default", is_blank(selected)),
        option("none", "None (disabled)", str_eq(selected, "none")),
    ];
    proof {
        reveal_strlit("");
        assert(""@ =~= Seq::empty());
        assert(out.deep_view() =~= all.take(2));
    }
    let mut i: usize = 0;
    while i < 16
        invariant
            i <= 16,
            all == region_options(selected@),
            out.deep_view() == all.take(i + 2),
        decreases 16 - i,
    {
        let region = region_with_number(i);
        let word = german_region_name(region);
        let ghost before = out.deep_view();
        let o = option(word, german_region_label(region), str_eq(selected, word));
        out.push(o);
        proof {
            assert(out.deep_view() =~= before.push(o.deep_view()));
            assert(all[i + 2] == o.deep_view());
            assert(out.deep_view() =~= all.take(i + 3));
        }
        i = i + 1;
    }
    assert(all.take(18) =~= all);
    out
}

/// The clocks to choose from.
pub fn time_format_options(selected: &str) -> (r: Vec<SelectOption>)
    ensures
        r.deep_view() == seq![
            SelectOptionV {
                value: Seq::empty(),
                label: "Use server default"@,
                selected: selected@.len() == 0,
            },
            SelectOptionV {
                value: "12h"@,
                label: "12-hour (3:45 PM)"@,
                selected: selected@ == "12h"@,
            },
            SelectOptionV {
                value: "24h"@,
                label: "24-hour (15:45)"@,
                selected: selected@ == "24h"@,
            },
        ],
{
    let r = vec![
        option("", "Use server default", is_blank(selected)),
        option("12h", "12-hour (3:45 PM)", str_eq(selected, "12h")),
        option("24h", "24-hour (15:45)", str_eq(selected, "24h")),
    ];
    proof {
        reveal_strlit("");
        assert(""@ =~= Seq::empty());
        assert(r.deep_view()[0].value =~= Seq::empty());
        assert(r.deep_view().len() == 3);
    }
    r
}

} // verus!
