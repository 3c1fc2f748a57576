//! What the query string of a page asks to see.

use vstd::prelude::*;
use vstd::string::*;
use crate::calendar::{shift_secs, NaiveDate, NaiveDateTime};
use crate::collections::{CloneView, StrSet};
use crate::contentline::{split_none, split_piece};
use crate::jscalendar::{Calendar, CalendarV};
use crate::ics_laws::lacks;
use crate::rrule_laws::split_undoes_join;
use crate::state::HOLIDAYS_PSEUDO_ID;
use crate::text::{split, split_str, str_eq};
use crate::timetext::{date_text, date_text_reads_back, read_date, read_iso_date};
use crate::tz::{at_zone, zone_offset, Tz};
use crate::users::is_blank;
use crate::view::{
    view_of, view_word, view_words_read_back, visible_list, ViewKind, ViewParams, ViewParamsV,
    BIRTHDAY_PSEUDO_ID,
};

verus! {

/// The query string of a page, as it came.
#[derive(Debug)]
pub struct RawViewQuery {
    pub view: Option<String>,
    pub date: Option<String>,
    pub cal: Option<String>,
    pub q: Option<String>,
}

/// What a [`RawViewQuery`] stands for.
#[verifier::ext_equal]
pub struct RawViewQueryV {
    pub view: Option<Seq<char>>,
    pub date: Option<Seq<char>>,
    pub cal: Option<Seq<char>>,
    pub q: Option<Seq<char>>,
}

impl DeepView for RawViewQuery {
    type V = RawViewQueryV;

    open spec fn deep_view(&self) -> RawViewQueryV {
        RawViewQueryV {
            view: self.view.deep_view(),
            date: self.date.deep_view(),
            cal: self.cal.deep_view(),
            q: self.q.deep_view(),
        }
    }
}

impl CloneView for RawViewQuery {
    fn clone_view(&self) -> (r: Self) {
        RawViewQuery {
            view: self.view.clone_view(),
            date: self.date.clone_view(),
            cal: self.cal.clone_view(),
            q: self.q.clone_view(),
        }
    }
}

impl Clone for RawViewQuery {
    fn clone(&self) -> (r: Self)
        ensures
            r.deep_view() == self.deep_view(),
    {
        self.clone_view()
    }
}

impl RawViewQueryV {
    /// Every part empty, absent or zero.
    pub open spec fn blank() -> RawViewQueryV {
        RawViewQueryV {
            view: None,
            date: None,
            cal: None,
            q: None,
        }
    }
}

impl Default for RawViewQuery {
    fn default() -> (r: Self)
        ensures
            r.deep_view() == RawViewQueryV::blank(),
    {
        let r = RawViewQuery {
            view: None,
            date: None,
            cal: None,
            q: None,
        };
        assert(r.deep_view() =~= RawViewQueryV::blank());
        r
    }
}

/// The ids of those calendars that have one; where `only_visible`, of those that are shown
/// unless the user says otherwise.
pub open spec fn ids_of(calendars: Seq<CalendarV>, only_visible: bool) -> Seq<Seq<char>>
    decreases calendars.len(),
{
    if calendars.len() == 0 {
        Seq::empty()
    } else {
        let c = calendars.last();
        let before = ids_of(calendars.drop_last(), only_visible);
        match c.id {
            Some(id) => if !only_visible || c.is_visible {
                before.push(id)
            } else {
                before
            },
            None => before,
        }
    }
}

/// Those of some texts that are not empty.
pub open spec fn not_empty(s: Seq<Seq<char>>) -> Seq<Seq<char>>
    decreases s.len(),
{
    if s.len() == 0 {
        Seq::empty()
    } else if s.last().len() > 0 {
        not_empty(s.drop_last()).push(s.last())
    } else {
        not_empty(s.drop_last())
    }
}

/// A list with one more item, where that is asked for.
pub open spec fn with_item(s: Seq<Seq<char>>, wanted: bool, item: Seq<char>) -> Seq<Seq<char>> {
    if wanted {
        s.push(item)
    } else {
        s
    }
}

/// All that can be shown: the calendars, birthdays where there are contacts, subscriptions, and
/// public holidays where a state is configured.
pub open spec fn all_ids(
    calendars: Seq<CalendarV>,
    has_contacts: bool,
    ics_ids: Seq<Seq<char>>,
    has_holidays: bool,
) -> Seq<Seq<char>> {
    with_item(
        with_item(ids_of(calendars, false), has_contacts, BIRTHDAY_PSEUDO_ID@) + ics_ids,
        has_holidays,
        HOLIDAYS_PSEUDO_ID@,
    )
}

/// What is shown: what the query lists, or else all that is shown unless the user says
/// otherwise. Public holidays are not among that.
pub open spec fn shown_ids(
    cal: Option<Seq<char>>,
    calendars: Seq<CalendarV>,
    has_contacts: bool,
    ics_ids: Seq<Seq<char>>,
) -> Seq<Seq<char>> {
    match cal {
        Some(list) => not_empty(split(list, ',')),
        None => with_item(ids_of(calendars, true), has_contacts, BIRTHDAY_PSEUDO_ID@) + ics_ids,
    }
}

/// A date that can be read from a query, or else today.
pub open spec fn date_or(s: Option<Seq<char>>, today: NaiveDate) -> NaiveDate {
    match s {
        Some(t) => match read_date(t, "%Y-%m-%d"@) {
            Some(d) => d,
            None => today,
        },
        None => today,
    }
}

/// What a query asks to see.
pub open spec fn resolved(
    raw: RawViewQueryV,
    calendars: Seq<CalendarV>,
    today: NaiveDate,
    has_contacts: bool,
    ics_ids: Seq<Seq<char>>,
    has_holidays: bool,
) -> ViewParamsV {
    ViewParamsV {
        view: match raw.view {
            Some(v) => view_of(v),
            None => ViewKind::Month,
        },
        date: date_or(raw.date, today),
        visible: shown_ids(raw.cal, calendars, has_contacts, ics_ids).to_set(),
        all_calendar_ids: all_ids(calendars, has_contacts, ics_ids, has_holidays),
        q: match raw.q {
            Some(q) => if q.len() > 0 {
                Some(q)
            } else {
                None
            },
            None => None,
        },
    }
}

fn list_ids(calendars: &Vec<Calendar>, only_visible: bool) -> (r: Vec<String>)
    ensures
        r.deep_view() == ids_of(calendars.deep_view(), only_visible),
{
    let ghost all = calendars.deep_view();
    let mut out: Vec<String> = Vec::new();
    let mut i: usize = 0;
    assert(all.take(0) =~= Seq::empty());
    assert(out.deep_view() =~= Seq::empty());
    while i < calendars.len()
        invariant
            0 <= i <= calendars@.len(),
            all == calendars.deep_view(),
            out.deep_view() == ids_of(all.take(i as int), only_visible),
        decreases calendars@.len() - i,
    {
        proof {
            assert(all.take(i + 1).drop_last() =~= all.take(i as int));
            assert(all.take(i + 1).last() == calendars@[i as int].deep_view());
        }
        if let Some(id) = &calendars[i].id {
            if !only_visible || calendars[i].is_visible {
                let ghost before = out.deep_view();
                out.push(id.clone());
                assert(out.deep_view() =~= before.push(id@));
            }
        }
        i = i + 1;
    }
    assert(all.take(i as int) =~= all);
    out
}

fn add_item(list: &mut Vec<String>, wanted: bool, item: &str)
    ensures
        final(list).deep_view() == with_item(old(list).deep_view(), wanted, item@),
{
    let ghost before = list.deep_view();
    if wanted {
        list.push(item.to_string());
        assert(list.deep_view() =~= before.push(item@));
    }
}

fn add_items(list: &mut Vec<String>, items: &Vec<String>)
    ensures
        final(list).deep_view() == old(list).deep_view() + items.deep_view(),
{
    let ghost a = list.deep_view();
    let ghost b = items.deep_view();
    let mut more = items.clone_view();
    list.append(&mut more);
    assert(list.deep_view() =~= a + b);
}

fn list_not_empty(pieces: &Vec<String>) -> (r: Vec<String>)
    ensures
        r.deep_view() == not_empty(pieces.deep_view()),
{
    let ghost all = pieces.deep_view();
    let mut out: Vec<String> = Vec::new();
    let mut i: usize = 0;
    assert(all.take(0) =~= Seq::empty());
    assert(out.deep_view() =~= Seq::empty());
    while i < pieces.len()
        invariant
            0 <= i <= pieces@.len(),
            all == pieces.deep_view(),
            out.deep_view() == not_empty(all.take(i as int)),
        decreases pieces@.len() - i,
    {
        proof {
            assert(all.take(i + 1).drop_last() =~= all.take(i as int));
            assert(all.take(i + 1).last() == pieces@[i as int]@);
        }
        if !is_blank(pieces[i].as_str()) {
            let ghost before = out.deep_view();
            out.push(pieces[i].clone());
            assert(out.deep_view() =~= before.push(pieces@[i as int]@));
        }
        i = i + 1;
    }
    assert(all.take(i as int) =~= all);
    out
}

fn list_shown(
    cal: &Option<String>,
    calendars: &Vec<Calendar>,
    has_contacts: bool,
    ics_ids: &Vec<String>,
) -> (r: Vec<String>)
    ensures
        r.deep_view() == shown_ids(
            cal.deep_view(),
            calendars.deep_view(),
            has_contacts,
            ics_ids.deep_view(),
        ),
{
    match cal {
        Some(list) => list_not_empty(&split_str(list.as_str(), ',')),
        None => {
            let mut ids = list_ids(calendars, true);
            add_item(&mut ids, has_contacts, BIRTHDAY_PSEUDO_ID);
            add_items(&mut ids, ics_ids);
            ids
        },
    }
}

/// What a query asks to see, of all that there is.
pub fn resolve_view_params(
    raw: &RawViewQuery,
    calendars: &Vec<Calendar>,
    today: NaiveDate,
    has_contacts: bool,
    ics_ids: &Vec<String>,
    has_holidays: bool,
) -> (r: ViewParams)
    ensures
        r.deep_view() == resolved(
            raw.deep_view(),
            calendars.deep_view(),
            today,
            has_contacts,
            ics_ids.deep_view(),
            has_holidays,
        ),
        today.valid() ==> r.date.valid(),
{
    let view = match &raw.view {
        Some(v) => ViewKind::parse(v.as_str()),
        None => ViewKind::Month,
    };
    let date = match &raw.date {
        Some(s) => match read_iso_date(s.as_str()) {
            Some(d) => d,
            None => today,
        },
        None => today,
    };
    let mut all_calendar_ids = list_ids(calendars, false);
    add_item(&mut all_calendar_ids, has_contacts, BIRTHDAY_PSEUDO_ID);
    add_items(&mut all_calendar_ids, ics_ids);
    add_item(&mut all_calendar_ids, has_holidays, HOLIDAYS_PSEUDO_ID);
    let q = match &raw.q {
        Some(q) => {
            if is_blank(q.as_str()) {
                None
            } else {
                Some(q.clone())
            }
        },
        None => None,
    };
    let visible = StrSet { items: list_shown(&raw.cal, calendars, has_contacts, ics_ids) };
    ViewParams { view, date, visible, all_calendar_ids, q }
}

/// The date in a zone at an instant of UTC, or `None` where it leaves the calendar.
pub fn today_in(now: NaiveDateTime, tz: &Tz) -> (r: Option<NaiveDate>)
    requires
        now.valid(),
    ensures
        r == (match shift_secs(now, zone_offset(tz.deep_view(), now)) {
            Some(t) => Some(t.date),
            None => None,
        }),
        r is Some ==> r->0.valid(),
{
    match at_zone(now, tz) {
        Some(t) => Some(t.date),
        None => None,
    }
}

/// A list of ids in a query, with one more, unless it is there.
pub open spec fn id_added(list: Seq<char>, id: Seq<char>) -> Seq<char> {
    if split(list, ',').contains(id) {
        list
    } else if list.len() == 0 {
        id
    } else {
        list + ","@ + id
    }
}

/// The list of what is shown, with something that was just made.
pub fn with_id(list: &str, id: &str) -> (r: String)
    ensures
        r@ == id_added(list@, id@),
{
    let pieces = split_str(list, ',');
    let ghost all = pieces.deep_view();
    let mut i: usize = 0;
    while i < pieces.len()
        invariant
            0 <= i <= pieces@.len(),
            all == pieces.deep_view(),
            all == split(list@, ','),
            forall|j: int| 0 <= j < i ==> #[trigger] all[j] != id@,
        decreases pieces@.len() - i,
    {
        assert(all[i as int] == pieces@[i as int]@);
        if str_eq(pieces[i].as_str(), id) {
            assert(all.contains(id@));
            return list.to_string();
        }
        i = i + 1;
    }
    if is_blank(list) {
        id.to_string()
    } else {
        let mut out = list.to_string();
        out.append(",");
        out.append(id);
        out
    }
}

// ---------------------------------------------------------------------------
// What the query promises
// ---------------------------------------------------------------------------

/// Public holidays start hidden, also where a state is configured, unless something else has
/// their id.
pub proof fn holidays_start_hidden(
    raw: RawViewQueryV,
    calendars: Seq<CalendarV>,
    today: NaiveDate,
    has_contacts: bool,
    ics_ids: Seq<Seq<char>>,
)
    requires
        raw.cal is None,
        !ids_of(calendars, true).contains(HOLIDAYS_PSEUDO_ID@),
        !ics_ids.contains(HOLIDAYS_PSEUDO_ID@),
    ensures
        !resolved(raw, calendars, today, has_contacts, ics_ids, true).visible.contains(
            HOLIDAYS_PSEUDO_ID@,
        ),
        resolved(raw, calendars, today, has_contacts, ics_ids, true).all_calendar_ids.contains(
            HOLIDAYS_PSEUDO_ID@,
        ),
{
    let h = HOLIDAYS_PSEUDO_ID@;
    reveal_strlit("holidays");
    reveal_strlit("birthdays");
    assert("holidays"@.len() != "birthdays"@.len());
    let ids = shown_ids(raw.cal, calendars, has_contacts, ics_ids);
    assert forall|i: int| 0 <= i < ids.len() implies ids[i] != h by {
        let own = ids_of(calendars, true);
        let more = with_item(own, has_contacts, BIRTHDAY_PSEUDO_ID@);
        if i < own.len() {
            assert(ids[i] == own[i]);
            assert(own.contains(own[i]));
        } else if i < more.len() {
            assert(ids[i] == BIRTHDAY_PSEUDO_ID@);
        } else {
            assert(ids[i] == ics_ids[i - more.len()]);
            assert(ics_ids.contains(ics_ids[i - more.len()]));
        }
    }
    let all = all_ids(calendars, has_contacts, ics_ids, true);
    assert(all.last() == h);
    assert(all[all.len() - 1] == h);
}

/// Birthdays are neither offered nor shown by default where the server has no contacts, unless
/// something else has their id.
pub proof fn birthdays_need_contacts(
    raw: RawViewQueryV,
    calendars: Seq<CalendarV>,
    today: NaiveDate,
    ics_ids: Seq<Seq<char>>,
    has_holidays: bool,
)
    requires
        !ids_of(calendars, false).contains(BIRTHDAY_PSEUDO_ID@),
        !ids_of(calendars, true).contains(BIRTHDAY_PSEUDO_ID@),
        !ics_ids.contains(BIRTHDAY_PSEUDO_ID@),
    ensures
        !resolved(raw, calendars, today, false, ics_ids, has_holidays).all_calendar_ids.contains(
            BIRTHDAY_PSEUDO_ID@,
        ),
        raw.cal is None ==> !resolved(
            raw,
            calendars,
            today,
            false,
            ics_ids,
            has_holidays,
        ).visible.contains(BIRTHDAY_PSEUDO_ID@),
{
    let b = BIRTHDAY_PSEUDO_ID@;
    reveal_strlit("holidays");
    reveal_strlit("birthdays");
    assert("holidays"@.len() != "birthdays"@.len());
    let own = ids_of(calendars, false);
    let all = all_ids(calendars, false, ics_ids, has_holidays);
    assert forall|i: int| 0 <= i < all.len() implies all[i] != b by {
        if i < own.len() {
            assert(all[i] == own[i]);
            assert(own.contains(own[i]));
        } else if i < own.len() + ics_ids.len() {
            assert(all[i] == ics_ids[i - own.len()]);
            assert(ics_ids.contains(ics_ids[i - own.len()]));
        } else {
            assert(all[i] == HOLIDAYS_PSEUDO_ID@);
        }
    }
    let shown = ids_of(calendars, true);
    let ids = shown_ids(None, calendars, false, ics_ids);
    assert forall|i: int| 0 <= i < ids.len() implies ids[i] != b by {
        if i < shown.len() {
            assert(ids[i] == shown[i]);
            assert(shown.contains(shown[i]));
        } else {
            assert(ids[i] == ics_ids[i - shown.len()]);
            assert(ics_ids.contains(ics_ids[i - shown.len()]));
        }
    }
}

/// An id that can stand in a list of them.
pub open spec fn listable(id: Seq<char>) -> bool {
    id.len() > 0 && lacks(id, ',')
}

proof fn not_empty_keeps(s: Seq<Seq<char>>, k: int)
    requires
        0 <= k < s.len(),
        s[k].len() > 0,
    ensures
        not_empty(s).contains(s[k]),
    decreases s.len(),
{
    let t = s.drop_last();
    if k < t.len() {
        not_empty_keeps(t, k);
        let m = choose|m: int| 0 <= m < not_empty(t).len() && not_empty(t)[m] == s[k];
        assert(not_empty(s)[m] == s[k]);
    } else {
        assert(not_empty(s).last() == s[k]);
        assert(not_empty(s)[not_empty(s).len() - 1] == s[k]);
    }
}

/// The pieces of `a + c + id`, where `id` has no `c`, end with `id`.
proof fn split_last(a: Seq<char>, id: Seq<char>, c: char)
    requires
        lacks(id, c),
    ensures
        split(a + seq![c] + id, c).last() == id,
        split(a + seq![c] + id, c).len() > 0,
    decreases a.len(),
{
    let all = a + seq![c] + id;
    let i = crate::text::first_index(a, c);
    crate::text::first_index_bounds(a, c);
    split_none(id, c);
    if i < a.len() {
        let head = a.take(i);
        let tail = a.skip(i + 1);
        assert(a =~= head + seq![c] + tail);
        assert(all =~= head + seq![c] + (tail + seq![c] + id));
        split_piece(head, tail + seq![c] + id, c);
        split_last(tail, id, c);
        let rest = split(tail + seq![c] + id, c);
        assert((seq![head] + rest).last() == rest.last());
    } else {
        split_piece(a, id, c);
        assert((seq![a] + seq![id]).last() == id);
    }
}

/// What was just made is shown at once: the query that lists it asks for it.
pub proof fn new_id_is_shown(
    list: Seq<char>,
    id: Seq<char>,
    raw: RawViewQueryV,
    calendars: Seq<CalendarV>,
    today: NaiveDate,
    has_contacts: bool,
    ics_ids: Seq<Seq<char>>,
    has_holidays: bool,
)
    requires
        listable(id),
        raw.cal == Some(id_added(list, id)),
    ensures
        resolved(
            raw,
            calendars,
            today,
            has_contacts,
            ics_ids,
            has_holidays,
        ).visible.contains(id),
{
    let pieces = split(id_added(list, id), ',');
    reveal_strlit(",");
    assert(","@ =~= seq![',']);
    if split(list, ',').contains(id) {
        let k = choose|k: int| 0 <= k < pieces.len() && pieces[k] == id;
        not_empty_keeps(pieces, k);
    } else if list.len() == 0 {
        split_none(id, ',');
        assert(pieces[0] == id);
        not_empty_keeps(pieces, 0);
    } else {
        split_last(list, id, ',');
        assert(pieces[pieces.len() - 1] == id);
        not_empty_keeps(pieces, pieces.len() - 1);
    }
}

proof fn not_empty_all(s: Seq<Seq<char>>)
    requires
        forall|i: int| 0 <= i < s.len() ==> (#[trigger] s[i]).len() > 0,
    ensures
        not_empty(s) == s,
    decreases s.len(),
{
    if s.len() > 0 {
        let t = s.drop_last();
        assert forall|i: int| 0 <= i < t.len() implies (#[trigger] t[i]).len() > 0 by {
            assert(t[i] == s[i]);
        }
        not_empty_all(t);
        assert(s[s.len() - 1].len() > 0);
        assert(t.push(s.last()) =~= s);
    }
}

/// The list of what is shown in a query reads back.
proof fn visible_list_reads_back(ids: Seq<Seq<char>>, visible: Set<Seq<char>>)
    requires
        forall|i: int| 0 <= i < ids.len() ==> listable(#[trigger] ids[i]),
        visible.subset_of(ids.to_set()),
    ensures
        not_empty(split(visible_list(ids, visible), ',')).to_set() == visible,
{
    let keep = |id: Seq<char>| visible.contains(id);
    let f = ids.filter(keep);
    reveal_strlit(",");
    assert(","@ =~= seq![',']);
    assert forall|i: int| 0 <= i < f.len() implies listable(#[trigger] f[i]) && visible.contains(
        f[i],
    ) by {
        broadcast use vstd::seq_lib::group_filter_ensures;

        assert(f.contains(f[i]));
        assert(keep(f[i]));
        assert(ids.contains(f[i]));
    }
    if f.len() == 0 {
        let raw = visible_list(ids, visible);
        assert(raw.len() == 0);
        split_none(raw, ',');
        let pieces = split(raw, ',');
        assert(pieces =~= seq![raw]);
        assert(pieces.drop_last() =~= Seq::<Seq<char>>::empty());
        assert(pieces.last() == raw);
        assert(not_empty(Seq::<Seq<char>>::empty()) == Seq::<Seq<char>>::empty());
        assert(not_empty(pieces).to_set() =~= Set::<Seq<char>>::empty());
        assert forall|id: Seq<char>| !visible.contains(id) by {
            if visible.contains(id) {
                filter_holds(ids, visible, id);
            }
        }
        assert(visible =~= Set::<Seq<char>>::empty());
    } else {
        split_undoes_join(f, ',');
        not_empty_all(f);
        assert forall|id: Seq<char>| visible.contains(id) implies f.contains(id) by {
            filter_holds(ids, visible, id);
        }
        assert(f.to_set() =~= visible);
    }
}

proof fn filter_holds(ids: Seq<Seq<char>>, visible: Set<Seq<char>>, id: Seq<char>)
    requires
        visible.contains(id),
        visible.subset_of(ids.to_set()),
    ensures
        ids.filter(|id: Seq<char>| visible.contains(id)).contains(id),
{
    let keep = |id: Seq<char>| visible.contains(id);
    broadcast use vstd::seq_lib::group_filter_ensures;

    assert(ids.to_set().contains(id));
    assert(ids.contains(id));
    let k = choose|k: int| 0 <= k < ids.len() && ids[k] == id;
    assert(keep(ids[k]));
    assert(ids.filter(keep).contains(ids[k]));
}

/// A page can be bookmarked: the view, the date and what is visible, as its address holds them,
/// ask for the same page again.
pub proof fn bookmark_reads_back(
    p: ViewParamsV,
    raw: RawViewQueryV,
    calendars: Seq<CalendarV>,
    today: NaiveDate,
    has_contacts: bool,
    ics_ids: Seq<Seq<char>>,
    has_holidays: bool,
)
    requires
        p.date.valid(),
        forall|i: int|
            0 <= i < p.all_calendar_ids.len() ==> listable(#[trigger] p.all_calendar_ids[i]),
        p.visible.subset_of(p.all_calendar_ids.to_set()),
        p.q matches Some(q) ==> q.len() > 0,
        p.all_calendar_ids == all_ids(calendars, has_contacts, ics_ids, has_holidays),
        raw == (RawViewQueryV {
            view: Some(view_word(p.view)),
            date: Some(date_text(p.date)),
            cal: Some(p.cal_param()),
            q: p.q,
        }),
    ensures
        resolved(raw, calendars, today, has_contacts, ics_ids, has_holidays) == p,
{
    view_words_read_back(p.view);
    date_text_reads_back(p.date);
    visible_list_reads_back(p.all_calendar_ids, p.visible);
    assert(resolved(raw, calendars, today, has_contacts, ics_ids, has_holidays) =~= p);
}

} // verus!
