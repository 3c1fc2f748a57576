//! A small server that speaks the protocol from memory, for demonstrations and tests. It takes
//! any credentials.

use vstd::prelude::*;
use vstd::slice::*;
use vstd::string::*;
use crate::calendar::{plus_days, plus_secs, time_less, NaiveDate, NaiveDateTime};
use crate::collections::{map_insert, CloneView, StrMap};
use crate::duration::{duration_secs, try_parse_duration};
use crate::jscalendar::{local_time, LocalDateTime};
use crate::json::{
    array_of, entry, json_object, map_of, merge_json, merged, object, object_of, text, with_value,
    without_key, Value, ValueV,
};
use crate::numbers::{dec, i64_text, int_text, u64_text};
use crate::protocol::{answer_to, find_answer, MethodCall, MethodCallV};
use crate::text::{char_bytes, char_width, chars_of, slice_less, str_eq, string_of, text_less};
use crate::timetext::{format_time, iso_text, two};

verus! {

/// What the server holds.
#[derive(Debug)]
pub struct Db {
    pub calendars: Vec<Value>,
    pub events: Vec<Value>,
    pub address_books: Vec<Value>,
    pub cards: Vec<Value>,
    /// The number of the next thing that is made.
    pub next_id: u64,
}

/// What a [`Db`] stands for.
#[verifier::ext_equal]
pub struct DbV {
    pub calendars: Seq<ValueV>,
    pub events: Seq<ValueV>,
    pub address_books: Seq<ValueV>,
    pub cards: Seq<ValueV>,
    pub next_id: u64,
}

impl DeepView for Db {
    type V = DbV;

    open spec fn deep_view(&self) -> DbV {
        DbV {
            calendars: self.calendars.deep_view(),
            events: self.events.deep_view(),
            address_books: self.address_books.deep_view(),
            cards: self.cards.deep_view(),
            next_id: self.next_id.deep_view(),
        }
    }
}

// ---------------------------------------------------------------------------
// Reading
// ---------------------------------------------------------------------------

/// An answer with a list of objects.
pub open spec fn list_answer(account_id: Seq<char>, list: Seq<ValueV>) -> ValueV {
    object(
        seq![
            ("accountId"@, ValueV::Text(account_id)),
            ("state"@, ValueV::Text("s1"@)),
            ("list"@, ValueV::Array(list)),
            ("notFound"@, ValueV::Array(Seq::empty())),
        ],
    )
}

fn get_response(account_id: &str, list: Vec<Value>) -> (r: Value)
    ensures
        r.deep_view() == list_answer(account_id@, list.deep_view()),
{
    let ghost lv = list.deep_view();
    let none: Vec<Value> = Vec::new();
    assert(none.deep_view() =~= Seq::empty());
    let pairs = vec![
        entry("accountId", text(account_id)),
        entry("state", text("s1")),
        entry("list", array_of(list)),
        entry("notFound", array_of(none)),
    ];
    assert(pairs.deep_view() =~= seq![
        ("accountId"@, ValueV::Text(account_id@)),
        ("state"@, ValueV::Text("s1"@)),
        ("list"@, ValueV::Array(lv)),
        ("notFound"@, ValueV::Array(Seq::empty())),
    ]);
    json_object(pairs)
}

/// Whether one of some ids is a text.
pub open spec fn lists_id(ids: Seq<ValueV>, id: Seq<char>) -> bool {
    exists|i: int| 0 <= i < ids.len() && #[trigger] ids[i] == ValueV::Text(id)
}

/// Those of some objects whose id is listed.
pub open spec fn with_ids(list: Seq<ValueV>, ids: Seq<ValueV>) -> Seq<ValueV>
    decreases list.len(),
{
    if list.len() == 0 {
        Seq::empty()
    } else {
        let before = with_ids(list.drop_last(), ids);
        match list.last().get_str("id"@) {
            Some(id) => if lists_id(ids, id) {
                before.push(list.last())
            } else {
                before
            },
            None => before,
        }
    }
}

/// The objects that are asked for: those whose ids are listed, or all where no list is given.
pub open spec fn asked_for(list: Seq<ValueV>, args: ValueV) -> Seq<ValueV> {
    match args.get("ids"@) {
        Some(ValueV::Array(ids)) => with_ids(list, ids),
        _ => list,
    }
}

fn is_listed(ids: &Vec<Value>, id: &str) -> (r: bool)
    ensures
        r == lists_id(ids.deep_view(), id@),
{
    let ghost all = ids.deep_view();
    let mut i: usize = 0;
    while i < ids.len()
        invariant
            0 <= i <= ids@.len(),
            all == ids.deep_view(),
            forall|j: int| 0 <= j < i ==> #[trigger] all[j] != ValueV::Text(id@),
        decreases ids@.len() - i,
    {
        assert(all[i as int] == ids@[i as int].deep_view());
        if let Some(s) = ids[i].as_str() {
            if str_eq(s, id) {
                assert(all[i as int] == ValueV::Text(id@));
                return true;
            }
        }
        i = i + 1;
    }
    false
}

fn select_ids(list: &Vec<Value>, ids: &Vec<Value>) -> (r: Vec<Value>)
    ensures
        r.deep_view() == with_ids(list.deep_view(), ids.deep_view()),
{
    let ghost all = list.deep_view();
    let ghost iv = ids.deep_view();
    let mut out: Vec<Value> = Vec::new();
    let mut i: usize = 0;
    assert(all.take(0) =~= Seq::empty());
    assert(out.deep_view() =~= Seq::empty());
    while i < list.len()
        invariant
            0 <= i <= list@.len(),
            all == list.deep_view(),
            iv == ids.deep_view(),
            out.deep_view() == with_ids(all.take(i as int), iv),
        decreases list@.len() - i,
    {
        proof {
            assert(all.take(i + 1).drop_last() =~= all.take(i as int));
            assert(all.take(i + 1).last() == list@[i as int].deep_view());
        }
        if let Some(id) = list[i].get_str("id") {
            if is_listed(ids, id) {
                let ghost before = out.deep_view();
                let v = list[i].clone_view();
                out.push(v);
                assert(out.deep_view() =~= before.push(v.deep_view()));
            }
        }
        i = i + 1;
    }
    assert(all.take(i as int) =~= all);
    out
}

impl Value {
    /// The items of an array.
    pub fn as_array(&self) -> (r: Option<&Vec<Value>>)
        ensures
            match r {
                Some(a) => self.deep_view() == ValueV::Array(a.deep_view()),
                None => !(self.deep_view() is Array),
            },
    {
        match self {
            Value::Array(a) => {
                assert(self.deep_view()->Array_0 =~= a.deep_view());
                Some(a)
            },
            _ => None,
        }
    }

    /// The entries of an object.
    pub fn as_object(&self) -> (r: Option<&Vec<(String, Value)>>)
        ensures
            match r {
                Some(m) => self.deep_view() == ValueV::Object(m.deep_view()),
                None => !(self.deep_view() is Object),
            },
    {
        match self {
            Value::Object(m) => {
                assert(self.deep_view()->Object_0 =~= m.deep_view());
                Some(m)
            },
            _ => None,
        }
    }
}

fn get_by_ids_response(account_id: &str, list: &Vec<Value>, args: &Value) -> (r: Value)
    ensures
        r.deep_view() == list_answer(account_id@, asked_for(list.deep_view(), args.deep_view())),
{
    match args.get("ids") {
        Some(v) => match v.as_array() {
            Some(ids) => get_response(account_id, select_ids(list, ids)),
            None => get_response(account_id, list.clone_view()),
        },
        None => get_response(account_id, list.clone_view()),
    }
}

// ---------------------------------------------------------------------------
// Writing
// ---------------------------------------------------------------------------

/// What a write does to a list, to the number of the next object, and what it answers of new
/// objects.
#[verifier::ext_equal]
pub struct MadeV {
    pub list: Seq<ValueV>,
    pub next_id: int,
    pub created: Seq<(Seq<char>, ValueV)>,
}

/// The id of an object by its number.
pub open spec fn numbered(prefix: Seq<char>, n: int) -> Seq<char> {
    prefix + dec(n as nat)
}

/// A list with some new objects at its end, each with an id of its own.
pub open spec fn with_made(
    list: Seq<ValueV>,
    next_id: int,
    create: Seq<(Seq<char>, ValueV)>,
    prefix: Seq<char>,
) -> MadeV
    decreases create.len(),
{
    if create.len() == 0 {
        MadeV { list, next_id, created: Seq::empty() }
    } else {
        let m = with_made(list, next_id, create.drop_last(), prefix);
        let id = numbered(prefix, m.next_id);
        MadeV {
            list: m.list.push(create.last().1.with("id"@, ValueV::Text(id))),
            next_id: m.next_id + 1,
            created: map_insert(
                m.created,
                create.last().0,
                object(seq![("id"@, ValueV::Text(id))]),
            ),
        }
    }
}

/// A list with the entries of a patch put into the first object with an id.
pub open spec fn patched(list: Seq<ValueV>, id: Seq<char>, patch: ValueV) -> Seq<ValueV>
    decreases list.len(),
{
    if list.len() == 0 {
        list
    } else if list[0].get_str("id"@) == Some(id) {
        seq![merged(list[0], patch)] + list.skip(1)
    } else {
        seq![list[0]] + patched(list.skip(1), id, patch)
    }
}

/// A list with some patches, and what is answered of them.
pub open spec fn with_patches(list: Seq<ValueV>, update: Seq<(Seq<char>, ValueV)>) -> (
    Seq<ValueV>,
    Seq<(Seq<char>, ValueV)>,
)
    decreases update.len(),
{
    if update.len() == 0 {
        (list, Seq::empty())
    } else {
        let p = with_patches(list, update.drop_last());
        (
            patched(p.0, update.last().0, update.last().1),
            map_insert(p.1, update.last().0, ValueV::Null),
        )
    }
}

/// A list without the objects whose id is listed.
pub open spec fn without_ids(list: Seq<ValueV>, ids: Seq<ValueV>) -> Seq<ValueV>
    decreases list.len(),
{
    if list.len() == 0 {
        Seq::empty()
    } else {
        let before = without_ids(list.drop_last(), ids);
        if list.last().get_str("id"@) matches Some(id) && lists_id(ids, id) {
            before
        } else {
            before.push(list.last())
        }
    }
}

/// The entries of an object under a key; none where there is no object.
pub open spec fn entries_under(args: ValueV, key: Seq<char>) -> Seq<(Seq<char>, ValueV)> {
    match args.get(key) {
        Some(v) => v.entries(),
        None => Seq::empty(),
    }
}

/// The items of an array under a key; none where there is no array.
pub open spec fn items_under(args: ValueV, key: Seq<char>) -> Seq<ValueV> {
    match args.get(key) {
        Some(v) => v.items(),
        None => Seq::empty(),
    }
}

/// A list after a write: what is new, then what changes, then what goes; and the number of the
/// next object.
pub open spec fn written(list: Seq<ValueV>, next_id: int, args: ValueV, prefix: Seq<char>) -> (
    Seq<ValueV>,
    int,
) {
    let m = with_made(list, next_id, entries_under(args, "create"@), prefix);
    let p = with_patches(m.list, entries_under(args, "update"@));
    (without_ids(p.0, items_under(args, "destroy"@)), m.next_id)
}

/// The answer to a write.
pub open spec fn write_answer(
    account_id: Seq<char>,
    list: Seq<ValueV>,
    next_id: int,
    args: ValueV,
    prefix: Seq<char>,
) -> ValueV {
    let m = with_made(list, next_id, entries_under(args, "create"@), prefix);
    let p = with_patches(m.list, entries_under(args, "update"@));
    object(
        seq![
            ("accountId"@, ValueV::Text(account_id)),
            ("oldState"@, ValueV::Text("s1"@)),
            ("newState"@, ValueV::Text("s2"@)),
            ("created"@, ValueV::Object(m.created)),
            ("updated"@, ValueV::Object(p.1)),
            ("destroyed"@, ValueV::Array(items_under(args, "destroy"@))),
        ],
    )
}

pub proof fn made_counts(
    list: Seq<ValueV>,
    next_id: int,
    create: Seq<(Seq<char>, ValueV)>,
    prefix: Seq<char>,
)
    ensures
        with_made(list, next_id, create, prefix).next_id == next_id + create.len(),
        with_made(list, next_id, create, prefix).list.len() == list.len() + create.len(),
    decreases create.len(),
{
    if create.len() > 0 {
        made_counts(list, next_id, create.drop_last(), prefix);
    }
}

fn make_objects(
    list: &mut Vec<Value>,
    next_id: &mut u64,
    create: &Vec<(String, Value)>,
    prefix: &str,
) -> (r: StrMap<Value>)
    requires
        old(next_id) + create@.len() <= u64::MAX,
    ensures
        ({
            let m = with_made(
                old(list).deep_view(),
                *old(next_id) as int,
                create.deep_view(),
                prefix@,
            );
            &&& final(list).deep_view() == m.list
            &&& *final(next_id) == m.next_id
            &&& r.deep_view() == m.created
        }),
{
    let ghost all = create.deep_view();
    let ghost base = list.deep_view();
    let ghost first = *next_id as int;
    let mut created: StrMap<Value> = StrMap::new();
    let mut i: usize = 0;
    assert(all.take(0) =~= Seq::empty());
    while i < create.len()
        invariant
            0 <= i <= create@.len(),
            all == create.deep_view(),
            first + create@.len() <= u64::MAX,
            first >= 0,
            with_made(base, first, all.take(i as int), prefix@) == (MadeV {
                list: list.deep_view(),
                next_id: *next_id as int,
                created: created.deep_view(),
            }),
        decreases create@.len() - i,
    {
        proof {
            assert(all.take(i + 1).drop_last() =~= all.take(i as int));
            assert(all.take(i + 1).last() == create@[i as int].deep_view());
            made_counts(base, first, all.take(i as int), prefix@);
        }
        let mut id = prefix.to_string();
        id.append(u64_text(*next_id).as_str());
        *next_id = *next_id + 1;
        let ghost before = list.deep_view();
        let obj = with_value(create[i].1.clone_view(), "id", text(id.as_str()));
        let pairs = vec![entry("id", text(id.as_str()))];
        assert(pairs.deep_view() =~= seq![("id"@, ValueV::Text(id@))]);
        created.insert(create[i].0.clone(), json_object(pairs));
        list.push(obj);
        assert(list.deep_view() =~= before.push(obj.deep_view()));
        i = i + 1;
    }
    assert(all.take(i as int) =~= all);
    created
}

fn patch_object(list: &mut Vec<Value>, id: &str, patch: &Value)
    ensures
        final(list).deep_view() == patched(old(list).deep_view(), id@, patch.deep_view()),
{
    let ghost all = list.deep_view();
    let ghost pv = patch.deep_view();
    let mut i: usize = 0;
    assert(all.skip(0) =~= all);
    assert(all.take(0) + patched(all.skip(0), id@, pv) =~= patched(all, id@, pv));
    while i < list.len()
        invariant
            0 <= i <= list@.len(),
            all == list.deep_view(),
            list@ == old(list)@,
            pv == patch.deep_view(),
            all.take(i as int) + patched(all.skip(i as int), id@, pv) == patched(all, id@, pv),
        decreases list@.len() - i,
    {
        proof {
            assert(all.skip(i as int)[0] == list@[i as int].deep_view());
            assert(all.skip(i as int).skip(1) =~= all.skip(i + 1));
        }
        let found = match list[i].get_str("id") {
            Some(s) => str_eq(s, id),
            None => false,
        };
        if found {
            let v = merge_json(list[i].clone_view(), patch);
            list.set(i, v);
            assert(list.deep_view() =~= all.take(i as int) + (seq![v.deep_view()] + all.skip(
                i + 1,
            )));
            return;
        }
        assert(all.take(i as int) + (seq![all[i as int]] + patched(all.skip(i + 1), id@, pv))
            =~= all.take(i + 1) + patched(all.skip(i + 1), id@, pv));
        i = i + 1;
    }
    assert(all.take(i as int) =~= all);
    assert(all.skip(i as int) =~= Seq::<ValueV>::empty());
    assert(all + Seq::<ValueV>::empty() =~= all);
}

fn patch_objects(list: &mut Vec<Value>, update: &Vec<(String, Value)>) -> (r: StrMap<Value>)
    ensures
        ({
            let p = with_patches(old(list).deep_view(), update.deep_view());
            &&& final(list).deep_view() == p.0
            &&& r.deep_view() == p.1
        }),
{
    let ghost all = update.deep_view();
    let ghost base = list.deep_view();
    let mut updated: StrMap<Value> = StrMap::new();
    let mut i: usize = 0;
    assert(all.take(0) =~= Seq::empty());
    while i < update.len()
        invariant
            0 <= i <= update@.len(),
            all == update.deep_view(),
            with_patches(base, all.take(i as int)) == (list.deep_view(), updated.deep_view()),
        decreases update@.len() - i,
    {
        proof {
            assert(all.take(i + 1).drop_last() =~= all.take(i as int));
            assert(all.take(i + 1).last() == update@[i as int].deep_view());
        }
        patch_object(list, update[i].0.as_str(), &update[i].1);
        updated.insert(update[i].0.clone(), Value::Null);
        i = i + 1;
    }
    assert(all.take(i as int) =~= all);
    updated
}

fn drop_ids(list: &mut Vec<Value>, ids: &Vec<Value>)
    ensures
        final(list).deep_view() == without_ids(old(list).deep_view(), ids.deep_view()),
{
    let ghost all = list.deep_view();
    let ghost iv = ids.deep_view();
    let mut out: Vec<Value> = Vec::new();
    let mut i: usize = 0;
    assert(all.take(0) =~= Seq::empty());
    assert(out.deep_view() =~= Seq::empty());
    while i < list.len()
        invariant
            0 <= i <= list@.len(),
            all == list.deep_view(),
            iv == ids.deep_view(),
            out.deep_view() == without_ids(all.take(i as int), iv),
        decreases list@.len() - i,
    {
        proof {
            assert(all.take(i + 1).drop_last() =~= all.take(i as int));
            assert(all.take(i + 1).last() == list@[i as int].deep_view());
        }
        let goes = match list[i].get_str("id") {
            Some(id) => is_listed(ids, id),
            None => false,
        };
        if !goes {
            let ghost before = out.deep_view();
            let v = list[i].clone_view();
            out.push(v);
            assert(out.deep_view() =~= before.push(v.deep_view()));
        }
        i = i + 1;
    }
    assert(all.take(i as int) =~= all);
    *list = out;
}

fn entries_at(args: &Value, key: &str) -> (r: Vec<(String, Value)>)
    ensures
        r.deep_view() == entries_under(args.deep_view(), key@),
{
    match args.get(key) {
        Some(v) => map_of(v.clone_view()).entries,
        None => {
            let none: Vec<(String, Value)> = Vec::new();
            assert(none.deep_view() =~= Seq::empty());
            none
        },
    }
}

fn items_at(args: &Value, key: &str) -> (r: Vec<Value>)
    ensures
        r.deep_view() == items_under(args.deep_view(), key@),
{
    let none: Vec<Value> = Vec::new();
    assert(none.deep_view() =~= Seq::empty());
    match args.get(key) {
        Some(v) => match v.as_array() {
            Some(a) => a.clone_view(),
            None => none,
        },
        None => none,
    }
}

/// Whether the numbers of new objects last for a write.
pub open spec fn numbers_last(next_id: int, args: ValueV) -> bool {
    next_id + entries_under(args, "create"@).len() <= u64::MAX
}

/// Writes to a list: `prefix` starts the ids of new objects.
pub fn set_response(
    account_id: &str,
    list: &mut Vec<Value>,
    next_id: &mut u64,
    args: &Value,
    id_prefix: &str,
) -> (r: Value)
    requires
        numbers_last(*old(next_id) as int, args.deep_view()),
    ensures
        (final(list).deep_view(), *final(next_id) as int) == written(
            old(list).deep_view(),
            *old(next_id) as int,
            args.deep_view(),
            id_prefix@,
        ),
        r.deep_view() == write_answer(
            account_id@,
            old(list).deep_view(),
            *old(next_id) as int,
            args.deep_view(),
            id_prefix@,
        ),
{
    let ghost av = args.deep_view();
    let ghost base = list.deep_view();
    let ghost first = *next_id as int;
    let create = entries_at(args, "create");
    let update = entries_at(args, "update");
    let destroy = items_at(args, "destroy");
    assert(create@.len() == create.deep_view().len());
    let created = make_objects(list, next_id, &create, id_prefix);
    let updated = patch_objects(list, &update);
    drop_ids(list, &destroy);
    let ghost m = with_made(base, first, entries_under(av, "create"@), id_prefix@);
    let ghost p = with_patches(m.list, entries_under(av, "update"@));
    let ghost dv = destroy.deep_view();
    let pairs = vec![
        entry("accountId", text(account_id)),
        entry("oldState", text("s1")),
        entry("newState", text("s2")),
        entry("created", object_of(created)),
        entry("updated", object_of(updated)),
        entry("destroyed", array_of(destroy)),
    ];
    assert(pairs.deep_view() =~= seq![
        ("accountId"@, ValueV::Text(account_id@)),
        ("oldState"@, ValueV::Text("s1"@)),
        ("newState"@, ValueV::Text("s2"@)),
        ("created"@, ValueV::Object(m.created)),
        ("updated"@, ValueV::Object(p.1)),
        ("destroyed"@, ValueV::Array(dv)),
    ]);
    json_object(pairs)
}

// ---------------------------------------------------------------------------
// Asking for events
// ---------------------------------------------------------------------------

/// The first bytes of a text, at most so many; `None` where they end within a character.
pub open spec fn first_bytes(s: Seq<char>, n: int) -> Option<Seq<char>>
    decreases s.len(),
{
    if s.len() == 0 || n <= 0 {
        Some(Seq::empty())
    } else if char_bytes(s[0]) > n {
        None
    } else {
        match first_bytes(s.skip(1), n - char_bytes(s[0])) {
            Some(rest) => Some(seq![s[0]] + rest),
            None => None,
        }
    }
}

/// A text without the `c` that it ends with, however many.
pub open spec fn trimmed_end(s: Seq<char>, c: char) -> Seq<char>
    decreases s.len(),
{
    if s.len() > 0 && s.last() == c {
        trimmed_end(s.drop_last(), c)
    } else {
        s
    }
}

/// A text without the `c` that it starts with, however many.
pub open spec fn trimmed_start(s: Seq<char>, c: char) -> Seq<char>
    decreases s.len(),
{
    if s.len() > 0 && s[0] == c {
        trimmed_start(s.skip(1), c)
    } else {
        s
    }
}

/// What events are asked for by.
#[verifier::ext_equal]
pub struct FilterV {
    pub after: Option<Seq<char>>,
    pub before: Option<Seq<char>>,
    pub in_calendars: Option<Seq<ValueV>>,
}

/// What events are asked for by.
pub open spec fn filter_of(args: ValueV) -> FilterV {
    match args.get("filter"@) {
        Some(f) => FilterV {
            after: f.get_str("after"@),
            before: f.get_str("before"@),
            in_calendars: match f.get("inCalendars"@) {
                Some(ValueV::Array(a)) => Some(a),
                _ => None,
            },
        },
        None => FilterV { after: None, before: None, in_calendars: None },
    }
}

/// Whether an event is in one of some calendars.
pub open spec fn in_one_of(event: ValueV, calendars: Seq<ValueV>) -> bool {
    exists|i: int|
        0 <= i < entries_under(event, "calendarIds"@).len() && lists_id(
            calendars,
            (#[trigger] entries_under(event, "calendarIds"@)[i]).0,
        )
}

/// Whether an event lasts past a time: it ends after it. One whose end is past the calendar does;
/// one without a start, a length or a time to hold them against does not.
pub open spec fn lasts_past(event: ValueV, time: Seq<char>) -> bool {
    match (event.get_str("start"@), event.get_str("duration"@), local_time(time)) {
        (Some(start), Some(length), Some(t)) => match (local_time(start), duration_secs(length)) {
            (Some(s), Some(Some(n))) => match plus_secs(
                s,
                if n > 0 {
                    n
                } else {
                    0
                },
            ) {
                Some(end) => time_less(t, end),
                None => true,
            },
            _ => false,
        },
        _ => false,
    }
}

/// Whether an event is asked for: one that repeats always is, since it may do so in the range;
/// any other where it is in the range or reaches into it. `None` where the range cannot be read.
pub open spec fn is_asked_for(event: ValueV, f: FilterV) -> Option<bool> {
    if f.in_calendars matches Some(c) && !in_one_of(event, c) {
        Some(false)
    } else if event.get("recurrenceRules"@) is Some {
        Some(true)
    } else {
        match event.get_str("start"@) {
            None => Some(false),
            Some(start) => {
                let starts_before = f.before matches Some(b) ==> text_less(
                    start,
                    trimmed_end(b, 'Z'),
                );
                match f.after {
                    None => Some(starts_before),
                    Some(a) => match first_bytes(a, 19) {
                        Some(from) => Some(
                            starts_before && (!text_less(start, from) || lasts_past(event, from)),
                        ),
                        None => None,
                    },
                }
            },
        }
    }
}

/// The ids of the events that are asked for; `None` where the range cannot be read.
pub open spec fn found_ids(events: Seq<ValueV>, f: FilterV) -> Option<Seq<ValueV>>
    decreases events.len(),
{
    if events.len() == 0 {
        Some(Seq::empty())
    } else {
        match (found_ids(events.drop_last(), f), is_asked_for(events.last(), f)) {
            (Some(before), Some(asked)) => if asked {
                match events.last().get("id"@) {
                    Some(id) => Some(before.push(id)),
                    None => Some(before),
                }
            } else {
                Some(before)
            },
            _ => None,
        }
    }
}

/// The answer to a query for events.
pub open spec fn query_answer(account_id: Seq<char>, ids: Seq<ValueV>) -> ValueV {
    object(
        seq![
            ("accountId"@, ValueV::Text(account_id)),
            ("queryState"@, ValueV::Text("q1"@)),
            ("canCalculateChanges"@, ValueV::Bool(false)),
            ("position"@, ValueV::Number("0"@)),
            ("ids"@, ValueV::Array(ids)),
            ("total"@, ValueV::Number(dec(ids.len()))),
        ],
    )
}

fn byte_prefix(s: &[char], n: usize) -> (r: Option<Vec<char>>)
    ensures
        match first_bytes(s@, n as int) {
            Some(p) => r is Some && r->0@ == p,
            None => r is None,
        },
{
    let mut out: Vec<char> = Vec::new();
    let mut left: usize = n;
    let mut i: usize = 0;
    let ghost all = s@;
    assert(all.skip(0) =~= all);
    proof {
        if first_bytes(all, n as int) is Some {
            assert(out@ + first_bytes(all, n as int)->0 =~= first_bytes(all, n as int)->0);
        }
    }
    while i < s.len() && left > 0
        invariant
            0 <= i <= s@.len(),
            all == s@,
            first_bytes(all, n as int) is Some == first_bytes(all.skip(i as int), left as int) is Some,
            first_bytes(all, n as int) matches Some(p) ==> p == out@ + first_bytes(
                all.skip(i as int),
                left as int,
            )->0,
        decreases s@.len() - i,
    {
        let ghost rest = all.skip(i as int);
        proof {
            assert(rest[0] == s@[i as int]);
            assert(rest.skip(1) =~= all.skip(i + 1));
        }
        let w = char_width(s[i]);
        if w > left {
            return None;
        }
        let ghost before = out@;
        out.push(s[i]);
        left = left - w;
        proof {
            if first_bytes(all, n as int) is Some {
                let tail = first_bytes(all.skip(i + 1), left as int)->0;
                assert(out@ + tail =~= before + (seq![rest[0]] + tail));
            }
        }
        i = i + 1;
    }
    proof {
        if first_bytes(all, n as int) is Some {
            assert(out@ + Seq::<char>::empty() =~= out@);
        }
    }
    Some(out)
}

fn trim_end_char(s: &[char], c: char) -> (r: &[char])
    ensures
        r@ == trimmed_end(s@, c),
{
    let mut n: usize = s.len();
    assert(s@.take(n as int) =~= s@);
    while n > 0 && s[n - 1] == c
        invariant
            0 <= n <= s@.len(),
            trimmed_end(s@.take(n as int), c) == trimmed_end(s@, c),
        decreases n,
    {
        assert(s@.take(n as int).drop_last() =~= s@.take(n - 1));
        assert(s@.take(n as int).last() == s@[n - 1]);
        n = n - 1;
    }
    proof {
        if n > 0 {
            assert(s@.take(n as int).last() == s@[n - 1]);
        }
    }
    slice_subrange(s, 0, n)
}

fn trim_start_char(s: &str, c: char) -> (r: String)
    ensures
        r@ == trimmed_start(s@, c),
{
    let all = chars_of(s);
    let mut i: usize = 0;
    assert(all@.skip(0) =~= all@);
    while i < all.len() && all[i] == c
        invariant
            0 <= i <= all@.len(),
            all@ == s@,
            trimmed_start(all@.skip(i as int), c) == trimmed_start(s@, c),
        decreases all@.len() - i,
    {
        assert(all@.skip(i as int)[0] == all@[i as int]);
        assert(all@.skip(i as int).skip(1) =~= all@.skip(i + 1));
        i = i + 1;
    }
    proof {
        if i < all@.len() {
            assert(all@.skip(i as int)[0] == all@[i as int]);
        }
    }
    let rest = slice_subrange(all.as_slice(), i, all.len());
    assert(rest@ =~= all@.skip(i as int));
    string_of(rest)
}

fn is_in_one_of(event: &Value, calendars: &Vec<Value>) -> (r: bool)
    ensures
        r == in_one_of(event.deep_view(), calendars.deep_view()),
{
    let own = entries_at(event, "calendarIds");
    let ghost ov = own.deep_view();
    let mut i: usize = 0;
    while i < own.len()
        invariant
            0 <= i <= own@.len(),
            ov == own.deep_view(),
            ov == entries_under(event.deep_view(), "calendarIds"@),
            forall|j: int|
                0 <= j < i ==> !lists_id(calendars.deep_view(), (#[trigger] ov[j]).0),
        decreases own@.len() - i,
    {
        assert(ov[i as int] == own@[i as int].deep_view());
        if is_listed(calendars, own[i].0.as_str()) {
            return true;
        }
        i = i + 1;
    }
    false
}

struct Filter {
    after: Option<String>,
    before: Option<String>,
    in_calendars: Option<Vec<Value>>,
}

impl DeepView for Filter {
    type V = FilterV;

    closed spec fn deep_view(&self) -> FilterV {
        FilterV {
            after: self.after.deep_view(),
            before: self.before.deep_view(),
            in_calendars: self.in_calendars.deep_view(),
        }
    }
}

fn copy_str(s: Option<&str>) -> (r: Option<String>)
    ensures
        r.deep_view() == (match s {
            Some(t) => Some(t@),
            None => None,
        }),
{
    match s {
        Some(t) => Some(t.to_string()),
        None => None,
    }
}

fn read_filter(args: &Value) -> (r: Filter)
    ensures
        r.deep_view() == filter_of(args.deep_view()),
{
    match args.get("filter") {
        Some(f) => {
            let in_calendars = match f.get("inCalendars") {
                Some(v) => match v.as_array() {
                    Some(a) => Some(a.clone_view()),
                    None => None,
                },
                None => None,
            };
            Filter {
                after: copy_str(f.get_str("after")),
                before: copy_str(f.get_str("before")),
                in_calendars,
            }
        },
        None => Filter { after: None, before: None, in_calendars: None },
    }
}

fn event_lasts_past(event: &Value, time: &str) -> (r: bool)
    ensures
        r == lasts_past(event.deep_view(), time@),
{
    let (start, length) = match (event.get_str("start"), event.get_str("duration")) {
        (Some(s), Some(d)) => (LocalDateTime(s.to_string()), d),
        _ => {
            return false;
        },
    };
    let t = match LocalDateTime(time.to_string()).to_naive() {
        Some(t) => t,
        None => {
            return false;
        },
    };
    match (start.to_naive(), try_parse_duration(length)) {
        (Some(s), Some(Some(d))) => {
            let secs: i64 = if d.secs > 0 {
                d.secs
            } else {
                0
            };
            match s.plus(secs) {
                Some(end) => t.is_before(end),
                None => true,
            }
        },
        _ => false,
    }
}

fn event_is_asked_for(event: &Value, f: &Filter) -> (r: Option<bool>)
    ensures
        r == is_asked_for(event.deep_view(), f.deep_view()),
{
    if let Some(c) = &f.in_calendars {
        if !is_in_one_of(event, c) {
            return Some(false);
        }
    }
    if event.get("recurrenceRules").is_some() {
        return Some(true);
    }
    let start = match event.get_str("start") {
        Some(s) => chars_of(s),
        None => {
            return Some(false);
        },
    };
    let starts_before = match &f.before {
        Some(b) => {
            let end = chars_of(b.as_str());
            slice_less(start.as_slice(), trim_end_char(end.as_slice(), 'Z'))
        },
        None => true,
    };
    match &f.after {
        Some(a) => {
            let from = chars_of(a.as_str());
            match byte_prefix(from.as_slice(), 19) {
                Some(p) => {
                    let starts_after = !slice_less(start.as_slice(), p.as_slice());
                    Some(
                        starts_before && (starts_after || event_lasts_past(
                            event,
                            string_of(p.as_slice()).as_str(),
                        )),
                    )
                },
                None => None,
            }
        },
        None => Some(starts_before),
    }
}

proof fn found_prefix(events: Seq<ValueV>, f: FilterV, k: int)
    requires
        0 <= k <= events.len(),
        found_ids(events.take(k), f) is None,
    ensures
        found_ids(events, f) is None,
    decreases events.len() - k,
{
    if k < events.len() {
        assert(events.take(k + 1).drop_last() =~= events.take(k));
        found_prefix(events, f, k + 1);
    } else {
        assert(events.take(k) =~= events);
    }
}

fn find_ids(events: &Vec<Value>, f: &Filter) -> (r: Option<Vec<Value>>)
    ensures
        r.deep_view() == found_ids(events.deep_view(), f.deep_view()),
{
    let ghost all = events.deep_view();
    let ghost fv = f.deep_view();
    let mut out: Vec<Value> = Vec::new();
    let mut i: usize = 0;
    assert(all.take(0) =~= Seq::empty());
    assert(out.deep_view() =~= Seq::empty());
    while i < events.len()
        invariant
            0 <= i <= events@.len(),
            all == events.deep_view(),
            fv == f.deep_view(),
            found_ids(all.take(i as int), fv) == Some(out.deep_view()),
        decreases events@.len() - i,
    {
        proof {
            assert(all.take(i + 1).drop_last() =~= all.take(i as int));
            assert(all.take(i + 1).last() == events@[i as int].deep_view());
        }
        match event_is_asked_for(&events[i], f) {
            Some(asked) => {
                if asked {
                    if let Some(id) = events[i].get("id") {
                        let ghost before = out.deep_view();
                        let v = id.clone_view();
                        out.push(v);
                        assert(out.deep_view() =~= before.push(v.deep_view()));
                    }
                }
            },
            None => {
                proof {
                    found_prefix(all, fv, i + 1);
                }
                return None;
            },
        }
        i = i + 1;
    }
    assert(all.take(i as int) =~= all);
    Some(out)
}

/// The answer to a query for events, or `None` where its range cannot be read.
pub fn try_query_events_response(account_id: &str, events: &Vec<Value>, args: &Value) -> (r: Option<
    Value,
>)
    ensures
        r.deep_view() == (match found_ids(events.deep_view(), filter_of(args.deep_view())) {
            Some(ids) => Some(query_answer(account_id@, ids)),
            None => None,
        }),
{
    let f = read_filter(args);
    match find_ids(events, &f) {
        Some(ids) => {
            let ghost iv = ids.deep_view();
            let total = ids.len();
            let pairs = vec![
                entry("accountId", text(account_id)),
                entry("queryState", text("q1")),
                entry("canCalculateChanges", Value::Bool(false)),
                entry("position", Value::Number("0".to_string())),
                entry("ids", array_of(ids)),
                entry("total", Value::Number(u64_text(total as u64))),
            ];
            assert(pairs.deep_view() =~= seq![
                ("accountId"@, ValueV::Text(account_id@)),
                ("queryState"@, ValueV::Text("q1"@)),
                ("canCalculateChanges"@, ValueV::Bool(false)),
                ("position"@, ValueV::Number("0"@)),
                ("ids"@, ValueV::Array(iv)),
                ("total"@, ValueV::Number(dec(iv.len()))),
            ]);
            Some(json_object(pairs))
        },
        None => None,
    }
}

/// The answer to a query for events.
pub fn query_events_response(account_id: &str, events: &Vec<Value>, args: &Value) -> (r: Value)
    requires
        found_ids(events.deep_view(), filter_of(args.deep_view())) is Some,
    ensures
        r.deep_view() == query_answer(
            account_id@,
            found_ids(events.deep_view(), filter_of(args.deep_view()))->0,
        ),
{
    match try_query_events_response(account_id, events, args) {
        Some(v) => v,
        None => Value::Null,
    }
}

// ---------------------------------------------------------------------------
// References to earlier results
// ---------------------------------------------------------------------------

/// The keys of some entries that stand for references.
pub open spec fn reference_keys(entries: Seq<(Seq<char>, ValueV)>) -> Seq<Seq<char>>
    decreases entries.len(),
{
    if entries.len() == 0 {
        Seq::empty()
    } else {
        let before = reference_keys(entries.drop_last());
        let key = entries.last().0;
        if key.len() > 0 && key[0] == '#' {
            before.push(key)
        } else {
            before
        }
    }
}

/// What a reference stands for, given the answers so far.
pub open spec fn referred(reference: ValueV, prior: Seq<MethodCallV>) -> Option<ValueV> {
    match (reference.get_str("resultOf"@), reference.get_str("path"@)) {
        (Some(id), Some(path)) => match answer_to(prior, id) {
            Some(a) => a.args.get(trimmed_start(path, '/')),
            None => None,
        },
        _ => None,
    }
}

/// Arguments with one reference resolved: what it stands for, if anything, is put under its key
/// without the marks, and the reference goes.
pub open spec fn key_resolved(args: ValueV, key: Seq<char>, prior: Seq<MethodCallV>) -> ValueV {
    let filled = match args.get(key) {
        Some(reference) => match referred(reference, prior) {
            Some(v) => args.with(trimmed_start(key, '#'), v),
            None => args,
        },
        None => args,
    };
    filled.without(key)
}

/// Arguments with some references resolved, one after the other.
pub open spec fn keys_resolved(
    args: ValueV,
    keys: Seq<Seq<char>>,
    prior: Seq<MethodCallV>,
) -> ValueV
    decreases keys.len(),
{
    if keys.len() == 0 {
        args
    } else {
        key_resolved(keys_resolved(args, keys.drop_last(), prior), keys.last(), prior)
    }
}

/// Arguments with their references resolved.
pub open spec fn refs_resolved(args: ValueV, prior: Seq<MethodCallV>) -> ValueV {
    keys_resolved(args, reference_keys(args.entries()), prior)
}

fn list_reference_keys(args: &Value) -> (r: Vec<String>)
    ensures
        r.deep_view() == reference_keys(args.deep_view().entries()),
{
    let ghost all = args.deep_view().entries();
    let mut out: Vec<String> = Vec::new();
    assert(out.deep_view() =~= Seq::empty());
    match args.as_object() {
        Some(m) => {
            let mut i: usize = 0;
            assert(all.take(0) =~= Seq::empty());
            while i < m.len()
                invariant
                    0 <= i <= m@.len(),
                    all == m.deep_view(),
                    out.deep_view() == reference_keys(all.take(i as int)),
                decreases m@.len() - i,
            {
                proof {
                    assert(all.take(i + 1).drop_last() =~= all.take(i as int));
                    assert(all.take(i + 1).last() == m@[i as int].deep_view());
                }
                let chars = chars_of(m[i].0.as_str());
                if chars.len() > 0 && chars[0] == '#' {
                    let ghost before = out.deep_view();
                    out.push(m[i].0.clone());
                    assert(out.deep_view() =~= before.push(m@[i as int].0@));
                }
                i = i + 1;
            }
            assert(all.take(i as int) =~= all);
        },
        None => {},
    }
    out
}

fn follow_reference(reference: &Value, prior: &Vec<MethodCall>) -> (r: Option<Value>)
    ensures
        r.deep_view() == referred(reference.deep_view(), prior.deep_view()),
{
    match (reference.get_str("resultOf"), reference.get_str("path")) {
        (Some(id), Some(path)) => match find_answer(prior, id) {
            Some(a) => match a.1.get(trim_start_char(path, '/').as_str()) {
                Some(v) => Some(v.clone_view()),
                None => None,
            },
            None => None,
        },
        _ => None,
    }
}

fn resolve_key(args: Value, key: &str, prior: &Vec<MethodCall>) -> (r: Value)
    ensures
        r.deep_view() == key_resolved(args.deep_view(), key@, prior.deep_view()),
{
    let value = match args.get(key) {
        Some(reference) => follow_reference(reference, prior),
        None => None,
    };
    let filled = match value {
        Some(v) => with_value(args, trim_start_char(key, '#').as_str(), v),
        None => args,
    };
    without_key(filled, key)
}

/// Resolves the references in the arguments of a call to the results of earlier ones.
pub fn resolve_result_refs(args: Value, prior: &Vec<MethodCall>) -> (r: Value)
    ensures
        r.deep_view() == refs_resolved(args.deep_view(), prior.deep_view()),
{
    let keys = list_reference_keys(&args);
    let ghost av = args.deep_view();
    let ghost kv = keys.deep_view();
    let ghost pv = prior.deep_view();
    let mut out = args;
    let mut i: usize = 0;
    assert(kv.take(0) =~= Seq::empty());
    while i < keys.len()
        invariant
            0 <= i <= keys@.len(),
            kv == keys.deep_view(),
            pv == prior.deep_view(),
            out.deep_view() == keys_resolved(av, kv.take(i as int), pv),
        decreases keys@.len() - i,
    {
        proof {
            assert(kv.take(i + 1).drop_last() =~= kv.take(i as int));
            assert(kv.take(i + 1).last() == keys@[i as int]@);
        }
        out = resolve_key(out, keys[i].as_str(), prior);
        i = i + 1;
    }
    assert(kv.take(i as int) =~= kv);
    out
}

// ---------------------------------------------------------------------------
// Calls
// ---------------------------------------------------------------------------

/// The account that a call names, or the one that there is.
pub open spec fn account_of(args: ValueV) -> Seq<char> {
    match args.get_str("accountId"@) {
        Some(a) => a,
        None => "acc1"@,
    }
}

/// The answer to a call that the server does not know.
pub open spec fn unknown_method(name: Seq<char>) -> (Seq<char>, ValueV) {
    (
        "error"@,
        object(
            seq![
                ("type"@, ValueV::Text("unknownMethod"@)),
                ("description"@, ValueV::Text("mock server does not implement "@ + name)),
            ],
        ),
    )
}

/// Whether a call can be answered: its range can be read, and the numbers of new objects last.
pub open spec fn answerable(db: DbV, name: Seq<char>, args: ValueV) -> bool {
    &&& name == "CalendarEvent/query"@ ==> found_ids(db.events, filter_of(args)) is Some
    &&& name == "Calendar/set"@ || name == "CalendarEvent/set"@ ==> numbers_last(
        db.next_id as int,
        args,
    )
}

/// What the server holds after a call.
pub open spec fn after_call(db: DbV, name: Seq<char>, args: ValueV) -> DbV {
    if name == "Calendar/set"@ {
        let w = written(db.calendars, db.next_id as int, args, "cal"@);
        DbV { calendars: w.0, next_id: w.1 as u64, ..db }
    } else if name == "CalendarEvent/set"@ {
        let w = written(db.events, db.next_id as int, args, "evt"@);
        DbV { events: w.0, next_id: w.1 as u64, ..db }
    } else {
        db
    }
}

/// What the server answers to a call: under what name, and with what.
pub open spec fn answer(db: DbV, name: Seq<char>, args: ValueV) -> (Seq<char>, ValueV) {
    let account = account_of(args);
    if name == "Calendar/get"@ {
        (name, list_answer(account, db.calendars))
    } else if name == "Calendar/set"@ {
        (name, write_answer(account, db.calendars, db.next_id as int, args, "cal"@))
    } else if name == "CalendarEvent/get"@ {
        (name, list_answer(account, asked_for(db.events, args)))
    } else if name == "CalendarEvent/set"@ {
        (name, write_answer(account, db.events, db.next_id as int, args, "evt"@))
    } else if name == "CalendarEvent/query"@ {
        (name, query_answer(account, found_ids(db.events, filter_of(args))->0))
    } else if name == "AddressBook/get"@ {
        (name, list_answer(account, db.address_books))
    } else if name == "ContactCard/get"@ {
        (name, list_answer(account, asked_for(db.cards, args)))
    } else {
        unknown_method(name)
    }
}

fn refuse_method(name: &str) -> (r: (String, Value))
    ensures
        (r.0@, r.1.deep_view()) == unknown_method(name@),
{
    let mut description = "mock server does not implement ".to_string();
    description.append(name);
    let pairs = vec![
        entry("type", text("unknownMethod")),
        entry("description", text(description.as_str())),
    ];
    assert(pairs.deep_view() =~= seq![
        ("type"@, ValueV::Text("unknownMethod"@)),
        ("description"@, ValueV::Text("mock server does not implement "@ + name@)),
    ]);
    ("error".to_string(), json_object(pairs))
}

fn named_account(args: &Value) -> (r: String)
    ensures
        r@ == account_of(args.deep_view()),
{
    match args.get_str("accountId") {
        Some(a) => a.to_string(),
        None => "acc1".to_string(),
    }
}

/// Answers a call.
pub fn dispatch(db: &mut Db, name: &str, args: &Value) -> (r: (String, Value))
    requires
        answerable(old(db).deep_view(), name@, args.deep_view()),
    ensures
        final(db).deep_view() == after_call(old(db).deep_view(), name@, args.deep_view()),
        (r.0@, r.1.deep_view()) == answer(old(db).deep_view(), name@, args.deep_view()),
{
    let ghost before = db.deep_view();
    proof {
        reveal_strlit("Calendar/get");
        reveal_strlit("Calendar/set");
        reveal_strlit("CalendarEvent/get");
        reveal_strlit("CalendarEvent/set");
        assert("Calendar/get"@[9] != "Calendar/set"@[9]);
        assert("Calendar/get"@.len() != "CalendarEvent/set"@.len());
        assert("CalendarEvent/get"@[14] != "CalendarEvent/set"@[14]);
    }
    let account = named_account(args);
    if str_eq(name, "Calendar/get") {
        (name.to_string(), get_response(account.as_str(), db.calendars.clone_view()))
    } else if str_eq(name, "Calendar/set") {
        let v = set_response(account.as_str(), &mut db.calendars, &mut db.next_id, args, "cal");
        assert(db.deep_view() =~= after_call(before, name@, args.deep_view()));
        (name.to_string(), v)
    } else if str_eq(name, "CalendarEvent/get") {
        (name.to_string(), get_by_ids_response(account.as_str(), &db.events, args))
    } else if str_eq(name, "CalendarEvent/set") {
        let v = set_response(account.as_str(), &mut db.events, &mut db.next_id, args, "evt");
        assert(db.deep_view() =~= after_call(before, name@, args.deep_view()));
        (name.to_string(), v)
    } else if str_eq(name, "CalendarEvent/query") {
        (name.to_string(), query_events_response(account.as_str(), &db.events, args))
    } else if str_eq(name, "AddressBook/get") {
        (name.to_string(), get_response(account.as_str(), db.address_books.clone_view()))
    } else if str_eq(name, "ContactCard/get") {
        (name.to_string(), get_by_ids_response(account.as_str(), &db.cards, args))
    } else {
        refuse_method(name)
    }
}

/// The server after some calls, and its answers; `None` where a call cannot be answered.
pub open spec fn run(db: DbV, calls: Seq<MethodCallV>) -> Option<(DbV, Seq<MethodCallV>)>
    decreases calls.len(),
{
    if calls.len() == 0 {
        Some((db, Seq::empty()))
    } else {
        match run(db, calls.drop_last()) {
            Some((d, answers)) => {
                let call = calls.last();
                let args = refs_resolved(call.args, answers);
                if answerable(d, call.name, args) {
                    let a = answer(d, call.name, args);
                    Some(
                        (
                            after_call(d, call.name, args),
                            answers.push(MethodCallV { name: a.0, args: a.1, id: call.id }),
                        ),
                    )
                } else {
                    None
                }
            },
            None => None,
        }
    }
}

proof fn run_prefix(db: DbV, calls: Seq<MethodCallV>, k: int)
    requires
        0 <= k <= calls.len(),
        run(db, calls.take(k)) is None,
    ensures
        run(db, calls) is None,
    decreases calls.len() - k,
{
    if k < calls.len() {
        assert(calls.take(k + 1).drop_last() =~= calls.take(k));
        run_prefix(db, calls, k + 1);
    } else {
        assert(calls.take(k) =~= calls);
    }
}

fn can_answer(db: &Db, name: &str, args: &Value) -> (r: bool)
    ensures
        r == answerable(db.deep_view(), name@, args.deep_view()),
{
    if str_eq(name, "CalendarEvent/query") {
        let f = read_filter(args);
        if find_ids(&db.events, &f).is_none() {
            return false;
        }
    }
    if str_eq(name, "Calendar/set") || str_eq(name, "CalendarEvent/set") {
        let create = entries_at(args, "create");
        let n = create.len();
        assert(n == create.deep_view().len());
        if n as u64 > u64::MAX - db.next_id {
            return false;
        }
    }
    true
}

/// Answers some calls, one after the other, or `None` where one cannot be answered.
pub fn api(db: &mut Db, calls: &Vec<MethodCall>) -> (r: Option<Vec<MethodCall>>)
    ensures
        match run(old(db).deep_view(), calls.deep_view()) {
            Some((d, answers)) => {
                &&& r is Some
                &&& r->0.deep_view() == answers
                &&& final(db).deep_view() == d
            },
            None => r is None,
        },
{
    let ghost start = db.deep_view();
    let ghost all = calls.deep_view();
    let mut answers: Vec<MethodCall> = Vec::new();
    let mut i: usize = 0;
    assert(all.take(0) =~= Seq::empty());
    assert(answers.deep_view() =~= Seq::empty());
    while i < calls.len()
        invariant
            0 <= i <= calls@.len(),
            all == calls.deep_view(),
            run(start, all.take(i as int)) == Some((db.deep_view(), answers.deep_view())),
            start == old(db).deep_view(),
        decreases calls@.len() - i,
    {
        let call = &calls[i];
        proof {
            assert(all.take(i + 1).drop_last() =~= all.take(i as int));
            assert(all.take(i + 1).last() == call.deep_view());
        }
        let args = resolve_result_refs(call.1.clone_view(), &answers);
        if !can_answer(db, call.0.as_str(), &args) {
            proof {
                run_prefix(start, all, i + 1);
            }
            return None;
        }
        let (name, result) = dispatch(db, call.0.as_str(), &args);
        let ghost before = answers.deep_view();
        let a = MethodCall(name, result, call.2.clone());
        answers.push(a);
        assert(answers.deep_view() =~= before.push(a.deep_view()));
        i = i + 1;
    }
    assert(all.take(i as int) =~= all);
    Some(answers)
}

// ---------------------------------------------------------------------------
// What the server starts with
// ---------------------------------------------------------------------------

/// The first calendar.
pub open spec fn personal_calendar() -> ValueV {
    object(seq![
        ("id"@, ValueV::Text("cal1"@)),
        ("name"@, ValueV::Text("Personal"@)),
        ("color"@, ValueV::Text("#6366f1"@)),
        ("sortOrder"@, ValueV::Number("0"@)),
        ("isSubscribed"@, ValueV::Bool(true)),
        ("isVisible"@, ValueV::Bool(true)),
    ])
}

fn make_personal_calendar() -> (r: Value)
    ensures
        r.deep_view() == personal_calendar(),
{
    let pairs1 = vec![
        entry("id", text("cal1")),
        entry("name", text("Personal")),
        entry("color", text("#6366f1")),
        entry("sortOrder", Value::Number("0".to_string())),
        entry("isSubscribed", Value::Bool(true)),
        entry("isVisible", Value::Bool(true)),
    ];
    assert(pairs1.deep_view() =~= seq![
        ("id"@, ValueV::Text("cal1"@)),
        ("name"@, ValueV::Text("Personal"@)),
        ("color"@, ValueV::Text("#6366f1"@)),
        ("sortOrder"@, ValueV::Number("0"@)),
        ("isSubscribed"@, ValueV::Bool(true)),
        ("isVisible"@, ValueV::Bool(true)),
    ]);
    json_object(pairs1)
}

/// The second calendar.
pub open spec fn work_calendar() -> ValueV {
    object(seq![
        ("id"@, ValueV::Text("cal2"@)),
        ("name"@, ValueV::Text("Work"@)),
        ("color"@, ValueV::Text("#0ea5e9"@)),
        ("sortOrder"@, ValueV::Number("1"@)),
        ("isSubscribed"@, ValueV::Bool(true)),
        ("isVisible"@, ValueV::Bool(true)),
    ])
}

fn make_work_calendar() -> (r: Value)
    ensures
        r.deep_view() == work_calendar(),
{
    let pairs1 = vec![
        entry("id", text("cal2")),
        entry("name", text("Work")),
        entry("color", text("#0ea5e9")),
        entry("sortOrder", Value::Number("1".to_string())),
        entry("isSubscribed", Value::Bool(true)),
        entry("isVisible", Value::Bool(true)),
    ];
    assert(pairs1.deep_view() =~= seq![
        ("id"@, ValueV::Text("cal2"@)),
        ("name"@, ValueV::Text("Work"@)),
        ("color"@, ValueV::Text("#0ea5e9"@)),
        ("sortOrder"@, ValueV::Number("1"@)),
        ("isSubscribed"@, ValueV::Bool(true)),
        ("isVisible"@, ValueV::Bool(true)),
    ]);
    json_object(pairs1)
}

/// A meeting every day.
pub open spec fn standup(start: Seq<char>) -> ValueV {
    object(seq![
        ("@type"@, ValueV::Text("Event"@)),
        ("id"@, ValueV::Text("evt1"@)),
        ("uid"@, ValueV::Text("evt1-uid"@)),
        ("title"@, ValueV::Text("Team standup"@)),
        ("description"@, ValueV::Text("Daily sync"@)),
        ("start"@, ValueV::Text(start)),
        ("timeZone"@, ValueV::Text("Europe/Berlin"@)),
        ("duration"@, ValueV::Text("PT15M"@)),
        ("calendarIds"@, object(seq![("cal1"@, ValueV::Bool(true))])),
        ("recurrenceRules"@, ValueV::Array(seq![
            object(seq![
                ("@type"@, ValueV::Text("RecurrenceRule"@)),
                ("frequency"@, ValueV::Text("daily"@)),
                ("interval"@, ValueV::Number("1"@)),
            ]),
        ])),
    ])
}

fn make_standup(start: &str) -> (r: Value)
    ensures
        r.deep_view() == standup(start@),
{
    let pairs1 = vec![entry("cal1", Value::Bool(true))];
    assert(pairs1.deep_view() =~= seq![("cal1"@, ValueV::Bool(true))]);
    let pairs2 = vec![
        entry("@type", text("RecurrenceRule")),
        entry("frequency", text("daily")),
        entry("interval", Value::Number("1".to_string())),
    ];
    assert(pairs2.deep_view() =~= seq![
        ("@type"@, ValueV::Text("RecurrenceRule"@)),
        ("frequency"@, ValueV::Text("daily"@)),
        ("interval"@, ValueV::Number("1"@)),
    ]);
    let list3 = vec![json_object(pairs2)];
    assert(list3.deep_view() =~= seq![
        object(seq![
            ("@type"@, ValueV::Text("RecurrenceRule"@)),
            ("frequency"@, ValueV::Text("daily"@)),
            ("interval"@, ValueV::Number("1"@)),
        ]),
    ]);
    let pairs4 = vec![
        entry("@type", text("Event")),
        entry("id", text("evt1")),
        entry("uid", text("evt1-uid")),
        entry("title", text("Team standup")),
        entry("description", text("Daily sync")),
        entry("start", text(start)),
        entry("timeZone", text("Europe/Berlin")),
        entry("duration", text("PT15M")),
        entry("calendarIds", json_object(pairs1)),
        entry("recurrenceRules", array_of(list3)),
    ];
    assert(pairs4.deep_view() =~= seq![
        ("@type"@, ValueV::Text("Event"@)),
        ("id"@, ValueV::Text("evt1"@)),
        ("uid"@, ValueV::Text("evt1-uid"@)),
        ("title"@, ValueV::Text("Team standup"@)),
        ("description"@, ValueV::Text("Daily sync"@)),
        ("start"@, ValueV::Text(start@)),
        ("timeZone"@, ValueV::Text("Europe/Berlin"@)),
        ("duration"@, ValueV::Text("PT15M"@)),
        ("calendarIds"@, object(seq![("cal1"@, ValueV::Bool(true))])),
        ("recurrenceRules"@, ValueV::Array(seq![
            object(seq![
                ("@type"@, ValueV::Text("RecurrenceRule"@)),
                ("frequency"@, ValueV::Text("daily"@)),
                ("interval"@, ValueV::Number("1"@)),
            ]),
        ])),
    ]);
    json_object(pairs4)
}

/// A meeting tomorrow.
pub open spec fn review(start: Seq<char>) -> ValueV {
    object(seq![
        ("@type"@, ValueV::Text("Event"@)),
        ("id"@, ValueV::Text("evt2"@)),
        ("uid"@, ValueV::Text("evt2-uid"@)),
        ("title"@, ValueV::Text("Design review"@)),
        ("start"@, ValueV::Text(start)),
        ("timeZone"@, ValueV::Text("Europe/Berlin"@)),
        ("duration"@, ValueV::Text("PT1H"@)),
        ("calendarIds"@, object(seq![("cal2"@, ValueV::Bool(true))])),
        ("locations"@, object(seq![
            ("loc1"@, object(seq![
                ("@type"@, ValueV::Text("Location"@)),
                ("name"@, ValueV::Text("Room 4B"@)),
            ])),
        ])),
    ])
}

fn make_review(start: &str) -> (r: Value)
    ensures
        r.deep_view() == review(start@),
{
    let pairs1 = vec![entry("cal2", Value::Bool(true))];
    assert(pairs1.deep_view() =~= seq![("cal2"@, ValueV::Bool(true))]);
    let pairs2 = vec![entry("@type", text("Location")), entry("name", text("Room 4B"))];
    assert(pairs2.deep_view() =~= seq![
        ("@type"@, ValueV::Text("Location"@)),
        ("name"@, ValueV::Text("Room 4B"@)),
    ]);
    let pairs3 = vec![entry("loc1", json_object(pairs2))];
    assert(pairs3.deep_view() =~= seq![
        ("loc1"@, object(seq![("@type"@, ValueV::Text("Location"@)), ("name"@, ValueV::Text("Room 4B"@))])),
    ]);
    let pairs4 = vec![
        entry("@type", text("Event")),
        entry("id", text("evt2")),
        entry("uid", text("evt2-uid")),
        entry("title", text("Design review")),
        entry("start", text(start)),
        entry("timeZone", text("Europe/Berlin")),
        entry("duration", text("PT1H")),
        entry("calendarIds", json_object(pairs1)),
        entry("locations", json_object(pairs3)),
    ];
    assert(pairs4.deep_view() =~= seq![
        ("@type"@, ValueV::Text("Event"@)),
        ("id"@, ValueV::Text("evt2"@)),
        ("uid"@, ValueV::Text("evt2-uid"@)),
        ("title"@, ValueV::Text("Design review"@)),
        ("start"@, ValueV::Text(start@)),
        ("timeZone"@, ValueV::Text("Europe/Berlin"@)),
        ("duration"@, ValueV::Text("PT1H"@)),
        ("calendarIds"@, object(seq![("cal2"@, ValueV::Bool(true))])),
        ("locations"@, object(seq![
            ("loc1"@, object(seq![
                ("@type"@, ValueV::Text("Location"@)),
                ("name"@, ValueV::Text("Room 4B"@)),
            ])),
        ])),
    ]);
    json_object(pairs4)
}

/// Two whole days.
pub open spec fn offsite(start: Seq<char>) -> ValueV {
    object(seq![
        ("@type"@, ValueV::Text("Event"@)),
        ("id"@, ValueV::Text("evt3"@)),
        ("uid"@, ValueV::Text("evt3-uid"@)),
        ("title"@, ValueV::Text("Company offsite"@)),
        ("start"@, ValueV::Text(start)),
        ("showWithoutTime"@, ValueV::Bool(true)),
        ("duration"@, ValueV::Text("P2D"@)),
        ("calendarIds"@, object(seq![("cal2"@, ValueV::Bool(true))])),
    ])
}

fn make_offsite(start: &str) -> (r: Value)
    ensures
        r.deep_view() == offsite(start@),
{
    let pairs1 = vec![entry("cal2", Value::Bool(true))];
    assert(pairs1.deep_view() =~= seq![("cal2"@, ValueV::Bool(true))]);
    let pairs2 = vec![
        entry("@type", text("Event")),
        entry("id", text("evt3")),
        entry("uid", text("evt3-uid")),
        entry("title", text("Company offsite")),
        entry("start", text(start)),
        entry("showWithoutTime", Value::Bool(true)),
        entry("duration", text("P2D")),
        entry("calendarIds", json_object(pairs1)),
    ];
    assert(pairs2.deep_view() =~= seq![
        ("@type"@, ValueV::Text("Event"@)),
        ("id"@, ValueV::Text("evt3"@)),
        ("uid"@, ValueV::Text("evt3-uid"@)),
        ("title"@, ValueV::Text("Company offsite"@)),
        ("start"@, ValueV::Text(start@)),
        ("showWithoutTime"@, ValueV::Bool(true)),
        ("duration"@, ValueV::Text("P2D"@)),
        ("calendarIds"@, object(seq![("cal2"@, ValueV::Bool(true))])),
    ]);
    json_object(pairs2)
}

/// A meeting every week.
pub open spec fn one_on_one(start: Seq<char>) -> ValueV {
    object(seq![
        ("@type"@, ValueV::Text("Event"@)),
        ("id"@, ValueV::Text("evt4"@)),
        ("uid"@, ValueV::Text("evt4-uid"@)),
        ("title"@, ValueV::Text("1:1 with manager"@)),
        ("start"@, ValueV::Text(start)),
        ("timeZone"@, ValueV::Text("Europe/Berlin"@)),
        ("duration"@, ValueV::Text("PT30M"@)),
        ("calendarIds"@, object(seq![("cal2"@, ValueV::Bool(true))])),
        ("recurrenceRules"@, ValueV::Array(seq![
            object(seq![
                ("@type"@, ValueV::Text("RecurrenceRule"@)),
                ("frequency"@, ValueV::Text("weekly"@)),
                ("interval"@, ValueV::Number("1"@)),
            ]),
        ])),
    ])
}

fn make_one_on_one(start: &str) -> (r: Value)
    ensures
        r.deep_view() == one_on_one(start@),
{
    let pairs1 = vec![entry("cal2", Value::Bool(true))];
    assert(pairs1.deep_view() =~= seq![("cal2"@, ValueV::Bool(true))]);
    let pairs2 = vec![
        entry("@type", text("RecurrenceRule")),
        entry("frequency", text("weekly")),
        entry("interval", Value::Number("1".to_string())),
    ];
    assert(pairs2.deep_view() =~= seq![
        ("@type"@, ValueV::Text("RecurrenceRule"@)),
        ("frequency"@, ValueV::Text("weekly"@)),
        ("interval"@, ValueV::Number("1"@)),
    ]);
    let list3 = vec![json_object(pairs2)];
    assert(list3.deep_view() =~= seq![
        object(seq![
            ("@type"@, ValueV::Text("RecurrenceRule"@)),
            ("frequency"@, ValueV::Text("weekly"@)),
            ("interval"@, ValueV::Number("1"@)),
        ]),
    ]);
    let pairs4 = vec![
        entry("@type", text("Event")),
        entry("id", text("evt4")),
        entry("uid", text("evt4-uid")),
        entry("title", text("1:1 with manager")),
        entry("start", text(start)),
        entry("timeZone", text("Europe/Berlin")),
        entry("duration", text("PT30M")),
        entry("calendarIds", json_object(pairs1)),
        entry("recurrenceRules", array_of(list3)),
    ];
    assert(pairs4.deep_view() =~= seq![
        ("@type"@, ValueV::Text("Event"@)),
        ("id"@, ValueV::Text("evt4"@)),
        ("uid"@, ValueV::Text("evt4-uid"@)),
        ("title"@, ValueV::Text("1:1 with manager"@)),
        ("start"@, ValueV::Text(start@)),
        ("timeZone"@, ValueV::Text("Europe/Berlin"@)),
        ("duration"@, ValueV::Text("PT30M"@)),
        ("calendarIds"@, object(seq![("cal2"@, ValueV::Bool(true))])),
        ("recurrenceRules"@, ValueV::Array(seq![
            object(seq![
                ("@type"@, ValueV::Text("RecurrenceRule"@)),
                ("frequency"@, ValueV::Text("weekly"@)),
                ("interval"@, ValueV::Number("1"@)),
            ]),
        ])),
    ]);
    json_object(pairs4)
}

/// The address book.
pub open spec fn contacts_book() -> ValueV {
    object(seq![
        ("id"@, ValueV::Text("ab1"@)),
        ("name"@, ValueV::Text("Contacts"@)),
        ("sortOrder"@, ValueV::Number("0"@)),
        ("isSubscribed"@, ValueV::Bool(true)),
    ])
}

fn make_contacts_book() -> (r: Value)
    ensures
        r.deep_view() == contacts_book(),
{
    let pairs1 = vec![
        entry("id", text("ab1")),
        entry("name", text("Contacts")),
        entry("sortOrder", Value::Number("0".to_string())),
        entry("isSubscribed", Value::Bool(true)),
    ];
    assert(pairs1.deep_view() =~= seq![
        ("id"@, ValueV::Text("ab1"@)),
        ("name"@, ValueV::Text("Contacts"@)),
        ("sortOrder"@, ValueV::Number("0"@)),
        ("isSubscribed"@, ValueV::Bool(true)),
    ]);
    json_object(pairs1)
}

/// Someone who was born on this day of the year.
pub open spec fn ada(utc: Seq<char>) -> ValueV {
    object(seq![
        ("@type"@, ValueV::Text("Card"@)),
        ("version"@, ValueV::Text("1.0"@)),
        ("id"@, ValueV::Text("card1"@)),
        ("uid"@, ValueV::Text("card1-uid"@)),
        ("name"@, object(seq![
            ("@type"@, ValueV::Text("Name"@)),
            ("full"@, ValueV::Text("Ada Lovelace"@)),
        ])),
        ("emails"@, object(seq![
            ("e1"@, object(seq![
                ("@type"@, ValueV::Text("EmailAddress"@)),
                ("address"@, ValueV::Text("ada@example.com"@)),
            ])),
        ])),
        ("anniversaries"@, object(seq![
            ("a1"@, object(seq![
                ("@type"@, ValueV::Text("Anniversary"@)),
                ("kind"@, ValueV::Text("birth"@)),
                ("date"@, object(seq![
                    ("@type"@, ValueV::Text("Timestamp"@)),
                    ("utc"@, ValueV::Text(utc)),
                ])),
            ])),
        ])),
        ("addressBookIds"@, object(seq![("ab1"@, ValueV::Bool(true))])),
    ])
}

fn make_ada(utc: &str) -> (r: Value)
    ensures
        r.deep_view() == ada(utc@),
{
    let pairs1 = vec![entry("@type", text("Name")), entry("full", text("Ada Lovelace"))];
    assert(pairs1.deep_view() =~= seq![
        ("@type"@, ValueV::Text("Name"@)),
        ("full"@, ValueV::Text("Ada Lovelace"@)),
    ]);
    let pairs2 = vec![
        entry("@type", text("EmailAddress")),
        entry("address", text("ada@example.com")),
    ];
    assert(pairs2.deep_view() =~= seq![
        ("@type"@, ValueV::Text("EmailAddress"@)),
        ("address"@, ValueV::Text("ada@example.com"@)),
    ]);
    let pairs3 = vec![entry("e1", json_object(pairs2))];
    assert(pairs3.deep_view() =~= seq![
        ("e1"@, object(seq![
            ("@type"@, ValueV::Text("EmailAddress"@)),
            ("address"@, ValueV::Text("ada@example.com"@)),
        ])),
    ]);
    let pairs4 = vec![entry("@type", text("Timestamp")), entry("utc", text(utc))];
    assert(pairs4.deep_view() =~= seq![
        ("@type"@, ValueV::Text("Timestamp"@)),
        ("utc"@, ValueV::Text(utc@)),
    ]);
    let pairs5 = vec![
        entry("@type", text("Anniversary")),
        entry("kind", text("birth")),
        entry("date", json_object(pairs4)),
    ];
    assert(pairs5.deep_view() =~= seq![
        ("@type"@, ValueV::Text("Anniversary"@)),
        ("kind"@, ValueV::Text("birth"@)),
        ("date"@, object(seq![("@type"@, ValueV::Text("Timestamp"@)), ("utc"@, ValueV::Text(utc@))])),
    ]);
    let pairs6 = vec![entry("a1", json_object(pairs5))];
    assert(pairs6.deep_view() =~= seq![
        ("a1"@, object(seq![
            ("@type"@, ValueV::Text("Anniversary"@)),
            ("kind"@, ValueV::Text("birth"@)),
            ("date"@, object(seq![("@type"@, ValueV::Text("Timestamp"@)), ("utc"@, ValueV::Text(utc@))])),
        ])),
    ]);
    let pairs7 = vec![entry("ab1", Value::Bool(true))];
    assert(pairs7.deep_view() =~= seq![("ab1"@, ValueV::Bool(true))]);
    let pairs8 = vec![
        entry("@type", text("Card")),
        entry("version", text("1.0")),
        entry("id", text("card1")),
        entry("uid", text("card1-uid")),
        entry("name", json_object(pairs1)),
        entry("emails", json_object(pairs3)),
        entry("anniversaries", json_object(pairs6)),
        entry("addressBookIds", json_object(pairs7)),
    ];
    assert(pairs8.deep_view() =~= seq![
        ("@type"@, ValueV::Text("Card"@)),
        ("version"@, ValueV::Text("1.0"@)),
        ("id"@, ValueV::Text("card1"@)),
        ("uid"@, ValueV::Text("card1-uid"@)),
        ("name"@, object(seq![
            ("@type"@, ValueV::Text("Name"@)),
            ("full"@, ValueV::Text("Ada Lovelace"@)),
        ])),
        ("emails"@, object(seq![
            ("e1"@, object(seq![
                ("@type"@, ValueV::Text("EmailAddress"@)),
                ("address"@, ValueV::Text("ada@example.com"@)),
            ])),
        ])),
        ("anniversaries"@, object(seq![
            ("a1"@, object(seq![
                ("@type"@, ValueV::Text("Anniversary"@)),
                ("kind"@, ValueV::Text("birth"@)),
                ("date"@, object(seq![
                    ("@type"@, ValueV::Text("Timestamp"@)),
                    ("utc"@, ValueV::Text(utc@)),
                ])),
            ])),
        ])),
        ("addressBookIds"@, object(seq![("ab1"@, ValueV::Bool(true))])),
    ]);
    json_object(pairs8)
}

/// Someone whose birthday comes soon, without a year.
pub open spec fn grace(month: u32, day: u32) -> ValueV {
    object(seq![
        ("@type"@, ValueV::Text("Card"@)),
        ("version"@, ValueV::Text("1.0"@)),
        ("id"@, ValueV::Text("card2"@)),
        ("uid"@, ValueV::Text("card2-uid"@)),
        ("name"@, object(seq![
            ("@type"@, ValueV::Text("Name"@)),
            ("full"@, ValueV::Text("Grace Hopper"@)),
        ])),
        ("emails"@, object(seq![
            ("e1"@, object(seq![
                ("@type"@, ValueV::Text("EmailAddress"@)),
                ("address"@, ValueV::Text("grace@example.com"@)),
            ])),
        ])),
        ("anniversaries"@, object(seq![
            ("a1"@, object(seq![
                ("@type"@, ValueV::Text("Anniversary"@)),
                ("kind"@, ValueV::Text("birth"@)),
                ("date"@, object(seq![
                    ("@type"@, ValueV::Text("PartialDate"@)),
                    ("month"@, ValueV::Number(dec(month as nat))),
                    ("day"@, ValueV::Number(dec(day as nat))),
                ])),
            ])),
        ])),
        ("addressBookIds"@, object(seq![("ab1"@, ValueV::Bool(true))])),
    ])
}

fn make_grace(month: u32, day: u32) -> (r: Value)
    ensures
        r.deep_view() == grace(month, day),
{
    let pairs1 = vec![entry("@type", text("Name")), entry("full", text("Grace Hopper"))];
    assert(pairs1.deep_view() =~= seq![
        ("@type"@, ValueV::Text("Name"@)),
        ("full"@, ValueV::Text("Grace Hopper"@)),
    ]);
    let pairs2 = vec![
        entry("@type", text("EmailAddress")),
        entry("address", text("grace@example.com")),
    ];
    assert(pairs2.deep_view() =~= seq![
        ("@type"@, ValueV::Text("EmailAddress"@)),
        ("address"@, ValueV::Text("grace@example.com"@)),
    ]);
    let pairs3 = vec![entry("e1", json_object(pairs2))];
    assert(pairs3.deep_view() =~= seq![
        ("e1"@, object(seq![
            ("@type"@, ValueV::Text("EmailAddress"@)),
            ("address"@, ValueV::Text("grace@example.com"@)),
        ])),
    ]);
    let pairs4 = vec![
        entry("@type", text("PartialDate")),
        entry("month", Value::Number(u64_text(month as u64))),
        entry("day", Value::Number(u64_text(day as u64))),
    ];
    assert(pairs4.deep_view() =~= seq![
        ("@type"@, ValueV::Text("PartialDate"@)),
        ("month"@, ValueV::Number(dec(month as nat))),
        ("day"@, ValueV::Number(dec(day as nat))),
    ]);
    let pairs5 = vec![
        entry("@type", text("Anniversary")),
        entry("kind", text("birth")),
        entry("date", json_object(pairs4)),
    ];
    assert(pairs5.deep_view() =~= seq![
        ("@type"@, ValueV::Text("Anniversary"@)),
        ("kind"@, ValueV::Text("birth"@)),
        ("date"@, object(seq![
            ("@type"@, ValueV::Text("PartialDate"@)),
            ("month"@, ValueV::Number(dec(month as nat))),
            ("day"@, ValueV::Number(dec(day as nat))),
        ])),
    ]);
    let pairs6 = vec![entry("a1", json_object(pairs5))];
    assert(pairs6.deep_view() =~= seq![
        ("a1"@, object(seq![
            ("@type"@, ValueV::Text("Anniversary"@)),
            ("kind"@, ValueV::Text("birth"@)),
            ("date"@, object(seq![
                ("@type"@, ValueV::Text("PartialDate"@)),
                ("month"@, ValueV::Number(dec(month as nat))),
                ("day"@, ValueV::Number(dec(day as nat))),
            ])),
        ])),
    ]);
    let pairs7 = vec![entry("ab1", Value::Bool(true))];
    assert(pairs7.deep_view() =~= seq![("ab1"@, ValueV::Bool(true))]);
    let pairs8 = vec![
        entry("@type", text("Card")),
        entry("version", text("1.0")),
        entry("id", text("card2")),
        entry("uid", text("card2-uid")),
        entry("name", json_object(pairs1)),
        entry("emails", json_object(pairs3)),
        entry("anniversaries", json_object(pairs6)),
        entry("addressBookIds", json_object(pairs7)),
    ];
    assert(pairs8.deep_view() =~= seq![
        ("@type"@, ValueV::Text("Card"@)),
        ("version"@, ValueV::Text("1.0"@)),
        ("id"@, ValueV::Text("card2"@)),
        ("uid"@, ValueV::Text("card2-uid"@)),
        ("name"@, object(seq![
            ("@type"@, ValueV::Text("Name"@)),
            ("full"@, ValueV::Text("Grace Hopper"@)),
        ])),
        ("emails"@, object(seq![
            ("e1"@, object(seq![
                ("@type"@, ValueV::Text("EmailAddress"@)),
                ("address"@, ValueV::Text("grace@example.com"@)),
            ])),
        ])),
        ("anniversaries"@, object(seq![
            ("a1"@, object(seq![
                ("@type"@, ValueV::Text("Anniversary"@)),
                ("kind"@, ValueV::Text("birth"@)),
                ("date"@, object(seq![
                    ("@type"@, ValueV::Text("PartialDate"@)),
                    ("month"@, ValueV::Number(dec(month as nat))),
                    ("day"@, ValueV::Number(dec(day as nat))),
                ])),
            ])),
        ])),
        ("addressBookIds"@, object(seq![("ab1"@, ValueV::Bool(true))])),
    ]);
    json_object(pairs8)
}

/// Someone of whom only the name is known.
pub open spec fn alan() -> ValueV {
    object(seq![
        ("@type"@, ValueV::Text("Card"@)),
        ("version"@, ValueV::Text("1.0"@)),
        ("id"@, ValueV::Text("card3"@)),
        ("uid"@, ValueV::Text("card3-uid"@)),
        ("name"@, object(seq![("@type"@, ValueV::Text("Name"@)), ("full"@, ValueV::Text("Alan Turing"@))])),
        ("addressBookIds"@, object(seq![("ab1"@, ValueV::Bool(true))])),
    ])
}

fn make_alan() -> (r: Value)
    ensures
        r.deep_view() == alan(),
{
    let pairs1 = vec![entry("@type", text("Name")), entry("full", text("Alan Turing"))];
    assert(pairs1.deep_view() =~= seq![
        ("@type"@, ValueV::Text("Name"@)),
        ("full"@, ValueV::Text("Alan Turing"@)),
    ]);
    let pairs2 = vec![entry("ab1", Value::Bool(true))];
    assert(pairs2.deep_view() =~= seq![("ab1"@, ValueV::Bool(true))]);
    let pairs3 = vec![
        entry("@type", text("Card")),
        entry("version", text("1.0")),
        entry("id", text("card3")),
        entry("uid", text("card3-uid")),
        entry("name", json_object(pairs1)),
        entry("addressBookIds", json_object(pairs2)),
    ];
    assert(pairs3.deep_view() =~= seq![
        ("@type"@, ValueV::Text("Card"@)),
        ("version"@, ValueV::Text("1.0"@)),
        ("id"@, ValueV::Text("card3"@)),
        ("uid"@, ValueV::Text("card3-uid"@)),
        ("name"@, object(seq![("@type"@, ValueV::Text("Name"@)), ("full"@, ValueV::Text("Alan Turing"@))])),
        ("addressBookIds"@, object(seq![("ab1"@, ValueV::Bool(true))])),
    ]);
    json_object(pairs3)
}

/// What the server starts with on a date, `None` where the days after it leave the calendar.
pub open spec fn seeded(date: NaiveDate) -> Option<DbV> {
    match (plus_days(date, 1), plus_days(date, 2), plus_days(date, 3), plus_days(date, 9)) {
        (Some(d1), Some(d2), Some(d3), Some(d9)) => Some(
            DbV {
                calendars: seq![personal_calendar(), work_calendar()],
                events: seq![
                    standup(iso_text(at_hour(date, 9))),
                    review(iso_text(at_hour(d1, 14))),
                    offsite(iso_text(d3.midnight())),
                    one_on_one(iso_text(at_hour(d2, 15))),
                ],
                address_books: seq![contacts_book()],
                cards: seq![
                    ada(
                        int_text(date.year - 41) + "-"@ + two(date.month as int).push('-') + two(
                            date.day as int,
                        ) + "T00:00:00Z"@,
                    ),
                    grace(d9.month, d9.day),
                    alan(),
                ],
                next_id: 100,
            },
        ),
        _ => None,
    }
}

/// An hour of a day.
pub open spec fn at_hour(d: NaiveDate, hour: int) -> NaiveDateTime {
    NaiveDateTime { date: d, secs: (hour * 3600) as u32, leap: false }
}

fn hour_text(d: NaiveDate, hour: u32) -> (r: String)
    requires
        d.valid(),
        hour < 24,
    ensures
        r@ == iso_text(at_hour(d, hour as int)),
{
    format_time(NaiveDateTime { date: d, secs: hour * 3600, leap: false }, "%Y-%m-%dT%H:%M:%S")
}

/// What the server starts with on a date: events and birthdays round it, so that it always
/// looks current. `None` where the days after it leave the calendar.
pub fn seed(date: NaiveDate) -> (r: Option<Db>)
    requires
        date.valid(),
    ensures
        r.deep_view() == seeded(date),
{
    let (d1, d2, d3, d9) = match (
        date.add_days(1),
        date.add_days(2),
        date.add_days(3),
        date.add_days(9),
    ) {
        (Some(a), Some(b), Some(c), Some(d)) => (a, b, c, d),
        _ => {
            return None;
        },
    };
    let mut born = i64_text(date.year as i64 - 41);
    born.append("-");
    born.append(format_time(date.at_midnight(), "%m-%d").as_str());
    born.append("T00:00:00Z");
    let db = Db {
        calendars: vec![make_personal_calendar(), make_work_calendar()],
        events: vec![
            make_standup(hour_text(date, 9).as_str()),
            make_review(hour_text(d1, 14).as_str()),
            make_offsite(hour_text(d3, 0).as_str()),
            make_one_on_one(hour_text(d2, 15).as_str()),
        ],
        address_books: vec![make_contacts_book()],
        cards: vec![
            make_ada(born.as_str()),
            make_grace(d9.month, d9.day),
            make_alan(),
        ],
        next_id: 100,
    };
    let ghost want = seeded(date)->0;
    assert(born@ =~= int_text(date.year - 41) + "-"@ + two(date.month as int).push('-') + two(
        date.day as int,
    ) + "T00:00:00Z"@);
    assert(db.calendars.deep_view() =~= want.calendars);
    assert(db.events.deep_view() =~= want.events);
    assert(db.address_books.deep_view() =~= want.address_books);
    assert(db.cards.deep_view() =~= want.cards);
    Some(db)
}

/// What the server tells of itself and of its user; `host` is how it is reached.
pub open spec fn session_object(host: Seq<char>) -> ValueV {
    object(seq![
        ("capabilities"@, object(seq![
            ("urn:ietf:params:jmap:core"@, object(Seq::empty())),
            ("urn:ietf:params:jmap:calendars"@, object(Seq::empty())),
            ("urn:ietf:params:jmap:contacts"@, object(Seq::empty())),
        ])),
        ("accounts"@, object(seq![
            ("acc1"@, object(seq![
                ("name"@, ValueV::Text("demo@example.com"@)),
                ("isPersonal"@, ValueV::Bool(true)),
                ("isReadOnly"@, ValueV::Bool(false)),
                ("accountCapabilities"@, object(seq![
                    ("urn:ietf:params:jmap:calendars"@, object(Seq::empty())),
                    ("urn:ietf:params:jmap:contacts"@, object(Seq::empty())),
                ])),
            ])),
        ])),
        ("primaryAccounts"@, object(seq![
            ("urn:ietf:params:jmap:calendars"@, ValueV::Text("acc1"@)),
            ("urn:ietf:params:jmap:contacts"@, ValueV::Text("acc1"@)),
        ])),
        ("username"@, ValueV::Text("demo@example.com"@)),
        ("apiUrl"@, ValueV::Text("http://"@ + host + "/api"@)),
        ("downloadUrl"@, ValueV::Text("http://"@ + host + "/download/{blobId}"@)),
        ("uploadUrl"@, ValueV::Text("http://"@ + host + "/upload"@)),
        ("state"@, ValueV::Text("s1"@)),
    ])
}

fn make_session_object(host: &str) -> (r: Value)
    ensures
        r.deep_view() == session_object(host@),
{
    let pairs1: Vec<(String, Value)> = Vec::new();
    assert(pairs1.deep_view() =~= Seq::<(Seq<char>, ValueV)>::empty());
    let pairs2: Vec<(String, Value)> = Vec::new();
    assert(pairs2.deep_view() =~= Seq::<(Seq<char>, ValueV)>::empty());
    let pairs3: Vec<(String, Value)> = Vec::new();
    assert(pairs3.deep_view() =~= Seq::<(Seq<char>, ValueV)>::empty());
    let pairs4 = vec![
        entry("urn:ietf:params:jmap:core", json_object(pairs1)),
        entry("urn:ietf:params:jmap:calendars", json_object(pairs2)),
        entry("urn:ietf:params:jmap:contacts", json_object(pairs3)),
    ];
    assert(pairs4.deep_view() =~= seq![
        ("urn:ietf:params:jmap:core"@, object(Seq::empty())),
        ("urn:ietf:params:jmap:calendars"@, object(Seq::empty())),
        ("urn:ietf:params:jmap:contacts"@, object(Seq::empty())),
    ]);
    let pairs5: Vec<(String, Value)> = Vec::new();
    assert(pairs5.deep_view() =~= Seq::<(Seq<char>, ValueV)>::empty());
    let pairs6: Vec<(String, Value)> = Vec::new();
    assert(pairs6.deep_view() =~= Seq::<(Seq<char>, ValueV)>::empty());
    let pairs7 = vec![
        entry("urn:ietf:params:jmap:calendars", json_object(pairs5)),
        entry("urn:ietf:params:jmap:contacts", json_object(pairs6)),
    ];
    assert(pairs7.deep_view() =~= seq![
        ("urn:ietf:params:jmap:calendars"@, object(Seq::empty())),
        ("urn:ietf:params:jmap:contacts"@, object(Seq::empty())),
    ]);
    let pairs8 = vec![
        entry("name", text("demo@example.com")),
        entry("isPersonal", Value::Bool(true)),
        entry("isReadOnly", Value::Bool(false)),
        entry("accountCapabilities", json_object(pairs7)),
    ];
    assert(pairs8.deep_view() =~= seq![
        ("name"@, ValueV::Text("demo@example.com"@)),
        ("isPersonal"@, ValueV::Bool(true)),
        ("isReadOnly"@, ValueV::Bool(false)),
        ("accountCapabilities"@, object(seq![
            ("urn:ietf:params:jmap:calendars"@, object(Seq::empty())),
            ("urn:ietf:params:jmap:contacts"@, object(Seq::empty())),
        ])),
    ]);
    let pairs9 = vec![entry("acc1", json_object(pairs8))];
    assert(pairs9.deep_view() =~= seq![
        ("acc1"@, object(seq![
            ("name"@, ValueV::Text("demo@example.com"@)),
            ("isPersonal"@, ValueV::Bool(true)),
            ("isReadOnly"@, ValueV::Bool(false)),
            ("accountCapabilities"@, object(seq![
                ("urn:ietf:params:jmap:calendars"@, object(Seq::empty())),
                ("urn:ietf:params:jmap:contacts"@, object(Seq::empty())),
            ])),
        ])),
    ]);
    let pairs10 = vec![
        entry("urn:ietf:params:jmap:calendars", text("acc1")),
        entry("urn:ietf:params:jmap:contacts", text("acc1")),
    ];
    assert(pairs10.deep_view() =~= seq![
        ("urn:ietf:params:jmap:calendars"@, ValueV::Text("acc1"@)),
        ("urn:ietf:params:jmap:contacts"@, ValueV::Text("acc1"@)),
    ]);
    let pairs11 = vec![
        entry("capabilities", json_object(pairs4)),
        entry("accounts", json_object(pairs9)),
        entry("primaryAccounts", json_object(pairs10)),
        entry("username", text("demo@example.com")),
        entry("apiUrl", text(host_url(host, "/api").as_str())),
        entry("downloadUrl", text(host_url(host, "/download/{blobId}").as_str())),
        entry("uploadUrl", text(host_url(host, "/upload").as_str())),
        entry("state", text("s1")),
    ];
    assert(pairs11.deep_view() =~= seq![
        ("capabilities"@, object(seq![
            ("urn:ietf:params:jmap:core"@, object(Seq::empty())),
            ("urn:ietf:params:jmap:calendars"@, object(Seq::empty())),
            ("urn:ietf:params:jmap:contacts"@, object(Seq::empty())),
        ])),
        ("accounts"@, object(seq![
            ("acc1"@, object(seq![
                ("name"@, ValueV::Text("demo@example.com"@)),
                ("isPersonal"@, ValueV::Bool(true)),
                ("isReadOnly"@, ValueV::Bool(false)),
                ("accountCapabilities"@, object(seq![
                    ("urn:ietf:params:jmap:calendars"@, object(Seq::empty())),
                    ("urn:ietf:params:jmap:contacts"@, object(Seq::empty())),
                ])),
            ])),
        ])),
        ("primaryAccounts"@, object(seq![
            ("urn:ietf:params:jmap:calendars"@, ValueV::Text("acc1"@)),
            ("urn:ietf:params:jmap:contacts"@, ValueV::Text("acc1"@)),
        ])),
        ("username"@, ValueV::Text("demo@example.com"@)),
        ("apiUrl"@, ValueV::Text("http://"@ + host@ + "/api"@)),
        ("downloadUrl"@, ValueV::Text("http://"@ + host@ + "/download/{blobId}"@)),
        ("uploadUrl"@, ValueV::Text("http://"@ + host@ + "/upload"@)),
        ("state"@, ValueV::Text("s1"@)),
    ]);
    json_object(pairs11)
}

fn host_url(host: &str, path: &str) -> (r: String)
    ensures
        r@ == "http://"@ + host@ + path@,
{
    let mut out = "http://".to_string();
    out.append(host);
    out.append(path);
    out
}

/// What the server tells of itself; `host` is how it is reached, where the client tells.
pub fn session(host: Option<&str>) -> (r: Value)
    ensures
        r.deep_view() == session_object(
            match host {
                Some(h) => h@,
                None => "127.0.0.1:9090"@,
            },
        ),
{
    match host {
        Some(h) => make_session_object(h),
        None => make_session_object("127.0.0.1:9090"),
    }
}

} // verus!
