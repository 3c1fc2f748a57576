//! What a client can rely on: what it writes to the server in memory it reads back.

use vstd::prelude::*;
use vstd::string::*;
use crate::client::{
    account_args, change_without_ids, list_in, made, query_args, query_calls, said, single,
};
use crate::collections::{get_after_insert, get_after_remove, map_get, map_insert, map_remove};
use crate::error::ErrorV;
use crate::json::{entries_of, merged, object, ValueV};
use crate::mock::{
    account_of, answer, asked_for, entries_under, filter_of, found_ids, items_under, key_resolved,
    keys_resolved, list_answer, lists_id, numbered, patched, query_answer, reference_keys, referred,
    refs_resolved, run, trimmed_start, with_ids, with_made, with_patches, without_ids, write_answer,
    written, DbV,
};
use crate::protocol::{answer_to, reference_to, result_of, MethodCallV};
use crate::text::text_less;

verus! {

/// An object is found under a key that it was made with last.
proof fn last_entry_found(pairs: Seq<(Seq<char>, ValueV)>, key: Seq<char>)
    requires
        pairs.len() > 0,
    ensures
        object(pairs).get(key) == (if pairs.last().0 == key {
            Some(pairs.last().1)
        } else {
            object(pairs.drop_last()).get(key)
        }),
{
    get_after_insert(entries_of(pairs.drop_last()), pairs.last().0, pairs.last().1, key);
}

/// What stands in an object of two entries.
proof fn pair_found(a: (Seq<char>, ValueV), b: (Seq<char>, ValueV), key: Seq<char>)
    requires
        a.0 != b.0,
    ensures
        object(seq![a, b]).get(a.0) == Some(a.1),
        object(seq![a, b]).get(b.0) == Some(b.1),
        key != a.0 && key != b.0 ==> object(seq![a, b]).get(key) is None,
{
    let two = seq![a, b];
    let one = seq![a];
    let none = Seq::<(Seq<char>, ValueV)>::empty();
    assert(two.drop_last() =~= one);
    assert(one.drop_last() =~= none);
    assert(object(none).entries() =~= none);
    last_entry_found(two, a.0);
    last_entry_found(two, b.0);
    last_entry_found(one, a.0);
    last_entry_found(two, key);
    last_entry_found(one, key);
}

/// What stands in an object of one entry.
proof fn single_found(key: Seq<char>, value: ValueV)
    ensures
        single(key, value).get(key) == Some(value),
        single(key, value).entries() == seq![(key, value)],
{
    let one = seq![(key, value)];
    let none = Seq::<(Seq<char>, ValueV)>::empty();
    assert(one.drop_last() =~= none);
    assert(entries_of(none) =~= none);
    assert(map_insert(none, key, value) =~= one);
}

// ---------------------------------------------------------------------------
// Deleting
// ---------------------------------------------------------------------------

/// What was deleted is gone, and everything else is still there, in its order.
pub proof fn deleted_is_gone(list: Seq<ValueV>, ids: Seq<ValueV>)
    ensures
        forall|i: int|
            0 <= i < without_ids(list, ids).len() ==> !((#[trigger] without_ids(
                list,
                ids,
            )[i]).get_str("id"@) matches Some(id) && lists_id(ids, id)),
        forall|x: ValueV| #[trigger]
            list.contains(x) && !(x.get_str("id"@) matches Some(id) && lists_id(ids, id))
                ==> without_ids(list, ids).contains(x),
        forall|x: ValueV| #[trigger] without_ids(list, ids).contains(x) ==> list.contains(x),
    decreases list.len(),
{
    if list.len() > 0 {
        let t = list.drop_last();
        let out = without_ids(list, ids);
        let before = without_ids(t, ids);
        deleted_is_gone(t, ids);
        assert forall|i: int| 0 <= i < out.len() implies !((#[trigger] out[i]).get_str(
            "id"@,
        ) matches Some(id) && lists_id(ids, id)) by {
            if i < before.len() {
                assert(out[i] == before[i]);
            }
        }
        assert forall|x: ValueV| #[trigger]
            list.contains(x) && !(x.get_str("id"@) matches Some(id) && lists_id(
                ids,
                id,
            )) implies out.contains(x) by {
            let k = choose|k: int| 0 <= k < list.len() && list[k] == x;
            if k < t.len() {
                assert(t[k] == x);
                assert(t.contains(x));
                let m = choose|m: int| 0 <= m < before.len() && before[m] == x;
                assert(out[m] == x);
            } else {
                assert(out[out.len() - 1] == x);
            }
        }
        assert forall|x: ValueV| #[trigger] out.contains(x) implies list.contains(x) by {
            let m = choose|m: int| 0 <= m < out.len() && out[m] == x;
            if m < before.len() {
                assert(before[m] == x);
                assert(before.contains(x));
                let k = choose|k: int| 0 <= k < t.len() && t[k] == x;
                assert(list[k] == x);
            } else {
                assert(list[list.len() - 1] == x);
            }
        }
    }
}

// ---------------------------------------------------------------------------
// Making
// ---------------------------------------------------------------------------

/// A call that makes one object puts it at the end of the list, under an id that the client is
/// told, and nothing else changes.
pub proof fn made_is_added(
    list: Seq<ValueV>,
    next_id: int,
    account: Seq<char>,
    value: ValueV,
    prefix: Seq<char>,
)
    ensures
        ({
            let args = account_args(account, "create"@, single("new"@, value));
            let id = numbered(prefix, next_id);
            &&& written(list, next_id, args, prefix) == (
                list.push(value.with("id"@, ValueV::Text(id))),
                next_id + 1,
            )
            &&& said(
                write_answer(account, list, next_id, args, prefix),
                "created"@,
                "new"@,
            ) == Some(object(seq![("id"@, ValueV::Text(id))]))
            &&& said(write_answer(account, list, next_id, args, prefix), "notCreated"@, "new"@) is None
        }),
{
    let args = account_args(account, "create"@, single("new"@, value));
    let id = numbered(prefix, next_id);
    let none = Seq::<(Seq<char>, ValueV)>::empty();
    keys_differ();
    let a = ("accountId"@, ValueV::Text(account));
    let c = ("create"@, single("new"@, value));
    pair_found(a, c, "update"@);
    pair_found(a, c, "destroy"@);
    single_found("new"@, value);
    let create = seq![("new"@, value)];
    assert(create.drop_last() =~= none);
    let told = object(seq![("id"@, ValueV::Text(id))]);
    let before = with_made(list, next_id, none, prefix);
    let m = with_made(list, next_id, create, prefix);
    assert(before.created =~= none && before.list == list && before.next_id == next_id);
    assert(map_insert(none, "new"@, told) =~= seq![("new"@, told)]);
    assert(create.last() == ("new"@, value));
    assert(m.created == seq![("new"@, told)]);
    assert(m.created[0] == ("new"@, told));
    assert(args.get("update"@) is None);
    assert(args.get("destroy"@) is None);
    let kept = m.list;
    keeps_all(kept);
    write_answer_found(account, list, next_id, args, prefix);
    assert(ValueV::Object(m.created).get("new"@) == Some(told));
}

proof fn keeps_all(list: Seq<ValueV>)
    ensures
        without_ids(list, Seq::empty()) == list,
    decreases list.len(),
{
    if list.len() > 0 {
        keeps_all(list.drop_last());
        assert(list.drop_last().push(list.last()) =~= list);
    }
}

proof fn keys_differ()
    ensures
        "accountId"@ != "create"@,
        "accountId"@ != "update"@,
        "accountId"@ != "destroy"@,
        "create"@ != "update"@,
        "create"@ != "destroy"@,
        "update"@ != "destroy"@,
{
    reveal_strlit("accountId");
    reveal_strlit("create");
    reveal_strlit("update");
    reveal_strlit("destroy");
    assert("create"@[0] != "update"@[0]);
    assert("accountId"@.len() == 9 && "create"@.len() == 6 && "update"@.len() == 6
        && "destroy"@.len() == 7);
}

proof fn answer_keys_differ()
    ensures
        "created"@ != "accountId"@,
        "created"@ != "oldState"@,
        "created"@ != "newState"@,
        "created"@ != "updated"@,
        "created"@ != "destroyed"@,
        "notCreated"@ != "accountId"@,
        "notCreated"@ != "oldState"@,
        "notCreated"@ != "newState"@,
        "notCreated"@ != "created"@,
        "notCreated"@ != "updated"@,
        "notCreated"@ != "destroyed"@,
{
    reveal_strlit("created");
    reveal_strlit("notCreated");
    reveal_strlit("accountId");
    reveal_strlit("oldState");
    reveal_strlit("newState");
    reveal_strlit("updated");
    reveal_strlit("destroyed");
    assert("created"@.len() == 7 && "notCreated"@.len() == 10 && "accountId"@.len() == 9);
    assert("oldState"@.len() == 8 && "newState"@.len() == 8 && "destroyed"@.len() == 9);
    assert("created"@[0] != "updated"@[0]);
    assert("updated"@.len() == 7);
}

/// What the answer to a write says of new objects.
proof fn write_answer_found(
    account: Seq<char>,
    list: Seq<ValueV>,
    next_id: int,
    args: ValueV,
    prefix: Seq<char>,
)
    ensures
        write_answer(account, list, next_id, args, prefix).get("created"@) == Some(
            ValueV::Object(with_made(list, next_id, entries_under(args, "create"@), prefix).created),
        ),
        write_answer(account, list, next_id, args, prefix).get("notCreated"@) is None,
{
    answer_keys_differ();
    let m = with_made(list, next_id, entries_under(args, "create"@), prefix);
    let p = with_patches(m.list, entries_under(args, "update"@));
    let e0 = Seq::<(Seq<char>, ValueV)>::empty();
    let e1 = seq![("accountId"@, ValueV::Text(account))];
    let e2 = e1.push(("oldState"@, ValueV::Text("s1"@)));
    let e3 = e2.push(("newState"@, ValueV::Text("s2"@)));
    let e4 = e3.push(("created"@, ValueV::Object(m.created)));
    let e5 = e4.push(("updated"@, ValueV::Object(p.1)));
    let e6 = e5.push(("destroyed"@, ValueV::Array(items_under(args, "destroy"@))));
    assert(e6 =~= seq![
        ("accountId"@, ValueV::Text(account)),
        ("oldState"@, ValueV::Text("s1"@)),
        ("newState"@, ValueV::Text("s2"@)),
        ("created"@, ValueV::Object(m.created)),
        ("updated"@, ValueV::Object(p.1)),
        ("destroyed"@, ValueV::Array(items_under(args, "destroy"@))),
    ]);
    assert(e6.drop_last() =~= e5);
    assert(e5.drop_last() =~= e4);
    assert(e4.drop_last() =~= e3);
    assert(e3.drop_last() =~= e2);
    assert(e2.drop_last() =~= e1);
    assert(e1.drop_last() =~= e0);
    assert(object(e0).entries() =~= e0);
    last_entry_found(e6, "created"@);
    last_entry_found(e5, "created"@);
    last_entry_found(e4, "created"@);
    last_entry_found(e6, "notCreated"@);
    last_entry_found(e5, "notCreated"@);
    last_entry_found(e4, "notCreated"@);
    last_entry_found(e3, "notCreated"@);
    last_entry_found(e2, "notCreated"@);
    last_entry_found(e1, "notCreated"@);
}

/// An object that was made is read back by its id, as it was sent, with that id.
pub proof fn made_is_read_back(list: Seq<ValueV>, next_id: int, value: ValueV, prefix: Seq<char>)
    requires
        value is Object,
    ensures
        ({
            let id = numbered(prefix, next_id);
            let kept = value.with("id"@, ValueV::Text(id));
            &&& kept.get_str("id"@) == Some(id)
            &&& forall|key: Seq<char>| key != "id"@ ==> #[trigger] kept.get(key) == value.get(key)
            &&& with_ids(list.push(kept), seq![ValueV::Text(id)]).last() == kept
            &&& with_ids(list.push(kept), seq![ValueV::Text(id)]).len() == with_ids(
                list,
                seq![ValueV::Text(id)],
            ).len() + 1
        }),
{
    let id = numbered(prefix, next_id);
    let kept = value.with("id"@, ValueV::Text(id));
    let ids = seq![ValueV::Text(id)];
    get_after_insert(value.entries(), "id"@, ValueV::Text(id), "id"@);
    assert forall|key: Seq<char>| key != "id"@ implies #[trigger] kept.get(key) == value.get(key) by {
        get_after_insert(value.entries(), "id"@, ValueV::Text(id), key);
    }
    assert(ids[0] == ValueV::Text(id));
    assert(lists_id(ids, id));
    assert(list.push(kept).drop_last() =~= list);
}

/// A client that made an object gets back what it sent, with the id that the server chose.
pub proof fn client_gets_what_it_made(
    list: Seq<ValueV>,
    next_id: int,
    account: Seq<char>,
    kind: Seq<char>,
    value: ValueV,
    prefix: Seq<char>,
)
    requires
        value is Object,
    ensures
        ({
            let args = account_args(account, "create"@, single("new"@, value));
            let result = write_answer(account, list, next_id, args, prefix);
            made(Ok(result), kind, value) == Ok::<ValueV, ErrorV>(
                written(list, next_id, args, prefix).0.last(),
            )
        }),
{
    made_is_added(list, next_id, account, value, prefix);
    let id = numbered(prefix, next_id);
    let told = object(seq![("id"@, ValueV::Text(id))]);
    single_found("id"@, ValueV::Text(id));
    assert(told == single("id"@, ValueV::Text(id)));
    let entries = told.entries();
    assert(entries.drop_last() =~= Seq::<(Seq<char>, ValueV)>::empty());
    assert(entries.last() == ("id"@, ValueV::Text(id)));
    assert(value.with_entries(entries.drop_last()) == value);
}

// ---------------------------------------------------------------------------
// Changing
// ---------------------------------------------------------------------------

/// A change is made to the first object with the id, and to no other.
pub proof fn changed_is_patched(list: Seq<ValueV>, id: Seq<char>, patch: ValueV, k: int)
    requires
        0 <= k < list.len(),
        list[k].get_str("id"@) == Some(id),
        forall|i: int| 0 <= i < k ==> (#[trigger] list[i]).get_str("id"@) != Some(id),
    ensures
        patched(list, id, patch) == list.update(k, merged(list[k], patch)),
    decreases list.len(),
{
    if k == 0 {
        assert(seq![merged(list[0], patch)] + list.skip(1) =~= list.update(
            0,
            merged(list[0], patch),
        ));
    } else {
        assert(list[0].get_str("id"@) != Some(id));
        let t = list.skip(1);
        assert forall|i: int| 0 <= i < k - 1 implies (#[trigger] t[i]).get_str("id"@) != Some(id) by {
            assert(t[i] == list[i + 1]);
        }
        changed_is_patched(t, id, patch, k - 1);
        assert(seq![list[0]] + t.update(k - 1, merged(list[k], patch)) =~= list.update(
            k,
            merged(list[k], patch),
        ));
    }
}

/// What is under a key that the entries do not name stays.
proof fn others_kept(base: ValueV, entries: Seq<(Seq<char>, ValueV)>, key: Seq<char>)
    requires
        map_get(entries, key) is None,
    ensures
        base.with_entries(entries).get(key) == base.get(key),
    decreases entries.len(),
{
    if entries.len() > 0 {
        let t = entries.drop_last();
        first_part_lacks(entries, key);
        others_kept(base, t, key);
        let before = base.with_entries(t);
        get_after_insert(before.entries(), entries.last().0, entries.last().1, key);
    }
}

/// A key that is nowhere is not in the first part, and not the last one.
proof fn first_part_lacks(entries: Seq<(Seq<char>, ValueV)>, key: Seq<char>)
    requires
        entries.len() > 0,
        map_get(entries, key) is None,
    ensures
        map_get(entries.drop_last(), key) is None,
        entries.last().0 != key,
    decreases entries.len(),
{
    if entries.len() > 1 {
        first_part_lacks(entries.skip(1), key);
        assert(entries.drop_last().skip(1) =~= entries.skip(1).drop_last());
    }
}

/// A change leaves the ids of an object as they are.
pub proof fn change_keeps_ids(base: ValueV, value: ValueV)
    ensures
        merged(base, change_without_ids(value)).get("id"@) == base.get("id"@),
        merged(base, change_without_ids(value)).get("uid"@) == base.get("uid"@),
{
    let patch = change_without_ids(value);
    if value is Object {
        let first = map_remove(value.entries(), "id"@);
        get_after_remove(value.entries(), "id"@, "id"@);
        get_after_remove(first, "uid"@, "id"@);
        get_after_remove(first, "uid"@, "uid"@);
    }
    others_kept(base, patch.entries(), "id"@);
    others_kept(base, patch.entries(), "uid"@);
}

// ---------------------------------------------------------------------------
// Asking for events and for what was found, at once
// ---------------------------------------------------------------------------

proof fn get_keys_differ()
    ensures
        "#ids"@ != "accountId"@,
        "ids"@ != "accountId"@,
        "ids"@ != "#ids"@,
        text_less("#ids"@, "accountId"@),
        "#ids"@.len() > 0 && "#ids"@[0] == '#',
        "accountId"@.len() > 0 && "accountId"@[0] != '#',
        trimmed_start("#ids"@, '#') == "ids"@,
        trimmed_start("/ids"@, '/') == "ids"@,
{
    reveal_strlit("#ids");
    reveal_strlit("/ids");
    reveal_strlit("ids");
    reveal_strlit("accountId");
    assert("#ids"@.len() == 4 && "accountId"@.len() == 9 && "ids"@.len() == 3);
    assert("#ids"@.skip(1) =~= "ids"@);
    assert("/ids"@.skip(1) =~= "ids"@);
    reveal_with_fuel(trimmed_start, 3);
}

/// The reference in the second call is replaced by what the first one found.
proof fn ids_filled_in(account: Seq<char>, prior: Seq<MethodCallV>, ids: ValueV)
    requires
        referred(reference_to("q0"@, "CalendarEvent/query"@, "/ids"@), prior) == Some(ids),
    ensures
        ({
            let args = account_args(
                account,
                "#ids"@,
                reference_to("q0"@, "CalendarEvent/query"@, "/ids"@),
            );
            &&& refs_resolved(args, prior).get("ids"@) == Some(ids)
            &&& refs_resolved(args, prior).get("accountId"@) == Some(ValueV::Text(account))
        }),
{
    get_keys_differ();
    let reference = reference_to("q0"@, "CalendarEvent/query"@, "/ids"@);
    let a = ("accountId"@, ValueV::Text(account));
    let h = ("#ids"@, reference);
    let args = account_args(account, "#ids"@, reference);
    let none = Seq::<(Seq<char>, ValueV)>::empty();
    assert(seq![a, h].drop_last() =~= seq![a]);
    assert(seq![a].drop_last() =~= none);
    assert(map_insert(none, a.0, a.1) =~= seq![a]);
    assert(entries_of(seq![a]) == map_insert(entries_of(none), a.0, a.1));
    assert(entries_of(none) =~= none);
    assert(entries_of(seq![a, h]) == map_insert(seq![a], h.0, h.1));
    assert(map_insert(seq![a], h.0, h.1) =~= seq![h, a]);
    assert(args.entries() == seq![h, a]);
    let keys = reference_keys(args.entries());
    assert(seq![h, a].drop_last() =~= seq![h]);
    assert(seq![h].drop_last() =~= none);
    reveal_with_fuel(reference_keys, 3);
    assert(keys =~= seq!["#ids"@]);
    assert(keys.drop_last() =~= Seq::<Seq<char>>::empty());
    reveal_with_fuel(keys_resolved, 2);
    assert(refs_resolved(args, prior) == key_resolved(args, "#ids"@, prior));
    pair_found(a, h, "ids"@);
    let filled = args.with("ids"@, ids);
    get_after_insert(args.entries(), "ids"@, ids, "ids"@);
    get_after_insert(args.entries(), "ids"@, ids, "accountId"@);
    get_after_remove(filled.entries(), "#ids"@, "ids"@);
    get_after_remove(filled.entries(), "#ids"@, "accountId"@);
}

proof fn query_found(account: Seq<char>, ids: Seq<ValueV>)
    ensures
        query_answer(account, ids).get("ids"@) == Some(ValueV::Array(ids)),
{
    reveal_strlit("ids");
    reveal_strlit("total");
    assert("ids"@.len() != "total"@.len());
    let all = seq![
        ("accountId"@, ValueV::Text(account)),
        ("queryState"@, ValueV::Text("q1"@)),
        ("canCalculateChanges"@, ValueV::Bool(false)),
        ("position"@, ValueV::Number("0"@)),
        ("ids"@, ValueV::Array(ids)),
        ("total"@, ValueV::Number(crate::numbers::dec(ids.len()))),
    ];
    last_entry_found(all, "ids"@);
    let five = all.drop_last();
    assert(five.last() == ("ids"@, ValueV::Array(ids)));
    last_entry_found(five, "ids"@);
}

pub proof fn list_found(account: Seq<char>, list: Seq<ValueV>)
    ensures
        list_answer(account, list).get("list"@) == Some(ValueV::Array(list)),
{
    reveal_strlit("list");
    reveal_strlit("notFound");
    assert("list"@.len() != "notFound"@.len());
    let all = seq![
        ("accountId"@, ValueV::Text(account)),
        ("state"@, ValueV::Text("s1"@)),
        ("list"@, ValueV::Array(list)),
        ("notFound"@, ValueV::Array(Seq::empty())),
    ];
    last_entry_found(all, "list"@);
    let three = all.drop_last();
    assert(three.last() == ("list"@, ValueV::Array(list)));
    last_entry_found(three, "list"@);
}

proof fn reference_found(id: Seq<char>, name: Seq<char>, path: Seq<char>)
    ensures
        reference_to(id, name, path).get_str("resultOf"@) == Some(id),
        reference_to(id, name, path).get_str("path"@) == Some(path),
{
    reveal_strlit("resultOf");
    reveal_strlit("name");
    reveal_strlit("path");
    assert("resultOf"@.len() == 8 && "name"@.len() == 4 && "path"@.len() == 4);
    assert("name"@[0] != "path"@[0]);
    let all = seq![
        ("resultOf"@, ValueV::Text(id)),
        ("name"@, ValueV::Text(name)),
        ("path"@, ValueV::Text(path)),
    ];
    let two = all.drop_last();
    let one = two.drop_last();
    assert(two.last() == ("name"@, ValueV::Text(name)));
    assert(one.last() == ("resultOf"@, ValueV::Text(id)));
    last_entry_found(all, "path"@);
    last_entry_found(all, "resultOf"@);
    last_entry_found(two, "resultOf"@);
    last_entry_found(one, "resultOf"@);
}

proof fn method_names_differ()
    ensures
        "CalendarEvent/query"@ != "Calendar/get"@,
        "CalendarEvent/query"@ != "Calendar/set"@,
        "CalendarEvent/query"@ != "CalendarEvent/get"@,
        "CalendarEvent/query"@ != "CalendarEvent/set"@,
        "CalendarEvent/get"@ != "Calendar/get"@,
        "CalendarEvent/get"@ != "Calendar/set"@,
        "CalendarEvent/get"@ != "CalendarEvent/set"@,
        "CalendarEvent/get"@ != "error"@,
        "q0"@ != "g0"@,
{
    reveal_strlit("CalendarEvent/query");
    reveal_strlit("CalendarEvent/get");
    reveal_strlit("CalendarEvent/set");
    reveal_strlit("Calendar/get");
    reveal_strlit("Calendar/set");
    reveal_strlit("error");
    reveal_strlit("q0");
    reveal_strlit("g0");
    assert("CalendarEvent/query"@.len() == 19 && "CalendarEvent/get"@.len() == 17);
    assert("CalendarEvent/set"@.len() == 17 && "Calendar/get"@.len() == 12);
    assert("Calendar/set"@.len() == 12 && "error"@.len() == 5);
    assert("CalendarEvent/get"@[14] != "CalendarEvent/set"@[14]);
    assert("q0"@[0] != "g0"@[0]);
}

/// The arguments of a query hold no references: they are taken as they are.
proof fn query_args_plain(
    account: Seq<char>,
    filter: Seq<(Seq<char>, ValueV)>,
    prior: Seq<MethodCallV>,
)
    ensures
        refs_resolved(query_args(account, filter), prior) == query_args(account, filter),
{
    let none = Seq::<(Seq<char>, ValueV)>::empty();
    let a = ("accountId"@, ValueV::Text(account));
    reveal_strlit("accountId");
    reveal_strlit("filter");
    reveal_with_fuel(reference_keys, 3);
    single_found("accountId"@, ValueV::Text(account));
    assert(seq![a].drop_last() =~= none);
    if filter.len() > 0 {
        let f = ("filter"@, object(filter));
        assert(text_less("accountId"@, "filter"@));
        assert("accountId"@.len() != "filter"@.len());
        assert(!text_less("filter"@, "accountId"@));
        assert(seq![a, f].drop_last() =~= seq![a]);
        assert(entries_of(none) =~= none);
        assert(entries_of(seq![a]) =~= seq![a]);
        reveal_with_fuel(map_insert, 3);
        assert(seq![a].skip(1) =~= none);
        assert(map_insert(none, f.0, f.1) =~= seq![f]);
        assert(map_insert(seq![a], f.0, f.1) =~= seq![a, f]);
        assert(query_args(account, filter).entries() =~= seq![a, f]);
    }
    assert(reference_keys(query_args(account, filter).entries()) =~= Seq::<Seq<char>>::empty());
}

/// The events that a query finds come back in the same round trip: the list that the client
/// reads is that of the objects whose ids were found.
pub proof fn query_brings_events(db: DbV, account: Seq<char>, filter: Seq<(Seq<char>, ValueV)>)
    requires
        found_ids(db.events, filter_of(query_args(account, filter))) is Some,
    ensures
        ({
            let ids = found_ids(db.events, filter_of(query_args(account, filter)))->0;
            let after = run(db, query_calls(account, filter));
            &&& after is Some
            &&& (after->0).0 == db
            &&& list_in(result_of((after->0).1, "g0"@)) == Ok::<ValueV, ErrorV>(
                ValueV::Array(with_ids(db.events, ids)),
            )
        }),
{
    let ids = found_ids(db.events, filter_of(query_args(account, filter)))->0;
    let calls = query_calls(account, filter);
    let none = Seq::<MethodCallV>::empty();
    method_names_differ();
    get_keys_differ();
    assert(calls.drop_last() =~= seq![calls[0]]);
    assert(calls.drop_last().drop_last() =~= none);
    query_args_plain(account, filter, none);
    let named = account_of(query_args(account, filter));
    let q = MethodCallV {
        name: "CalendarEvent/query"@,
        args: query_answer(named, ids),
        id: "q0"@,
    };
    assert(run(db, none) == Some((db, none)));
    assert(none.push(q) =~= seq![q]);
    assert(run(db, calls.drop_last()) == Some((db, seq![q])));
    query_found(named, ids);
    reference_found("q0"@, "CalendarEvent/query"@, "/ids"@);
    assert(answer_to(seq![q], "q0"@) == Some(q));
    ids_filled_in(account, seq![q], ValueV::Array(ids));
    let args = refs_resolved(calls[1].args, seq![q]);
    assert(calls.last() == calls[1]);
    let found = with_ids(db.events, ids);
    assert(asked_for(db.events, args) == found);
    let g = MethodCallV {
        name: "CalendarEvent/get"@,
        args: list_answer(account_of(args), found),
        id: "g0"@,
    };
    assert(answer(db, "CalendarEvent/get"@, args) == ("CalendarEvent/get"@, g.args));
    let answers = seq![q].push(g);
    assert(run(db, calls) == Some((db, answers)));
    assert(answers.skip(1) =~= seq![g]);
    assert(answer_to(seq![g], "g0"@) == Some(g));
    assert(answer_to(answers, "g0"@) == Some(g));
    list_found(account_of(args), found);
}

} // verus!
