//! What a query finds on the server in memory, what the client asks, and how it takes the answers.

use vstd::prelude::*;
use vstd::string::*;
use crate::calendar::{plus_secs, time_less};
use crate::client::{change_without_ids, event_filter, list_in, made, refusal, said};
use crate::collections::{get_after_remove, map_get, map_remove};
use crate::duration::duration_secs;
use crate::error::ErrorV;
use crate::jscalendar::local_time;
use crate::json::{merged, ValueV};
use crate::mock::{
    account_of, after_call, answer, asked_for, entries_under, first_bytes, found_ids, is_asked_for,
    lists_id, made_counts, trimmed_end, with_ids, with_made, DbV, FilterV,
};
use crate::mock_laws::list_found;
use crate::numbers::dec;
use crate::protocol::{
    answer_to, first_with, result_of, AccountV, MethodCallV, SessionV, CAPABILITY_CALENDARS,
    CAPABILITY_CONTACTS,
};
use crate::text::text_less;

verus! {

// ---------------------------------------------------------------------------
// Queries
// ---------------------------------------------------------------------------

/// An event is found by a calendar only where it is in one that is asked for; by a time only where
/// it has a start. One that repeats is always found.
pub proof fn query_goes_by_calendar(event: ValueV, f: FilterV, i: int)
    ensures
        f.in_calendars matches Some(c) ==> (0 <= i < entries_under(event, "calendarIds"@).len()
            && lists_id(c, entries_under(event, "calendarIds"@)[i].0) && event.get(
            "recurrenceRules"@,
        ) is Some ==> is_asked_for(event, f) == Some(true)),
        f.in_calendars matches Some(c) ==> ((forall|k: int|
            0 <= k < entries_under(event, "calendarIds"@).len() ==> !lists_id(
                c,
                (#[trigger] entries_under(event, "calendarIds"@)[k]).0,
            )) ==> is_asked_for(event, f) == Some(false)),
        f.in_calendars is None && event.get("recurrenceRules"@) is Some ==> is_asked_for(event, f)
            == Some(true),
        f.in_calendars is None && event.get("recurrenceRules"@) is None && event.get_str("start"@)
            is None ==> is_asked_for(event, f) == Some(false),
{
}

/// An event that happens once is found where it starts before the range ends, and starts in the
/// range or ends after the range starts.
pub proof fn query_goes_by_time(event: ValueV, f: FilterV, start: Seq<char>, from: Seq<char>)
    requires
        f.in_calendars is None,
        event.get("recurrenceRules"@) is None,
        event.get_str("start"@) == Some(start),
        f.after matches Some(a) ==> first_bytes(a, 19) == Some(from),
    ensures
        f.after is None && f.before is None ==> is_asked_for(event, f) == Some(true),
        f.before matches Some(b) ==> (!text_less(start, trimmed_end(b, 'Z')) ==> is_asked_for(
            event,
            f,
        ) == Some(false)),
        f.after is None ==> (f.before matches Some(b) ==> (text_less(start, trimmed_end(b, 'Z'))
            ==> is_asked_for(event, f) == Some(true))),
        f.after is Some && (f.before matches Some(b) ==> text_less(start, trimmed_end(b, 'Z')))
            ==> {
            &&& !text_less(start, from) ==> is_asked_for(event, f) == Some(true)
            &&& text_less(start, from) ==> ({
                let secs = match event.get_str("duration"@) {
                    Some(d) => match duration_secs(d) {
                        Some(Some(n)) => Some(
                            if n > 0 {
                                n
                            } else {
                                0
                            },
                        ),
                        _ => None,
                    },
                    None => None,
                };
                match (local_time(start), secs, local_time(from)) {
                    (Some(s), Some(n), Some(t)) => plus_secs(s, n) matches Some(end)
                        ==> is_asked_for(event, f) == Some(time_less(t, end)),
                    _ => is_asked_for(event, f) == Some(false),
                }
            })
        },
{
}

/// A query gives the ids of the events that it asks for, and no other.
pub proof fn query_gives_ids(events: Seq<ValueV>, f: FilterV, id: ValueV)
    requires
        found_ids(events, f) is Some,
    ensures
        found_ids(events, f)->0.contains(id) <==> exists|i: int|
            0 <= i < events.len() && is_asked_for(#[trigger] events[i], f) == Some(true)
                && events[i].get("id"@) == Some(id),
    decreases events.len(),
{
    if events.len() > 0 {
        let t = events.drop_last();
        let a = found_ids(t, f)->0;
        let b = found_ids(events, f)->0;
        query_gives_ids(t, f, id);
        if b.contains(id) {
            let i = choose|i: int| 0 <= i < b.len() && b[i] == id;
            if i < a.len() {
                assert(a[i] == id);
                let k = choose|k: int|
                    0 <= k < t.len() && is_asked_for(#[trigger] t[k], f) == Some(true) && t[k].get(
                        "id"@,
                    ) == Some(id);
                assert(events[k] == t[k]);
            } else {
                assert(is_asked_for(events[events.len() - 1], f) == Some(true));
            }
        }
        if exists|i: int|
            0 <= i < events.len() && is_asked_for(#[trigger] events[i], f) == Some(true)
                && events[i].get("id"@) == Some(id) {
            let k = choose|i: int|
                0 <= i < events.len() && is_asked_for(#[trigger] events[i], f) == Some(true)
                    && events[i].get("id"@) == Some(id);
            if k < t.len() {
                assert(t[k] == events[k]);
                let i = choose|i: int| 0 <= i < a.len() && a[i] == id;
                assert(b[i] == id);
            } else {
                assert(b[b.len() - 1] == id);
            }
        }
    }
}

/// Objects are given by the ids that are asked for: each that is there, and no other.
pub proof fn objects_are_given_by_id(list: Seq<ValueV>, ids: Seq<ValueV>, x: ValueV)
    ensures
        with_ids(list, ids).contains(x) <==> list.contains(x) && (x.get_str("id"@) matches Some(id)
            && ids.contains(ValueV::Text(id))),
    decreases list.len(),
{
    if x.get_str("id"@) is Some {
        let id = x.get_str("id"@)->0;
        if ids.contains(ValueV::Text(id)) {
            let k = choose|k: int| 0 <= k < ids.len() && ids[k] == ValueV::Text(id);
            assert(ids[k] == ValueV::Text(id));
        }
        if lists_id(ids, id) {
            let k = choose|k: int| 0 <= k < ids.len() && #[trigger] ids[k] == ValueV::Text(id);
            assert(ids.contains(ValueV::Text(id)));
        }
    }
    if list.len() > 0 {
        let t = list.drop_last();
        let a = with_ids(t, ids);
        let b = with_ids(list, ids);
        objects_are_given_by_id(t, ids, x);
        if b.contains(x) {
            let i = choose|i: int| 0 <= i < b.len() && b[i] == x;
            if i < a.len() {
                assert(a[i] == x);
                let k = choose|k: int| 0 <= k < t.len() && t[k] == x;
                assert(list[k] == x);
            } else {
                assert(list[list.len() - 1] == x);
            }
        }
        if list.contains(x) && (x.get_str("id"@) matches Some(id) && ids.contains(
            ValueV::Text(id),
        )) {
            let k = choose|k: int| 0 <= k < list.len() && list[k] == x;
            if k < t.len() {
                assert(t[k] == x);
                let i = choose|i: int| 0 <= i < a.len() && a[i] == x;
                assert(b[i] == x);
            } else {
                assert(b[b.len() - 1] == x);
            }
        }
    }
}

// ---------------------------------------------------------------------------
// The client
// ---------------------------------------------------------------------------

/// A query of the client says the calendar and the times that it is given, each under its own key,
/// and nothing that it is not given.
pub proof fn filter_says_what_is_given(
    calendar: Option<Seq<char>>,
    after: Option<Seq<char>>,
    before: Option<Seq<char>>,
)
    ensures
        ({
            let f = event_filter(calendar, after, before);
            &&& calendar matches Some(c) ==> map_get(f, "inCalendars"@) == Some(
                ValueV::Array(seq![ValueV::Text(c)]),
            )
            &&& calendar is None ==> map_get(f, "inCalendars"@) is None
            &&& after matches Some(a) ==> map_get(f, "after"@) == Some(ValueV::Text(a))
            &&& after is None ==> map_get(f, "after"@) is None
            &&& before matches Some(b) ==> map_get(f, "before"@) == Some(ValueV::Text(b))
            &&& before is None ==> map_get(f, "before"@) is None
        }),
{
    let f = event_filter(calendar, after, before);
    reveal_strlit("inCalendars");
    reveal_strlit("after");
    reveal_strlit("before");
    assert("inCalendars"@.len() == 11 && "after"@.len() == 5 && "before"@.len() == 6);
    reveal_with_fuel(map_get, 4);
    if f.len() > 0 {
        assert(f.skip(1).len() == f.len() - 1);
        if f.len() > 1 {
            assert(f.skip(1)[0] == f[1]);
            if f.len() > 2 {
                assert(f.skip(1).skip(1)[0] == f[2]);
            }
        }
    }
}

/// A change leaves out the ids and says all the rest.
pub proof fn change_says_the_rest(value: ValueV, key: Seq<char>)
    requires
        value is Object,
    ensures
        change_without_ids(value).get("id"@) is None,
        change_without_ids(value).get("uid"@) is None,
        key != "id"@ && key != "uid"@ ==> change_without_ids(value).get(key) == value.get(key),
{
    let first = map_remove(value.entries(), "id"@);
    get_after_remove(value.entries(), "id"@, "id"@);
    get_after_remove(value.entries(), "id"@, key);
    get_after_remove(first, "uid"@, "id"@);
    get_after_remove(first, "uid"@, "uid"@);
    get_after_remove(first, "uid"@, key);
}

/// The answer to a call is the first that bears its id; an answer that is an error, or none, is a
/// failure.
pub proof fn answer_bears_id(answers: Seq<MethodCallV>, id: Seq<char>, i: int)
    requires
        0 <= i < answers.len(),
        answers[i].id == id,
        forall|j: int| 0 <= j < i ==> (#[trigger] answers[j]).id != id,
    ensures
        answers[i].name == "error"@ ==> result_of(answers, id) is Err,
        answers[i].name != "error"@ ==> result_of(answers, id) == Ok::<ValueV, ErrorV>(
            answers[i].args,
        ),
    decreases i,
{
    answer_is_first(answers, id, i);
}

proof fn answer_is_first(answers: Seq<MethodCallV>, id: Seq<char>, i: int)
    requires
        0 <= i < answers.len(),
        answers[i].id == id,
        forall|j: int| 0 <= j < i ==> (#[trigger] answers[j]).id != id,
    ensures
        answer_to(answers, id) == Some(answers[i]),
    decreases i,
{
    if i > 0 {
        let t = answers.skip(1);
        assert(answers[0].id != id);
        assert forall|j: int| 0 <= j < i - 1 implies (#[trigger] t[j]).id != id by {
            assert(t[j] == answers[j + 1]);
        }
        answer_is_first(t, id, i - 1);
    }
}

/// A call without an answer is a failure.
pub proof fn missing_answer_is_failure(answers: Seq<MethodCallV>, id: Seq<char>)
    requires
        forall|j: int| 0 <= j < answers.len() ==> (#[trigger] answers[j]).id != id,
    ensures
        result_of(answers, id) is Err,
    decreases answers.len(),
{
    if answers.len() > 0 {
        let t = answers.skip(1);
        assert(answers[0].id != id);
        assert forall|j: int| 0 <= j < t.len() implies (#[trigger] t[j]).id != id by {
            assert(t[j] == answers[j + 1]);
        }
        missing_answer_is_failure(t, id);
    }
}

/// What was made is taken only where the server says that it was, and not where it says that it
/// was not; and a change or a deletion counts unless the server refuses it.
pub proof fn refusals_are_told(v: ValueV, kind: Seq<char>, sent: ValueV, id: Seq<char>)
    ensures
        said(v, "notCreated"@, "new"@) is Some ==> made(Ok(v), kind, sent) is Err,
        said(v, "notCreated"@, "new"@) is None ==> (said(v, "created"@, "new"@) matches Some(c)
            ==> made(Ok(v), kind, sent) == Ok::<ValueV, ErrorV>(merged(sent, c))),
        said(v, "created"@, "new"@) is None ==> made(Ok(v), kind, sent) is Err,
        said(v, "notUpdated"@, id) is Some <==> refusal(
            Ok(v),
            "notUpdated"@,
            id,
            kind + " not updated"@,
        ) is Some,
        said(v, "notDestroyed"@, id) is Some <==> refusal(
            Ok(v),
            "notDestroyed"@,
            id,
            kind + " not destroyed"@,
        ) is Some,
        v.get("list"@) matches Some(l) ==> list_in(Ok(v)) == Ok::<ValueV, ErrorV>(l),
        v.get("list"@) is None ==> list_in(Ok(v)) is Err,
{
}

/// Failures are handed on.
pub proof fn failures_are_handed_on(e: ErrorV, kind: Seq<char>, sent: ValueV, id: Seq<char>)
    ensures
        made(Err(e), kind, sent) == Err::<ValueV, ErrorV>(e),
        list_in(Err(e)) == Err::<ValueV, ErrorV>(e),
        refusal(Err(e), "notUpdated"@, id, kind) == Some(e),
        refusal(Err(e), "notDestroyed"@, id, kind) == Some(e),
{
}

/// The account for calendars is the main one for them, or else the first that has them, or else
/// the first; that for contacts is none where none has them.
pub proof fn account_has_capability(s: SessionV, i: int)
    ensures
        map_get(s.primary_accounts, CAPABILITY_CALENDARS@) matches Some(a)
            ==> s.calendars_account_id() == Some(a),
        map_get(s.primary_accounts, CAPABILITY_CONTACTS@) matches Some(a)
            ==> s.contacts_account_id() == Some(a),
        map_get(s.primary_accounts, CAPABILITY_CALENDARS@) is None && 0 <= i < s.accounts.len()
            && map_get(s.accounts[i].1.account_capabilities, CAPABILITY_CALENDARS@) is Some && (
        forall|j: int|
            0 <= j < i ==> map_get(
                (#[trigger] s.accounts[j]).1.account_capabilities,
                CAPABILITY_CALENDARS@,
            ) is None) ==> s.calendars_account_id() == Some(s.accounts[i].0),
        map_get(s.primary_accounts, CAPABILITY_CONTACTS@) is None && (forall|j: int|
            0 <= j < s.accounts.len() ==> map_get(
                (#[trigger] s.accounts[j]).1.account_capabilities,
                CAPABILITY_CONTACTS@,
            ) is None) ==> s.contacts_account_id() is None,
{
    if 0 <= i < s.accounts.len() && map_get(
        s.accounts[i].1.account_capabilities,
        CAPABILITY_CALENDARS@,
    ) is Some && (forall|j: int|
        0 <= j < i ==> map_get(
            (#[trigger] s.accounts[j]).1.account_capabilities,
            CAPABILITY_CALENDARS@,
        ) is None) {
        first_has(s.accounts, CAPABILITY_CALENDARS@, i);
    }
    if forall|j: int|
        0 <= j < s.accounts.len() ==> map_get(
            (#[trigger] s.accounts[j]).1.account_capabilities,
            CAPABILITY_CONTACTS@,
        ) is None {
        none_has(s.accounts, CAPABILITY_CONTACTS@);
    }
}

proof fn first_has(accounts: Seq<(Seq<char>, AccountV)>, capability: Seq<char>, i: int)
    requires
        0 <= i < accounts.len(),
        map_get(accounts[i].1.account_capabilities, capability) is Some,
        forall|j: int|
            0 <= j < i ==> map_get(
                (#[trigger] accounts[j]).1.account_capabilities,
                capability,
            ) is None,
    ensures
        first_with(accounts, capability) == Some(accounts[i].0),
    decreases i,
{
    if i > 0 {
        let t = accounts.skip(1);
        assert(map_get(accounts[0].1.account_capabilities, capability) is None);
        assert forall|j: int| 0 <= j < i - 1 implies map_get(
            (#[trigger] t[j]).1.account_capabilities,
            capability,
        ) is None by {
            assert(t[j] == accounts[j + 1]);
        }
        first_has(t, capability, i - 1);
    }
}

proof fn none_has(accounts: Seq<(Seq<char>, AccountV)>, capability: Seq<char>)
    requires
        forall|j: int|
            0 <= j < accounts.len() ==> map_get(
                (#[trigger] accounts[j]).1.account_capabilities,
                capability,
            ) is None,
    ensures
        first_with(accounts, capability) is None,
    decreases accounts.len(),
{
    if accounts.len() > 0 {
        let t = accounts.skip(1);
        assert(map_get(accounts[0].1.account_capabilities, capability) is None);
        assert forall|j: int| 0 <= j < t.len() implies map_get(
            (#[trigger] t[j]).1.account_capabilities,
            capability,
        ) is None by {
            assert(t[j] == accounts[j + 1]);
        }
        none_has(t, capability);
    }
}

// ---------------------------------------------------------------------------
// The server in memory
// ---------------------------------------------------------------------------

proof fn methods_differ()
    ensures
        "Calendar/get"@ != "Calendar/set"@,
        "Calendar/get"@ != "CalendarEvent/set"@,
        "CalendarEvent/get"@ != "CalendarEvent/set"@,
        "CalendarEvent/get"@ != "Calendar/get"@,
        "CalendarEvent/get"@ != "Calendar/set"@,
        "CalendarEvent/set"@ != "Calendar/set"@,
        "AddressBook/get"@ != "Calendar/get"@,
        "AddressBook/get"@ != "Calendar/set"@,
        "AddressBook/get"@ != "CalendarEvent/get"@,
        "AddressBook/get"@ != "CalendarEvent/set"@,
        "AddressBook/get"@ != "CalendarEvent/query"@,
        "ContactCard/get"@ != "Calendar/get"@,
        "ContactCard/get"@ != "Calendar/set"@,
        "ContactCard/get"@ != "CalendarEvent/get"@,
        "ContactCard/get"@ != "CalendarEvent/set"@,
        "ContactCard/get"@ != "CalendarEvent/query"@,
        "ContactCard/get"@ != "AddressBook/get"@,
{
    reveal_strlit("CalendarEvent/query");
    reveal_strlit("CalendarEvent/get");
    reveal_strlit("CalendarEvent/set");
    reveal_strlit("Calendar/get");
    reveal_strlit("Calendar/set");
    reveal_strlit("AddressBook/get");
    reveal_strlit("ContactCard/get");
    assert("CalendarEvent/query"@.len() == 19 && "CalendarEvent/get"@.len() == 17);
    assert("CalendarEvent/set"@.len() == 17 && "Calendar/get"@.len() == 12);
    assert("Calendar/set"@.len() == 12 && "AddressBook/get"@.len() == 15);
    assert("ContactCard/get"@.len() == 15);
    assert("CalendarEvent/get"@[14] != "CalendarEvent/set"@[14]);
    assert("Calendar/get"@[9] != "Calendar/set"@[9]);
    assert("AddressBook/get"@[0] != "ContactCard/get"@[0]);
}

/// A server that is asked for calendars, events, address books or contacts answers with those that
/// it holds: all of them, or, of events and contacts, those whose ids are given.
pub proof fn server_answers_with_its_own(db: DbV, args: ValueV)
    ensures
        list_in(Ok(answer(db, "Calendar/get"@, args).1)) == Ok::<ValueV, ErrorV>(
            ValueV::Array(db.calendars),
        ),
        list_in(Ok(answer(db, "AddressBook/get"@, args).1)) == Ok::<ValueV, ErrorV>(
            ValueV::Array(db.address_books),
        ),
        args.get("ids"@) is None ==> list_in(Ok(answer(db, "CalendarEvent/get"@, args).1))
            == Ok::<ValueV, ErrorV>(ValueV::Array(db.events)),
        args.get("ids"@) is None ==> list_in(Ok(answer(db, "ContactCard/get"@, args).1))
            == Ok::<ValueV, ErrorV>(ValueV::Array(db.cards)),
        args.get("ids"@) matches Some(ValueV::Array(ids)) ==> list_in(
            Ok(answer(db, "CalendarEvent/get"@, args).1),
        ) == Ok::<ValueV, ErrorV>(ValueV::Array(with_ids(db.events, ids))),
        args.get("ids"@) matches Some(ValueV::Array(ids)) ==> list_in(
            Ok(answer(db, "ContactCard/get"@, args).1),
        ) == Ok::<ValueV, ErrorV>(ValueV::Array(with_ids(db.cards, ids))),
{
    let account = account_of(args);
    methods_differ();
    list_found(account, db.calendars);
    list_found(account, db.address_books);
    list_found(account, asked_for(db.events, args));
    list_found(account, asked_for(db.cards, args));
}

/// Only a write changes what the server holds, and only what it is a write to; a call that the
/// server does not know is answered with an error.
pub proof fn only_writes_change(db: DbV, name: Seq<char>, args: ValueV)
    ensures
        name != "Calendar/set"@ && name != "CalendarEvent/set"@ ==> after_call(db, name, args)
            == db,
        name != "Calendar/set"@ ==> after_call(db, name, args).calendars == db.calendars,
        name != "CalendarEvent/set"@ ==> after_call(db, name, args).events == db.events,
        after_call(db, name, args).cards == db.cards,
        after_call(db, name, args).address_books == db.address_books,
        name != "Calendar/get"@ && name != "Calendar/set"@ && name != "CalendarEvent/get"@ && name
            != "CalendarEvent/set"@ && name != "CalendarEvent/query"@ && name != "AddressBook/get"@
            && name != "ContactCard/get"@ ==> answer(db, name, args).0 == "error"@,
{
    methods_differ();
}

/// What is made is added at the end, in turn, each with an id of its own: the next number behind
/// the prefix. What was there stays as it is.
pub proof fn made_are_numbered(
    list: Seq<ValueV>,
    next_id: int,
    create: Seq<(Seq<char>, ValueV)>,
    prefix: Seq<char>,
    i: int,
)
    requires
        0 <= next_id,
        0 <= i < create.len(),
    ensures
        ({
            let m = with_made(list, next_id, create, prefix);
            &&& m.list.len() == list.len() + create.len()
            &&& m.next_id == next_id + create.len()
            &&& forall|k: int| 0 <= k < list.len() ==> #[trigger] m.list[k] == list[k]
            &&& m.list[list.len() + i] == create[i].1.with(
                "id"@,
                ValueV::Text(prefix + dec((next_id + i) as nat)),
            )
        }),
    decreases create.len(),
{
    let t = create.drop_last();
    made_counts(list, next_id, create, prefix);
    made_counts(list, next_id, t, prefix);
    if i < t.len() {
        made_are_numbered(list, next_id, t, prefix, i);
        assert(t[i] == create[i]);
    } else {
        made_keeps(list, next_id, t, prefix);
    }
}

proof fn made_keeps(
    list: Seq<ValueV>,
    next_id: int,
    create: Seq<(Seq<char>, ValueV)>,
    prefix: Seq<char>,
)
    ensures
        forall|k: int|
            0 <= k < list.len() ==> #[trigger] with_made(list, next_id, create, prefix).list[k]
                == list[k],
    decreases create.len(),
{
    if create.len() > 0 {
        made_counts(list, next_id, create.drop_last(), prefix);
        made_keeps(list, next_id, create.drop_last(), prefix);
    }
}

} // verus!
