//! What the client says to a server, what the answers mean, and the server in memory.

use jscalendar::calendar::NaiveDate;
use jscalendar::client::{api_url, calendars_account_id, check_credentials, check_destroyed, check_updated, create_request, created_of, destroy_request, get_all_request, get_calendars_request, get_contact_cards_request, get_events_request, list_of, make_calendar_change, make_change, query_events_request, update_request, using, using_contacts};
use jscalendar::collections::StrMap;
use jscalendar::error::Error;
use jscalendar::json::{array_of, entry, json_object, merge_json, text, Value};
use jscalendar::mock::{api, query_events_response, resolve_result_refs, seed, session, set_response, try_query_events_response, Db};
use jscalendar::protocol::{result_reference, user_session, Account, MethodCall, Response, Session, CAPABILITY_CALENDARS, CAPABILITY_CONTACTS};

fn response(method: &str, args: Value, id: &str) -> Response {
    Response {
        method_responses: vec![MethodCall(method.to_string(), args, id.to_string())],
        session_state: Some("abc123".to_string()),
    }
}

fn obj(pairs: Vec<(&str, Value)>) -> Value {
    json_object(pairs.into_iter().map(|(k, v)| entry(k, v)).collect())
}

fn list(items: Vec<Value>) -> Value {
    array_of(items)
}

fn same(a: &Value, b: &Value) -> bool {
    format!("{:?}", a) == format!("{:?}", b)
}

fn a_session() -> Session {
    let mut capabilities = StrMap::new();
    capabilities.insert(CAPABILITY_CALENDARS.to_string(), obj(vec![]));
    capabilities.insert(CAPABILITY_CONTACTS.to_string(), obj(vec![]));
    let mut primary = StrMap::new();
    primary.insert(CAPABILITY_CALENDARS.to_string(), "a1".to_string());
    primary.insert(CAPABILITY_CONTACTS.to_string(), "a1".to_string());
    Session {
        capabilities: obj(vec![]),
        accounts: vec![(
            "a1".to_string(),
            Account {
                name: "user@example.com".to_string(),
                is_personal: true,
                is_read_only: false,
                account_capabilities: capabilities,
            },
        )],
        primary_accounts: primary,
        username: "user@example.com".to_string(),
        api_url: "http://localhost/api".to_string(),
        download_url: "http://localhost/download".to_string(),
        upload_url: "http://localhost/upload".to_string(),
        event_source_url: None,
        state: "abc123".to_string(),
    }
}

#[test]
fn connects_and_resolves_calendars_account() {
    let session = a_session();
    assert_eq!(session.calendars_account_id().unwrap(), "a1");
    assert_eq!(session.username, "user@example.com");
    let user = user_session(&session).unwrap();
    assert_eq!(user.account_id, "a1");
    assert_eq!(user.contacts_account_id.as_deref(), Some("a1"));
}

#[test]
fn a_session_without_calendars_is_refused() {
    let mut session = a_session();
    session.primary_accounts = StrMap::new();
    session.accounts = vec![];
    assert!(session.calendars_account_id().is_none());
    assert!(session.contacts_account_id().is_none());
    assert!(user_session(&session).is_err());
}

#[test]
fn get_calendars_parses_list() {
    let calendar = obj(vec![
        ("id", text("cal1")),
        ("name", text("Personal")),
        ("color", text("#3b82f6")),
    ]);
    let body = response(
        "Calendar/get",
        obj(vec![
            ("accountId", text("a1")),
            ("state", text("s1")),
            ("list", list(vec![calendar])),
            ("notFound", list(vec![])),
        ]),
        "c0",
    );
    let calls = get_calendars_request("a1");
    assert_eq!(calls.len(), 1);
    assert_eq!(calls[0].0, "Calendar/get");
    assert!(matches!(calls[0].1.get("ids"), Some(Value::Null)));
    let calendars = list_of(&body, "c0").unwrap();
    let calendars = calendars.as_array().unwrap();
    assert_eq!(calendars.len(), 1);
    assert_eq!(calendars[0].get_str("name"), Some("Personal"));
    assert_eq!(calendars[0].get_str("color"), Some("#3b82f6"));
}

#[test]
fn query_events_chains_query_and_get() {
    let event = obj(vec![
        ("@type", text("Event")),
        ("id", text("evt1")),
        ("uid", text("evt1-uid")),
        ("title", text("Standup")),
        ("start", text("2026-07-06T09:00:00")),
        ("timeZone", text("Europe/Berlin")),
        ("duration", text("PT30M")),
        ("calendarIds", obj(vec![("cal1", Value::Bool(true))])),
    ]);
    let mut body = response(
        "CalendarEvent/query",
        obj(vec![("accountId", text("a1")), ("ids", list(vec![text("evt1")]))]),
        "q0",
    );
    body.method_responses.push(MethodCall(
        "CalendarEvent/get".to_string(),
        obj(vec![("accountId", text("a1")), ("list", list(vec![event]))]),
        "g0".to_string(),
    ));
    let calls = query_events_request(
        "a1",
        Some("cal1"),
        Some("2026-07-01T00:00:00"),
        Some("2026-08-01T00:00:00"),
    );
    assert_eq!((calls[0].0.as_str(), calls[0].2.as_str()), ("CalendarEvent/query", "q0"));
    assert_eq!((calls[1].0.as_str(), calls[1].2.as_str()), ("CalendarEvent/get", "g0"));
    assert_eq!(calls[1].1.get("#ids").unwrap().get_str("resultOf"), Some("q0"));
    assert_eq!(calls[0].1.get("filter").unwrap().get_str("after"), Some("2026-07-01T00:00:00"));
    let events = list_of(&body, "g0").unwrap();
    let events = events.as_array().unwrap();
    assert_eq!(events.len(), 1);
    assert_eq!(events[0].get_str("title"), Some("Standup"));
    assert_eq!(events[0].get_str("duration"), Some("PT30M"));
    assert!(events[0].get("calendarIds").unwrap().get("cal1").is_some());
}

#[test]
fn a_query_without_bounds_has_no_filter() {
    let calls = query_events_request("a1", None, None, None);
    assert!(calls[0].1.get("filter").is_none());
    assert_eq!(calls[0].1.get_str("accountId"), Some("a1"));
}

fn created(method: &str, id: &str) -> Response {
    response(
        method,
        obj(vec![
            ("accountId", text("a1")),
            ("oldState", text("s0")),
            ("newState", text("s1")),
            ("created", obj(vec![("new", obj(vec![("id", text(id))]))])),
        ]),
        "c0",
    )
}

fn not_destroyed(method: &str, id: &str) -> Response {
    response(
        method,
        obj(vec![
            ("accountId", text("a1")),
            ("oldState", text("s0")),
            ("newState", text("s0")),
            ("notDestroyed", obj(vec![(id, obj(vec![("type", text("notFound"))]))])),
        ]),
        "c0",
    )
}

#[test]
fn create_event_merges_server_assigned_fields() {
    let sent = obj(vec![
        ("uid", text("evt42-uid")),
        ("start", text("2026-07-10T10:00:00")),
        ("title", text("Dentist")),
    ]);
    let made = created_of(&created("CalendarEvent/set", "evt42"), "event", sent).unwrap();
    assert_eq!(made.get_str("id"), Some("evt42"));
    assert_eq!(made.get_str("title"), Some("Dentist"));
}

#[test]
fn destroy_event_reports_protocol_error_on_failure() {
    let err = check_destroyed(&not_destroyed("CalendarEvent/set", "evt1"), "event", "evt1").unwrap_err();
    assert!(matches!(err, Error::Protocol { .. }));
    assert!(check_destroyed(&not_destroyed("CalendarEvent/set", "evt1"), "event", "evt2").is_ok());
}

#[test]
fn contacts_account_resolves_and_cards_parse_with_birthday() {
    assert_eq!(a_session().contacts_account_id(), Some("a1"));
    let card = obj(vec![
        ("id", text("card1")),
        ("uid", text("card1-uid")),
        ("name", obj(vec![("@type", text("Name")), ("full", text("Ada Lovelace"))])),
    ]);
    let body = response("ContactCard/get", obj(vec![("list", list(vec![card]))]), "c0");
    assert_eq!(get_all_request("ContactCard/get", "a1")[0].0, "ContactCard/get");
    let cards = list_of(&body, "c0").unwrap();
    assert_eq!(cards.as_array().unwrap().len(), 1);
    assert_eq!(cards.as_array().unwrap()[0].get("name").unwrap().get_str("full"), Some("Ada Lovelace"));
}

#[test]
fn create_contact_card_merges_server_assigned_fields() {
    let sent = obj(vec![("uid", text("card42-uid")), ("name", text("Grace Hopper"))]);
    let made = created_of(&created("ContactCard/set", "card42"), "contact card", sent).unwrap();
    assert_eq!(made.get_str("id"), Some("card42"));
    assert_eq!(made.get_str("name"), Some("Grace Hopper"));
}

#[test]
fn destroy_contact_card_reports_protocol_error_on_failure() {
    let err = check_destroyed(&not_destroyed("ContactCard/set", "card1"), "contact card", "card1").unwrap_err();
    assert!(matches!(err, Error::Protocol { .. }));
}

#[test]
fn failures_of_the_protocol_are_told() {
    let missing = response("Calendar/get", obj(vec![]), "c0");
    assert_eq!(list_of(&missing, "c0").unwrap_err().text(""), "jmap protocol error: missing list");
    assert!(list_of(&missing, "c9").is_err());
    let failed = response("error", obj(vec![("type", text("unknownMethod"))]), "c0");
    assert!(matches!(list_of(&failed, "c0"), Err(Error::Protocol { .. })));
    let refused = response(
        "CalendarEvent/set",
        obj(vec![
            ("notCreated", obj(vec![("new", obj(vec![("type", text("forbidden"))]))])),
            ("notUpdated", obj(vec![("e1", obj(vec![("type", text("notFound"))]))])),
        ]),
        "c0",
    );
    assert!(created_of(&refused, "event", obj(vec![])).is_err());
    assert!(check_updated(&refused, "event", "e1").is_err());
    assert!(check_updated(&refused, "event", "e2").is_ok());
    assert!(created_of(&missing, "event", obj(vec![])).is_err());
}

#[test]
fn unauthorized_session_maps_to_error() {
    let err = check_credentials(401).unwrap_err();
    assert!(matches!(err, Error::Unauthorized));
    assert!(check_credentials(200).is_ok());
}

#[test]
fn nothing_can_be_asked_before_a_session_is_open() {
    assert_eq!(api_url(None).unwrap_err().text(""), "jmap protocol error: not connected");
    assert_eq!(api_url(Some(&a_session())).unwrap(), "http://localhost/api");
    assert_eq!(
        calendars_account_id(None).unwrap_err().text(""),
        "account does not support calendars"
    );
    assert_eq!(calendars_account_id(Some(&a_session())).unwrap(), "a1");
}

#[test]
fn contacts_are_asked_for_with_what_is_shown() {
    let calls = get_contact_cards_request("a1");
    assert_eq!(calls[0].0, "ContactCard/get");
    let wanted = calls[0].1.get("properties").unwrap().as_array().unwrap();
    let wanted: Vec<_> = wanted.iter().map(|v| v.as_str().unwrap()).collect();
    assert_eq!(wanted, vec!["id", "uid", "name", "emails", "anniversaries"]);
}

#[test]
fn errors_have_a_status() {
    assert_eq!(Error::Http("x".to_string()).status(), 502);
    assert_eq!(Error::Json("x".to_string()).text(""), "json error: x");
    let told = Error::Protocol { message: "event not created".to_string(), detail: Some(Value::Null) };
    assert_eq!(told.text("null"), "jmap protocol error: event not created: null");
    assert_eq!(Error::Unauthorized.status(), 401);
    assert_eq!(Error::NotFound.status(), 404);
}

#[test]
fn requests_have_their_shape() {
    assert_eq!(using().len(), 2);
    assert_eq!(using_contacts()[1], CAPABILITY_CONTACTS);
    let create = create_request("CalendarEvent/set", "a1", obj(vec![("title", text("T"))]));
    assert_eq!(create[0].1.get("create").unwrap().get("new").unwrap().get_str("title"), Some("T"));
    let update = update_request("CalendarEvent/set", "a1", "e1", obj(vec![("title", text("U"))]));
    assert_eq!(update[0].1.get("update").unwrap().get("e1").unwrap().get_str("title"), Some("U"));
    let destroy = destroy_request("CalendarEvent/set", "a1", "e1");
    assert_eq!(destroy[0].1.get("destroy").unwrap().as_array().unwrap()[0].as_str(), Some("e1"));
    let get = get_events_request("a1", &vec!["e1".to_string(), "e2".to_string()]);
    assert_eq!(get[0].1.get("ids").unwrap().as_array().unwrap().len(), 2);
    assert_eq!(result_reference("q0", "/ids").get_str("path"), Some("/ids"));
}

#[test]
fn changes_leave_ids_out() {
    let value = || obj(vec![("id", text("i")), ("uid", text("u")), ("title", text("T"))]);
    assert!(same(&make_change(value()), &obj(vec![("title", text("T"))])));
    assert!(same(
        &make_calendar_change(value()),
        &obj(vec![("uid", text("u")), ("title", text("T"))])
    ));
    let merged = merge_json(value(), &obj(vec![("title", text("New"))]));
    assert_eq!(merged.get_str("title"), Some("New"));
    assert_eq!(merged.get_str("id"), Some("i"));
}

// The server in memory

fn fresh() -> Db {
    seed(NaiveDate::from_ymd_opt(2026, 7, 6).unwrap()).unwrap()
}

fn call(name: &str, args: Value) -> MethodCall {
    MethodCall(name.to_string(), args, "c0".to_string())
}

#[test]
fn the_server_starts_with_something_to_show() {
    let db = fresh();
    assert_eq!(db.calendars.len(), 2);
    assert_eq!(db.events.len(), 4);
    assert_eq!(db.cards.len(), 3);
    assert_eq!(db.events[0].get_str("start"), Some("2026-07-06T09:00:00"));
    assert_eq!(db.events[1].get_str("start"), Some("2026-07-07T14:00:00"));
    assert_eq!(db.events[2].get_str("start"), Some("2026-07-09T00:00:00"));
    let ada = db.cards[0].get("anniversaries").unwrap().get("a1").unwrap().get("date").unwrap();
    assert_eq!(ada.get_str("utc"), Some("1985-07-06T00:00:00Z"));
}

#[test]
fn what_is_made_is_read_back() {
    let mut db = fresh();
    let sent = obj(vec![("title", text("New one")), ("start", text("2026-07-06T12:00:00"))]);
    let answers = api(&mut db, &create_request("CalendarEvent/set", "a1", sent)).unwrap();
    let id = answers[0].1.get("created").unwrap().get("new").unwrap().get_str("id").unwrap().to_string();
    let answers = api(&mut db, &get_events_request("a1", &vec![id.clone()])).unwrap();
    let found = answers[0].1.get("list").unwrap().as_array().unwrap();
    assert_eq!(found.len(), 1);
    assert_eq!(found[0].get_str("id"), Some(id.as_str()));
    assert_eq!(found[0].get_str("title"), Some("New one"));
}

#[test]
fn what_is_changed_keeps_the_rest() {
    let mut db = fresh();
    let patch = obj(vec![("title", text("Changed"))]);
    api(&mut db, &update_request("CalendarEvent/set", "a1", "evt2", patch)).unwrap();
    assert_eq!(db.events[1].get_str("title"), Some("Changed"));
    assert_eq!(db.events[1].get_str("uid"), Some("evt2-uid"));
    assert_eq!(db.events[0].get_str("title"), Some("Team standup"));
}

#[test]
fn what_is_deleted_is_gone() {
    let mut db = fresh();
    api(&mut db, &destroy_request("CalendarEvent/set", "a1", "evt2")).unwrap();
    let ids: Vec<_> = db.events.iter().map(|e| e.get_str("id").unwrap().to_string()).collect();
    assert_eq!(ids, vec!["evt1", "evt3", "evt4"]);
}

#[test]
fn a_query_brings_the_events_it_finds() {
    let mut db = fresh();
    let calls = query_events_request(
        "a1",
        None,
        Some("2026-07-07T00:00:00"),
        Some("2026-07-08T00:00:00"),
    );
    let answers = api(&mut db, &calls).unwrap();
    let response = Response { method_responses: answers, session_state: None };
    let found = list_of(&response, "g0").unwrap();
    let mut ids: Vec<_> =
        found.as_array().unwrap().iter().map(|e| e.get_str("id").unwrap().to_string()).collect();
    ids.sort();
    assert!(ids.contains(&"evt2".to_string()));
    assert!(ids.contains(&"evt1".to_string()));
    assert!(!ids.contains(&"evt3".to_string()));
}

#[test]
fn unknown_methods_are_answered_with_an_error() {
    let mut db = fresh();
    let answers = api(&mut db, &vec![call("Mailbox/get", obj(vec![]))]).unwrap();
    assert_eq!(answers[0].0, "error");
    assert_eq!(answers[0].2, "c0");
}

#[test]
fn references_are_filled_in_from_earlier_answers() {
    let prior = vec![MethodCall(
        "CalendarEvent/query".to_string(),
        obj(vec![("ids", list(vec![text("evt1")]))]),
        "q0".to_string(),
    )];
    let args = obj(vec![(
        "#ids",
        obj(vec![
            ("resultOf", text("q0")),
            ("name", text("CalendarEvent/query")),
            ("path", text("/ids")),
        ]),
    )]);
    let resolved = resolve_result_refs(args, &prior);
    assert!(resolved.get("#ids").is_none());
    assert_eq!(resolved.get("ids").unwrap().as_array().unwrap()[0].as_str(), Some("evt1"));
}

#[test]
fn writes_number_what_they_make() {
    let mut items: Vec<Value> = vec![];
    let mut next: u64 = 7;
    let args = obj(vec![("create", obj(vec![("a", obj(vec![])), ("b", obj(vec![]))]))]);
    let answer = set_response("a1", &mut items, &mut next, &args, "evt");
    assert_eq!(next, 9);
    assert_eq!(items.len(), 2);
    assert_eq!(items[0].get_str("id"), Some("evt7"));
    assert_eq!(items[1].get_str("id"), Some("evt8"));
    assert_eq!(answer.get("created").unwrap().get("a").unwrap().get_str("id"), Some("evt7"));
}

#[test]
fn queries_go_by_start_and_duration() {
    let events = vec![
        obj(vec![("id", text("e1")), ("start", text("2026-07-06T09:00:00")), ("duration", text("PT1H"))]),
        obj(vec![("id", text("e2")), ("start", text("2026-07-08T09:00:00")), ("duration", text("PT1H"))]),
    ];
    let filter = obj(vec![("after", text("2026-07-07T00:00:00")), ("before", text("2026-07-09T00:00:00"))]);
    let answer = query_events_response("a1", &events, &obj(vec![("filter", filter)]));
    let ids = answer.get("ids").unwrap().as_array().unwrap();
    assert_eq!(ids.len(), 1);
    assert_eq!(ids[0].as_str(), Some("e2"));
    assert!(matches!(answer.get("total"), Some(Value::Number(n)) if n == "1"));
    let find = |after: &str, before: &str, event: Vec<(&str, Value)>| {
        let filter = obj(vec![("after", text(after)), ("before", text(before))]);
        let answer = query_events_response("a1", &vec![obj(event)], &obj(vec![("filter", filter)]));
        answer.get("ids").unwrap().as_array().unwrap().len()
    };
    let lasting = |start: &str, length: &str| {
        vec![("id", text("e")), ("start", text(start)), ("duration", text(length))]
    };
    let (after, before) = ("2026-07-07T00:00:00Z", "2026-07-09T00:00:00Z");
    assert_eq!(find(after, before, lasting("2026-07-06T23:00:00", "PT2H")), 1);
    assert_eq!(find(after, before, lasting("2026-07-06T23:00:00", "PT1H")), 0);
    assert_eq!(find(after, before, lasting("2026-07-07T00:00:00", "PT0S")), 1);
    assert_eq!(find(after, before, lasting("2026-07-09T00:00:00", "PT1H")), 0);
    assert_eq!(find(after, before, lasting("2026-01-01T00:00:00", "P400D")), 1);
    assert_eq!(find(after, before, lasting("2026-07-06T23:00:00", "soon")), 0);
    let plain = vec![("id", text("e")), ("start", text("2026-07-06T23:00:00"))];
    assert_eq!(find(after, before, plain), 0);
    let filter = obj(vec![("after", text(&"\u{e9}".repeat(10)))]);
    assert!(try_query_events_response("a1", &events, &obj(vec![("filter", filter)])).is_none());
}

#[test]
fn the_session_names_its_addresses() {
    let s = session(Some("calendar.test:4000"));
    assert!(s.get_str("apiUrl").unwrap().contains("calendar.test:4000"));
    assert!(session(None).get_str("apiUrl").is_some());
}
