//! What is said to a server in its own protocol, and what its answers mean.

use vstd::prelude::*;
use vstd::string::*;
use vstd::utf8::encode_utf8;
use base64::Engine;
use crate::collections::CloneView;
use crate::error::{Error, ErrorV};
use crate::json::{
    array_of, entry, json_object, merge_json, merged, object, text, without_key, Value, ValueV,
};
use crate::protocol::{
    make_reference, reference_to, result_of, MethodCall, MethodCallV, Response, Session,
    CAPABILITY_CALENDARS, CAPABILITY_CONTACTS, CAPABILITY_CORE,
};
use crate::text::concat2;

verus! {

/// What to sign in with.
#[derive(Debug)]
pub enum Credentials {
    Basic { username: String, password: String },
    Bearer(String),
}

/// What [`Credentials`] stand for.
#[verifier::ext_equal]
pub enum CredentialsV {
    Basic { username: Seq<char>, password: Seq<char> },
    Bearer(Seq<char>),
}

impl DeepView for Credentials {
    type V = CredentialsV;

    open spec fn deep_view(&self) -> CredentialsV {
        match self {
            Credentials::Basic { username, password } => CredentialsV::Basic {
                username: username@,
                password: password@,
            },
            Credentials::Bearer(token) => CredentialsV::Bearer(token@),
        }
    }
}

impl Clone for Credentials {
    fn clone(&self) -> (r: Self)
        ensures
            r.deep_view() == self.deep_view(),
    {
        match self {
            Credentials::Basic { username, password } => Credentials::Basic {
                username: username.clone(),
                password: password.clone(),
            },
            Credentials::Bearer(token) => Credentials::Bearer(token.clone()),
        }
    }
}

/// The character for six bits in Base64.
pub open spec fn base64_char(i: int) -> char {
    if i < 26 {
        (65 + i) as char
    } else if i < 52 {
        (97 + i - 26) as char
    } else if i < 62 {
        (48 + i - 52) as char
    } else if i == 62 {
        '+'
    } else {
        '/'
    }
}

/// Bytes in Base64, padded: four characters for each three bytes.
pub open spec fn base64_text(s: Seq<u8>) -> Seq<char>
    decreases s.len(),
{
    if s.len() == 0 {
        Seq::empty()
    } else if s.len() == 1 {
        seq![base64_char(s[0] as int / 4), base64_char(s[0] as int % 4 * 16), '=', '=']
    } else if s.len() == 2 {
        seq![
            base64_char(s[0] as int / 4),
            base64_char(s[0] as int % 4 * 16 + s[1] as int / 16),
            base64_char(s[1] as int % 16 * 4),
            '=',
        ]
    } else {
        seq![
            base64_char(s[0] as int / 4),
            base64_char(s[0] as int % 4 * 16 + s[1] as int / 16),
            base64_char(s[1] as int % 16 * 4 + s[2] as int / 64),
            base64_char(s[2] as int % 64),
        ] + base64_text(s.skip(3))
    }
}

/// `base64::Engine::encode` of the standard alphabet, with padding: the UTF-8 bytes of a text
/// in Base64.
#[verifier::external_body]
fn base64_encode(s: &str) -> (r: String)
    ensures
        r@ == base64_text(encode_utf8(s@)),
{
    base64::engine::general_purpose::STANDARD.encode(s)
}

impl CredentialsV {
    /// The value of the `Authorization` header.
    pub open spec fn header_value(self) -> Seq<char> {
        match self {
            CredentialsV::Basic { username, password } => "Basic "@ + base64_text(
                encode_utf8(username + ":"@ + password),
            ),
            CredentialsV::Bearer(token) => "Bearer "@ + token,
        }
    }
}

impl Credentials {
    /// The value of the `Authorization` header.
    pub fn header_value(&self) -> (r: String)
        ensures
            r@ == self.deep_view().header_value(),
    {
        match self {
            Credentials::Basic { username, password } => {
                let mut raw = username.clone();
                raw.append(":");
                raw.append(password.as_str());
                let mut out = "Basic ".to_string();
                out.append(base64_encode(raw.as_str()).as_str());
                out
            },
            Credentials::Bearer(token) => {
                let mut out = "Bearer ".to_string();
                out.append(token.as_str());
                out
            },
        }
    }
}

// ---------------------------------------------------------------------------
// What is asked
// ---------------------------------------------------------------------------

/// The capabilities that a call for calendars or events uses.
pub fn using() -> (r: Vec<String>)
    ensures
        r.deep_view() == seq![CAPABILITY_CORE@, CAPABILITY_CALENDARS@],
{
    let r = vec![CAPABILITY_CORE.to_string(), CAPABILITY_CALENDARS.to_string()];
    assert(r.deep_view() =~= seq![CAPABILITY_CORE@, CAPABILITY_CALENDARS@]);
    r
}

/// The capabilities that a call for contacts uses.
pub fn using_contacts() -> (r: Vec<String>)
    ensures
        r.deep_view() == seq![CAPABILITY_CORE@, CAPABILITY_CONTACTS@],
{
    let r = vec![CAPABILITY_CORE.to_string(), CAPABILITY_CONTACTS.to_string()];
    assert(r.deep_view() =~= seq![CAPABILITY_CORE@, CAPABILITY_CONTACTS@]);
    r
}

/// A call of a method on its own.
pub open spec fn single_call(method: Seq<char>, args: ValueV) -> Seq<MethodCallV> {
    seq![MethodCallV { name: method, args, id: "c0"@ }]
}

fn one_call(method: &str, args: Value) -> (r: Vec<MethodCall>)
    ensures
        r.deep_view() == single_call(method@, args.deep_view()),
{
    let r = vec![MethodCall(method.to_string(), args, "c0".to_string())];
    assert(r.deep_view() =~= single_call(method@, args.deep_view()));
    r
}

/// An object of an account and one more entry.
pub open spec fn account_args(account_id: Seq<char>, key: Seq<char>, value: ValueV) -> ValueV {
    object(seq![("accountId"@, ValueV::Text(account_id)), (key, value)])
}

fn make_account_args(account_id: &str, key: &str, value: Value) -> (r: Value)
    ensures
        r.deep_view() == account_args(account_id@, key@, value.deep_view()),
{
    let pairs = vec![entry("accountId", text(account_id)), entry(key, value)];
    assert(pairs.deep_view() =~= seq![
        ("accountId"@, ValueV::Text(account_id@)),
        (key@, value.deep_view()),
    ]);
    json_object(pairs)
}

/// An object with one entry.
pub open spec fn single(key: Seq<char>, value: ValueV) -> ValueV {
    object(seq![(key, value)])
}

fn make_single(key: &str, value: Value) -> (r: Value)
    ensures
        r.deep_view() == single(key@, value.deep_view()),
{
    let pairs = vec![entry(key, value)];
    assert(pairs.deep_view() =~= seq![(key@, value.deep_view())]);
    json_object(pairs)
}

/// A call for all the objects of an account.
pub fn get_all_request(method: &str, account_id: &str) -> (r: Vec<MethodCall>)
    ensures
        r.deep_view() == single_call(method@, account_args(account_id@, "ids"@, ValueV::Null)),
{
    one_call(method, make_account_args(account_id, "ids", Value::Null))
}

/// Texts as JSON.
pub open spec fn texts_value(s: Seq<Seq<char>>) -> ValueV {
    ValueV::Array(Seq::new(s.len(), |i: int| ValueV::Text(s[i])))
}

fn make_texts(s: &Vec<String>) -> (r: Value)
    ensures
        r.deep_view() == texts_value(s.deep_view()),
{
    let ghost all = s.deep_view();
    let ghost want = Seq::new(all.len(), |i: int| ValueV::Text(all[i]));
    let mut out: Vec<Value> = Vec::new();
    let mut i: usize = 0;
    while i < s.len()
        invariant
            0 <= i <= s@.len(),
            all == s.deep_view(),
            want == Seq::new(all.len(), |i: int| ValueV::Text(all[i])),
            out.deep_view() =~= want.take(i as int),
        decreases s@.len() - i,
    {
        assert(all[i as int] == s@[i as int]@);
        let ghost before = out.deep_view();
        let v = text(s[i].as_str());
        out.push(v);
        assert(out.deep_view() =~= before.push(v.deep_view()));
        i = i + 1;
    }
    assert(want.take(i as int) =~= want);
    array_of(out)
}

/// A call for some objects of an account.
pub fn get_request(method: &str, account_id: &str, ids: &Vec<String>) -> (r: Vec<MethodCall>)
    ensures
        r.deep_view() == single_call(
            method@,
            account_args(account_id@, "ids"@, texts_value(ids.deep_view())),
        ),
{
    one_call(method, make_account_args(account_id, "ids", make_texts(ids)))
}

/// A call for the calendars of an account.
pub fn get_calendars_request(account_id: &str) -> (r: Vec<MethodCall>)
    ensures
        r.deep_view() == single_call(
            "Calendar/get"@,
            account_args(account_id@, "ids"@, ValueV::Null),
        ),
{
    get_all_request("Calendar/get", account_id)
}

/// A call for some events of an account.
pub fn get_events_request(account_id: &str, ids: &Vec<String>) -> (r: Vec<MethodCall>)
    ensures
        r.deep_view() == single_call(
            "CalendarEvent/get"@,
            account_args(account_id@, "ids"@, texts_value(ids.deep_view())),
        ),
{
    get_request("CalendarEvent/get", account_id, ids)
}

/// The properties of a contact that are shown.
pub open spec fn contact_properties() -> Seq<Seq<char>> {
    seq!["id"@, "uid"@, "name"@, "emails"@, "anniversaries"@]
}

/// A call for all the contacts of an account, with no more of each than is shown.
pub fn get_contact_cards_request(account_id: &str) -> (r: Vec<MethodCall>)
    ensures
        r.deep_view() == single_call(
            "ContactCard/get"@,
            object(
                seq![
                    ("accountId"@, ValueV::Text(account_id@)),
                    ("ids"@, ValueV::Null),
                    ("properties"@, texts_value(contact_properties())),
                ],
            ),
        ),
{
    let wanted = vec![
        "id".to_string(),
        "uid".to_string(),
        "name".to_string(),
        "emails".to_string(),
        "anniversaries".to_string(),
    ];
    assert(wanted.deep_view() =~= contact_properties());
    let pairs = vec![
        entry("accountId", text(account_id)),
        entry("ids", Value::Null),
        entry("properties", make_texts(&wanted)),
    ];
    assert(pairs.deep_view() =~= seq![
        ("accountId"@, ValueV::Text(account_id@)),
        ("ids"@, ValueV::Null),
        ("properties"@, texts_value(contact_properties())),
    ]);
    one_call("ContactCard/get", json_object(pairs))
}

/// A call that makes an object.
pub fn create_request(method: &str, account_id: &str, value: Value) -> (r: Vec<MethodCall>)
    ensures
        r.deep_view() == single_call(
            method@,
            account_args(account_id@, "create"@, single("new"@, value.deep_view())),
        ),
{
    one_call(method, make_account_args(account_id, "create", make_single("new", value)))
}

/// A call that changes an object.
pub fn update_request(
    method: &str,
    account_id: &str,
    id: &str,
    patch: Value,
) -> (r: Vec<MethodCall>)
    ensures
        r.deep_view() == single_call(
            method@,
            account_args(account_id@, "update"@, single(id@, patch.deep_view())),
        ),
{
    one_call(method, make_account_args(account_id, "update", make_single(id, patch)))
}

/// A call that deletes an object.
pub fn destroy_request(method: &str, account_id: &str, id: &str) -> (r: Vec<MethodCall>)
    ensures
        r.deep_view() == single_call(
            method@,
            account_args(account_id@, "destroy"@, ValueV::Array(seq![ValueV::Text(id@)])),
        ),
{
    let ids = vec![text(id)];
    assert(ids.deep_view() =~= seq![ValueV::Text(id@)]);
    one_call(method, make_account_args(account_id, "destroy", array_of(ids)))
}

/// What a change to an event or a contact says: all but its ids, which stay.
pub open spec fn change_without_ids(value: ValueV) -> ValueV {
    value.without("id"@).without("uid"@)
}

/// What a change to an event or a contact says: all but its ids, which stay.
pub fn make_change(value: Value) -> (r: Value)
    ensures
        r.deep_view() == change_without_ids(value.deep_view()),
{
    without_key(without_key(value, "id"), "uid")
}

/// What a change to a calendar says: all but its id, which stays.
pub fn make_calendar_change(value: Value) -> (r: Value)
    ensures
        r.deep_view() == value.deep_view().without("id"@),
{
    without_key(value, "id")
}

/// What events are asked for by: a calendar, and when they are; what is not given is left out.
pub open spec fn event_filter(
    calendar_id: Option<Seq<char>>,
    after: Option<Seq<char>>,
    before: Option<Seq<char>>,
) -> Seq<(Seq<char>, ValueV)> {
    (match calendar_id {
        Some(c) => seq![("inCalendars"@, ValueV::Array(seq![ValueV::Text(c)]))],
        None => Seq::empty(),
    }) + (match after {
        Some(a) => seq![("after"@, ValueV::Text(a))],
        None => Seq::empty(),
    }) + (match before {
        Some(b) => seq![("before"@, ValueV::Text(b))],
        None => Seq::empty(),
    })
}

/// The arguments by which events are asked for.
pub open spec fn query_args(account_id: Seq<char>, filter: Seq<(Seq<char>, ValueV)>) -> ValueV {
    if filter.len() == 0 {
        single("accountId"@, ValueV::Text(account_id))
    } else {
        account_args(account_id, "filter"@, object(filter))
    }
}

/// The calls that ask for events and then, in the same round trip, for what was found.
pub open spec fn query_calls(account_id: Seq<char>, filter: Seq<(Seq<char>, ValueV)>) -> Seq<
    MethodCallV,
> {
    seq![
        MethodCallV {
            name: "CalendarEvent/query"@,
            args: query_args(account_id, filter),
            id: "q0"@,
        },
        MethodCallV {
            name: "CalendarEvent/get"@,
            args: account_args(
                account_id,
                "#ids"@,
                reference_to("q0"@, "CalendarEvent/query"@, "/ids"@),
            ),
            id: "g0"@,
        },
    ]
}

/// The calls that ask for the events that overlap a range, and for what was found.
pub fn query_events_request(
    account_id: &str,
    calendar_id: Option<&str>,
    after: Option<&str>,
    before: Option<&str>,
) -> (r: Vec<MethodCall>)
    ensures
        r.deep_view() == query_calls(
            account_id@,
            event_filter(
                match calendar_id {
                    Some(c) => Some(c@),
                    None => None,
                },
                match after {
                    Some(a) => Some(a@),
                    None => None,
                },
                match before {
                    Some(b) => Some(b@),
                    None => None,
                },
            ),
        ),
{
    let ghost want = event_filter(
        match calendar_id {
            Some(c) => Some(c@),
            None => None,
        },
        match after {
            Some(a) => Some(a@),
            None => None,
        },
        match before {
            Some(b) => Some(b@),
            None => None,
        },
    );
    let mut filter: Vec<(String, Value)> = Vec::new();
    if let Some(c) = calendar_id {
        let ids = vec![text(c)];
        assert(ids.deep_view() =~= seq![ValueV::Text(c@)]);
        filter.push(entry("inCalendars", array_of(ids)));
    }
    if let Some(a) = after {
        filter.push(entry("after", text(a)));
    }
    if let Some(b) = before {
        filter.push(entry("before", text(b)));
    }
    assert(filter.deep_view() =~= want);
    let args = if filter.len() == 0 {
        make_single("accountId", text(account_id))
    } else {
        make_account_args(account_id, "filter", json_object(filter))
    };
    let get_args = make_account_args(
        account_id,
        "#ids",
        make_reference("q0", "CalendarEvent/query", "/ids"),
    );
    let r = vec![
        MethodCall("CalendarEvent/query".to_string(), args, "q0".to_string()),
        MethodCall("CalendarEvent/get".to_string(), get_args, "g0".to_string()),
    ];
    assert(r.deep_view() =~= query_calls(account_id@, want));
    r
}

// ---------------------------------------------------------------------------
// What is answered
// ---------------------------------------------------------------------------

/// The list that an answer holds.
pub open spec fn list_in(result: Result<ValueV, ErrorV>) -> Result<ValueV, ErrorV> {
    match result {
        Ok(v) => match v.get("list"@) {
            Some(list) => Ok(list),
            None => Err(ErrorV::protocol("missing list"@)),
        },
        Err(e) => Err(e),
    }
}

/// What a result stands for.
pub open spec fn answer_view(r: Result<Value, Error>) -> Result<ValueV, ErrorV> {
    match r {
        Ok(v) => Ok(v.deep_view()),
        Err(e) => Err(e.deep_view()),
    }
}

/// The list that the answer to a call holds, or what went wrong.
pub fn list_of(response: &Response, call_id: &str) -> (r: Result<Value, Error>)
    ensures
        answer_view(r) == list_in(result_of(response.deep_view().method_responses, call_id@)),
{
    match response.result_for(call_id) {
        Ok(v) => match v.get("list") {
            Some(list) => Ok(list.clone_view()),
            None => Err(Error::protocol("missing list")),
        },
        Err(e) => Err(e),
    }
}

/// What an answer says under one key and then another.
pub open spec fn said(v: ValueV, key: Seq<char>, id: Seq<char>) -> Option<ValueV> {
    match v.get(key) {
        Some(m) => m.get(id),
        None => None,
    }
}

fn find_said<'a>(v: &'a Value, key: &str, id: &str) -> (r: Option<&'a Value>)
    ensures
        match r {
            Some(x) => said(v.deep_view(), key@, id@) == Some(x.deep_view()),
            None => said(v.deep_view(), key@, id@) is None,
        },
{
    match v.get(key) {
        Some(m) => m.get(id),
        None => None,
    }
}

/// The object that was made, with what the server added to what was sent; `kind` is what it is.
pub open spec fn made(result: Result<ValueV, ErrorV>, kind: Seq<char>, sent: ValueV) -> Result<
    ValueV,
    ErrorV,
> {
    match result {
        Ok(v) => match said(v, "notCreated"@, "new"@) {
            Some(err) => Err(
                ErrorV::Protocol { message: kind + " not created"@, detail: Some(err) },
            ),
            None => match said(v, "created"@, "new"@) {
                Some(created) => Ok(merged(sent, created)),
                None => Err(ErrorV::protocol("missing created "@ + kind)),
            },
        },
        Err(e) => Err(e),
    }
}

/// The object that was made, with what the server added to what was sent, or what went wrong.
pub fn created_of(response: &Response, kind: &str, sent: Value) -> (r: Result<Value, Error>)
    ensures
        answer_view(r) == made(
            result_of(response.deep_view().method_responses, "c0"@),
            kind@,
            sent.deep_view(),
        ),
{
    match response.result_for("c0") {
        Ok(v) => {
            if let Some(err) = find_said(v, "notCreated", "new") {
                return Err(
                    Error::Protocol {
                        message: concat2(kind, " not created"),
                        detail: Some(err.clone_view()),
                    },
                );
            }
            match find_said(v, "created", "new") {
                Some(created) => Ok(merge_json(sent, created)),
                None => Err(Error::protocol(concat2("missing created ", kind).as_str())),
            }
        },
        Err(e) => Err(e),
    }
}

/// What went wrong with a change or a deletion, if anything: `key` is where the server tells of
/// that, and `what` says what was asked.
pub open spec fn refusal(
    result: Result<ValueV, ErrorV>,
    key: Seq<char>,
    id: Seq<char>,
    what: Seq<char>,
) -> Option<ErrorV> {
    match result {
        Ok(v) => match said(v, key, id) {
            Some(err) => Some(ErrorV::Protocol { message: what, detail: Some(err) }),
            None => None,
        },
        Err(e) => Some(e),
    }
}

fn check_answer(response: &Response, key: &str, id: &str, what: String) -> (r: Result<(), Error>)
    ensures
        match refusal(
            result_of(response.deep_view().method_responses, "c0"@),
            key@,
            id@,
            what@,
        ) {
            Some(e) => r is Err && r->Err_0.deep_view() == e,
            None => r is Ok,
        },
{
    match response.result_for("c0") {
        Ok(v) => match find_said(v, key, id) {
            Some(err) => Err(Error::Protocol { message: what, detail: Some(err.clone_view()) }),
            None => Ok(()),
        },
        Err(e) => Err(e),
    }
}

/// Whether an object was changed; `kind` is what it is.
pub fn check_updated(response: &Response, kind: &str, id: &str) -> (r: Result<(), Error>)
    ensures
        match refusal(
            result_of(response.deep_view().method_responses, "c0"@),
            "notUpdated"@,
            id@,
            kind@ + " not updated"@,
        ) {
            Some(e) => r is Err && r->Err_0.deep_view() == e,
            None => r is Ok,
        },
{
    check_answer(response, "notUpdated", id, concat2(kind, " not updated"))
}

/// Whether an object was deleted; `kind` is what it is.
pub fn check_destroyed(response: &Response, kind: &str, id: &str) -> (r: Result<(), Error>)
    ensures
        match refusal(
            result_of(response.deep_view().method_responses, "c0"@),
            "notDestroyed"@,
            id@,
            kind@ + " not destroyed"@,
        ) {
            Some(e) => r is Err && r->Err_0.deep_view() == e,
            None => r is Ok,
        },
{
    check_answer(response, "notDestroyed", id, concat2(kind, " not destroyed"))
}

/// The status with which a server refuses the credentials.
pub const STATUS_UNAUTHORIZED: u16 = 401;

/// Whether the status of an answer says that the credentials were refused.
pub fn check_credentials(status: u16) -> (r: Result<(), Error>)
    ensures
        match r {
            Ok(_) => status != STATUS_UNAUTHORIZED,
            Err(e) => status == STATUS_UNAUTHORIZED && e.deep_view() == ErrorV::Unauthorized,
        },
{
    if status == STATUS_UNAUTHORIZED {
        Err(Error::Unauthorized)
    } else {
        Ok(())
    }
}

/// The address that calls go to, once a session is open.
pub fn api_url(session: Option<&Session>) -> (r: Result<String, Error>)
    ensures
        match session {
            Some(s) => r is Ok && r->Ok_0@ == s.api_url@,
            None => r is Err && r->Err_0.deep_view() == ErrorV::protocol("not connected"@),
        },
{
    match session {
        Some(s) => Ok(s.api_url.clone()),
        None => Err(Error::protocol("not connected")),
    }
}

/// The account whose calendars are shown, once a session is open.
pub fn calendars_account_id(session: Option<&Session>) -> (r: Result<String, Error>)
    ensures
        match session.deep_view() {
            Some(s) => match s.calendars_account_id() {
                Some(id) => r is Ok && r->Ok_0@ == id,
                None => r is Err && r->Err_0.deep_view() == ErrorV::UnsupportedAccount(
                    "calendars"@,
                ),
            },
            None => r is Err && r->Err_0.deep_view() == ErrorV::UnsupportedAccount("calendars"@),
        },
{
    match session {
        Some(s) => match s.calendars_account_id() {
            Some(id) => Ok(id.to_string()),
            None => Err(Error::UnsupportedAccount("calendars".to_string())),
        },
        None => Err(Error::UnsupportedAccount("calendars".to_string())),
    }
}

} // verus!
