//! JMAP: the session of a server, what is asked of it, and what it answers.

use vstd::prelude::*;
use vstd::string::*;
use crate::collections::{map_get, CloneView, StrMap};
use crate::error::{Error, ErrorV};
use crate::json::{entry, json_object, object, text, Value, ValueV};
use crate::text::{concat2, str_eq};

verus! {

pub const CAPABILITY_CORE: &'static str = "urn:ietf:params:jmap:core";

pub const CAPABILITY_CALENDARS: &'static str = "urn:ietf:params:jmap:calendars";

pub const CAPABILITY_CONTACTS: &'static str = "urn:ietf:params:jmap:contacts";

/// An account of a server.
#[derive(Debug)]
pub struct Account {
    pub name: String,
    pub is_personal: bool,
    pub is_read_only: bool,
    pub account_capabilities: StrMap<Value>,
}

/// What a [`Account`] stands for.
#[verifier::ext_equal]
pub struct AccountV {
    pub name: Seq<char>,
    pub is_personal: bool,
    pub is_read_only: bool,
    pub account_capabilities: Seq<(Seq<char>, ValueV)>,
}

impl DeepView for Account {
    type V = AccountV;

    open spec fn deep_view(&self) -> AccountV {
        AccountV {
            name: self.name.deep_view(),
            is_personal: self.is_personal.deep_view(),
            is_read_only: self.is_read_only.deep_view(),
            account_capabilities: self.account_capabilities.deep_view(),
        }
    }
}

/// What a server tells of itself and of its user. Its accounts stand in the order in which they
/// are looked through.
#[derive(Debug)]
pub struct Session {
    pub capabilities: Value,
    pub accounts: Vec<(String, Account)>,
    pub primary_accounts: StrMap<String>,
    pub username: String,
    pub api_url: String,
    pub download_url: String,
    pub upload_url: String,
    pub event_source_url: Option<String>,
    pub state: String,
}

/// What a [`Session`] stands for.
#[verifier::ext_equal]
pub struct SessionV {
    pub capabilities: ValueV,
    pub accounts: Seq<(Seq<char>, AccountV)>,
    pub primary_accounts: Seq<(Seq<char>, Seq<char>)>,
    pub username: Seq<char>,
    pub api_url: Seq<char>,
    pub download_url: Seq<char>,
    pub upload_url: Seq<char>,
    pub event_source_url: Option<Seq<char>>,
    pub state: Seq<char>,
}

impl DeepView for Session {
    type V = SessionV;

    open spec fn deep_view(&self) -> SessionV {
        SessionV {
            capabilities: self.capabilities.deep_view(),
            accounts: self.accounts.deep_view(),
            primary_accounts: self.primary_accounts.deep_view(),
            username: self.username.deep_view(),
            api_url: self.api_url.deep_view(),
            download_url: self.download_url.deep_view(),
            upload_url: self.upload_url.deep_view(),
            event_source_url: self.event_source_url.deep_view(),
            state: self.state.deep_view(),
        }
    }
}

/// The first account that has a capability.
pub open spec fn first_with(accounts: Seq<(Seq<char>, AccountV)>, capability: Seq<char>) -> Option<
    Seq<char>,
>
    decreases accounts.len(),
{
    if accounts.len() == 0 {
        None
    } else if map_get(accounts[0].1.account_capabilities, capability) is Some {
        Some(accounts[0].0)
    } else {
        first_with(accounts.skip(1), capability)
    }
}

impl SessionV {
    /// The account that a capability is used with: the main one for it, or else the first that
    /// has it.
    pub open spec fn account_with(self, capability: Seq<char>) -> Option<Seq<char>> {
        match map_get(self.primary_accounts, capability) {
            Some(id) => Some(id),
            None => first_with(self.accounts, capability),
        }
    }

    /// The account whose calendars are shown: the first at all where none has any.
    pub open spec fn calendars_account_id(self) -> Option<Seq<char>> {
        match self.account_with(CAPABILITY_CALENDARS@) {
            Some(id) => Some(id),
            None => if self.accounts.len() > 0 {
                Some(self.accounts[0].0)
            } else {
                None
            },
        }
    }

    /// The account whose contacts are shown, where any has contacts.
    pub open spec fn contacts_account_id(self) -> Option<Seq<char>> {
        self.account_with(CAPABILITY_CONTACTS@)
    }
}

impl Session {
    fn account_id_with(&self, capability: &str) -> (r: Option<&str>)
        ensures
            r.deep_view() == self.deep_view().account_with(capability@),
    {
        if let Some(id) = self.primary_accounts.get(capability) {
            return Some(id.as_str());
        }
        let ghost all = self.accounts.deep_view();
        let mut i: usize = 0;
        assert(all.skip(0) =~= all);
        while i < self.accounts.len()
            invariant
                0 <= i <= self.accounts@.len(),
                all == self.accounts.deep_view(),
                first_with(all, capability@) == first_with(all.skip(i as int), capability@),
                self.deep_view().account_with(capability@) == first_with(all, capability@),
            decreases self.accounts@.len() - i,
        {
            proof {
                assert(all.skip(i as int)[0] == self.accounts@[i as int].deep_view());
                assert(all.skip(i as int).skip(1) =~= all.skip(i + 1));
            }
            if self.accounts[i].1.account_capabilities.get(capability).is_some() {
                return Some(self.accounts[i].0.as_str());
            }
            i = i + 1;
        }
        None
    }

    /// The account whose calendars are shown: the main one for calendars, or else the first that
    /// has them, or else the first at all.
    pub fn calendars_account_id(&self) -> (r: Option<&str>)
        ensures
            r.deep_view() == self.deep_view().calendars_account_id(),
    {
        match self.account_id_with(CAPABILITY_CALENDARS) {
            Some(id) => Some(id),
            None => {
                if self.accounts.len() > 0 {
                    assert(self.deep_view().accounts[0] == self.accounts@[0].deep_view());
                    Some(self.accounts[0].0.as_str())
                } else {
                    None
                }
            },
        }
    }

    /// The account whose contacts are shown, or `None` where the server has no contacts at all.
    pub fn contacts_account_id(&self) -> (r: Option<&str>)
        ensures
            r.deep_view() == self.deep_view().contacts_account_id(),
    {
        self.account_id_with(CAPABILITY_CONTACTS)
    }
}

/// A user who is signed in: the accounts that are shown.
#[derive(Debug)]
pub struct UserSession {
    pub account_id: String,
    pub username: String,
    /// Absent where the server has no contacts: they are then hidden.
    pub contacts_account_id: Option<String>,
}

/// What a [`UserSession`] stands for.
#[verifier::ext_equal]
pub struct UserSessionV {
    pub account_id: Seq<char>,
    pub username: Seq<char>,
    pub contacts_account_id: Option<Seq<char>>,
}

impl DeepView for UserSession {
    type V = UserSessionV;

    open spec fn deep_view(&self) -> UserSessionV {
        UserSessionV {
            account_id: self.account_id.deep_view(),
            username: self.username.deep_view(),
            contacts_account_id: self.contacts_account_id.deep_view(),
        }
    }
}

impl CloneView for UserSession {
    fn clone_view(&self) -> (r: Self) {
        UserSession {
            account_id: self.account_id.clone_view(),
            username: self.username.clone_view(),
            contacts_account_id: self.contacts_account_id.clone_view(),
        }
    }
}

impl Clone for UserSession {
    fn clone(&self) -> (r: Self)
        ensures
            r.deep_view() == self.deep_view(),
    {
        self.clone_view()
    }
}

/// The accounts that are shown of a session, or why none can be.
pub fn user_session(session: &Session) -> (r: Result<UserSession, String>)
    ensures
        match session.deep_view().calendars_account_id() {
            Some(id) => r is Ok && r->Ok_0.deep_view() == (UserSessionV {
                account_id: id,
                username: session.username@,
                contacts_account_id: session.deep_view().contacts_account_id(),
            }),
            None => r is Err && r->Err_0@ == "server does not advertise JMAP Calendars support"@,
        },
{
    match session.calendars_account_id() {
        Some(id) => {
            let contacts_account_id = match session.contacts_account_id() {
                Some(c) => Some(c.to_string()),
                None => None,
            };
            Ok(
                UserSession {
                    account_id: id.to_string(),
                    username: session.username.clone(),
                    contacts_account_id,
                },
            )
        },
        None => Err("server does not advertise JMAP Calendars support".to_string()),
    }
}

/// One call of a method, or the answer to it: its name, its arguments or its result, and an id
/// that ties the two together.
#[derive(Debug)]
pub struct MethodCall(pub String, pub Value, pub String);

/// What a [`MethodCall`] stands for.
#[verifier::ext_equal]
pub struct MethodCallV {
    pub name: Seq<char>,
    pub args: ValueV,
    pub id: Seq<char>,
}

impl DeepView for MethodCall {
    type V = MethodCallV;

    open spec fn deep_view(&self) -> MethodCallV {
        MethodCallV { name: self.0@, args: self.1.deep_view(), id: self.2@ }
    }
}

impl Clone for MethodCall {
    fn clone(&self) -> (r: Self)
        ensures
            r.deep_view() == self.deep_view(),
    {
        MethodCall(self.0.clone(), self.1.clone_view(), self.2.clone())
    }
}

/// What is asked of a server at once.
#[derive(Debug)]
pub struct Request {
    pub using: Vec<String>,
    pub method_calls: Vec<MethodCall>,
}

/// What a [`Request`] stands for.
#[verifier::ext_equal]
pub struct RequestV {
    pub using: Seq<Seq<char>>,
    pub method_calls: Seq<MethodCallV>,
}

impl DeepView for Request {
    type V = RequestV;

    open spec fn deep_view(&self) -> RequestV {
        RequestV {
            using: self.using.deep_view(),
            method_calls: self.method_calls.deep_view(),
        }
    }
}

/// What a server answers.
#[derive(Debug)]
pub struct Response {
    pub method_responses: Vec<MethodCall>,
    pub session_state: Option<String>,
}

/// What a [`Response`] stands for.
#[verifier::ext_equal]
pub struct ResponseV {
    pub method_responses: Seq<MethodCallV>,
    pub session_state: Option<Seq<char>>,
}

impl DeepView for Response {
    type V = ResponseV;

    open spec fn deep_view(&self) -> ResponseV {
        ResponseV {
            method_responses: self.method_responses.deep_view(),
            session_state: self.session_state.deep_view(),
        }
    }
}

/// The first of some answers to a call.
pub open spec fn answer_to(answers: Seq<MethodCallV>, id: Seq<char>) -> Option<MethodCallV>
    decreases answers.len(),
{
    if answers.len() == 0 {
        None
    } else if answers[0].id == id {
        Some(answers[0])
    } else {
        answer_to(answers.skip(1), id)
    }
}

/// The result of a call among some answers, or what went wrong with it.
pub open spec fn result_of(answers: Seq<MethodCallV>, id: Seq<char>) -> Result<ValueV, ErrorV> {
    match answer_to(answers, id) {
        Some(a) => if a.name == "error"@ {
            Err(
                ErrorV::Protocol {
                    message: "method error for "@ + id,
                    detail: Some(a.args),
                },
            )
        } else {
            Ok(a.args)
        },
        None => Err(ErrorV::protocol("no response for call "@ + id)),
    }
}

pub(crate) fn find_answer<'a>(answers: &'a Vec<MethodCall>, id: &str) -> (r: Option<&'a MethodCall>)
    ensures
        r.deep_view() == answer_to(answers.deep_view(), id@),
{
    let ghost all = answers.deep_view();
    let mut i: usize = 0;
    assert(all.skip(0) =~= all);
    while i < answers.len()
        invariant
            0 <= i <= answers@.len(),
            all == answers.deep_view(),
            answer_to(all, id@) == answer_to(all.skip(i as int), id@),
        decreases answers@.len() - i,
    {
        proof {
            assert(all.skip(i as int)[0] == answers@[i as int].deep_view());
            assert(all.skip(i as int).skip(1) =~= all.skip(i + 1));
        }
        if str_eq(answers[i].2.as_str(), id) {
            return Some(&answers[i]);
        }
        i = i + 1;
    }
    None
}

impl Response {
    /// The result of a call: that of the first answer to it, unless the server says that it went
    /// wrong.
    pub fn result_for(&self, call_id: &str) -> (r: Result<&Value, Error>)
        ensures
            match result_of(self.deep_view().method_responses, call_id@) {
                Ok(v) => r is Ok && r->Ok_0.deep_view() == v,
                Err(e) => r is Err && r->Err_0.deep_view() == e,
            },
    {
        match find_answer(&self.method_responses, call_id) {
            Some(a) => {
                if str_eq(a.0.as_str(), "error") {
                    Err(
                        Error::Protocol {
                            message: concat2("method error for ", call_id),
                            detail: Some(a.1.clone_view()),
                        },
                    )
                } else {
                    Ok(&a.1)
                }
            },
            None => Err(Error::protocol(concat2("no response for call ", call_id).as_str())),
        }
    }
}

/// A reference to a part of the result of an earlier call.
pub open spec fn reference_to(call_id: Seq<char>, name: Seq<char>, path: Seq<char>) -> ValueV {
    object(
        seq![
            ("resultOf"@, ValueV::Text(call_id)),
            ("name"@, ValueV::Text(name)),
            ("path"@, ValueV::Text(path)),
        ],
    )
}

pub(crate) fn make_reference(call_id: &str, name: &str, path: &str) -> (r: Value)
    ensures
        r.deep_view() == reference_to(call_id@, name@, path@),
{
    let pairs = vec![
        entry("resultOf", text(call_id)),
        entry("name", text(name)),
        entry("path", text(path)),
    ];
    assert(pairs.deep_view() =~= seq![
        ("resultOf"@, ValueV::Text(call_id@)),
        ("name"@, ValueV::Text(name@)),
        ("path"@, ValueV::Text(path@)),
    ]);
    json_object(pairs)
}

/// A reference to a part of the result of an earlier `CalendarEvent/get`.
pub fn result_reference(call_id: &str, path: &str) -> (r: Value)
    ensures
        r.deep_view() == reference_to(call_id@, "CalendarEvent/get"@, path@),
{
    make_reference(call_id, "CalendarEvent/get", path)
}

} // verus!
