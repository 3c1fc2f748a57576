//! Which accounts may be made, changed and deleted, and what settings come to.

use vstd::prelude::*;
use vstd::string::*;
use vstd::utf8::encode_utf8;
use crate::admin::{
    delete_fault, new_user_fault, update_fault, updated_user, user_list, user_row,
    AdminUserFormBodyV, UserRow, UserRowV,
};
use crate::auth::{session_url, LoginRequestV};
use crate::client::CredentialsV;
use crate::collections::{
    stable_sorted_in_order, text_less_irreflexive, text_less_total, text_less_transitive,
    total_preorder, Ordered,
};
use crate::contentline::lowered;
use crate::jscalendar::CalendarEventV;
use crate::prefs::{applied, wanted, UserPrefsV};
use crate::settings::SettingsFormBodyV;
use crate::state::{
    after_fetch, is_fresh, CachedIcsEventsV, DisplaySettingsV, TimeFormat, ICS_CACHE_TTL_SECS,
};
use crate::text::{starts_with, text_less, trim};
use crate::tz::is_zone;
use crate::urls::{parsed_url, url_with_path};
use crate::users::{bootstrap, BootstrapPlanV, JmapSettingsV, Role, UserV};

verus! {

/// A new account is made exactly where its name is more than blanks, its password has eight bytes
/// or more, and no other account has the name.
pub proof fn new_account_is_made(form: AdminUserFormBodyV, taken: bool)
    ensures
        new_user_fault(form, taken) is None <==> trim(form.username).len() > 0 && encode_utf8(
            form.password,
        ).len() >= 8 && !taken,
        trim(form.username).len() == 0 ==> new_user_fault(form, taken) == Some(
            "Username is required."@,
        ),
        trim(form.username).len() > 0 && encode_utf8(form.password).len() >= 8 && taken
            ==> new_user_fault(form, taken) == Some("That username is taken."@),
{
}

/// An account is changed exactly where its new name is more than blanks and free, the password,
/// where one is given, has eight bytes or more, and no administrator is demoted who is the last one
/// or who asks for it.
pub proof fn account_is_changed(
    existing: UserV,
    id: Seq<char>,
    admin_id: Seq<char>,
    form: AdminUserFormBodyV,
    taken: bool,
    admins: int,
)
    ensures
        update_fault(existing, id, admin_id, form, taken, admins) is None <==> ({
            &&& trim(form.username).len() > 0
            &&& !taken
            &&& form.password.len() == 0 || encode_utf8(form.password).len() >= 8
            &&& existing.role is User || form.role == "admin"@ || (id != admin_id && admins >= 2)
        }),
{
}

/// What an account keeps when it is changed: its id, its connection and its preferences, and its
/// password where no other is given. Its role is that of an administrator only where the form says
/// so.
pub proof fn change_keeps_the_rest(
    existing: UserV,
    form: AdminUserFormBodyV,
    hash: Option<Seq<char>>,
)
    ensures
        ({
            let u = updated_user(existing, form, hash);
            &&& u.id == existing.id
            &&& u.jmap == existing.jmap
            &&& u.prefs == existing.prefs
            &&& hash is None ==> u.password_hash == existing.password_hash
            &&& hash matches Some(h) ==> u.password_hash == h
            &&& u.username == trim(form.username)
            &&& u.role is Admin <==> form.role == "admin"@
        }),
{
}

/// An account may be deleted by another administrator, unless it is the last administrator.
pub proof fn account_is_deleted(
    id: Seq<char>,
    admin_id: Seq<char>,
    role: Option<Role>,
    admins: int,
)
    ensures
        delete_fault(id, admin_id, role, admins) is None <==> id != admin_id && (role == Some(
            Role::Admin,
        ) ==> admins >= 2),
{
}

proof fn rows_have_order()
    ensures
        total_preorder(|a: UserRowV, b: UserRowV| UserRow::le_view(a, b)),
{
    let le = |a: UserRowV, b: UserRowV| UserRow::le_view(a, b);
    assert forall|a: UserRowV| #[trigger] le(a, a) by {
        text_less_irreflexive(lowered(a.username));
    }
    assert forall|a: UserRowV, b: UserRowV| #[trigger] le(a, b) || le(b, a) by {
        let x = lowered(a.username);
        let y = lowered(b.username);
        if text_less(y, x) && text_less(x, y) {
            text_less_transitive(x, y, x);
            text_less_irreflexive(x);
        }
    }
    assert forall|a: UserRowV, b: UserRowV, c: UserRowV| #[trigger] le(a, b) && #[trigger] le(
        b,
        c,
    ) implies le(a, c) by {
        let x = lowered(a.username);
        let y = lowered(b.username);
        let z = lowered(c.username);
        text_less_total(x, y);
        if text_less(z, x) && text_less(x, y) {
            text_less_transitive(z, x, y);
        }
    }
}

/// The list has one row for each account, by their names whatever the case, and marks the one that
/// looks at it.
pub proof fn every_account_is_listed(users: Seq<UserV>, admin_id: Seq<char>, i: int)
    requires
        0 <= i < users.len(),
    ensures
        user_list(users, admin_id).len() == users.len(),
        exists|j: int|
            0 <= j < users.len() && ({
                let row = #[trigger] user_list(users, admin_id)[j];
                &&& row.id == users[i].id
                &&& row.username == users[i].username
                &&& row.is_self <==> users[i].id == admin_id
                &&& users[i].role is Admin ==> row.role_label == "admin"@
                &&& users[i].role is User ==> row.role_label == "user"@
                &&& row.jmap_configured <==> users[i].jmap.is_configured()
            }),
        forall|j: int, k: int|
            0 <= j <= k < users.len() ==> !text_less(
                lowered((#[trigger] user_list(users, admin_id)[k]).username),
                lowered((#[trigger] user_list(users, admin_id)[j]).username),
            ),
{
    let le = |a: UserRowV, b: UserRowV| UserRow::le_view(a, b);
    let rows = Seq::new(users.len(), |i: int| user_row(users[i], admin_id));
    let out = user_list(users, admin_id);
    rows_have_order();
    stable_sorted_in_order(rows, le);
    rows.to_multiset_ensures();
    out.to_multiset_ensures();
    assert(rows.contains(rows[i]));
    assert(rows.to_multiset().count(rows[i]) > 0);
    assert(out.contains(rows[i]));
    let j = choose|j: int| 0 <= j < out.len() && out[j] == rows[i];
    assert(out[j].id == users[i].id);
    assert forall|j: int, k: int| 0 <= j <= k < users.len() implies !text_less(
        lowered((#[trigger] out[k]).username),
        lowered((#[trigger] out[j]).username),
    ) by {
        assert(le(out[j], out[k]));
    }
}

/// A connection can be used exactly where it names a server and has a token, or a name and a
/// password; and a token comes before these.
pub proof fn connection_needs_secret(s: JmapSettingsV)
    ensures
        s.is_configured() <==> s.server_url.len() > 0 && (s.token.len() > 0 || s.username.len() > 0
            && s.password.len() > 0),
        s.token.len() > 0 ==> s.credentials() == Some(CredentialsV::Bearer(s.token)),
        s.token.len() == 0 && s.username.len() > 0 && s.password.len() > 0 ==> s.credentials()
            == Some(CredentialsV::Basic { username: s.username, password: s.password }),
        s.token.len() == 0 && (s.username.len() == 0 || s.password.len() == 0) ==> s.credentials()
            is None,
{
}

/// The first administrator is made where there is none; one that is there is left alone, unless a
/// password is set for it.
pub proof fn first_administrator(existing: Option<Seq<char>>, password: Option<Seq<char>>)
    ensures
        existing is None ==> bootstrap(existing, password) == (BootstrapPlanV::Create { password }),
        existing is Some && password is None ==> bootstrap(existing, password) is Keep,
        existing matches Some(id) ==> (password matches Some(p) ==> bootstrap(existing, password)
            == (BootstrapPlanV::Reset { id, wanted: p })),
{
}

/// A password is changed exactly where both fields agree on eight bytes or more; two empty fields
/// change nothing and are no fault.
pub proof fn password_is_changed(form: SettingsFormBodyV)
    ensures
        form.new_password.len() == 0 && form.new_password_confirm.len() == 0
            ==> !form.changes_password() && form.password_fault() is None,
        form.changes_password() ==> (form.password_fault() is None <==> form.new_password
            == form.new_password_confirm && encode_utf8(form.new_password).len() >= 8),
        form.new_password.len() > 0 ==> form.changes_password(),
        form.new_password != form.new_password_confirm ==> form.password_fault() == Some(
            "Passwords do not match."@,
        ),
{
    if form.new_password.len() == 0 && form.new_password_confirm.len() == 0 {
        assert(form.new_password =~= form.new_password_confirm);
    }
}

/// What a user asks for takes the place of what the server shows, part by part; what they do not
/// ask for stays.
pub proof fn preferences_come_first(s: DisplaySettingsV, p: UserPrefsV)
    ensures
        p.timezone matches Some(z) ==> applied(s, p).viewer_tz == z,
        p.timezone is None ==> applied(s, p).viewer_tz == s.viewer_tz,
        p.holidays_region matches Some(r) ==> applied(s, p).holidays_region == r,
        p.holidays_region is None ==> applied(s, p).holidays_region == s.holidays_region,
        p.time_format matches Some(f) ==> applied(s, p).time_format == f,
        p.time_format is None ==> applied(s, p).time_format == s.time_format,
        applied(applied(s, p), p) == applied(s, p),
{
}

/// The fields of the settings: a zone counts where there is one of that name, `none` asks for no
/// holidays, and each clock goes by its own word.
pub proof fn fields_ask_for_preferences(
    timezone: Seq<char>,
    region: Seq<char>,
    time_format: Seq<char>,
)
    ensures
        ({
            let w = wanted(timezone, region, time_format);
            &&& timezone.len() > 0 && is_zone(timezone) ==> w.timezone == Some(timezone)
            &&& timezone.len() == 0 || !is_zone(timezone) ==> w.timezone is None
            &&& region == "none"@ ==> (w.holidays_region matches Some(r) && r is None)
            &&& region.len() == 0 ==> w.holidays_region is None
            &&& time_format == "12h"@ ==> w.time_format == Some(TimeFormat::Twelve)
            &&& time_format == "24h"@ ==> w.time_format == Some(TimeFormat::TwentyFour)
            &&& time_format.len() == 0 ==> w.time_format is None
        }),
{
    reveal_strlit("none");
    reveal_strlit("12h");
    reveal_strlit("24h");
    assert("none"@.len() == 4 && "12h"@.len() == 3 && "24h"@.len() == 3);
    assert("12h"@[0] != "24h"@[0]);
}

/// What was fetched can be used until its time is up, and not from then on; a fetch that went well
/// brings its events, and counts from its own time.
pub proof fn fetched_is_used_for_its_time(
    cached: Option<CachedIcsEventsV>,
    events: Seq<CalendarEventV>,
    at: u64,
    now: int,
)
    ensures
        ({
            let c = after_fetch(cached, Ok(events), at);
            &&& c.events == events
            &&& c.error is None
            &&& is_fresh(c.fetched_at as int, now, ICS_CACHE_TTL_SECS as int) <==> now < at
                + ICS_CACHE_TTL_SECS
        }),
{
}

/// A sign-in uses the token where there is one, and else needs both a name and a password.
pub proof fn sign_in_needs_secret(req: LoginRequestV)
    ensures
        req.token.len() > 0 ==> req.credentials() == Some(CredentialsV::Bearer(req.token)),
        req.token.len() == 0 && req.username.len() > 0 && req.password.len() > 0
            ==> req.credentials() == Some(
            CredentialsV::Basic { username: req.username, password: req.password },
        ),
        req.token.len() == 0 && (req.username.len() == 0 || req.password.len() == 0)
            ==> req.credentials() is None,
{
}

/// The address of a server is taken without the blanks around it, and by `https` where it names no
/// scheme; one without a path gets the usual one, and any other stays as it is.
pub proof fn server_address_is_completed(input: Seq<char>)
    ensures
        ({
            let s = trim(input);
            let given = if starts_with(s, "http://"@) || starts_with(s, "https://"@) {
                s
            } else {
                "https://"@ + s
            };
            match parsed_url(given) {
                Ok(u) => if u.path == ""@ || u.path == "/"@ {
                    session_url(input) == Ok::<Seq<char>, Seq<char>>(
                        url_with_path(given, "/.well-known/jmap"@),
                    )
                } else {
                    session_url(input) == Ok::<Seq<char>, Seq<char>>(u.text)
                },
                Err(_) => session_url(input) is Err,
            }
        }),
{
}

/// A token is sent as it is.
pub proof fn token_is_sent(token: Seq<char>)
    ensures
        CredentialsV::Bearer(token).header_value() == "Bearer "@ + token,
{
}

} // verus!
