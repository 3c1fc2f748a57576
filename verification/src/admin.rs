//! What administrators may do with the accounts.

use vstd::prelude::*;
use vstd::string::*;
use vstd::utf8::encode_utf8;
use crate::collections::{sort_items, stable_sorted, CloneView, Ordered};
use crate::contentline::{lowercase_str, lowered};
use crate::text::{str_eq, str_less, text_less, trim, trim_str};
use crate::users::{is_blank, role_of, role_word, Role, User, UserV};

verus! {

/// What the form for an account holds.
#[derive(Debug)]
pub struct AdminUserFormBody {
    pub username: String,
    pub password: String,
    pub role: String,
}

/// What a [`AdminUserFormBody`] stands for.
#[verifier::ext_equal]
pub struct AdminUserFormBodyV {
    pub username: Seq<char>,
    pub password: Seq<char>,
    pub role: Seq<char>,
}

impl DeepView for AdminUserFormBody {
    type V = AdminUserFormBodyV;

    open spec fn deep_view(&self) -> AdminUserFormBodyV {
        AdminUserFormBodyV {
            username: self.username.deep_view(),
            password: self.password.deep_view(),
            role: self.role.deep_view(),
        }
    }
}

impl CloneView for AdminUserFormBody {
    fn clone_view(&self) -> (r: Self) {
        AdminUserFormBody {
            username: self.username.clone_view(),
            password: self.password.clone_view(),
            role: self.role.clone_view(),
        }
    }
}

impl Clone for AdminUserFormBody {
    fn clone(&self) -> (r: Self)
        ensures
            r.deep_view() == self.deep_view(),
    {
        self.clone_view()
    }
}

impl AdminUserFormBodyV {
    /// Every part empty, absent or zero.
    pub open spec fn blank() -> AdminUserFormBodyV {
        AdminUserFormBodyV {
            username: Seq::empty(),
            password: Seq::empty(),
            role: Seq::empty(),
        }
    }
}

impl Default for AdminUserFormBody {
    fn default() -> (r: Self)
        ensures
            r.deep_view() == AdminUserFormBodyV::blank(),
    {
        let r = AdminUserFormBody {
            username: String::new(),
            password: String::new(),
            role: String::new(),
        };
        assert(r.deep_view() =~= AdminUserFormBodyV::blank());
        r
    }
}

/// An account in the list of them.
#[derive(Debug)]
pub struct UserRow {
    pub id: String,
    pub username: String,
    pub role_label: String,
    /// Whether it is the account of the administrator who looks.
    pub is_self: bool,
    pub jmap_configured: bool,
}

/// What a [`UserRow`] stands for.
#[verifier::ext_equal]
pub struct UserRowV {
    pub id: Seq<char>,
    pub username: Seq<char>,
    pub role_label: Seq<char>,
    pub is_self: bool,
    pub jmap_configured: bool,
}

impl DeepView for UserRow {
    type V = UserRowV;

    open spec fn deep_view(&self) -> UserRowV {
        UserRowV {
            id: self.id.deep_view(),
            username: self.username.deep_view(),
            role_label: self.role_label.deep_view(),
            is_self: self.is_self.deep_view(),
            jmap_configured: self.jmap_configured.deep_view(),
        }
    }
}

/// The form for an account, as it is shown.
#[derive(Debug)]
pub struct AdminUserForm {
    pub editing: bool,
    pub user_id: String,
    pub username: String,
    pub role: String,
    pub error: Option<String>,
}

/// What a [`AdminUserForm`] stands for.
#[verifier::ext_equal]
pub struct AdminUserFormV {
    pub editing: bool,
    pub user_id: Seq<char>,
    pub username: Seq<char>,
    pub role: Seq<char>,
    pub error: Option<Seq<char>>,
}

impl DeepView for AdminUserForm {
    type V = AdminUserFormV;

    open spec fn deep_view(&self) -> AdminUserFormV {
        AdminUserFormV {
            editing: self.editing.deep_view(),
            user_id: self.user_id.deep_view(),
            username: self.username.deep_view(),
            role: self.role.deep_view(),
            error: self.error.deep_view(),
        }
    }
}

/// Where two accounts stand in the list: by their names, whatever the case.
impl Ordered for UserRow {
    open spec fn le_view(a: UserRowV, b: UserRowV) -> bool {
        !text_less(lowered(b.username), lowered(a.username))
    }

    fn le(&self, other: &Self) -> (r: bool) {
        let a = lowercase_str(self.username.as_str());
        let b = lowercase_str(other.username.as_str());
        assert(a@ == lowered(self.username@));
        assert(b@ == lowered(other.username@));
        !str_less(b.as_str(), a.as_str())
    }
}

/// An account as it stands in the list that the account `admin_id` sees.
pub open spec fn user_row(u: UserV, admin_id: Seq<char>) -> UserRowV {
    UserRowV {
        id: u.id,
        username: u.username,
        role_label: role_word(u.role),
        is_self: u.id == admin_id,
        jmap_configured: u.jmap.is_configured(),
    }
}

/// The list of the accounts.
pub open spec fn user_list(users: Seq<UserV>, admin_id: Seq<char>) -> Seq<UserRowV> {
    stable_sorted(
        Seq::new(users.len(), |i: int| user_row(users[i], admin_id)),
        |a: UserRowV, b: UserRowV| UserRow::le_view(a, b),
    )
}

/// The list of the accounts, by their names.
pub fn list_users(users: &Vec<User>, admin_id: &str) -> (r: Vec<UserRow>)
    ensures
        r.deep_view() == user_list(users.deep_view(), admin_id@),
{
    let ghost all = users.deep_view();
    let ghost rows = Seq::new(all.len(), |i: int| user_row(all[i], admin_id@));
    let mut out: Vec<UserRow> = Vec::new();
    let mut i: usize = 0;
    while i < users.len()
        invariant
            0 <= i <= users@.len(),
            all == users.deep_view(),
            rows == Seq::new(all.len(), |i: int| user_row(all[i], admin_id@)),
            out.deep_view() =~= rows.take(i as int),
        decreases users@.len() - i,
    {
        let u = &users[i];
        assert(all[i as int] == u.deep_view());
        let ghost before = out.deep_view();
        let row = UserRow {
            id: u.id.clone(),
            username: u.username.clone(),
            role_label: u.role.as_str().to_string(),
            is_self: str_eq(u.id.as_str(), admin_id),
            jmap_configured: u.jmap.is_configured(),
        };
        out.push(row);
        assert(out.deep_view() =~= before.push(row.deep_view()));
        i = i + 1;
    }
    assert(rows.take(i as int) =~= rows);
    sort_items(out)
}

/// The form for a new account.
pub fn new_user_form() -> (r: AdminUserForm)
    ensures
        r.deep_view() == (AdminUserFormV {
            editing: false,
            user_id: Seq::empty(),
            username: Seq::empty(),
            role: "user"@,
            error: None,
        }),
{
    let r = AdminUserForm {
        editing: false,
        user_id: String::new(),
        username: String::new(),
        role: Role::User.as_str().to_string(),
        error: None,
    };
    assert(r.deep_view().user_id =~= Seq::empty());
    assert(r.deep_view().username =~= Seq::empty());
    r
}

/// The form for an account that is there.
pub fn edit_user_form(user: &User) -> (r: AdminUserForm)
    ensures
        r.deep_view() == (AdminUserFormV {
            editing: true,
            user_id: user.id@,
            username: user.username@,
            role: role_word(user.role),
            error: None,
        }),
{
    AdminUserForm {
        editing: true,
        user_id: user.id.clone(),
        username: user.username.clone(),
        role: user.role.as_str().to_string(),
        error: None,
    }
}

/// The form with what was sent in it, and what is wrong with that.
pub fn form_error(editing: bool, user_id: &str, username: &str, role: &str, msg: &str) -> (r:
    AdminUserForm)
    ensures
        r.deep_view() == (AdminUserFormV {
            editing,
            user_id: user_id@,
            username: username@,
            role: role_word(role_of(role@)),
            error: Some(msg@),
        }),
{
    AdminUserForm {
        editing,
        user_id: user_id.to_string(),
        username: username.to_string(),
        role: Role::parse(role).as_str().to_string(),
        error: Some(msg.to_string()),
    }
}

/// A password of at least eight bytes.
pub open spec fn long_enough(password: Seq<char>) -> bool {
    encode_utf8(password).len() >= 8
}

pub(crate) fn is_long_enough(password: &str) -> (r: bool)
    ensures
        r == long_enough(password@),
{
    password.as_bytes().len() >= 8
}

// ---------------------------------------------------------------------------
// New accounts
// ---------------------------------------------------------------------------

/// What is wrong with the form for a new account, if anything. `taken` tells whether another
/// account has the name.
pub open spec fn new_user_fault(form: AdminUserFormBodyV, taken: bool) -> Option<Seq<char>> {
    if trim(form.username).len() == 0 {
        Some("Username is required."@)
    } else if !long_enough(form.password) {
        Some("Password must be at least 8 characters."@)
    } else if taken {
        Some("That username is taken."@)
    } else {
        None
    }
}

/// The name and the role of the new account that a form asks for, or the form again with what
/// is wrong with it.
pub fn check_new_user(form: &AdminUserFormBody, taken: bool) -> (r: Result<
    (String, Role),
    AdminUserForm,
>)
    ensures
        match new_user_fault(form.deep_view(), taken) {
            None => r is Ok && (r->Ok_0).0@ == trim(form.username@) && (r->Ok_0).1 == role_of(
                form.role@,
            ),
            Some(msg) => r is Err && r->Err_0.deep_view() == (AdminUserFormV {
                editing: false,
                user_id: Seq::empty(),
                username: trim(form.username@),
                role: role_word(role_of(form.role@)),
                error: Some(msg),
            }),
        },
{
    let username = trim_str(form.username.as_str());
    let msg = if is_blank(username.as_str()) {
        "Username is required."
    } else if !is_long_enough(form.password.as_str()) {
        "Password must be at least 8 characters."
    } else if taken {
        "That username is taken."
    } else {
        return Ok((username, Role::parse(form.role.as_str())));
    };
    proof {
        reveal_strlit("");
        assert(""@ =~= Seq::empty());
    }
    Err(form_error(false, "", username.as_str(), form.role.as_str(), msg))
}

// ---------------------------------------------------------------------------
// Changed accounts
// ---------------------------------------------------------------------------

/// What is wrong with the form for an account that is there, if anything.
pub open spec fn update_fault(
    existing: UserV,
    id: Seq<char>,
    admin_id: Seq<char>,
    form: AdminUserFormBodyV,
    taken: bool,
    admins: int,
) -> Option<Seq<char>> {
    let demoted = existing.role == Role::Admin && role_of(form.role) == Role::User;
    if trim(form.username).len() == 0 {
        Some("Username is required."@)
    } else if taken {
        Some("That username is taken."@)
    } else if demoted && id == admin_id {
        Some("You can't demote yourself."@)
    } else if demoted && admins <= 1 {
        Some("There must be at least one admin."@)
    } else if form.password.len() > 0 && !long_enough(form.password) {
        Some("Password must be at least 8 characters."@)
    } else {
        None
    }
}

/// What a form asks an account to become: with the hash of its password where that changes.
pub open spec fn updated_user(
    existing: UserV,
    form: AdminUserFormBodyV,
    hash: Option<Seq<char>>,
) -> UserV {
    UserV {
        username: trim(form.username),
        role: role_of(form.role),
        password_hash: match hash {
            Some(h) => h,
            None => existing.password_hash,
        },
        ..existing
    }
}

/// What is to be done with the form for an account.
#[derive(Debug)]
pub enum UpdatePlan {
    /// There is no such account.
    NotFound,
    /// The form is shown again, with what is wrong with it.
    Refuse(AdminUserForm),
    /// The account is changed; the password only where one is given.
    Save { username: String, role: Role, password: Option<String> },
}

/// Whether the form for the account `id` is taken, sent by the account `admin_id`. `taken` tells
/// whether another account has the name; `admins` is the number of administrators.
pub fn plan_update(
    existing: Option<&User>,
    id: &str,
    admin_id: &str,
    form: &AdminUserFormBody,
    taken: bool,
    admins: usize,
) -> (r: UpdatePlan)
    ensures
        match existing {
            None => r is NotFound,
            Some(u) => match update_fault(
                u.deep_view(),
                id@,
                admin_id@,
                form.deep_view(),
                taken,
                admins as int,
            ) {
                Some(msg) => r is Refuse && r->Refuse_0.deep_view() == (AdminUserFormV {
                    editing: true,
                    user_id: id@,
                    username: trim(form.username@),
                    role: role_word(role_of(form.role@)),
                    error: Some(msg),
                }),
                None => r is Save && r->username@ == trim(form.username@) && r->role == role_of(
                    form.role@,
                ) && r->password.deep_view() == (if form.password@.len() > 0 {
                    Some(form.password@)
                } else {
                    None
                }),
            },
        },
{
    let existing = match existing {
        Some(u) => u,
        None => {
            return UpdatePlan::NotFound;
        },
    };
    let username = trim_str(form.username.as_str());
    let role = Role::parse(form.role.as_str());
    let demoted = existing.role == Role::Admin && role == Role::User;
    let changes_password = !is_blank(form.password.as_str());
    let msg = if is_blank(username.as_str()) {
        "Username is required."
    } else if taken {
        "That username is taken."
    } else if demoted && str_eq(id, admin_id) {
        "You can't demote yourself."
    } else if demoted && admins <= 1 {
        "There must be at least one admin."
    } else if changes_password && !is_long_enough(form.password.as_str()) {
        "Password must be at least 8 characters."
    } else {
        let password = if changes_password {
            Some(form.password.clone())
        } else {
            None
        };
        return UpdatePlan::Save { username, role, password };
    };
    UpdatePlan::Refuse(form_error(true, id, username.as_str(), form.role.as_str(), msg))
}

/// An account with the changes that were taken.
pub fn apply_update(user: User, username: String, role: Role, new_hash: Option<String>) -> (r: User)
    ensures
        r.deep_view() == (UserV {
            username: username@,
            role,
            password_hash: match new_hash {
                Some(h) => h@,
                None => user.password_hash@,
            },
            ..user.deep_view()
        }),
{
    User {
        id: user.id,
        username,
        password_hash: match new_hash {
            Some(h) => h,
            None => user.password_hash,
        },
        role,
        jmap: user.jmap,
        prefs: user.prefs,
    }
}

// ---------------------------------------------------------------------------
// Deleted accounts
// ---------------------------------------------------------------------------

/// Why an account may not be deleted, if it may not.
pub open spec fn delete_fault(
    id: Seq<char>,
    admin_id: Seq<char>,
    role: Option<Role>,
    admins: int,
) -> Option<Seq<char>> {
    if id == admin_id {
        Some("You can't delete your own account."@)
    } else if role == Some(Role::Admin) && admins <= 1 {
        Some("There must be at least one admin."@)
    } else {
        None
    }
}

/// Why the account `id`, which has a role where it is there, may not be deleted by the account
/// `admin_id`.
pub fn check_delete(id: &str, admin_id: &str, role: Option<Role>, admins: usize) -> (r: Option<
    String,
>)
    ensures
        r.deep_view() == delete_fault(id@, admin_id@, role, admins as int),
{
    if str_eq(id, admin_id) {
        Some("You can't delete your own account.".to_string())
    } else if role == Some(Role::Admin) && admins <= 1 {
        Some("There must be at least one admin.".to_string())
    } else {
        None
    }
}

// ---------------------------------------------------------------------------
// There is always an administrator
// ---------------------------------------------------------------------------

/// The number of administrators.
pub open spec fn admin_count(users: Seq<UserV>) -> int
    decreases users.len(),
{
    if users.len() == 0 {
        0
    } else if users.last().role == Role::Admin {
        admin_count(users.drop_last()) + 1
    } else {
        admin_count(users.drop_last())
    }
}

proof fn admin_count_update(users: Seq<UserV>, k: int, u: UserV)
    requires
        0 <= k < users.len(),
    ensures
        admin_count(users.update(k, u)) == admin_count(users) - (if users[k].role == Role::Admin {
            1int
        } else {
            0int
        }) + (if u.role == Role::Admin {
            1int
        } else {
            0int
        }),
        admin_count(users) >= 0,
    decreases users.len(),
{
    let n = users.len();
    if k == n - 1 {
        assert(users.update(k, u).drop_last() =~= users.drop_last());
        if n > 1 {
            admin_count_update(users.drop_last(), 0, users[0]);
            assert(users.drop_last().update(0, users[0]) =~= users.drop_last());
        }
    } else {
        assert(users.update(k, u).drop_last() =~= users.drop_last().update(k, u));
        admin_count_update(users.drop_last(), k, u);
    }
}

proof fn admin_count_remove(users: Seq<UserV>, k: int)
    requires
        0 <= k < users.len(),
    ensures
        admin_count(users.remove(k)) == admin_count(users) - (if users[k].role == Role::Admin {
            1int
        } else {
            0int
        }),
    decreases users.len(),
{
    let n = users.len();
    if k == n - 1 {
        assert(users.remove(k) =~= users.drop_last());
    } else {
        assert(users.remove(k).drop_last() =~= users.drop_last().remove(k));
        assert(users.remove(k).last() == users.last());
        admin_count_remove(users.drop_last(), k);
    }
}

/// No change that is taken leaves the server without an administrator.
pub proof fn update_keeps_an_admin(
    users: Seq<UserV>,
    k: int,
    admin_id: Seq<char>,
    form: AdminUserFormBodyV,
    taken: bool,
    hash: Option<Seq<char>>,
)
    requires
        0 <= k < users.len(),
        admin_count(users) >= 1,
        update_fault(users[k], users[k].id, admin_id, form, taken, admin_count(users)) is None,
    ensures
        admin_count(users.update(k, updated_user(users[k], form, hash))) >= 1,
{
    admin_count_update(users, k, updated_user(users[k], form, hash));
}

/// No account whose deletion is taken leaves the server without an administrator.
pub proof fn delete_keeps_an_admin(users: Seq<UserV>, k: int, admin_id: Seq<char>)
    requires
        0 <= k < users.len(),
        admin_count(users) >= 1,
        delete_fault(users[k].id, admin_id, Some(users[k].role), admin_count(users)) is None,
    ensures
        admin_count(users.remove(k)) >= 1,
{
    admin_count_remove(users, k);
}

} // verus!
