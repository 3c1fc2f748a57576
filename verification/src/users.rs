//! The accounts of the server: who may sign in, how they reach their own server, and how
//! they want things shown.

use vstd::prelude::*;
use vstd::string::*;
use vstd::utf8::encode_utf8;
use argon2::password_hash::rand_core::{OsRng, RngCore};
use argon2::password_hash::{PasswordHash, PasswordHasher, PasswordVerifier, SaltString};
use argon2::Argon2;
use crate::client::{Credentials, CredentialsV};
use crate::collections::CloneView;
use crate::hex::{hex_len, hex_text, is_hex};
use crate::text::str_eq;

verus! {

pub const BOOTSTRAP_ADMIN_USERNAME: &'static str = "admin";

/// What an account may do.
#[derive(Debug, Clone, Copy, PartialEq, Eq, Structural)]
pub enum Role {
    Admin,
    User,
}

impl DeepView for Role {
    type V = Role;

    open spec fn deep_view(&self) -> Role {
        *self
    }
}

impl CloneView for Role {
    fn clone_view(&self) -> (r: Self) {
        *self
    }
}

/// The word for a role.
pub open spec fn role_word(r: Role) -> Seq<char> {
    match r {
        Role::Admin => "admin"@,
        Role::User => "user"@,
    }
}

/// The role that a word stands for: any but one is that of an ordinary user.
pub open spec fn role_of(s: Seq<char>) -> Role {
    if s == "admin"@ {
        Role::Admin
    } else {
        Role::User
    }
}

impl Role {
    pub fn parse(s: &str) -> (r: Self)
        ensures
            r == role_of(s@),
    {
        if str_eq(s, "admin") {
            Role::Admin
        } else {
            Role::User
        }
    }

    pub fn as_str(&self) -> (r: &'static str)
        ensures
            r@ == role_word(*self),
    {
        match self {
            Role::Admin => "admin",
            Role::User => "user",
        }
    }
}

/// The word for a role reads back as that role.
pub proof fn role_words_read_back(r: Role)
    ensures
        role_of(role_word(r)) == r,
{
    reveal_strlit("admin");
    reveal_strlit("user");
    assert("admin"@.len() != "user"@.len());
}

/// How an account reaches its own server. The secrets are kept as they are, since the server
/// has to present them.
#[derive(Debug)]
pub struct JmapSettings {
    pub server_url: String,
    pub username: String,
    pub password: String,
    pub token: String,
}

/// What a [`JmapSettings`] stands for.
#[verifier::ext_equal]
pub struct JmapSettingsV {
    pub server_url: Seq<char>,
    pub username: Seq<char>,
    pub password: Seq<char>,
    pub token: Seq<char>,
}

impl DeepView for JmapSettings {
    type V = JmapSettingsV;

    open spec fn deep_view(&self) -> JmapSettingsV {
        JmapSettingsV {
            server_url: self.server_url.deep_view(),
            username: self.username.deep_view(),
            password: self.password.deep_view(),
            token: self.token.deep_view(),
        }
    }
}

impl CloneView for JmapSettings {
    fn clone_view(&self) -> (r: Self) {
        JmapSettings {
            server_url: self.server_url.clone_view(),
            username: self.username.clone_view(),
            password: self.password.clone_view(),
            token: self.token.clone_view(),
        }
    }
}

impl Clone for JmapSettings {
    fn clone(&self) -> (r: Self)
        ensures
            r.deep_view() == self.deep_view(),
    {
        self.clone_view()
    }
}

impl JmapSettingsV {
    /// Every part empty, absent or zero.
    pub open spec fn blank() -> JmapSettingsV {
        JmapSettingsV {
            server_url: Seq::empty(),
            username: Seq::empty(),
            password: Seq::empty(),
            token: Seq::empty(),
        }
    }
}

impl Default for JmapSettings {
    fn default() -> (r: Self)
        ensures
            r.deep_view() == JmapSettingsV::blank(),
    {
        let r = JmapSettings {
            server_url: String::new(),
            username: String::new(),
            password: String::new(),
            token: String::new(),
        };
        assert(r.deep_view() =~= JmapSettingsV::blank());
        r
    }
}

impl JmapSettingsV {
    /// There is something to sign in with: a token, or a name and a password.
    pub open spec fn has_secret(self) -> bool {
        self.token.len() > 0 || (self.username.len() > 0 && self.password.len() > 0)
    }

    /// There is a server, and something to sign in with.
    pub open spec fn is_configured(self) -> bool {
        self.server_url.len() > 0 && self.has_secret()
    }

    /// What to sign in with; a token comes before a name and a password.
    pub open spec fn credentials(self) -> Option<CredentialsV> {
        if self.token.len() > 0 {
            Some(CredentialsV::Bearer(self.token))
        } else if self.username.len() > 0 && self.password.len() > 0 {
            Some(CredentialsV::Basic { username: self.username, password: self.password })
        } else {
            None
        }
    }
}

pub(crate) fn is_blank(s: &str) -> (r: bool)
    ensures
        r == (s@.len() == 0),
{
    s.unicode_len() == 0
}

impl JmapSettings {
    pub fn is_configured(&self) -> (r: bool)
        ensures
            r == self.deep_view().is_configured(),
    {
        !is_blank(self.server_url.as_str()) && (!is_blank(self.token.as_str()) || (!is_blank(
            self.username.as_str(),
        ) && !is_blank(self.password.as_str())))
    }

    pub fn credentials(&self) -> (r: Option<Credentials>)
        ensures
            r.deep_view() == self.deep_view().credentials(),
    {
        if !is_blank(self.token.as_str()) {
            Some(Credentials::Bearer(self.token.clone()))
        } else if !is_blank(self.username.as_str()) && !is_blank(self.password.as_str()) {
            Some(
                Credentials::Basic {
                    username: self.username.clone(),
                    password: self.password.clone(),
                },
            )
        } else {
            None
        }
    }
}

/// Settings that are complete have something to sign in with.
pub proof fn configured_has_credentials(s: JmapSettingsV)
    ensures
        s.is_configured() == (s.server_url.len() > 0 && s.credentials() is Some),
{
}

/// How an account wants things shown. An empty text asks for the default of the server; the
/// region `none` asks for no holidays at all.
#[derive(Debug)]
pub struct DisplayPrefs {
    pub timezone: String,
    pub time_format: String,
    pub holidays_region: String,
}

/// What a [`DisplayPrefs`] stands for.
#[verifier::ext_equal]
pub struct DisplayPrefsV {
    pub timezone: Seq<char>,
    pub time_format: Seq<char>,
    pub holidays_region: Seq<char>,
}

impl DeepView for DisplayPrefs {
    type V = DisplayPrefsV;

    open spec fn deep_view(&self) -> DisplayPrefsV {
        DisplayPrefsV {
            timezone: self.timezone.deep_view(),
            time_format: self.time_format.deep_view(),
            holidays_region: self.holidays_region.deep_view(),
        }
    }
}

impl CloneView for DisplayPrefs {
    fn clone_view(&self) -> (r: Self) {
        DisplayPrefs {
            timezone: self.timezone.clone_view(),
            time_format: self.time_format.clone_view(),
            holidays_region: self.holidays_region.clone_view(),
        }
    }
}

impl Clone for DisplayPrefs {
    fn clone(&self) -> (r: Self)
        ensures
            r.deep_view() == self.deep_view(),
    {
        self.clone_view()
    }
}

impl DisplayPrefsV {
    /// Every part empty, absent or zero.
    pub open spec fn blank() -> DisplayPrefsV {
        DisplayPrefsV {
            timezone: Seq::empty(),
            time_format: Seq::empty(),
            holidays_region: Seq::empty(),
        }
    }
}

impl Default for DisplayPrefs {
    fn default() -> (r: Self)
        ensures
            r.deep_view() == DisplayPrefsV::blank(),
    {
        let r = DisplayPrefs {
            timezone: String::new(),
            time_format: String::new(),
            holidays_region: String::new(),
        };
        assert(r.deep_view() =~= DisplayPrefsV::blank());
        r
    }
}

/// An account.
#[derive(Debug)]
pub struct User {
    pub id: String,
    pub username: String,
    pub password_hash: String,
    pub role: Role,
    pub jmap: JmapSettings,
    pub prefs: DisplayPrefs,
}

/// What a [`User`] stands for.
#[verifier::ext_equal]
pub struct UserV {
    pub id: Seq<char>,
    pub username: Seq<char>,
    pub password_hash: Seq<char>,
    pub role: Role,
    pub jmap: JmapSettingsV,
    pub prefs: DisplayPrefsV,
}

impl DeepView for User {
    type V = UserV;

    open spec fn deep_view(&self) -> UserV {
        UserV {
            id: self.id.deep_view(),
            username: self.username.deep_view(),
            password_hash: self.password_hash.deep_view(),
            role: self.role.deep_view(),
            jmap: self.jmap.deep_view(),
            prefs: self.prefs.deep_view(),
        }
    }
}

impl CloneView for User {
    fn clone_view(&self) -> (r: Self) {
        User {
            id: self.id.clone_view(),
            username: self.username.clone_view(),
            password_hash: self.password_hash.clone_view(),
            role: self.role.clone_view(),
            jmap: self.jmap.clone_view(),
            prefs: self.prefs.clone_view(),
        }
    }
}

impl Clone for User {
    fn clone(&self) -> (r: Self)
        ensures
            r.deep_view() == self.deep_view(),
    {
        self.clone_view()
    }
}

/// A calendar that is read from an `.ics` address.
#[derive(Debug)]
pub struct IcsSubscription {
    pub id: String,
    pub name: String,
    pub color: String,
    pub url: String,
}

/// What a [`IcsSubscription`] stands for.
#[verifier::ext_equal]
pub struct IcsSubscriptionV {
    pub id: Seq<char>,
    pub name: Seq<char>,
    pub color: Seq<char>,
    pub url: Seq<char>,
}

impl DeepView for IcsSubscription {
    type V = IcsSubscriptionV;

    open spec fn deep_view(&self) -> IcsSubscriptionV {
        IcsSubscriptionV {
            id: self.id.deep_view(),
            name: self.name.deep_view(),
            color: self.color.deep_view(),
            url: self.url.deep_view(),
        }
    }
}

impl CloneView for IcsSubscription {
    fn clone_view(&self) -> (r: Self) {
        IcsSubscription {
            id: self.id.clone_view(),
            name: self.name.clone_view(),
            color: self.color.clone_view(),
            url: self.url.clone_view(),
        }
    }
}

impl Clone for IcsSubscription {
    fn clone(&self) -> (r: Self)
        ensures
            r.deep_view() == self.deep_view(),
    {
        self.clone_view()
    }
}

// ---------------------------------------------------------------------------
// Passwords and ids
// ---------------------------------------------------------------------------

/// Whether a password fits a hash.
pub uninterp spec fn verifies(password: Seq<char>, hash: Seq<char>) -> bool;

/// `argon2`'s `PasswordVerifier::verify_password` with the default settings, on the hash that
/// `PasswordHash::new` reads; a text that is no hash fits no password.
#[verifier::external_body]
fn password_fits(password: &str, hash: &str) -> (r: bool)
    ensures
        r == verifies(password@, hash@),
{
    match PasswordHash::new(hash) {
        Ok(parsed) => Argon2::default().verify_password(password.as_bytes(), &parsed).is_ok(),
        Err(_) => false,
    }
}

/// `argon2`'s `PasswordHasher::hash_password` with the default settings and a salt from
/// `SaltString::generate`. The salt is random, so that no more is claimed of the hash than that
/// the password fits it. Longer passwords than `argon2` takes are left out.
#[verifier::external_body]
fn salted_hash(password: &str) -> (r: String)
    requires
        encode_utf8(password@).len() <= u32::MAX,
    ensures
        verifies(password@, r@),
{
    let salt = SaltString::generate(&mut OsRng);
    let hash = Argon2::default().hash_password(password.as_bytes(), &salt);
    hash.expect("argon2 hashing failed").to_string()
}

/// A hash of a password, to be kept in its place. The password fits it.
pub fn hash_password(password: &str) -> (r: String)
    requires
        encode_utf8(password@).len() <= u32::MAX,
    ensures
        verifies(password@, r@),
{
    salted_hash(password)
}

/// Whether a password is the one that a hash was made from.
pub fn verify_password(password: &str, hash: &str) -> (r: bool)
    ensures
        r == verifies(password@, hash@),
{
    password_fits(password, hash)
}

/// Whether a text has the form of a random UUID: 36 lower-case hexadecimal digits and hyphens.
pub open spec fn is_uuid(s: Seq<char>) -> bool {
    &&& s.len() == 36
    &&& forall|i: int|
        0 <= i < 36 ==> (if i == 8 || i == 13 || i == 18 || i == 23 {
            #[trigger] s[i] == '-'
        } else {
            is_hex(s[i])
        })
}

/// `uuid::Uuid::new_v4`, written with hyphens: a random id. Which one is left open.
#[verifier::external_body]
pub(crate) fn new_id() -> (r: String)
    ensures
        is_uuid(r@),
{
    uuid::Uuid::new_v4().to_string()
}

/// `rand_core::OsRng::fill_bytes`: as many random bytes as are asked for. Which ones is left
/// open.
#[verifier::external_body]
fn random_bytes(n: usize) -> (r: Vec<u8>)
    ensures
        r@.len() == n,
{
    let mut bytes = vec![0u8; n];
    OsRng.fill_bytes(&mut bytes);
    bytes
}

/// A password that nobody chose: 36 hexadecimal digits.
pub fn generate_random_password() -> (r: String)
    ensures
        r@.len() == 36,
        forall|i: int| 0 <= i < 36 ==> is_hex(#[trigger] r@[i]),
{
    let bytes = random_bytes(18);
    proof {
        hex_len(bytes@);
    }
    hex_text(bytes.as_slice())
}

// ---------------------------------------------------------------------------
// The first account
// ---------------------------------------------------------------------------

/// What is to be done about the account of the first administrator at the start.
#[derive(Debug)]
pub enum BootstrapPlan {
    /// The account is there, and stays as it is.
    Keep,
    /// The account is there, and gets the password that the operator asks for.
    Reset { id: String, wanted: String },
    /// There is no such account: it is made, with the password that the operator asks for
    /// or with one that nobody chose.
    Create { password: Option<String> },
}

/// What a [`BootstrapPlan`] stands for.
#[verifier::ext_equal]
pub enum BootstrapPlanV {
    Keep,
    Reset { id: Seq<char>, wanted: Seq<char> },
    Create { password: Option<Seq<char>> },
}

impl DeepView for BootstrapPlan {
    type V = BootstrapPlanV;

    open spec fn deep_view(&self) -> BootstrapPlanV {
        match self {
            BootstrapPlan::Keep => BootstrapPlanV::Keep,
            BootstrapPlan::Reset { id, wanted } => BootstrapPlanV::Reset {
                id: id@,
                wanted: wanted@,
            },
            BootstrapPlan::Create { password } => BootstrapPlanV::Create {
                password: password.deep_view(),
            },
        }
    }
}

/// What is to be done about the account of the first administrator, which has the id
/// `existing` where it is there.
pub open spec fn bootstrap(
    existing: Option<Seq<char>>,
    password: Option<Seq<char>>,
) -> BootstrapPlanV {
    match existing {
        Some(id) => match password {
            Some(p) => BootstrapPlanV::Reset { id, wanted: p },
            None => BootstrapPlanV::Keep,
        },
        None => BootstrapPlanV::Create { password },
    }
}

/// What is to be done about the account of the first administrator at the start.
pub fn bootstrap_plan(
    existing: Option<&User>,
    override_password: Option<String>,
) -> (r: BootstrapPlan)
    ensures
        r.deep_view() == bootstrap(
            match existing {
                Some(u) => Some(u.id@),
                None => None,
            },
            override_password.deep_view(),
        ),
{
    match existing {
        Some(u) => match override_password {
            Some(wanted) => BootstrapPlan::Reset { id: u.id.clone(), wanted },
            None => BootstrapPlan::Keep,
        },
        None => BootstrapPlan::Create { password: override_password },
    }
}

/// A new account with a new id, and with the defaults of the server for what is shown.
pub fn new_user(
    username: String,
    password_hash: String,
    role: Role,
    jmap: JmapSettings,
) -> (r: User)
    ensures
        is_uuid(r.id@),
        r.deep_view() == (UserV {
            id: r.id@,
            username: username@,
            password_hash: password_hash@,
            role,
            jmap: jmap.deep_view(),
            prefs: DisplayPrefsV::blank(),
        }),
{
    User {
        id: new_id(),
        username,
        password_hash,
        role,
        jmap,
        prefs: DisplayPrefs::default(),
    }
}

/// A new subscription with a new id.
pub fn new_subscription(name: String, color: String, url: String) -> (r: IcsSubscription)
    ensures
        is_uuid(r.id@),
        r.deep_view() == (IcsSubscriptionV {
            id: r.id@,
            name: name@,
            color: color@,
            url: url@,
        }),
{
    IcsSubscription { id: new_id(), name, color, url }
}

} // verus!
