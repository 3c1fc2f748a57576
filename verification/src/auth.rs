//! Signing in.

use vstd::prelude::*;
use vstd::string::*;
use crate::client::{Credentials, CredentialsV};
use crate::state::DemoLogin;
use crate::text::{starts_with, str_eq, str_starts_with, trim, trim_str};
use crate::urls::{parse_url, parsed_url, set_url_path, url_with_path};
use crate::users::{is_blank, verifies, verify_password, User};
use crate::webutil::{urlencode, urlencoded};

verus! {

pub const COOKIE_NAME: &'static str = "jscal_sid";

/// The query of the page to sign in.
#[derive(Debug)]
pub struct LoginQuery {
    pub error: Option<String>,
}

/// What a [`LoginQuery`] stands for.
#[verifier::ext_equal]
pub struct LoginQueryV {
    pub error: Option<Seq<char>>,
}

impl DeepView for LoginQuery {
    type V = LoginQueryV;

    open spec fn deep_view(&self) -> LoginQueryV {
        LoginQueryV {
            error: self.error.deep_view(),
        }
    }
}

/// What the form to sign in holds.
#[derive(Debug)]
pub struct LoginRequest {
    /// The address of a session, or just a host; what is missing is added.
    pub server_url: String,
    pub username: String,
    pub password: String,
    /// Used in place of a name and a password where it is there.
    pub token: String,
}

/// What a [`LoginRequest`] stands for.
#[verifier::ext_equal]
pub struct LoginRequestV {
    pub server_url: Seq<char>,
    pub username: Seq<char>,
    pub password: Seq<char>,
    pub token: Seq<char>,
}

impl DeepView for LoginRequest {
    type V = LoginRequestV;

    open spec fn deep_view(&self) -> LoginRequestV {
        LoginRequestV {
            server_url: self.server_url.deep_view(),
            username: self.username.deep_view(),
            password: self.password.deep_view(),
            token: self.token.deep_view(),
        }
    }
}

/// The page to sign in.
#[derive(Debug)]
pub struct LoginPage {
    pub error: Option<String>,
    pub server_url: String,
    pub username: String,
    pub password: String,
}

/// What a [`LoginPage`] stands for.
#[verifier::ext_equal]
pub struct LoginPageV {
    pub error: Option<Seq<char>>,
    pub server_url: Seq<char>,
    pub username: Seq<char>,
    pub password: Seq<char>,
}

impl DeepView for LoginPage {
    type V = LoginPageV;

    open spec fn deep_view(&self) -> LoginPageV {
        LoginPageV {
            error: self.error.deep_view(),
            server_url: self.server_url.deep_view(),
            username: self.username.deep_view(),
            password: self.password.deep_view(),
        }
    }
}

/// The page to sign in, filled with what a demonstration server asks for.
pub fn login_page(error: Option<String>, demo: Option<&DemoLogin>) -> (r: LoginPage)
    ensures
        r.error.deep_view() == error.deep_view(),
        match demo {
            Some(d) => r.server_url@ == d.server_url@ && r.username@ == d.username@ && r.password@
                == d.password@,
            None => r.server_url@.len() == 0 && r.username@.len() == 0 && r.password@.len() == 0,
        },
{
    match demo {
        Some(d) => LoginPage {
            error,
            server_url: d.server_url.clone(),
            username: d.username.clone(),
            password: d.password.clone(),
        },
        None => LoginPage {
            error,
            server_url: String::new(),
            username: String::new(),
            password: String::new(),
        },
    }
}

/// What a form asks to sign in to: the server that it names, or an account here where it names
/// none.
#[derive(Debug, Clone, Copy, PartialEq, Eq, Structural)]
pub enum LoginTarget {
    Account,
    Server,
}

/// What a form asks to sign in to.
pub fn login_target(server_url: &str) -> (r: LoginTarget)
    ensures
        r == (if trim(server_url@).len() == 0 {
            LoginTarget::Account
        } else {
            LoginTarget::Server
        }),
{
    if is_blank(trim_str(server_url).as_str()) {
        LoginTarget::Account
    } else {
        LoginTarget::Server
    }
}

/// The id of the account that a password opens: none where there is no account of that name, or
/// where the password does not fit it. The message does not tell which.
pub fn account_login(user: Option<&User>, password: &str) -> (r: Result<String, String>)
    ensures
        match user {
            Some(u) => if verifies(password@, u.password_hash@) {
                texts(r) == Ok::<Seq<char>, Seq<char>>(u.id@)
            } else {
                texts(r) == Err::<Seq<char>, Seq<char>>("wrong username or password"@)
            },
            None => texts(r) == Err::<Seq<char>, Seq<char>>("wrong username or password"@),
        },
{
    match user {
        Some(u) => {
            if verify_password(password, u.password_hash.as_str()) {
                Ok(u.id.clone())
            } else {
                Err("wrong username or password".to_string())
            }
        },
        None => Err("wrong username or password".to_string()),
    }
}

/// An address with a scheme: `https` where none is given.
pub open spec fn scheme_given(s: Seq<char>) -> Seq<char> {
    if starts_with(s, "http://"@) || starts_with(s, "https://"@) {
        s
    } else {
        "https://"@ + s
    }
}

/// An address with a scheme: `https` where none is given.
pub fn with_scheme(s: &str) -> (r: String)
    ensures
        r@ == scheme_given(s@),
{
    if str_starts_with(s, "http://") || str_starts_with(s, "https://") {
        s.to_string()
    } else {
        let mut out = "https://".to_string();
        out.append(s);
        out
    }
}

/// The path of an address is none to speak of.
pub open spec fn bare_path(path: Seq<char>) -> bool {
    path == ""@ || path == "/"@
}

/// Whether the usual path is to be added to an address with this one.
pub fn wants_well_known(path: &str) -> (r: bool)
    ensures
        r == bare_path(path@),
{
    str_eq(path, "") || str_eq(path, "/")
}

/// The address of the session that an input stands for, once it is parsed: with the usual path
/// where it has none.
pub open spec fn session_url(input: Seq<char>) -> Result<Seq<char>, Seq<char>> {
    let s = scheme_given(trim(input));
    match parsed_url(s) {
        Ok(u) => if bare_path(u.path) {
            Ok(url_with_path(s, "/.well-known/jmap"@))
        } else {
            Ok(u.text)
        },
        Err(e) => Err("invalid server URL: "@ + e),
    }
}

/// What a result of [`normalize_session_url`] stands for.
pub open spec fn texts(r: Result<String, String>) -> Result<Seq<char>, Seq<char>> {
    match r {
        Ok(s) => Ok(s@),
        Err(e) => Err(e@),
    }
}

/// The address of the session that an input stands for: with a scheme and with a path.
pub fn normalize_session_url(input: &str) -> (r: Result<String, String>)
    requires
        input@.len() <= 90_000_000,
    ensures
        texts(r) == session_url(input@),
{
    let trimmed = trim_str(input);
    let s = with_scheme(trimmed.as_str());
    proof {
        trim_shrinks(input@);
        reveal_strlit("https://");
        reveal_strlit("/.well-known/jmap");
    }
    match parse_url(s.as_str()) {
        Ok(u) => {
            if wants_well_known(u.path.as_str()) {
                Ok(set_url_path(s.as_str(), "/.well-known/jmap"))
            } else {
                Ok(u.text)
            }
        },
        Err(e) => {
            let mut out = "invalid server URL: ".to_string();
            out.append(e.as_str());
            Err(out)
        },
    }
}

proof fn trim_start_shrinks(s: Seq<char>)
    ensures
        crate::text::trim_start(s).len() <= s.len(),
    decreases s.len(),
{
    if s.len() > 0 {
        trim_start_shrinks(s.skip(1));
    }
}

proof fn trim_end_shrinks(s: Seq<char>)
    ensures
        crate::text::trim_end(s).len() <= s.len(),
    decreases s.len(),
{
    if s.len() > 0 {
        trim_end_shrinks(s.drop_last());
    }
}

proof fn trim_shrinks(s: Seq<char>)
    ensures
        trim(s).len() <= s.len(),
{
    trim_start_shrinks(s);
    trim_end_shrinks(s);
    trim_end_shrinks(crate::text::trim_start(s));
    trim_start_shrinks(crate::text::trim_end(s));
}

impl LoginRequestV {
    /// What to sign in with: a token before a name and a password; both of those are needed.
    pub open spec fn credentials(self) -> Option<CredentialsV> {
        if self.token.len() > 0 {
            Some(CredentialsV::Bearer(self.token))
        } else if self.username.len() == 0 || self.password.len() == 0 {
            None
        } else {
            Some(CredentialsV::Basic { username: self.username, password: self.password })
        }
    }
}

/// What to sign in with.
pub fn login_credentials(req: &LoginRequest) -> (r: Result<Credentials, String>)
    ensures
        match req.deep_view().credentials() {
            Some(c) => r is Ok && r->Ok_0.deep_view() == c,
            None => r is Err && r->Err_0@ == "username and password are required"@,
        },
{
    if !is_blank(req.token.as_str()) {
        Ok(Credentials::Bearer(req.token.clone()))
    } else if is_blank(req.username.as_str()) || is_blank(req.password.as_str()) {
        Err("username and password are required".to_string())
    } else {
        Ok(
            Credentials::Basic {
                username: req.username.clone(),
                password: req.password.clone(),
            },
        )
    }
}

/// Where to sign in, and what with; the first thing that is wrong with the form, if anything.
pub fn prepare_login(req: &LoginRequest) -> (r: Result<(String, Credentials), String>)
    requires
        req.server_url@.len() <= 90_000_000,
    ensures
        match session_url(req.server_url@) {
            Ok(url) => match req.deep_view().credentials() {
                Some(c) => r is Ok && (r->Ok_0).0@ == url && (r->Ok_0).1.deep_view() == c,
                None => r is Err && r->Err_0@ == "username and password are required"@,
            },
            Err(e) => r is Err && r->Err_0@ == e,
        },
{
    match normalize_session_url(req.server_url.as_str()) {
        Ok(url) => match login_credentials(req) {
            Ok(c) => Ok((url, c)),
            Err(e) => Err(e),
        },
        Err(e) => Err(e),
    }
}

/// The address of the page to sign in that tells what went wrong.
pub fn login_error_url(msg: &str) -> (r: String)
    ensures
        r@ == "/login?error="@ + urlencoded(msg@),
{
    let mut out = "/login?error=".to_string();
    out.append(urlencode(msg).as_str());
    out
}

/// Where the session of a request comes from.
#[derive(Debug, Clone, Copy, PartialEq, Eq, Structural)]
pub enum SessionSource {
    /// The one that its cookie names.
    Cookie,
    /// The one that the server opened for everybody, and kept.
    Kept,
    /// One that the server opens for everybody now.
    Connect,
    /// There is none: the page to sign in is shown.
    SignIn,
}

/// Where the session of a request comes from: `known` tells whether its cookie names one;
/// `automatic` whether the operator gave credentials for everybody; `kept` whether a session was
/// opened with them before.
pub fn session_source(known: bool, automatic: bool, kept: bool) -> (r: SessionSource)
    ensures
        known ==> r == SessionSource::Cookie,
        !known && kept && automatic ==> r == SessionSource::Kept,
        !known && !kept && automatic ==> r == SessionSource::Connect,
        !known && !automatic ==> r == SessionSource::SignIn,
{
    if known {
        SessionSource::Cookie
    } else if !automatic {
        SessionSource::SignIn
    } else if kept {
        SessionSource::Kept
    } else {
        SessionSource::Connect
    }
}

} // verus!
