//! Addresses on the web.

use vstd::prelude::*;
use vstd::string::*;

verus! {

/// An address, and the parts of it that decisions are made by.
#[derive(Debug)]
pub struct UrlParts {
    /// The address as it is written.
    pub text: String,
    pub scheme: String,
    pub host: Option<String>,
    /// The port that it names, or the usual one of its scheme.
    pub port: Option<u16>,
    pub path: String,
}

/// What a [`UrlParts`] stands for.
#[verifier::ext_equal]
pub struct UrlPartsV {
    pub text: Seq<char>,
    pub scheme: Seq<char>,
    pub host: Option<Seq<char>>,
    pub port: Option<u16>,
    pub path: Seq<char>,
}

impl DeepView for UrlParts {
    type V = UrlPartsV;

    open spec fn deep_view(&self) -> UrlPartsV {
        UrlPartsV {
            text: self.text.deep_view(),
            scheme: self.scheme.deep_view(),
            host: self.host.deep_view(),
            port: self.port.deep_view(),
            path: self.path.deep_view(),
        }
    }
}

/// The address that a text stands for, or why it stands for none.
pub uninterp spec fn parsed_url(s: Seq<char>) -> Result<UrlPartsV, Seq<char>>;

/// An address with another path.
pub uninterp spec fn url_with_path(s: Seq<char>, path: Seq<char>) -> Seq<char>;

/// What the result of [`parse_url`] stands for.
pub open spec fn url_view(r: Result<UrlParts, String>) -> Result<UrlPartsV, Seq<char>> {
    match r {
        Ok(u) => Ok(u.deep_view()),
        Err(e) => Err(e@),
    }
}

/// `url::Url::parse`, with what `as_str`, `scheme`, `host_str`, `port_or_known_default` and
/// `path` give of the result, or the text of the error.
#[verifier::external_body]
pub(crate) fn parse_url(s: &str) -> (r: Result<UrlParts, String>)
    ensures
        url_view(r) == parsed_url(s@),
{
    match url::Url::parse(s) {
        Ok(u) => Ok(UrlParts {
            text: u.as_str().to_string(),
            scheme: u.scheme().to_string(),
            host: u.host_str().map(|h| h.to_string()),
            port: u.port_or_known_default(),
            path: u.path().to_string(),
        }),
        Err(e) => Err(e.to_string()),
    }
}

/// `url::Url::set_path` on the address that a text stands for. Texts so long that the address
/// could outgrow its 32-bit positions are left out.
#[verifier::external_body]
pub(crate) fn set_url_path(s: &str, path: &str) -> (r: String)
    requires
        parsed_url(s@) is Ok,
        s@.len() <= 100_000_000,
        path@.len() <= 1000,
    ensures
        r@ == url_with_path(s@, path@),
{
    let mut u = url::Url::parse(s).expect("a valid URL");
    u.set_path(path);
    u.to_string()
}

} // verus!
