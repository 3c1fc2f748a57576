//! A check of `Origin` and `Referer` against `Host`, as a second defence against cross-site
//! requests beside cookie attributes.
//!
//! Only hostnames are compared, not ports or schemes: a reverse proxy commonly ends TLS and
//! forwards to a different internal port.

use vstd::prelude::*;
use vstd::string::*;
use vstd::slice::slice_subrange;
use crate::text::{
    chars_of, find_slice, find_text, first_index, index_of, last_index, lower, lower_str, rindex_of,
    str_eq, string_of,
};

verus! {

/// The hostname in a `Host` value (`example.com` or `example.com:8080`) or an `Origin` or
/// `Referer` value (`https://example.com` or `https://example.com:8080/some/path`).
pub open spec fn hostname(s: Seq<char>) -> Option<Seq<char>> {
    let rest = match find_text(s, "://"@) {
        Some(i) => s.skip(i + 3),
        None => s,
    };
    let authority = rest.take(first_index(rest, '/'));
    let colon = last_index(authority, ':');
    let host = if colon >= 0 {
        authority.take(colon)
    } else {
        authority
    };
    if host.len() == 0 {
        None
    } else {
        Some(lower(host))
    }
}

/// The hostname in a `Host`, `Origin` or `Referer` value, in small letters.
pub fn hostname_only(s: &str) -> (r: Option<String>)
    ensures
        r.deep_view() == hostname(s@),
{
    let v = chars_of(s);
    let mark = chars_of("://");
    proof {
        reveal_strlit("://");
    }
    let n: usize = v.len();
    let from: usize = match find_slice(v.as_slice(), mark.as_slice()) {
        Some(i) => i + 3,
        None => 0,
    };
    let rest = slice_subrange(v.as_slice(), from, n);
    assert(from > 0 ==> rest@ =~= s@.skip(from as int));
    assert(from == 0 ==> rest@ =~= s@);
    let slash: usize = index_of(rest, '/');
    let authority = slice_subrange(rest, 0, slash);
    assert(authority@ =~= rest@.take(slash as int));
    let host = match rindex_of(authority, ':') {
        Some(i) => slice_subrange(authority, 0, i),
        None => authority,
    };
    proof {
        let colon = last_index(authority@, ':');
        if colon >= 0 {
            assert(host@ =~= authority@.take(colon));
        }
    }
    if host.len() == 0 {
        None
    } else {
        let text = string_of(host);
        Some(lower_str(text.as_str()))
    }
}

/// A header: absent, or present with its text where it is text.
pub type Header<'a> = Option<Option<&'a str>>;

/// The hostname that a request comes from: that of its `Origin`, or of its `Referer` where
/// there is no `Origin`.
pub open spec fn source_host(
    origin: Option<Option<Seq<char>>>,
    referer: Option<Option<Seq<char>>>,
) -> Option<Seq<char>> {
    let header = if origin is Some {
        origin
    } else {
        referer
    };
    match header {
        Some(Some(text)) => hostname(text),
        _ => None,
    }
}

/// A method that changes nothing.
pub open spec fn is_safe_method(method: Seq<char>) -> bool {
    method == "GET"@ || method == "HEAD"@ || method == "OPTIONS"@
}

/// Whether a request may go on: one that changes something must come from its own host.
pub open spec fn same_origin(
    method: Seq<char>,
    host: Option<Option<Seq<char>>>,
    origin: Option<Option<Seq<char>>>,
    referer: Option<Option<Seq<char>>>,
) -> bool {
    is_safe_method(method) || {
        let own = match host {
            Some(Some(text)) => hostname(text),
            _ => None,
        };
        own is Some && source_host(origin, referer) == own
    }
}

fn host_of(header: Header<'_>) -> (r: Option<String>)
    ensures
        r.deep_view() == (match header.deep_view() {
            Some(Some(text)) => hostname(text),
            _ => None,
        }),
{
    match header {
        Some(Some(text)) => hostname_only(text),
        _ => None,
    }
}

/// Whether a request may go on: one that changes something must come from its own host.
pub fn verify_same_origin(
    method: &str,
    host: Header<'_>,
    origin: Header<'_>,
    referer: Header<'_>,
) -> (r: bool)
    ensures
        r == same_origin(method@, host.deep_view(), origin.deep_view(), referer.deep_view()),
{
    if str_eq(method, "GET") || str_eq(method, "HEAD") || str_eq(method, "OPTIONS") {
        return true;
    }
    let own = host_of(host);
    let source = match origin {
        Some(_) => host_of(origin),
        None => host_of(referer),
    };
    match (own, source) {
        (Some(a), Some(b)) => str_eq(a.as_str(), b.as_str()),
        _ => false,
    }
}

/// A request that changes something is refused unless its source is its own host.
pub proof fn cross_origin_is_refused(
    method: Seq<char>,
    host: Option<Option<Seq<char>>>,
    origin: Option<Option<Seq<char>>>,
    referer: Option<Option<Seq<char>>>,
)
    requires
        !is_safe_method(method),
        same_origin(method, host, origin, referer),
    ensures
        host matches Some(Some(h)) && hostname(h) is Some && source_host(origin, referer)
            == hostname(h),
{
}

} // verus!
