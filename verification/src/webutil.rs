//! Small helpers around requests and responses.

use vstd::prelude::*;
use vstd::string::*;
use vstd::utf8::encode_utf8;
use crate::text::{eq_ignore_case, lower, str_eq};

verus! {

/// Whether the client's connection was HTTPS, going by the `X-Forwarded-Proto` header of a
/// reverse proxy. It only decides whether cookies are marked `Secure`. Without a proxy in
/// front it is always `false`.
pub fn is_https(forwarded_proto: Option<&str>) -> (r: bool)
    ensures
        r == (match forwarded_proto {
            Some(v) => lower(v@) == lower("https"@),
            None => false,
        }),
{
    match forwarded_proto {
        Some(v) => eq_ignore_case(v, "https"),
        None => false,
    }
}

/// Whether a request comes from htmx, going by its `HX-Request` header.
pub fn is_hx(hx_request: Option<&str>) -> (r: bool)
    ensures
        r == (hx_request.deep_view() == Some("true"@)),
{
    match hx_request {
        Some(v) => str_eq(v, "true"),
        None => false,
    }
}

/// What a page may load, and from where. Styles can stand in the page, since colors and places
/// are set there; scripts cannot.
pub const CSP: &'static str = "default-src 'self'; \
     script-src 'self'; \
     style-src 'self' 'unsafe-inline'; \
     img-src 'self' data:; \
     connect-src 'self'; \
     object-src 'none'; \
     base-uri 'self'; \
     form-action 'self'; \
     frame-ancestors 'none'";

/// The headers that every answer has: their names and values.
pub open spec fn headers_of_every_answer() -> Seq<(Seq<char>, Seq<char>)> {
    seq![
        ("Content-Security-Policy"@, CSP@),
        ("X-Frame-Options"@, "DENY"@),
        ("X-Content-Type-Options"@, "nosniff"@),
        ("Referrer-Policy"@, "strict-origin-when-cross-origin"@),
    ]
}

/// The headers that every answer has: their names and values.
pub fn security_headers() -> (r: Vec<(String, String)>)
    ensures
        r.deep_view() == headers_of_every_answer(),
{
    let mut out: Vec<(String, String)> = Vec::new();
    out.push(("Content-Security-Policy".to_string(), CSP.to_string()));
    out.push(("X-Frame-Options".to_string(), "DENY".to_string()));
    out.push(("X-Content-Type-Options".to_string(), "nosniff".to_string()));
    out.push(
        ("Referrer-Policy".to_string(), "strict-origin-when-cross-origin".to_string()),
    );
    assert(out.deep_view() =~= headers_of_every_answer());
    out
}

/// How a handler sends the client elsewhere.
#[derive(Debug, Clone, Copy, PartialEq, Eq, Structural)]
pub enum RedirectVia {
    /// Status 200 with an `HX-Redirect` header: htmx does not follow a 3xx.
    HxRedirect,
    /// Status 303 with a `Location` header.
    SeeOther,
}

/// How to send the client elsewhere after a POST, PATCH or DELETE.
pub fn redirect(hx_request: Option<&str>) -> (r: RedirectVia)
    ensures
        r == (if hx_request.deep_view() == Some("true"@) {
            RedirectVia::HxRedirect
        } else {
            RedirectVia::SeeOther
        }),
{
    if is_hx(hx_request) {
        RedirectVia::HxRedirect
    } else {
        RedirectVia::SeeOther
    }
}

/// A byte that stands for itself in a query.
pub open spec fn is_unreserved(b: u8) -> bool {
    (48 <= b <= 57) || (97 <= b <= 122) || (65 <= b <= 90) || b == 45 || b == 95 || b == 46 || b
        == 126
}

/// The capital hexadecimal digit for `n`.
pub open spec fn hex_digit(n: int) -> char {
    if n < 10 {
        ('0' as int + n) as char
    } else {
        ('A' as int + n - 10) as char
    }
}

/// How a byte is written in a query: a space as `+`, and what is reserved as `%XX`.
pub open spec fn urlencode_byte(b: u8) -> Seq<char> {
    if b == 32 {
        seq!['+']
    } else if is_unreserved(b) {
        seq![b as char]
    } else {
        seq!['%', hex_digit(b as int / 16), hex_digit(b as int % 16)]
    }
}

/// How bytes are written in a query.
pub open spec fn urlencode_bytes(s: Seq<u8>) -> Seq<char>
    decreases s.len(),
{
    if s.len() == 0 {
        Seq::empty()
    } else {
        urlencode_bytes(s.drop_last()) + urlencode_byte(s.last())
    }
}

/// How a text is written in a query: by the bytes of its UTF-8 form.
pub open spec fn urlencoded(s: Seq<char>) -> Seq<char> {
    urlencode_bytes(encode_utf8(s))
}

fn push_hex(out: &mut String, n: u8)
    requires
        n < 16,
    ensures
        final(out)@ == old(out)@.push(hex_digit(n as int)),
{
    if n < 10 {
        out.push((48u8 + n) as char);
    } else {
        out.push((55u8 + n) as char);
    }
}

/// Percent-encoding for the values in links and redirects, in the style of
/// `application/x-www-form-urlencoded`. It goes by UTF-8 byte, not by character.
pub fn urlencode(s: &str) -> (r: String)
    ensures
        r@ == urlencoded(s@),
{
    let bytes = s.as_bytes();
    let ghost all = bytes@;
    let mut out = String::new();
    let mut i: usize = 0;
    assert(all.take(0) =~= Seq::empty());
    while i < bytes.len()
        invariant
            0 <= i <= bytes@.len(),
            all == bytes@,
            out@ == urlencode_bytes(all.take(i as int)),
        decreases bytes@.len() - i,
    {
        let b: u8 = bytes[i];
        let ghost before = out@;
        proof {
            assert(all.take(i + 1).drop_last() =~= all.take(i as int));
            assert(all.take(i + 1).last() == b);
        }
        if b == 32 {
            out.push('+');
        } else if (48 <= b && b <= 57) || (97 <= b && b <= 122) || (65 <= b && b <= 90) || b == 45
            || b == 95 || b == 46 || b == 126 {
            out.push(b as char);
        } else {
            out.push('%');
            push_hex(&mut out, b / 16);
            push_hex(&mut out, b % 16);
        }
        assert(out@ =~= before + urlencode_byte(b));
        i = i + 1;
    }
    assert(all.take(i as int) =~= all);
    out
}

/// What is written in a query holds nothing that would end the value there: only letters,
/// digits and `-_.~+%`.
pub proof fn urlencoded_is_safe(s: Seq<u8>)
    ensures
        forall|i: int|
            0 <= i < urlencode_bytes(s).len() ==> (#[trigger] urlencode_bytes(s)[i] as int) < 128
                && (is_unreserved(urlencode_bytes(s)[i] as u8) || urlencode_bytes(s)[i] == '+'
                || urlencode_bytes(s)[i] == '%'),
    decreases s.len(),
{
    if s.len() > 0 {
        let t = s.drop_last();
        urlencoded_is_safe(t);
        let a = urlencode_bytes(t);
        let b = urlencode_byte(s.last());
        let all = urlencode_bytes(s);
        assert forall|i: int| 0 <= i < all.len() implies (#[trigger] all[i] as int) < 128 && (
        is_unreserved(all[i] as u8) || all[i] == '+' || all[i] == '%') by {
            if i < a.len() {
                assert(all[i] == a[i]);
            } else {
                assert(all[i] == b[i - a.len()]);
            }
        }
    }
}

} // verus!
