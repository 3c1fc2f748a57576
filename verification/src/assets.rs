//! The addresses of the files that pages load. Each holds a hash of the file, so that the
//! address changes whenever the file does, and no cache serves an old one.

use vstd::prelude::*;
use vstd::slice::*;
use vstd::string::*;
use crate::collections::CloneView;
use crate::hex::{hex, hex_text};
use crate::text::{chars_of, find_slice, find_text, string_of};

verus! {

/// The 64-bit FNV-1a hash of some bytes.
pub open spec fn fnv1a(bytes: Seq<u8>) -> u64
    decreases bytes.len(),
{
    if bytes.len() == 0 {
        0xcbf29ce484222325
    } else {
        (fnv1a(bytes.drop_last()) ^ (bytes.last() as u64)).wrapping_mul(0x100000001b3)
    }
}

/// The two halves of a hash, one over the other.
pub open spec fn halves_joined(h: u64) -> u32 {
    ((h / 0x1_0000_0000) as u32) ^ ((h % 0x1_0000_0000) as u32)
}

/// The bytes of a number, the highest first.
pub open spec fn be_bytes(n: u32) -> Seq<u8> {
    seq![
        (n / 0x100_0000) as u8,
        (n / 0x1_0000 % 0x100) as u8,
        (n / 0x100 % 0x100) as u8,
        (n % 0x100) as u8,
    ]
}

/// The version of a file by what it holds: eight hexadecimal digits.
pub open spec fn version_of(bytes: Seq<u8>) -> Seq<char> {
    hex(be_bytes(halves_joined(fnv1a(bytes))))
}

/// The version of a file by what it holds.
pub fn fnv1a_hex(bytes: &[u8]) -> (r: String)
    ensures
        r@ == version_of(bytes@),
{
    let mut hash: u64 = 0xcbf29ce484222325;
    let mut i: usize = 0;
    assert(bytes@.take(0) =~= Seq::empty());
    while i < bytes.len()
        invariant
            0 <= i <= bytes@.len(),
            hash == fnv1a(bytes@.take(i as int)),
        decreases bytes@.len() - i,
    {
        proof {
            assert(bytes@.take(i + 1).drop_last() =~= bytes@.take(i as int));
            assert(bytes@.take(i + 1).last() == bytes@[i as int]);
        }
        hash = (hash ^ (bytes[i] as u64)).wrapping_mul(0x100000001b3);
        i = i + 1;
    }
    assert(bytes@.take(i as int) =~= bytes@);
    let high: u32 = (hash / 0x1_0000_0000) as u32;
    let low: u32 = (hash % 0x1_0000_0000) as u32;
    let n: u32 = high ^ low;
    let out: Vec<u8> = vec![
        (n / 0x100_0000) as u8,
        (n / 0x1_0000 % 0x100) as u8,
        (n / 0x100 % 0x100) as u8,
        (n % 0x100) as u8,
    ];
    assert(out@ =~= be_bytes(n));
    hex_text(out.as_slice())
}

/// The versions of the files that pages load.
#[derive(Debug)]
pub struct AssetVersions {
    pub app_css: String,
    pub app_js: String,
    pub htmx: String,
    pub settings_js: String,
}

/// What a [`AssetVersions`] stands for.
#[verifier::ext_equal]
pub struct AssetVersionsV {
    pub app_css: Seq<char>,
    pub app_js: Seq<char>,
    pub htmx: Seq<char>,
    pub settings_js: Seq<char>,
}

impl DeepView for AssetVersions {
    type V = AssetVersionsV;

    open spec fn deep_view(&self) -> AssetVersionsV {
        AssetVersionsV {
            app_css: self.app_css.deep_view(),
            app_js: self.app_js.deep_view(),
            htmx: self.htmx.deep_view(),
            settings_js: self.settings_js.deep_view(),
        }
    }
}

impl CloneView for AssetVersions {
    fn clone_view(&self) -> (r: Self) {
        AssetVersions {
            app_css: self.app_css.clone_view(),
            app_js: self.app_js.clone_view(),
            htmx: self.htmx.clone_view(),
            settings_js: self.settings_js.clone_view(),
        }
    }
}

impl Clone for AssetVersions {
    fn clone(&self) -> (r: Self)
        ensures
            r.deep_view() == self.deep_view(),
    {
        self.clone_view()
    }
}

/// The version of a file: `0` where it cannot be read.
pub open spec fn version_or_zero(bytes: Option<Seq<u8>>) -> Seq<char> {
    match bytes {
        Some(b) => version_of(b),
        None => "0"@,
    }
}

fn version(bytes: Option<&[u8]>) -> (r: String)
    ensures
        r@ == version_or_zero(
            match bytes {
                Some(b) => Some(b@),
                None => None,
            },
        ),
{
    match bytes {
        Some(b) => fnv1a_hex(b),
        None => "0".to_string(),
    }
}

impl AssetVersions {
    /// The versions of the files by what they hold.
    pub fn of(
        app_css: Option<&[u8]>,
        app_js: Option<&[u8]>,
        htmx: Option<&[u8]>,
        settings_js: Option<&[u8]>,
    ) -> (r: Self)
        ensures
            r.app_css@ == version_or_zero(match app_css { Some(b) => Some(b@), None => None }),
            r.app_js@ == version_or_zero(match app_js { Some(b) => Some(b@), None => None }),
            r.htmx@ == version_or_zero(match htmx { Some(b) => Some(b@), None => None }),
            r.settings_js@ == version_or_zero(
                match settings_js { Some(b) => Some(b@), None => None },
            ),
    {
        AssetVersions {
            app_css: version(app_css),
            app_js: version(app_js),
            htmx: version(htmx),
            settings_js: version(settings_js),
        }
    }
}

/// The address of a file.
pub open spec fn asset_url(name: Seq<char>, version: Seq<char>) -> Seq<char> {
    "/static/"@ + name + "?v="@ + version
}

fn url(name: &str, version: &str) -> (r: String)
    ensures
        r@ == asset_url(name@, version@),
{
    let mut out = "/static/".to_string();
    out.append(name);
    out.append("?v=");
    out.append(version);
    out
}

pub fn css_url(versions: &AssetVersions) -> (r: String)
    ensures
        r@ == asset_url("app.css"@, versions.app_css@),
{
    url("app.css", versions.app_css.as_str())
}

pub fn js_url(versions: &AssetVersions) -> (r: String)
    ensures
        r@ == asset_url("app.js"@, versions.app_js@),
{
    url("app.js", versions.app_js.as_str())
}

pub fn htmx_url(versions: &AssetVersions) -> (r: String)
    ensures
        r@ == asset_url("htmx.min.js"@, versions.htmx@),
{
    url("htmx.min.js", versions.htmx.as_str())
}

pub fn settings_js_url(versions: &AssetVersions) -> (r: String)
    ensures
        r@ == asset_url("settings.js"@, versions.settings_js@),
{
    url("settings.js", versions.settings_js.as_str())
}

/// A text with `to` in place of each `from`, from left to right.
pub open spec fn replaced(s: Seq<char>, from: Seq<char>, to: Seq<char>) -> Seq<char>
    decreases s.len(),
{
    match find_text(s, from) {
        Some(i) => if 0 <= i && from.len() > 0 && i + from.len() <= s.len() {
            s.take(i) + to + replaced(s.skip(i + from.len()), from, to)
        } else {
            s
        },
        None => s,
    }
}

/// A text with `to` in place of each `from`, from left to right.
pub fn replace_text(s: &str, from: &str, to: &str) -> (r: String)
    requires
        from@.len() > 0,
    ensures
        r@ == replaced(s@, from@, to@),
{
    let all = chars_of(s);
    let pattern = chars_of(from);
    let mut out = String::new();
    let mut at: usize = 0;
    assert(all@.skip(0) =~= all@);
    assert(out@ + replaced(all@.skip(0), from@, to@) =~= replaced(s@, from@, to@));
    while at <= all.len()
        invariant
            0 <= at <= all@.len(),
            pattern@ == from@,
            pattern@.len() > 0,
            all@ == s@,
            out@ + replaced(all@.skip(at as int), from@, to@) == replaced(s@, from@, to@),
        decreases all@.len() - at,
    {
        let rest = slice_subrange(all.as_slice(), at, all.len());
        assert(rest@ =~= all@.skip(at as int));
        let ghost before = out@;
        match find_slice(rest, pattern.as_slice()) {
            Some(i) => {
                let piece = string_of(slice_subrange(rest, 0, i));
                out.append(piece.as_str());
                out.append(to);
                proof {
                    assert(piece@ =~= rest@.take(i as int));
                    assert(rest@.skip(i + from@.len()) =~= all@.skip(at + i + from@.len()));
                    assert(out@ + replaced(all@.skip(at + i + from@.len()), from@, to@) =~= before + (
                    rest@.take(i as int) + to@ + replaced(rest@.skip(i + from@.len()), from@, to@)));
                }
                at = at + i + pattern.len();
            },
            None => {
                out.append(string_of(rest).as_str());
                assert(out@ =~= before + rest@);
                return out;
            },
        }
    }
    out
}

/// The service worker, with the versions in place of what stands for them.
pub open spec fn service_worker(raw: Seq<char>, v: AssetVersionsV) -> Seq<char> {
    replaced(
        replaced(
            replaced(raw, "__APP_CSS_VERSION__"@, v.app_css),
            "__APP_JS_VERSION__"@,
            v.app_js,
        ),
        "__HTMX_VERSION__"@,
        v.htmx,
    )
}

/// The service worker, with the versions in place of what stands for them.
pub fn service_worker_body(raw: &str, versions: &AssetVersions) -> (r: String)
    ensures
        r@ == service_worker(raw@, versions.deep_view()),
{
    proof {
        reveal_strlit("__APP_CSS_VERSION__");
        reveal_strlit("__APP_JS_VERSION__");
        reveal_strlit("__HTMX_VERSION__");
    }
    let a = replace_text(raw, "__APP_CSS_VERSION__", versions.app_css.as_str());
    let b = replace_text(a.as_str(), "__APP_JS_VERSION__", versions.app_js.as_str());
    replace_text(b.as_str(), "__HTMX_VERSION__", versions.htmx.as_str())
}

} // verus!
