//! Requests, addresses, static files and cookies.

use jscalendar::assets::{css_url, fnv1a_hex, replace_text, service_worker_body, AssetVersions};
use jscalendar::auth::{login_credentials, login_error_url, login_page, normalize_session_url, prepare_login, session_source, LoginRequest, SessionSource};
use jscalendar::calendarform::{check_ics_form, ics_fetch_target, piece_fits, IcsFormBody, ICS_MAX_RESPONSE_BYTES};
use jscalendar::client::Credentials;
use jscalendar::csrf::{hostname_only, verify_same_origin};
use jscalendar::hex::hex_text;
use jscalendar::netguard::{ensure_public, is_public_addr, IpAddr, Refusal};
use jscalendar::prefs::{apply, encode, UserPrefs};
use jscalendar::regions::GermanRegion;
use jscalendar::state::{configured_port, configured_tz, demo_login, DisplaySettings, TimeFormat};
use jscalendar::tz::Tz;
use jscalendar::webutil::{is_https, is_hx, redirect, security_headers, urlencode, RedirectVia};

#[test]
fn extracts_hostname_from_various_shapes() {
    assert_eq!(hostname_only("example.com").as_deref(), Some("example.com"));
    assert_eq!(hostname_only("example.com:8080").as_deref(), Some("example.com"));
    assert_eq!(hostname_only("https://example.com").as_deref(), Some("example.com"));
    assert_eq!(
        hostname_only("https://Example.COM:8080/path?q=1").as_deref(),
        Some("example.com")
    );
    assert_eq!(hostname_only("").as_deref(), None);
}

#[test]
fn requests_that_change_things_come_from_the_site_itself() {
    let host = Some(Some("cal.example:3000"));
    assert!(verify_same_origin("GET", host, Some(Some("https://evil.example")), None));
    assert!(verify_same_origin("POST", host, Some(Some("https://cal.example")), None));
    assert!(!verify_same_origin("POST", host, Some(Some("https://evil.example")), None));
    assert!(!verify_same_origin("DELETE", host, None, Some(Some("https://evil.example/x"))));
    assert!(verify_same_origin("DELETE", host, None, Some(Some("http://CAL.example/x"))));
}

fn v4(a: u8, b: u8, c: u8, d: u8) -> IpAddr {
    IpAddr::V4(a, b, c, d)
}

#[test]
fn rejects_common_private_ranges() {
    let private = [
        v4(127, 0, 0, 1),
        v4(10, 0, 0, 1),
        v4(172, 16, 0, 1),
        v4(192, 168, 1, 1),
        v4(169, 254, 169, 254), // cloud metadata
        v4(100, 64, 0, 1),      // carrier-grade NAT
        v4(198, 18, 0, 1),      // benchmarking
        v4(0, 0, 0, 0),
        v4(224, 0, 0, 1), // multicast
        IpAddr::V6(0, 0, 0, 0, 0, 0, 0, 1),
        IpAddr::V6(0xfc00, 0, 0, 0, 0, 0, 0, 1),
        IpAddr::V6(0xfe80, 0, 0, 0, 0, 0, 0, 1),
        IpAddr::V6(0, 0, 0, 0, 0, 0xffff, 0xa9fe, 0xa9fe), // IPv4-mapped metadata address
    ];
    for ip in private {
        assert!(!is_public_addr(ip), "{:?} should be rejected", ip);
    }
}

#[test]
fn accepts_public_addresses() {
    let public = [
        v4(8, 8, 8, 8),
        v4(1, 1, 1, 1),
        v4(93, 184, 216, 34),
        IpAddr::V6(0x2606, 0x4700, 0x4700, 0, 0, 0, 0, 0x1111),
    ];
    for ip in public {
        assert!(is_public_addr(ip), "{:?} should be accepted", ip);
    }
}

#[test]
fn rejects_what_is_not_plainly_public() {
    let refused = [
        v4(240, 0, 0, 1),
        v4(255, 255, 255, 255),
        v4(0, 1, 2, 3),
        v4(192, 0, 0, 8),
        v4(192, 0, 2, 1),
        v4(192, 88, 99, 1),
        IpAddr::V6(0, 0, 0, 0, 0, 0, 0, 0),
        IpAddr::V6(0, 0, 0, 0, 0, 0xffff, 0xf000, 1),
        IpAddr::V6(0x64, 0xff9b, 0, 0, 0, 0, 0xa9fe, 0xa9fe),
        IpAddr::V6(0x100, 0, 0, 0, 0, 0, 0, 1),
        IpAddr::V6(0x2001, 0, 0, 0, 0, 0, 0, 1),
        IpAddr::V6(0x2001, 0xdb8, 0, 0, 0, 0, 0, 1),
        IpAddr::V6(0x2002, 0x7f00, 1, 0, 0, 0, 0, 1),
        IpAddr::V6(0x3fff, 0xfff, 0, 0, 0, 0, 0, 1),
        IpAddr::V6(0xfec0, 0, 0, 0, 0, 0, 0, 1),
        IpAddr::V6(0xff02, 0, 0, 0, 0, 0, 0, 1),
    ];
    for ip in refused {
        assert!(!is_public_addr(ip), "{:?} should be rejected", ip);
    }
    let public = [
        v4(192, 0, 1, 1),
        v4(223, 255, 255, 1),
        IpAddr::V6(0, 0, 0, 0, 0, 0xffff, 0x0808, 0x0808),
        IpAddr::V6(0x2001, 0x4860, 0x4860, 0, 0, 0, 0, 0x8888),
    ];
    for ip in public {
        assert!(is_public_addr(ip), "{:?} should be accepted", ip);
    }
}

#[test]
fn every_address_of_a_host_has_to_be_public() {
    assert_eq!(ensure_public(&vec![]), Err(Refusal::NoAddress));
    assert_eq!(ensure_public(&vec![v4(8, 8, 8, 8)]), Ok(()));
    assert_eq!(ensure_public(&vec![v4(8, 8, 8, 8), v4(10, 0, 0, 1)]), Err(Refusal::Private(1)));
}

#[test]
fn every_answer_has_its_headers() {
    let headers = security_headers();
    assert_eq!(headers.len(), 4);
    let value = |name: &str| headers.iter().find(|h| h.0 == name).map(|h| h.1.as_str());
    assert_eq!(
        value("Content-Security-Policy"),
        Some("default-src 'self'; script-src 'self'; style-src 'self' 'unsafe-inline'; img-src 'self' data:; connect-src 'self'; object-src 'none'; base-uri 'self'; form-action 'self'; frame-ancestors 'none'")
    );
    assert_eq!(value("X-Frame-Options"), Some("DENY"));
    assert_eq!(value("X-Content-Type-Options"), Some("nosniff"));
    assert_eq!(value("Referrer-Policy"), Some("strict-origin-when-cross-origin"));
}

#[test]
fn redirects_fit_the_request() {
    assert!(is_hx(Some("true")));
    assert!(!is_hx(None));
    assert_eq!(redirect(Some("true")), RedirectVia::HxRedirect);
    assert_eq!(redirect(None), RedirectVia::SeeOther);
    assert!(is_https(Some("https")));
    assert!(!is_https(Some("http")));
    assert!(!is_https(None));
}

#[test]
fn query_values_are_percent_encoded() {
    assert_eq!(urlencode("a-b_c.d~9"), "a-b_c.d~9");
    assert_eq!(urlencode("a b&c=\u{e4}"), "a+b%26c%3D%C3%A4");
}

#[test]
fn hashes_of_static_files_are_exact() {
    assert_eq!(fnv1a_hex(b""), "4fd0bfc1");
    assert_eq!(fnv1a_hex(b"a"), "296230c0");
    assert_eq!(fnv1a_hex(b"foobar"), "72ad2699");
    assert_eq!(hex_text(&[0, 15, 255]), "000fff");
}

#[test]
fn static_files_carry_their_version() {
    let v = AssetVersions::of(Some(b"a"), None, Some(b""), Some(b"foobar"));
    assert!(css_url(&v).ends_with("?v=296230c0"));
    assert_eq!(v.htmx, "4fd0bfc1");
    assert_eq!(replace_text("aXbXc", "X", "--"), "a--b--c");
    assert_eq!(replace_text("abc", "X", "--"), "abc");
    assert!(service_worker_body("no marks", &v).contains("no marks"));
}

// Signing in

fn login(server_url: &str, username: &str, password: &str, token: &str) -> LoginRequest {
    LoginRequest {
        server_url: server_url.to_string(),
        username: username.to_string(),
        password: password.to_string(),
        token: token.to_string(),
    }
}

#[test]
fn session_addresses_are_completed() {
    assert_eq!(
        normalize_session_url("mail.example.com").unwrap(),
        "https://mail.example.com/.well-known/jmap"
    );
    assert_eq!(
        normalize_session_url(" http://localhost:4000/ ").unwrap(),
        "http://localhost:4000/.well-known/jmap"
    );
    assert_eq!(
        normalize_session_url("https://mail.example.com/jmap/session").unwrap(),
        "https://mail.example.com/jmap/session"
    );
    assert!(normalize_session_url("https://").is_err());
}

#[test]
fn credentials_need_a_token_or_a_name_and_a_password() {
    assert!(matches!(
        login_credentials(&login("", "", "", "t0")),
        Ok(Credentials::Bearer(t)) if t == "t0"
    ));
    assert!(matches!(
        login_credentials(&login("", "u", "p", "")),
        Ok(Credentials::Basic { username, password }) if username == "u" && password == "p"
    ));
    assert!(login_credentials(&login("", "", "", "")).is_err());
    let (url, _) = prepare_login(&login("mail.example.com", "u", "p", "")).unwrap();
    assert_eq!(url, "https://mail.example.com/.well-known/jmap");
    assert!(login_error_url("a b").contains("a+b"));
}

#[test]
fn credentials_become_a_header() {
    let basic = Credentials::Basic { username: "Aladdin".to_string(), password: "open sesame".to_string() };
    assert_eq!(basic.header_value(), "Basic QWxhZGRpbjpvcGVuIHNlc2FtZQ==");
    assert_eq!(Credentials::Bearer("t".to_string()).header_value(), "Bearer t");
}

#[test]
fn a_request_finds_its_session() {
    assert_eq!(session_source(true, true, true), SessionSource::Cookie);
    assert_eq!(session_source(false, true, true), SessionSource::Kept);
    assert_eq!(session_source(false, true, false), SessionSource::Connect);
    assert_eq!(session_source(false, false, true), SessionSource::SignIn);
}

#[test]
fn the_port_can_be_chosen() {
    assert_eq!(configured_port(Some("8080"), 8787), 8080);
    assert_eq!(configured_port(Some("70000"), 8787), 8787);
    assert_eq!(configured_port(Some("http"), 8787), 8787);
    assert_eq!(configured_port(None, 9090), 9090);
}

#[test]
fn the_demo_login_fills_the_page() {
    let text = |s: &str| Some(s.to_string());
    assert!(demo_login(None, text("u"), text("p")).is_none());
    let demo = demo_login(text("s"), text("u"), None).unwrap();
    let page = login_page(None, Some(&demo));
    assert_eq!((page.server_url.as_str(), page.username.as_str()), ("s", "u"));
    assert_eq!(page.password, "demo");
    assert!(login_page(Some("bad".to_string()), None).error.is_some());
}

// Subscriptions

fn ics_form(name: &str, color: &str, url: &str) -> IcsFormBody {
    IcsFormBody {
        back_view: String::new(),
        back_date: String::new(),
        back_cal: String::new(),
        back_q: String::new(),
        name: name.to_string(),
        color: color.to_string(),
        url: url.to_string(),
    }
}

#[test]
fn subscriptions_name_a_web_address() {
    assert_eq!(
        check_ics_form(&ics_form("Work", "#0ea5e9", "https://example.com/a.ics")).unwrap(),
        ("example.com".to_string(), 443)
    );
    assert_eq!(
        ics_fetch_target("http://example.com:8080/a.ics").unwrap(),
        ("example.com".to_string(), 8080)
    );
    assert!(check_ics_form(&ics_form("", "#0ea5e9", "https://example.com/a.ics")).is_err());
    assert!(check_ics_form(&ics_form("Work", "#0ea5e9", "ftp://example.com/a.ics")).is_err());
    assert!(check_ics_form(&ics_form("Work", "#0ea5e9", "no address")).is_err());
}

#[test]
fn answers_are_read_up_to_a_limit() {
    assert!(piece_fits(0, ICS_MAX_RESPONSE_BYTES));
    assert!(!piece_fits(1, ICS_MAX_RESPONSE_BYTES));
    assert!(!piece_fits(usize::MAX, usize::MAX));
}

// Preferences

fn defaults() -> DisplaySettings {
    DisplaySettings { viewer_tz: Tz::utc(), holidays_region: None, time_format: TimeFormat::TwentyFour }
}

#[test]
fn preferences_read_back_from_a_cookie() {
    let cookie = encode("Europe/Berlin", "Berlin", "12h");
    let prefs = UserPrefs::parse(&cookie);
    assert_eq!(prefs.timezone.as_ref().unwrap().name(), "Europe/Berlin");
    assert_eq!(prefs.holidays_region, Some(Some(GermanRegion::Berlin)));
    assert_eq!(prefs.time_format, Some(TimeFormat::Twelve));
    let settings = apply(defaults(), prefs);
    assert_eq!(settings.viewer_tz.name(), "Europe/Berlin");
    assert_eq!(settings.time_format, TimeFormat::Twelve);
}

#[test]
fn unknown_preferences_leave_the_defaults() {
    let settings = apply(defaults(), UserPrefs::parse("tz=Nowhere"));
    assert_eq!(settings.viewer_tz.name(), "UTC");
    assert_eq!(settings.holidays_region, None);
    let none = UserPrefs::from_cookie(None);
    assert!(none.timezone.is_none() && none.time_format.is_none());
    assert_eq!(configured_tz(Some("Europe/Berlin")).name(), "Europe/Berlin");
    assert_eq!(configured_tz(None).name(), "UTC");
}
