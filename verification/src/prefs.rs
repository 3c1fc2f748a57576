//! How a user wants things shown, over the defaults of the server. It is kept in a cookie of
//! its own, apart from that of the session, so that it outlives signing out.

use vstd::prelude::*;
use vstd::string::*;
use crate::contentline::split_none;
use crate::regions::{parse_german_region, region_of, GermanRegion};
use crate::rrule_laws::split_undoes_join;
use crate::state::{time_format_of, DisplaySettings, DisplaySettingsV, TimeFormat};
use crate::text::{
    first_index_is, join, join_str, split, split_once, split_once_str, split_str, str_eq,
};
use crate::tz::{is_zone, parse_tz, Tz};
use crate::users::{is_blank, DisplayPrefs};

verus! {

pub const PREFS_COOKIE: &'static str = "jscal_prefs";

/// What a user asks for; what they have no opinion of is absent.
#[derive(Debug)]
pub struct UserPrefs {
    pub timezone: Option<Tz>,
    /// `Some(None)` asks for no holidays, where `None` asks for the default of the server.
    pub holidays_region: Option<Option<GermanRegion>>,
    pub time_format: Option<TimeFormat>,
}

/// What [`UserPrefs`] stand for.
#[verifier::ext_equal]
pub struct UserPrefsV {
    pub timezone: Option<Seq<char>>,
    pub holidays_region: Option<Option<GermanRegion>>,
    pub time_format: Option<TimeFormat>,
}

impl DeepView for UserPrefs {
    type V = UserPrefsV;

    open spec fn deep_view(&self) -> UserPrefsV {
        UserPrefsV {
            timezone: self.timezone.deep_view(),
            holidays_region: self.holidays_region,
            time_format: self.time_format,
        }
    }
}

impl UserPrefsV {
    /// No opinion on anything.
    pub open spec fn blank() -> UserPrefsV {
        UserPrefsV { timezone: None, holidays_region: None, time_format: None }
    }
}

/// The zone with a name, if there is one.
pub open spec fn zone_named(s: Seq<char>) -> Option<Seq<char>> {
    if is_zone(s) {
        Some(s)
    } else {
        None
    }
}

/// The state that a word asks for: none for `none`, nor for a word that names no state.
pub open spec fn region_wanted(s: Seq<char>) -> Option<GermanRegion> {
    if s == "none"@ {
        None
    } else {
        region_of(s)
    }
}

/// The preferences with one more `key=value` read.
pub open spec fn with_pair(p: UserPrefsV, pair: Seq<char>) -> UserPrefsV {
    match split_once(pair, '=') {
        Some((key, value)) => if key == "tz"@ {
            UserPrefsV { timezone: zone_named(value), ..p }
        } else if key == "hr"@ {
            UserPrefsV { holidays_region: Some(region_wanted(value)), ..p }
        } else if key == "tf"@ {
            UserPrefsV { time_format: time_format_of(value), ..p }
        } else {
            p
        },
        None => p,
    }
}

/// The preferences with some pairs read, one after the other.
pub open spec fn with_pairs(pairs: Seq<Seq<char>>) -> UserPrefsV
    decreases pairs.len(),
{
    if pairs.len() == 0 {
        UserPrefsV::blank()
    } else {
        with_pair(with_pairs(pairs.drop_last()), pairs.last())
    }
}

/// The preferences that the value of the cookie stands for.
pub open spec fn prefs_of(raw: Seq<char>) -> UserPrefsV {
    with_pairs(split(raw, '&'))
}

/// The value of the cookie, in pairs: what is empty is left out.
pub open spec fn pref_pairs(
    timezone: Seq<char>,
    holidays_region: Seq<char>,
    time_format: Seq<char>,
) -> Seq<Seq<char>> {
    (if timezone.len() > 0 {
        seq!["tz="@ + timezone]
    } else {
        Seq::empty()
    }) + (if holidays_region.len() > 0 {
        seq!["hr="@ + holidays_region]
    } else {
        Seq::empty()
    }) + (if time_format.len() > 0 {
        seq!["tf="@ + time_format]
    } else {
        Seq::empty()
    })
}

/// The value of the cookie.
pub open spec fn encoded(
    timezone: Seq<char>,
    holidays_region: Seq<char>,
    time_format: Seq<char>,
) -> Seq<char> {
    join(pref_pairs(timezone, holidays_region, time_format), "&"@)
}

/// What the fields of the settings ask for; an empty one asks for nothing.
pub open spec fn wanted(
    timezone: Seq<char>,
    holidays_region: Seq<char>,
    time_format: Seq<char>,
) -> UserPrefsV {
    UserPrefsV {
        timezone: if timezone.len() > 0 {
            zone_named(timezone)
        } else {
            None
        },
        holidays_region: if holidays_region.len() > 0 {
            Some(region_wanted(holidays_region))
        } else {
            None
        },
        time_format: if time_format.len() > 0 {
            time_format_of(time_format)
        } else {
            None
        },
    }
}

/// The settings of the server with what a user asks for in their place.
pub open spec fn applied(s: DisplaySettingsV, p: UserPrefsV) -> DisplaySettingsV {
    DisplaySettingsV {
        viewer_tz: match p.timezone {
            Some(tz) => tz,
            None => s.viewer_tz,
        },
        holidays_region: match p.holidays_region {
            Some(r) => r,
            None => s.holidays_region,
        },
        time_format: match p.time_format {
            Some(f) => f,
            None => s.time_format,
        },
    }
}

fn wanted_region(s: &str) -> (r: Option<GermanRegion>)
    ensures
        r == region_wanted(s@),
{
    if str_eq(s, "none") {
        None
    } else {
        parse_german_region(s)
    }
}

impl UserPrefs {
    /// Reads the value of the cookie, where there is one.
    pub fn from_cookie(value: Option<&str>) -> (r: Self)
        ensures
            r.deep_view() == (match value {
                Some(v) => prefs_of(v@),
                None => UserPrefsV::blank(),
            }),
    {
        match value {
            Some(v) => Self::parse(v),
            None => UserPrefs { timezone: None, holidays_region: None, time_format: None },
        }
    }

    /// Reads the value of the cookie: what it does not know, it passes over.
    pub fn parse(raw: &str) -> (r: Self)
        ensures
            r.deep_view() == prefs_of(raw@),
    {
        let pairs = split_str(raw, '&');
        let ghost all = pairs.deep_view();
        let mut p = UserPrefs { timezone: None, holidays_region: None, time_format: None };
        let mut i: usize = 0;
        assert(all.take(0) =~= Seq::empty());
        while i < pairs.len()
            invariant
                0 <= i <= pairs@.len(),
                all == pairs.deep_view(),
                p.deep_view() == with_pairs(all.take(i as int)),
            decreases pairs@.len() - i,
        {
            proof {
                assert(all.take(i + 1).drop_last() =~= all.take(i as int));
                assert(all.take(i + 1).last() == pairs@[i as int]@);
            }
            if let Some((key, value)) = split_once_str(pairs[i].as_str(), '=') {
                if str_eq(key.as_str(), "tz") {
                    p.timezone = parse_tz(value.as_str());
                } else if str_eq(key.as_str(), "hr") {
                    p.holidays_region = Some(wanted_region(value.as_str()));
                } else if str_eq(key.as_str(), "tf") {
                    p.time_format = TimeFormat::parse(value.as_str());
                }
            }
            i = i + 1;
        }
        assert(all.take(i as int) =~= all);
        p
    }
}

fn pair(key: &str, value: &str) -> (r: String)
    ensures
        r@ == key@ + value@,
{
    let mut out = key.to_string();
    out.append(value);
    out
}

/// The value of the cookie for what the settings form holds.
pub fn encode(timezone: &str, holidays_region: &str, time_format: &str) -> (r: String)
    ensures
        r@ == encoded(timezone@, holidays_region@, time_format@),
{
    let mut parts: Vec<String> = Vec::new();
    if !is_blank(timezone) {
        parts.push(pair("tz=", timezone));
    }
    if !is_blank(holidays_region) {
        parts.push(pair("hr=", holidays_region));
    }
    if !is_blank(time_format) {
        parts.push(pair("tf=", time_format));
    }
    assert(parts.deep_view() =~= pref_pairs(timezone@, holidays_region@, time_format@));
    join_str(&parts, "&")
}

/// The settings of the server with what a user asks for in their place.
pub fn apply(settings: DisplaySettings, prefs: UserPrefs) -> (r: DisplaySettings)
    ensures
        r.deep_view() == applied(settings.deep_view(), prefs.deep_view()),
{
    DisplaySettings {
        viewer_tz: match prefs.timezone {
            Some(tz) => tz,
            None => settings.viewer_tz,
        },
        holidays_region: match prefs.holidays_region {
            Some(r) => r,
            None => settings.holidays_region,
        },
        time_format: match prefs.time_format {
            Some(f) => f,
            None => settings.time_format,
        },
    }
}

/// The settings of the server with what an account asks for in their place.
pub fn apply_display_prefs(settings: DisplaySettings, prefs: &DisplayPrefs) -> (r: DisplaySettings)
    ensures
        r.deep_view() == applied(
            settings.deep_view(),
            wanted(prefs.timezone@, prefs.holidays_region@, prefs.time_format@),
        ),
{
    let wanted = UserPrefs {
        timezone: if is_blank(prefs.timezone.as_str()) {
            None
        } else {
            parse_tz(prefs.timezone.as_str())
        },
        holidays_region: if is_blank(prefs.holidays_region.as_str()) {
            None
        } else {
            Some(wanted_region(prefs.holidays_region.as_str()))
        },
        time_format: if is_blank(prefs.time_format.as_str()) {
            None
        } else {
            TimeFormat::parse(prefs.time_format.as_str())
        },
    };
    apply(settings, wanted)
}

// ---------------------------------------------------------------------------
// The cookie reads back
// ---------------------------------------------------------------------------

/// A text without ampersands.
pub open spec fn plain(s: Seq<char>) -> bool {
    forall|i: int| 0 <= i < s.len() ==> #[trigger] s[i] != '&'
}

proof fn pair_reads(p: UserPrefsV, key: Seq<char>, value: Seq<char>)
    requires
        key == "tz="@ || key == "hr="@ || key == "tf="@,
    ensures
        split_once(key + value, '=') == Some((key.take(2), value)),
        plain(key),
        key == "tz="@ ==> key.take(2) == "tz"@,
        key == "hr="@ ==> key.take(2) == "hr"@,
        key == "tf="@ ==> key.take(2) == "tf"@,
        "tz"@ != "hr"@,
        "tz"@ != "tf"@,
        "hr"@ != "tf"@,
{
    reveal_strlit("tz=");
    reveal_strlit("hr=");
    reveal_strlit("tf=");
    reveal_strlit("tz");
    reveal_strlit("hr");
    reveal_strlit("tf");
    let all = key + value;
    assert(all[2] == '=');
    first_index_is(all, '=', 2);
    assert(all.take(2) =~= key.take(2));
    assert(all.skip(3) =~= value);
    assert("tz="@.take(2) =~= "tz"@);
    assert("hr="@.take(2) =~= "hr"@);
    assert("tf="@.take(2) =~= "tf"@);
    assert("tz"@[0] != "hr"@[0]);
    assert("tz"@[1] != "tf"@[1]);
    assert("hr"@[0] != "tf"@[0]);
}

proof fn pair_taken(p: UserPrefsV, key: Seq<char>, value: Seq<char>)
    ensures
        with_pair(p, "tz="@ + value) == (UserPrefsV { timezone: zone_named(value), ..p }),
        with_pair(p, "hr="@ + value) == (UserPrefsV {
            holidays_region: Some(region_wanted(value)),
            ..p
        }),
        with_pair(p, "tf="@ + value) == (UserPrefsV { time_format: time_format_of(value), ..p }),
{
    pair_reads(p, "tz="@, value);
    pair_reads(p, "hr="@, value);
    pair_reads(p, "tf="@, value);
}

proof fn pair_plain(key: Seq<char>, value: Seq<char>)
    requires
        plain(value),
        key == "tz="@ || key == "hr="@ || key == "tf="@,
    ensures
        plain(key + value),
{
    pair_reads(UserPrefsV::blank(), key, value);
}

/// The preferences with the pairs of some fields read are what the fields ask for.
proof fn pairs_wanted(tz: Seq<char>, hr: Seq<char>, tf: Seq<char>)
    ensures
        with_pairs(pref_pairs(tz, hr, tf)) == wanted(tz, hr, tf),
{
    let e = Seq::<Seq<char>>::empty();
    let a = if tz.len() > 0 {
        seq!["tz="@ + tz]
    } else {
        e
    };
    let b = if hr.len() > 0 {
        a.push("hr="@ + hr)
    } else {
        a
    };
    let c = if tf.len() > 0 {
        b.push("tf="@ + tf)
    } else {
        b
    };
    assert(pref_pairs(tz, hr, tf) =~= c);
    let p0 = UserPrefsV::blank();
    pair_taken(p0, tz, tz);
    if tz.len() > 0 {
        assert(a.drop_last() =~= e);
        assert(a.last() == "tz="@ + tz);
    }
    assert(with_pairs(e) == p0);
    let p1 = with_pairs(a);
    assert(p1 =~= wanted(tz, Seq::empty(), Seq::empty()));
    pair_taken(p1, hr, hr);
    if hr.len() > 0 {
        assert(b.drop_last() =~= a);
        assert(b.last() == "hr="@ + hr);
    }
    let p2 = with_pairs(b);
    assert(p2 =~= wanted(tz, hr, Seq::empty()));
    pair_taken(p2, tf, tf);
    if tf.len() > 0 {
        assert(c.drop_last() =~= b);
        assert(c.last() == "tf="@ + tf);
    }
}

/// What the settings form saves in the cookie reads back as what its fields ask for, where none
/// holds an ampersand: no name of a zone, a state or a clock does.
pub proof fn encoded_reads_back(tz: Seq<char>, hr: Seq<char>, tf: Seq<char>)
    requires
        plain(tz),
        plain(hr),
        plain(tf),
    ensures
        prefs_of(encoded(tz, hr, tf)) == wanted(tz, hr, tf),
{
    let pairs = pref_pairs(tz, hr, tf);
    reveal_strlit("&");
    assert("&"@ =~= seq!['&']);
    pair_plain("tz="@, tz);
    pair_plain("hr="@, hr);
    pair_plain("tf="@, tf);
    pairs_wanted(tz, hr, tf);
    if pairs.len() == 0 {
        let raw = join(pairs, "&"@);
        assert(raw.len() == 0);
        split_none(raw, '&');
        assert(split(raw, '&') =~= seq![raw]);
        assert(seq![raw].drop_last() =~= Seq::<Seq<char>>::empty());
        first_index_is(raw, '=', 0);
        assert(with_pairs(Seq::<Seq<char>>::empty()) == UserPrefsV::blank());
        assert(seq![raw].last() == raw);
    } else {
        split_undoes_join(pairs, '&');
    }
}

} // verus!
