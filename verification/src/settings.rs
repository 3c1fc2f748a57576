//! The settings of an account.

use vstd::prelude::*;
use vstd::string::*;
use crate::admin::{is_long_enough, long_enough};
use crate::options::{
    display_tz_options, holiday_region_options, region_options, time_format_options, zone_options,
    SelectOption, SelectOptionV,
};
use crate::regions::{german_region_label, region_label, GermanRegion};
use crate::state::{time_format_label, DisplaySettings};
use crate::text::{str_eq, trim, trim_str};
use crate::users::{is_blank, DisplayPrefs, DisplayPrefsV, JmapSettings, JmapSettingsV};

verus! {

/// The query of the page of the settings.
#[derive(Debug)]
pub struct SettingsQuery {
    pub saved: bool,
}

/// What a [`SettingsQuery`] stands for.
#[verifier::ext_equal]
pub struct SettingsQueryV {
    pub saved: bool,
}

impl DeepView for SettingsQuery {
    type V = SettingsQueryV;

    open spec fn deep_view(&self) -> SettingsQueryV {
        SettingsQueryV {
            saved: self.saved.deep_view(),
        }
    }
}

impl SettingsQueryV {
    /// Every part empty, absent or zero.
    pub open spec fn blank() -> SettingsQueryV {
        SettingsQueryV {
            saved: false,
        }
    }
}

impl Default for SettingsQuery {
    fn default() -> (r: Self)
        ensures
            r.deep_view() == SettingsQueryV::blank(),
    {
        let r = SettingsQuery {
            saved: false,
        };
        assert(r.deep_view() =~= SettingsQueryV::blank());
        r
    }
}

/// What the form for the settings holds when it is sent.
#[derive(Debug)]
pub struct SettingsFormBody {
    pub timezone: String,
    pub holidays_region: String,
    pub time_format: String,
    pub jmap_server_url: String,
    pub jmap_username: String,
    pub jmap_password: String,
    pub jmap_token: String,
    pub new_password: String,
    pub new_password_confirm: String,
}

/// What a [`SettingsFormBody`] stands for.
#[verifier::ext_equal]
pub struct SettingsFormBodyV {
    pub timezone: Seq<char>,
    pub holidays_region: Seq<char>,
    pub time_format: Seq<char>,
    pub jmap_server_url: Seq<char>,
    pub jmap_username: Seq<char>,
    pub jmap_password: Seq<char>,
    pub jmap_token: Seq<char>,
    pub new_password: Seq<char>,
    pub new_password_confirm: Seq<char>,
}

impl DeepView for SettingsFormBody {
    type V = SettingsFormBodyV;

    open spec fn deep_view(&self) -> SettingsFormBodyV {
        SettingsFormBodyV {
            timezone: self.timezone.deep_view(),
            holidays_region: self.holidays_region.deep_view(),
            time_format: self.time_format.deep_view(),
            jmap_server_url: self.jmap_server_url.deep_view(),
            jmap_username: self.jmap_username.deep_view(),
            jmap_password: self.jmap_password.deep_view(),
            jmap_token: self.jmap_token.deep_view(),
            new_password: self.new_password.deep_view(),
            new_password_confirm: self.new_password_confirm.deep_view(),
        }
    }
}

impl SettingsFormBodyV {
    /// Every part empty, absent or zero.
    pub open spec fn blank() -> SettingsFormBodyV {
        SettingsFormBodyV {
            timezone: Seq::empty(),
            holidays_region: Seq::empty(),
            time_format: Seq::empty(),
            jmap_server_url: Seq::empty(),
            jmap_username: Seq::empty(),
            jmap_password: Seq::empty(),
            jmap_token: Seq::empty(),
            new_password: Seq::empty(),
            new_password_confirm: Seq::empty(),
        }
    }
}

impl Default for SettingsFormBody {
    fn default() -> (r: Self)
        ensures
            r.deep_view() == SettingsFormBodyV::blank(),
    {
        let r = SettingsFormBody {
            timezone: String::new(),
            holidays_region: String::new(),
            time_format: String::new(),
            jmap_server_url: String::new(),
            jmap_username: String::new(),
            jmap_password: String::new(),
            jmap_token: String::new(),
            new_password: String::new(),
            new_password_confirm: String::new(),
        };
        assert(r.deep_view() =~= SettingsFormBodyV::blank());
        r
    }
}

/// The page of the settings.
#[derive(Debug)]
pub struct SettingsPage {
    pub timezones: Vec<SelectOption>,
    pub holiday_regions: Vec<SelectOption>,
    pub time_formats: Vec<SelectOption>,
    pub server_default_timezone: String,
    pub server_default_holidays: String,
    pub server_default_time_format: String,
    pub saved: bool,
    pub jmap_server_url: String,
    pub jmap_username: String,
    pub jmap_password: String,
    pub jmap_token: String,
    pub password_error: Option<String>,
}

/// What a [`SettingsPage`] stands for.
#[verifier::ext_equal]
pub struct SettingsPageV {
    pub timezones: Seq<SelectOptionV>,
    pub holiday_regions: Seq<SelectOptionV>,
    pub time_formats: Seq<SelectOptionV>,
    pub server_default_timezone: Seq<char>,
    pub server_default_holidays: Seq<char>,
    pub server_default_time_format: Seq<char>,
    pub saved: bool,
    pub jmap_server_url: Seq<char>,
    pub jmap_username: Seq<char>,
    pub jmap_password: Seq<char>,
    pub jmap_token: Seq<char>,
    pub password_error: Option<Seq<char>>,
}

impl DeepView for SettingsPage {
    type V = SettingsPageV;

    open spec fn deep_view(&self) -> SettingsPageV {
        SettingsPageV {
            timezones: self.timezones.deep_view(),
            holiday_regions: self.holiday_regions.deep_view(),
            time_formats: self.time_formats.deep_view(),
            server_default_timezone: self.server_default_timezone.deep_view(),
            server_default_holidays: self.server_default_holidays.deep_view(),
            server_default_time_format: self.server_default_time_format.deep_view(),
            saved: self.saved.deep_view(),
            jmap_server_url: self.jmap_server_url.deep_view(),
            jmap_username: self.jmap_username.deep_view(),
            jmap_password: self.jmap_password.deep_view(),
            jmap_token: self.jmap_token.deep_view(),
            password_error: self.password_error.deep_view(),
        }
    }
}

/// What the server shows by default, in words.
pub open spec fn holidays_label(region: Option<GermanRegion>) -> Seq<char> {
    match region {
        Some(r) => region_label(r),
        None => "None"@,
    }
}

/// What the server shows by default, in words: the zone, the state and the clock.
pub fn server_default_labels(settings: &DisplaySettings) -> (r: (String, String, String))
    ensures
        r.0@ == settings.deep_view().viewer_tz,
        r.1@ == holidays_label(settings.holidays_region),
        r.2@ == time_format_label(settings.time_format),
{
    let holidays = match settings.holidays_region {
        Some(r) => german_region_label(r).to_string(),
        None => "None".to_string(),
    };
    (settings.viewer_tz.name().to_string(), holidays, settings.time_format.label().to_string())
}

/// The page of the settings: of an account over the defaults of the server.
pub fn settings_page(
    prefs: &DisplayPrefs,
    jmap: &JmapSettings,
    settings: &DisplaySettings,
    saved: bool,
    password_error: Option<String>,
) -> (r: SettingsPage)
    ensures
        r.timezones.deep_view() == zone_options(prefs.timezone@, "Use server default"@),
        r.holiday_regions.deep_view() == region_options(prefs.holidays_region@),
        r.time_formats.deep_view() == seq![
            SelectOptionV {
                value: Seq::empty(),
                label: "Use server default"@,
                selected: prefs.time_format@.len() == 0,
            },
            SelectOptionV {
                value: "12h"@,
                label: "12-hour (3:45 PM)"@,
                selected: prefs.time_format@ == "12h"@,
            },
            SelectOptionV {
                value: "24h"@,
                label: "24-hour (15:45)"@,
                selected: prefs.time_format@ == "24h"@,
            },
        ],
        r.server_default_timezone@ == settings.deep_view().viewer_tz,
        r.server_default_holidays@ == holidays_label(settings.holidays_region),
        r.server_default_time_format@ == time_format_label(settings.time_format),
        r.saved == saved,
        r.jmap_server_url@ == jmap.server_url@,
        r.jmap_username@ == jmap.username@,
        r.jmap_password@ == jmap.password@,
        r.jmap_token@ == jmap.token@,
        r.password_error == password_error,
{
    let (tz, holidays, clock) = server_default_labels(settings);
    SettingsPage {
        timezones: display_tz_options(prefs.timezone.as_str()),
        holiday_regions: holiday_region_options(prefs.holidays_region.as_str()),
        time_formats: time_format_options(prefs.time_format.as_str()),
        server_default_timezone: tz,
        server_default_holidays: holidays,
        server_default_time_format: clock,
        saved,
        jmap_server_url: jmap.server_url.clone(),
        jmap_username: jmap.username.clone(),
        jmap_password: jmap.password.clone(),
        jmap_token: jmap.token.clone(),
        password_error,
    }
}

impl SettingsFormBodyV {
    /// Whether the form asks for another password.
    pub open spec fn changes_password(self) -> bool {
        self.new_password.len() > 0 || self.new_password_confirm.len() > 0
    }

    /// What is wrong with the password that the form asks for, if anything.
    pub open spec fn password_fault(self) -> Option<Seq<char>> {
        if !self.changes_password() {
            None
        } else if self.new_password != self.new_password_confirm {
            Some("Passwords do not match."@)
        } else if !long_enough(self.new_password) {
            Some("Password must be at least 8 characters."@)
        } else {
            None
        }
    }
}

/// The password that a form asks for, if it asks for one, or what is wrong with it.
pub fn check_password(form: &SettingsFormBody) -> (r: Result<Option<String>, String>)
    ensures
        match form.deep_view().password_fault() {
            Some(msg) => r is Err && r->Err_0@ == msg,
            None => r is Ok && r->Ok_0.deep_view() == (if form.deep_view().changes_password() {
                Some(form.new_password@)
            } else {
                None
            }),
        },
{
    if is_blank(form.new_password.as_str()) && is_blank(form.new_password_confirm.as_str()) {
        Ok(None)
    } else if !str_eq(form.new_password.as_str(), form.new_password_confirm.as_str()) {
        Err("Passwords do not match.".to_string())
    } else if !is_long_enough(form.new_password.as_str()) {
        Err("Password must be at least 8 characters.".to_string())
    } else {
        Ok(Some(form.new_password.clone()))
    }
}

/// What a form asks for of the connection and of what is shown.
pub fn settings_from_form(form: SettingsFormBody) -> (r: (JmapSettings, DisplayPrefs))
    ensures
        r.0.deep_view() == (JmapSettingsV {
            server_url: trim(form.jmap_server_url@),
            username: trim(form.jmap_username@),
            password: form.jmap_password@,
            token: trim(form.jmap_token@),
        }),
        r.1.deep_view() == (DisplayPrefsV {
            timezone: form.timezone@,
            time_format: form.time_format@,
            holidays_region: form.holidays_region@,
        }),
{
    (
        JmapSettings {
            server_url: trim_str(form.jmap_server_url.as_str()),
            username: trim_str(form.jmap_username.as_str()),
            password: form.jmap_password,
            token: trim_str(form.jmap_token.as_str()),
        },
        DisplayPrefs {
            timezone: form.timezone,
            time_format: form.time_format,
            holidays_region: form.holidays_region,
        },
    )
}

} // verus!
