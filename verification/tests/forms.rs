//! Forms: events, contacts, calendars and settings.

use jscalendar::calendar::NaiveDate;
use jscalendar::calendarform::{back_url, blank_calendar_form, build_calendar_from_form, calendar_form_with_error, calendar_to_form, finish_ics_form, ics_sub_to_form, validate_color, CalendarFormBody, IcsFormBody, DEFAULT_CALENDAR_COLOR};
use jscalendar::collections::{StrMap, StrSet};
use jscalendar::contacts::{birthday_label, build_card_from_form, card_from_parsed_contact, check_import, contact_rows, contact_to_form, matches_filter, new_card_from_form, ContactFormBody, Import};
use jscalendar::eventform::{blank_form, build_event_from_form, event_to_form, form_with_error, new_event_from_form, try_event_to_form, EventFormBody};
use jscalendar::jscalendar::{Calendar, Frequency};
use jscalendar::jscontact::{AddressBook, AnniversaryDate, Card, NameProperty};
use jscalendar::options::{calendar_options, display_tz_options, holiday_region_options, time_format_options, tz_options};
use jscalendar::regions::{german_region_label, german_region_name, holidays_in_range, parse_german_region, GermanRegion};
use jscalendar::settings::{check_password, server_default_labels, settings_from_form, settings_page, SettingsFormBody};
use jscalendar::state::{DisplaySettings, TimeFormat};
use jscalendar::tz::{parse_tz, Tz};
use jscalendar::users::{new_subscription, DisplayPrefs, JmapSettings};
use jscalendar::vcard::parse_vcards;
use jscalendar::view::{ViewKind, ViewParams};

fn day(y: i32, m: u32, d: u32) -> NaiveDate {
    NaiveDate::from_ymd_opt(y, m, d).unwrap()
}

fn params() -> ViewParams {
    ViewParams {
        view: ViewKind::Week,
        date: day(2026, 7, 6),
        visible: StrSet { items: vec!["cal1".to_string()] },
        all_calendar_ids: vec!["cal1".to_string(), "cal2".to_string()],
        q: None,
    }
}

fn calendars() -> Vec<Calendar> {
    let mut first = Calendar::new("Personal");
    first.id = Some("cal1".to_string());
    let mut second = Calendar::new("Work");
    second.id = Some("cal2".to_string());
    vec![first, second]
}

fn body() -> EventFormBody {
    EventFormBody {
        back_view: "week".to_string(),
        back_date: "2026-07-06".to_string(),
        back_cal: "cal1".to_string(),
        title: " Review ".to_string(),
        calendar_id: "cal2".to_string(),
        all_day: None,
        start_date: "2026-07-06".to_string(),
        start_time: "09:00".to_string(),
        end_date: "2026-07-06".to_string(),
        end_time: "10:30".to_string(),
        timezone: "Europe/Berlin".to_string(),
        location: "Room 4B".to_string(),
        description: "Notes".to_string(),
        repeat_freq: "none".to_string(),
        repeat_interval: 1,
        repeat_end_mode: "never".to_string(),
        repeat_count: 5,
        repeat_until: String::new(),
    }
}

#[test]
fn a_form_becomes_an_event() {
    let event = build_event_from_form(&body(), "u1").unwrap();
    assert_eq!(event.uid, "u1");
    assert_eq!(event.title.as_deref(), Some("Review"));
    assert_eq!(event.start.0, "2026-07-06T09:00:00");
    assert_eq!(event.duration, "PT1H30M");
    assert_eq!(event.time_zone.as_deref(), Some("Europe/Berlin"));
    assert_eq!(event.calendar_ids.as_ref().unwrap().entries[0].0, "cal2");
    assert!(event.recurrence_rules.is_none());
    let made = new_event_from_form(&body()).unwrap();
    assert_eq!(made.uid.len(), 36);
}

#[test]
fn an_event_fills_its_form() {
    let event = build_event_from_form(&body(), "u1").unwrap();
    let form = event_to_form(&event, &calendars(), &params(), None);
    assert!(form.is_edit);
    assert_eq!(form.title, "Review");
    assert_eq!((form.start_date.as_str(), form.start_time.as_str()), ("2026-07-06", "09:00"));
    assert_eq!((form.end_date.as_str(), form.end_time.as_str()), ("2026-07-06", "10:30"));
    assert_eq!(form.location, "Room 4B");
    assert_eq!(form.repeat_freq, "none");
    let chosen: Vec<_> = form.calendars.iter().filter(|c| c.selected).map(|c| c.id.as_str()).collect();
    assert_eq!(chosen, vec!["cal2"]);
}

#[test]
fn a_rule_comes_from_the_form_and_is_shown_again() {
    let mut form = body();
    form.repeat_freq = "weekly".to_string();
    form.repeat_interval = 2;
    form.repeat_end_mode = "until".to_string();
    form.repeat_until = "2026-12-31".to_string();
    let event = build_event_from_form(&form, "u1").unwrap();
    let rule = &event.recurrence_rules.as_ref().unwrap()[0];
    assert_eq!(rule.frequency, Frequency::Weekly);
    assert_eq!(rule.interval, Some(2));
    assert_eq!(rule.until.as_ref().unwrap().0, "2026-12-31T23:59:59");
    let shown = try_event_to_form(&event, &calendars(), &params(), None).unwrap();
    assert_eq!(shown.repeat_freq, "weekly");
    assert_eq!(shown.repeat_interval, 2);
    assert_eq!(shown.repeat_end_mode, "until");
    assert_eq!(shown.repeat_until, "2026-12-31");
}

#[test]
fn counts_and_intervals_are_at_least_one() {
    let mut form = body();
    form.repeat_freq = "daily".to_string();
    form.repeat_interval = 0;
    form.repeat_end_mode = "count".to_string();
    form.repeat_count = 0;
    let rule = &build_event_from_form(&form, "u").unwrap().recurrence_rules.unwrap()[0];
    assert_eq!((rule.interval, rule.count), (Some(1), Some(1)));
}

#[test]
fn whole_days_last_at_least_one() {
    let mut form = body();
    form.all_day = Some("on".to_string());
    form.end_date = "2026-07-01".to_string();
    let event = build_event_from_form(&form, "u").unwrap();
    assert!(event.show_without_time);
    assert_eq!(event.duration, "P1D");
    form.end_date = "2026-07-09".to_string();
    assert_eq!(build_event_from_form(&form, "u").unwrap().duration, "P3D");
}

#[test]
fn bad_forms_are_refused_with_a_reason() {
    let fails = |change: &dyn Fn(&mut EventFormBody)| {
        let mut form = body();
        change(&mut form);
        build_event_from_form(&form, "u").unwrap_err()
    };
    assert_eq!(fails(&|f| f.start_time = "9 o'clock".to_string()), "invalid start date/time");
    assert_eq!(fails(&|f| f.end_date = "never".to_string()), "invalid end date/time");
    assert_eq!(fails(&|f| f.end_time = "09:00".to_string()), "end must be after start");
    assert_eq!(
        fails(&|f| {
            f.all_day = Some("on".to_string());
            f.end_date = "never".to_string();
        }),
        "invalid end date"
    );
    assert_eq!(
        fails(&|f| {
            f.repeat_freq = "daily".to_string();
            f.repeat_end_mode = "until".to_string();
        }),
        "invalid repeat end date"
    );
}

#[test]
fn a_refused_form_is_shown_with_what_was_typed() {
    let shown = form_with_error(&body(), true, Some("e1".to_string()), &calendars(), &params(), "bad".to_string());
    assert_eq!(shown.error.as_deref(), Some("bad"));
    assert_eq!(shown.event_id, "e1");
    assert_eq!(shown.title, " Review ");
    let blank = blank_form(&calendars(), &params(), &parse_tz("Europe/Berlin").unwrap(), None);
    assert_eq!((blank.start_date.as_str(), blank.start_time.as_str()), ("2026-07-06", "09:00"));
    assert!(!blank.is_edit);
}

// Contacts

fn card_body() -> ContactFormBody {
    ContactFormBody {
        back_view: "contacts".to_string(),
        back_date: "2026-07-06".to_string(),
        back_cal: String::new(),
        back_q: String::new(),
        address_book_id: "ab1".to_string(),
        name: " Ada Lovelace ".to_string(),
        email: "ada@example.com".to_string(),
        birthday_date: "1815-12-10".to_string(),
        hide_birth_year: None,
    }
}

fn books() -> Vec<AddressBook> {
    vec![AddressBook {
        id: Some("ab1".to_string()),
        name: "Contacts".to_string(),
        sort_order: 0,
        is_subscribed: true,
        extra: StrMap::new(),
    }]
}

#[test]
fn a_form_becomes_a_card_and_fills_it_again() {
    let card = build_card_from_form(&card_body(), "u1").unwrap();
    assert_eq!(card.display_name(), "Ada Lovelace");
    assert_eq!(card.primary_email(), Some("ada@example.com"));
    assert!(matches!(
        &card.anniversaries.as_ref().unwrap().entries[0].1.date,
        AnniversaryDate::Timestamp { utc } if utc == "1815-12-10T00:00:00Z"
    ));
    let form = contact_to_form(&card, &books(), &params(), None);
    assert_eq!(form.name, "Ada Lovelace");
    assert_eq!(form.email, "ada@example.com");
    assert_eq!(form.birthday_date, "1815-12-10");
    assert!(!form.hide_birth_year);
    assert_eq!(new_card_from_form(&card_body()).unwrap().uid.len(), 36);
}

#[test]
fn a_birth_year_can_be_hidden() {
    let mut form = card_body();
    form.hide_birth_year = Some("on".to_string());
    let card = build_card_from_form(&form, "u1").unwrap();
    assert!(matches!(
        card.anniversaries.as_ref().unwrap().entries[0].1.date,
        AnniversaryDate::PartialDate { year: None, month: Some(12), day: Some(10) }
    ));
    assert_eq!(birthday_label(&card).as_deref(), Some("December 10"));
    assert!(contact_to_form(&card, &books(), &params(), None).hide_birth_year);
}

#[test]
fn bad_cards_are_refused_with_a_reason() {
    let mut form = card_body();
    form.name = "  ".to_string();
    assert_eq!(build_card_from_form(&form, "u").unwrap_err(), "name is required");
    let mut form = card_body();
    form.birthday_date = "tomorrow".to_string();
    assert_eq!(build_card_from_form(&form, "u").unwrap_err(), "invalid birthday date");
}

fn named(uid: &str, name: &str) -> Card {
    let mut card = Card::new(uid);
    card.name = Some(NameProperty { full: Some(name.to_string()), ..Default::default() });
    card
}

#[test]
fn contacts_are_sorted_by_name_and_filtered_without_case() {
    let cards = vec![named("1", "grace"), named("2", "Ada"), named("3", "Zoe")];
    let mut p = params();
    p.view = ViewKind::Contacts;
    let names: Vec<_> = contact_rows(&cards, &p).into_iter().map(|r| r.name).collect();
    assert_eq!(names, vec!["Ada", "Zoe", "grace"]);
    p.q = Some("GRA".to_string());
    let rows = contact_rows(&cards, &p);
    assert_eq!(rows.len(), 1);
    assert_eq!(rows[0].initial, "G");
    assert!(matches_filter(&cards[1], "ad"));
    assert!(!matches_filter(&cards[1], "zz"));
}

#[test]
fn imports_go_card_by_card() {
    let text = "BEGIN:VCARD\r\nFN:Ada\r\nBDAY:--1210\r\nEND:VCARD\r\nBEGIN:VCARD\r\nFN:Grace\r\nEND:VCARD\r\n";
    let contacts = check_import(true, Some(text)).unwrap();
    let mut import = Import::start(&contacts, &books()).unwrap();
    assert_eq!(import.next_card().unwrap().display_name(), "Ada");
    import.record(true);
    assert_eq!(import.next_card().unwrap().display_name(), "Grace");
    import.record(false);
    assert!(import.next_card().is_none());
    let result = import.result();
    assert_eq!((result.imported, result.skipped), (1, 1));
}

#[test]
fn bad_imports_are_refused_with_a_reason() {
    assert_eq!(check_import(false, Some("x")).unwrap_err(), "this server does not support contacts");
    assert_eq!(check_import(true, None).unwrap_err(), "choose a .vcf file to import");
    assert_eq!(check_import(true, Some("x")).unwrap_err(), "no contacts found in that file");
    let many = "BEGIN:VCARD\r\nFN:A\r\nEND:VCARD\r\n".repeat(501);
    assert!(check_import(true, Some(&many)).is_err());
    let contacts = check_import(true, Some("BEGIN:VCARD\r\nFN:A\r\nEND:VCARD\r\n")).unwrap();
    assert!(Import::start(&contacts, &vec![]).is_err());
}

#[test]
fn an_imported_card_has_what_the_file_says() {
    let parsed = parse_vcards("BEGIN:VCARD\r\nFN:Ada\r\nEMAIL:a@b.c\r\nBDAY:1815-12-10\r\nEND:VCARD\r\n");
    let card = card_from_parsed_contact(&parsed[0], "u9", "ab1");
    assert_eq!(card.uid, "u9");
    assert_eq!(card.primary_email(), Some("a@b.c"));
    assert_eq!(card.address_book_ids.as_ref().unwrap().entries[0].0, "ab1");
    assert_eq!(birthday_label(&card).as_deref(), Some("December 10 1815"));
}

// Calendars and subscriptions

fn calendar_body(name: &str, color: &str) -> CalendarFormBody {
    CalendarFormBody {
        back_view: "month".to_string(),
        back_date: "2026-07-06".to_string(),
        back_cal: "cal1".to_string(),
        back_q: String::new(),
        name: name.to_string(),
        color: color.to_string(),
        description: String::new(),
    }
}

#[test]
fn colors_are_checked() {
    assert_eq!(validate_color("#6366f1").unwrap(), "#6366f1");
    assert_eq!(validate_color("6366F1").unwrap(), "#6366F1");
    assert!(validate_color("#6366f").is_err());
    assert!(validate_color("red; x").is_err());
}

#[test]
fn a_calendar_comes_from_its_form() {
    let calendar = build_calendar_from_form(&calendar_body(" Home ", "#112233")).unwrap();
    assert_eq!(calendar.name, "Home");
    assert_eq!(calendar.color.as_deref(), Some("#112233"));
    assert_eq!(build_calendar_from_form(&calendar_body(" ", "#112233")).unwrap_err(), "name is required");
    assert_eq!(
        build_calendar_from_form(&calendar_body("Home", "blue")).unwrap_err(),
        "color must be a hex value like #6366f1"
    );
    let form = calendar_to_form(&calendar, &params(), None);
    assert_eq!((form.name.as_str(), form.color.as_str()), ("Home", "#112233"));
    assert_eq!(blank_calendar_form(&params(), None).color, DEFAULT_CALENDAR_COLOR);
    let again = calendar_form_with_error(&calendar_body("X", "y"), false, None, &params(), "bad".to_string());
    assert_eq!(again.error.as_deref(), Some("bad"));
}

#[test]
fn a_subscription_is_saved_once_its_host_is_found() {
    let form = IcsFormBody {
        back_view: String::new(),
        back_date: String::new(),
        back_cal: String::new(),
        back_q: String::new(),
        name: " Feed ".to_string(),
        color: "#0ea5e9".to_string(),
        url: "https://example.com/a.ics".to_string(),
    };
    let (name, color, url) = finish_ics_form(&form, Ok(())).unwrap();
    assert_eq!((name.as_str(), color.as_str(), url.as_str()), ("Feed", "#0ea5e9", "https://example.com/a.ics"));
    assert!(finish_ics_form(&form, Err("private".to_string())).is_err());
    let sub = new_subscription(name, color, url);
    assert_eq!(sub.id.len(), 36);
    assert_eq!(ics_sub_to_form(&sub, &params(), None).name, "Feed");
}

#[test]
fn the_way_back_is_kept() {
    let url = back_url("week", "2026-07-06", "cal1,cal2", Some("a b"));
    assert_eq!(url, "/app?view=week&date=2026-07-06&cal=cal1,cal2&q=a+b");
}

// Settings

fn settings_body(new: &str, again: &str) -> SettingsFormBody {
    SettingsFormBody {
        timezone: "Europe/Berlin".to_string(),
        holidays_region: "Bayern".to_string(),
        time_format: "24h".to_string(),
        jmap_server_url: "mail.example.com".to_string(),
        jmap_username: "u".to_string(),
        jmap_password: "p".to_string(),
        jmap_token: String::new(),
        new_password: new.to_string(),
        new_password_confirm: again.to_string(),
    }
}

#[test]
fn passwords_are_checked() {
    assert_eq!(check_password(&settings_body("", "")).unwrap(), None);
    assert_eq!(check_password(&settings_body("longenough", "longenough")).unwrap().as_deref(), Some("longenough"));
    assert_eq!(check_password(&settings_body("longenough", "other")).unwrap_err(), "Passwords do not match.");
    assert_eq!(
        check_password(&settings_body("short", "short")).unwrap_err(),
        "Password must be at least 8 characters."
    );
}

#[test]
fn settings_are_saved_and_shown() {
    let (jmap, prefs) = settings_from_form(settings_body("", ""));
    assert!(jmap.is_configured());
    assert_eq!(prefs.timezone, "Europe/Berlin");
    let defaults = DisplaySettings {
        viewer_tz: Tz::utc(),
        holidays_region: None,
        time_format: TimeFormat::TwentyFour,
    };
    let page = settings_page(&prefs, &jmap, &defaults, true, None);
    assert!(page.saved);
    let zone: Vec<_> = page.timezones.iter().filter(|o| o.selected).map(|o| o.value.as_str()).collect();
    assert_eq!(zone, vec!["Europe/Berlin"]);
    assert_eq!(server_default_labels(&defaults).0, "UTC");
    let blank = settings_page(&DisplayPrefs::default(), &JmapSettings::default(), &defaults, false, None);
    assert!(!blank.saved);
}

#[test]
fn choices_offer_what_is_chosen() {
    assert!(tz_options("Europe/Berlin").iter().any(|o| o.value == "Europe/Berlin" && o.selected));
    assert!(tz_options("Antarctica/Troll").iter().any(|o| o.value == "Antarctica/Troll" && o.selected));
    assert!(display_tz_options("").iter().any(|o| o.value.is_empty() && o.selected));
    assert_eq!(calendar_options(&calendars(), Some("cal2")).iter().filter(|o| o.selected).count(), 1);
    assert!(holiday_region_options("Bayern").iter().any(|o| o.value == "Bayern" && o.selected));
    assert!(time_format_options("12h").iter().any(|o| o.value == "12h" && o.selected));
}

#[test]
fn regions_read_back_and_have_holidays() {
    assert_eq!(parse_german_region(german_region_name(GermanRegion::Bayern)), Some(GermanRegion::Bayern));
    assert_eq!(parse_german_region("Atlantis"), None);
    assert_eq!(german_region_label(GermanRegion::BadenWuerttemberg), "Baden-W\u{fc}rttemberg");
    let found = holidays_in_range(GermanRegion::Bayern, day(2026, 12, 20), day(2027, 1, 2));
    let days: Vec<_> = found.iter().map(|(d, _)| *d).collect();
    assert!(days.contains(&day(2026, 12, 25)));
    assert!(days.contains(&day(2027, 1, 1)));
    assert!(!days.contains(&day(2027, 1, 6)));
}
