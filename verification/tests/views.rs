//! The views over events, and what is beside them.

use jscalendar::calendar::{NaiveDate, NaiveDateTime};
use jscalendar::collections::{StrMap, StrSet};
use jscalendar::grid::{build_agenda, build_day, build_month, build_week, try_build_month, BuildInputs};
use jscalendar::jscalendar::{Calendar, CalendarEvent, LocalDateTime};
use jscalendar::jscontact::BirthdayOccurrence;
use jscalendar::params::{resolve_view_params, today_in, with_id, RawViewQuery};
use jscalendar::shell::{build_page, build_shell, event_query_range, ics_colors_for, ics_subscription_ids, swap_in, visible_subscriptions, Page, SidebarList};
use jscalendar::sidebar::{sidebar_calendars, sidebar_ics_subscriptions, view_links};
use jscalendar::state::{contacts_cache_key, fetch_holidays, fresh_contacts, fresh_ics_events, ics_after_fetch, CachedContacts, CachedIcsEvents, TimeFormat};
use jscalendar::regions::GermanRegion;
use jscalendar::tz::{parse_tz, Tz};
use jscalendar::users::{IcsSubscription, Role};
use jscalendar::view::{calendar_color, display_range, hour_rows, hour_rows_by, localize_events, try_week_start, week_start, ViewKind, ViewParams};

fn day(y: i32, m: u32, d: u32) -> NaiveDate {
    NaiveDate::from_ymd_opt(y, m, d).unwrap()
}

fn dt(s: &str) -> NaiveDateTime {
    LocalDateTime(s.to_string()).to_naive().unwrap()
}

fn params(view: ViewKind, date: NaiveDate) -> ViewParams {
    ViewParams {
        view,
        date,
        visible: StrSet { items: vec!["cal1".to_string(), "birthdays".to_string()] },
        all_calendar_ids: vec!["cal1".to_string(), "cal2".to_string()],
        q: None,
    }
}

fn event(id: &str, start: &str, duration: &str) -> CalendarEvent {
    let mut e = CalendarEvent::new(id, LocalDateTime(start.to_string()));
    e.id = Some(id.to_string());
    e.title = Some(format!("Event {}", id));
    e.duration = duration.to_string();
    let mut ids = StrMap::new();
    ids.insert("cal1".to_string(), true);
    e.calendar_ids = Some(ids);
    e
}

fn calendars() -> Vec<Calendar> {
    let mut c = Calendar::new("Personal");
    c.id = Some("cal1".to_string());
    c.color = Some("#112233".to_string());
    let mut hidden = Calendar::new("Work");
    hidden.id = Some("cal2".to_string());
    hidden.is_visible = false;
    vec![c, hidden]
}

#[test]
fn views_have_words() {
    for view in [ViewKind::Month, ViewKind::Week, ViewKind::Day, ViewKind::Agenda, ViewKind::Contacts] {
        assert_eq!(ViewKind::parse(view.as_str()), view);
    }
    assert_eq!(ViewKind::parse("other"), ViewKind::Month);
    assert!(ViewKind::Week.is_dated());
    assert!(!ViewKind::Contacts.is_dated());
}

#[test]
fn titles_are_exact() {
    let today = day(2026, 7, 6);
    let title = |view, date| params(view, date).title(today);
    assert_eq!(title(ViewKind::Month, today), "July 2026");
    assert_eq!(title(ViewKind::Week, day(2026, 7, 8)), "Jul 6\u{2013}12 2026");
    assert_eq!(title(ViewKind::Week, day(2026, 7, 30)), "Jul 27 \u{2013} Aug 2, 2026");
    assert_eq!(title(ViewKind::Day, today), "Today \u{2013} Monday, July 6");
    assert_eq!(title(ViewKind::Day, day(2026, 7, 7)), "Tuesday, July 7, 2026");
    assert_eq!(title(ViewKind::Agenda, today), "Agenda");
}

#[test]
fn weeks_start_on_monday() {
    assert_eq!(week_start(day(2026, 7, 12)), day(2026, 7, 6));
    assert_eq!(week_start(day(2026, 7, 6)), day(2026, 7, 6));
    assert_eq!(try_week_start(day(-262_143, 1, 1)).is_none(), day(-262_143, 1, 1).weekday() > 0);
}

#[test]
fn steps_go_to_the_next_page() {
    assert_eq!(params(ViewKind::Month, day(2026, 1, 31)).next_date(), day(2026, 2, 28));
    assert_eq!(params(ViewKind::Month, day(2026, 1, 31)).prev_date(), day(2025, 12, 31));
    assert_eq!(params(ViewKind::Week, day(2026, 7, 6)).next_date(), day(2026, 7, 13));
    assert_eq!(params(ViewKind::Day, day(2026, 7, 6)).prev_date(), day(2026, 7, 5));
    assert!(params(ViewKind::Day, day(262_142, 12, 31)).try_next_date().is_none());
}

#[test]
fn ranges_hold_the_date() {
    for view in [ViewKind::Month, ViewKind::Week, ViewKind::Day, ViewKind::Agenda] {
        let (from, to) = display_range(&params(view, day(2026, 7, 6)));
        let date = day(2026, 7, 6).at_midnight();
        assert!(!date.is_before(from) && date.is_before(to));
    }
    let (from, to) = display_range(&params(ViewKind::Day, day(2026, 7, 6)));
    assert_eq!((from, to), (dt("2026-07-06T00:00:00"), dt("2026-07-07T00:00:00")));
}

#[test]
fn links_say_what_is_shown() {
    let mut p = params(ViewKind::Week, day(2026, 7, 6));
    p.all_calendar_ids.push("birthdays".to_string());
    assert_eq!(p.cal_param(), "cal1,birthdays");
    assert_eq!(p.query_string(ViewKind::Day, day(2026, 7, 7)), "view=day&date=2026-07-07&cal=cal1,birthdays");
    assert!(p.toggle_href("cal2").contains("cal2"));
    assert!(!p.toggle_href("cal1").contains("cal1"));
    assert!(p.nav_href(ViewKind::Month, day(2026, 8, 1)).contains("date=2026-08-01"));
}

#[test]
fn hours_are_labelled() {
    let rows = hour_rows();
    assert_eq!(rows.len(), 24);
    assert_eq!(rows[0].label, "12 AM");
    assert_eq!(rows[11].label, "11 AM");
    assert_eq!(rows[12].label, "12 PM");
    assert_eq!(rows[23].label, "11 PM");
    let rows = hour_rows_by(TimeFormat::TwentyFour);
    assert_eq!(rows.len(), 24);
    assert_eq!(rows[0].label, "00:00");
    assert_eq!(rows[15].label, "15:00");
    assert_eq!(hour_rows_by(TimeFormat::Twelve)[15].label, "3 PM");
}

#[test]
fn events_are_shown_in_the_viewers_zone() {
    let mut e = event("e1", "2026-07-06T09:00:00", "PT1H");
    e.time_zone = Some("Europe/Berlin".to_string());
    let visible = StrSet { items: vec!["cal1".to_string()] };
    let ny = parse_tz("America/New_York").unwrap();
    let found = localize_events(&vec![e], &visible, &ny, dt("2026-07-06T00:00:00"), dt("2026-07-07T00:00:00"));
    assert_eq!(found.len(), 1);
    assert_eq!(found[0].start, dt("2026-07-06T03:00:00"));
    assert_eq!(found[0].end, dt("2026-07-06T04:00:00"));
    let none = StrSet { items: vec![] };
    let hidden = event("e2", "2026-07-06T09:00:00", "PT1H");
    assert!(localize_events(&vec![hidden], &none, &ny, dt("2026-07-06T00:00:00"), dt("2026-07-07T00:00:00")).is_empty());
}

#[test]
fn a_month_has_whole_weeks() {
    let events = vec![event("e1", "2026-07-06T09:00:00", "PT1H")];
    let p = params(ViewKind::Month, day(2026, 7, 6));
    let tz = Tz::utc();
    let (cals, none) = (calendars(), vec![]);
    let inputs = BuildInputs { events: &events, calendars: &cals, birthdays: &none, holidays: &vec![], ics_colors: &StrMap::new(), viewer_tz: &tz, time_format: TimeFormat::Twelve, params: &p, today: day(2026, 7, 6) };
    let month = build_month(&inputs);
    assert_eq!(month.weekday_labels[0], "Mon");
    assert!(month.weeks.iter().all(|w| w.len() == 7));
    let today: Vec<_> = month.weeks.iter().flatten().filter(|c| c.is_today).collect();
    assert_eq!(today.len(), 1);
    assert_eq!(today[0].iso, "2026-07-06");
    assert_eq!(today[0].events.len(), 1);
    assert_eq!(today[0].events[0].color, "#112233");
    assert!(!month.weeks[0][0].in_month);
}

#[test]
fn events_at_the_same_time_are_side_by_side() {
    let events = vec![
        event("a", "2026-07-06T09:00:00", "PT2H"),
        event("b", "2026-07-06T10:00:00", "PT2H"),
        event("c", "2026-07-06T15:00:00", "PT1H"),
    ];
    let p = params(ViewKind::Day, day(2026, 7, 6));
    let tz = Tz::utc();
    let (cals, none) = (calendars(), vec![]);
    let inputs = BuildInputs { events: &events, calendars: &cals, birthdays: &none, holidays: &vec![], ics_colors: &StrMap::new(), viewer_tz: &tz, time_format: TimeFormat::Twelve, params: &p, today: day(2026, 7, 6) };
    let shown = build_day(&inputs).day.timed_events;
    assert_eq!(shown.len(), 3);
    assert_eq!(shown[0].top_px, 9 * 48);
    assert_eq!(shown[0].height_px, 2 * 48);
    assert_ne!(shown[0].lane, shown[1].lane);
    assert_eq!(shown[0].lanes, 2);
    assert_eq!(build_week(&inputs).days.len(), 7);
}

#[test]
fn an_agenda_goes_day_by_day() {
    let events = vec![
        event("late", "2026-07-08T09:00:00", "PT1H"),
        event("early", "2026-07-06T09:00:00", "PT1H"),
    ];
    let birthdays = vec![BirthdayOccurrence {
        date: day(2026, 7, 7),
        name: "Ada".to_string(),
        uid: "u1".to_string(),
        turns: Some(36),
    }];
    let p = params(ViewKind::Agenda, day(2026, 7, 6));
    let tz = Tz::utc();
    let cals = calendars();
    let inputs = BuildInputs { events: &events, calendars: &cals, birthdays: &birthdays, holidays: &vec![], ics_colors: &StrMap::new(), viewer_tz: &tz, time_format: TimeFormat::Twelve, params: &p, today: day(2026, 7, 6) };
    let groups = build_agenda(&inputs).groups;
    let dates: Vec<_> = groups.iter().map(|g| g.date).collect();
    assert_eq!(dates, vec![day(2026, 7, 6), day(2026, 7, 7), day(2026, 7, 8)]);
    assert!(groups[1].events[0].is_birthday);
    assert_eq!(groups[1].events[0].title, "\u{1f382} Ada turns 36");
    assert!(matches!(build_page(&inputs, &vec![]), Some(Page::Agenda(_))));
}

#[test]
fn holidays_come_after_birthdays_and_before_events() {
    let events = vec![event("e1", "2026-12-25T09:00:00", "PT1H")];
    let birthdays = vec![BirthdayOccurrence {
        date: day(2026, 12, 25),
        name: "Ada".to_string(),
        uid: "u1".to_string(),
        turns: Some(36),
    }];
    let holidays = vec![(day(2026, 12, 25), "1. Weihnachtstag".to_string())];
    let p = params(ViewKind::Day, day(2026, 12, 25));
    let tz = Tz::utc();
    let cals = calendars();
    let inputs = BuildInputs {
        events: &events,
        calendars: &cals,
        birthdays: &birthdays,
        holidays: &holidays,
        ics_colors: &StrMap::new(),
        viewer_tz: &tz,
        time_format: TimeFormat::TwentyFour,
        params: &p,
        today: day(2026, 7, 6),
    };
    let shown = build_day(&inputs);
    assert_eq!(shown.hours[15].label, "15:00");
    assert_eq!(shown.day.timed_events[0].time_label, "09:00\u{2013}10:00");
    assert_eq!(shown.day.all_day_events.len(), 2);
    let holiday = &shown.day.all_day_events[1];
    assert_eq!(holiday.title, "1. Weihnachtstag");
    assert_eq!(holiday.color, "#22c55e");
    assert!(holiday.all_day && !holiday.is_birthday && holiday.edit_href.is_empty());
    let groups = build_agenda(&inputs).groups;
    let titles: Vec<_> = groups[0].events.iter().map(|e| e.title.as_str()).collect();
    assert_eq!(titles, vec!["\u{1f382} Ada turns 36", "1. Weihnachtstag", "Event e1"]);
}

#[test]
fn a_subscription_has_its_own_color() {
    let mut e = event("e1", "2026-07-06T15:30:00", "PT1H");
    let mut ids = StrMap::new();
    ids.insert("ics:s1".to_string(), true);
    e.calendar_ids = Some(ids);
    let events = vec![e];
    let mut p = params(ViewKind::Day, day(2026, 7, 6));
    p.visible = StrSet { items: vec!["ics:s1".to_string()] };
    let tz = Tz::utc();
    let cals = calendars();
    let mut sub = subscription("s1");
    sub.color = "#abcdef".to_string();
    let inputs = BuildInputs {
        events: &events,
        calendars: &cals,
        birthdays: &vec![],
        holidays: &vec![],
        ics_colors: &ics_colors_for(&vec![sub]),
        viewer_tz: &tz,
        time_format: TimeFormat::Twelve,
        params: &p,
        today: day(2026, 7, 6),
    };
    let shown = build_day(&inputs).day.timed_events;
    assert_eq!(shown[0].color, "#abcdef");
    assert_eq!(shown[0].time_label, "3:30 PM\u{2013}4:30 PM");
}

#[test]
fn a_page_off_the_calendar_is_not_built() {
    let p = params(ViewKind::Month, day(262_142, 12, 31));
    let tz = Tz::utc();
    let (events, cals, none) = (vec![], calendars(), vec![]);
    let inputs = BuildInputs { events: &events, calendars: &cals, birthdays: &none, holidays: &vec![], ics_colors: &StrMap::new(), viewer_tz: &tz, time_format: TimeFormat::Twelve, params: &p, today: day(2026, 7, 6) };
    assert!(try_build_month(&inputs).is_none());
}

// Queries

fn query(view: Option<&str>, date: Option<&str>, cal: Option<&str>, q: Option<&str>) -> RawViewQuery {
    let own = |s: Option<&str>| s.map(|s| s.to_string());
    RawViewQuery { view: own(view), date: own(date), cal: own(cal), q: own(q) }
}

#[test]
fn a_plain_query_shows_what_is_visible() {
    let today = day(2026, 7, 6);
    let ics = vec!["ics:s1".to_string()];
    let p = resolve_view_params(&query(None, None, None, Some("")), &calendars(), today, true, &ics, true);
    assert_eq!(p.view, ViewKind::Month);
    assert_eq!(p.date, today);
    assert_eq!(p.all_calendar_ids, vec!["cal1", "cal2", "birthdays", "ics:s1", "holidays"]);
    assert!(p.visible.contains("cal1") && p.visible.contains("birthdays") && p.visible.contains("ics:s1"));
    assert!(!p.visible.contains("cal2"));
    assert!(!p.visible.contains("holidays"));
    assert!(p.q.is_none());
}

#[test]
fn a_query_says_what_to_show() {
    let p = resolve_view_params(
        &query(Some("week"), Some("2026-08-01"), Some("cal2,,holidays"), Some("ada")),
        &calendars(),
        day(2026, 7, 6),
        false,
        &vec![],
        true,
    );
    assert_eq!(p.view, ViewKind::Week);
    assert_eq!(p.date, day(2026, 8, 1));
    assert!(p.visible.contains("cal2") && p.visible.contains("holidays"));
    assert!(!p.visible.contains("cal1"));
    assert_eq!(p.q.as_deref(), Some("ada"));
    let again = resolve_view_params(
        &query(Some(p.view.as_str()), Some("2026-08-01"), Some(&p.cal_param()), None),
        &calendars(),
        day(2026, 7, 6),
        false,
        &vec![],
        true,
    );
    assert_eq!(again.cal_param(), p.cal_param());
    assert_eq!(again.date, p.date);
}

#[test]
fn something_new_is_shown() {
    assert_eq!(with_id("", "x"), "x");
    assert_eq!(with_id("a,b", "x"), "a,b,x");
    assert_eq!(with_id("a,b", "b"), "a,b");
}

#[test]
fn today_depends_on_the_zone() {
    let now = dt("2026-07-06T23:30:00");
    assert_eq!(today_in(now, &Tz::utc()), Some(day(2026, 7, 6)));
    assert_eq!(today_in(now, &parse_tz("Europe/Berlin").unwrap()), Some(day(2026, 7, 7)));
}

#[test]
fn events_are_asked_for_in_utc() {
    let p = params(ViewKind::Day, day(2026, 7, 6));
    let (after, before) = event_query_range(&p, &parse_tz("Europe/Berlin").unwrap()).unwrap();
    assert_eq!(after, "2026-07-05T22:00:00Z");
    assert_eq!(before, "2026-07-06T22:00:00Z");
}

// The frame

#[test]
fn the_sidebar_lists_calendars_and_what_goes_with_them() {
    let p = params(ViewKind::Week, day(2026, 7, 6));
    let items = sidebar_calendars(&calendars(), &p, true, true);
    let ids: Vec<_> = items.iter().map(|i| i.id.as_str()).collect();
    assert_eq!(ids, vec!["cal1", "cal2", "birthdays", "holidays"]);
    assert!(items[0].visible && !items[1].visible);
    assert!(items[0].edit_href.is_some() && items[2].edit_href.is_none());
    assert_eq!(view_links(&p, true).len(), 5);
    assert_eq!(view_links(&p, false).len(), 4);
    assert_eq!(view_links(&p, true).iter().filter(|l| l.active).count(), 1);
}

fn subscription(id: &str) -> IcsSubscription {
    IcsSubscription {
        id: id.to_string(),
        name: "Feed".to_string(),
        color: "#0ea5e9".to_string(),
        url: "https://example.com/a.ics".to_string(),
    }
}

#[test]
fn subscriptions_are_listed_with_their_errors() {
    let subs = vec![subscription("s1"), subscription("s2")];
    assert_eq!(ics_subscription_ids(&subs), vec!["ics:s1", "ics:s2"]);
    let mut p = params(ViewKind::Week, day(2026, 7, 6));
    p.visible = StrSet { items: vec!["ics:s2".to_string()] };
    let listed = sidebar_ics_subscriptions(&subs, &vec![Some("HTTP 404".to_string()), None], &p);
    assert_eq!(listed[0].error.as_deref(), Some("HTTP 404"));
    assert!(!listed[0].visible && listed[1].visible);
    let shown = visible_subscriptions(&subs, &p);
    assert_eq!(shown.len(), 1);
    assert_eq!(shown[0].id, "s2");
}

#[test]
fn the_frame_has_its_links() {
    let p = params(ViewKind::Day, day(2026, 7, 6));
    let shell = build_shell(&p, &calendars(), true, false, "ada", Role::Admin, day(2026, 7, 6)).unwrap();
    assert_eq!(shell.title, "Today \u{2013} Monday, July 6");
    assert!(shell.is_admin && shell.is_dated_view);
    assert!(shell.prev_href.contains("2026-07-05"));
    assert!(shell.next_href.contains("2026-07-07"));
}

#[test]
fn changes_replace_parts_of_the_page() {
    assert_eq!(
        swap_in("x", None),
        "<div id=\"view\" class=\"view-container\" hx-swap-oob=\"true\">x</div>"
    );
    assert!(swap_in("x", Some((SidebarList::Subscriptions, "<li></li>"))).ends_with(
        "<ul id=\"ics-subscription-list\" class=\"calendar-list\" hx-swap-oob=\"true\"><li></li></ul>"
    ));
}

#[test]
fn colors_fall_back_to_one_of_a_set() {
    assert_eq!(calendar_color(calendars().first(), "cal1"), "#112233");
    let fallback = calendar_color(None, "cal9");
    assert!(fallback.starts_with('#') && fallback.len() == 7);
    assert_eq!(calendar_color(None, "cal9"), fallback);
}

// What is kept between requests

#[test]
fn contacts_are_kept_for_a_while() {
    let kept = CachedContacts { cards: vec![], fetched_at: 100 };
    assert!(fresh_contacts(Some(&kept), 999).is_some());
    assert!(fresh_contacts(Some(&kept), 1000).is_none());
    assert!(fresh_contacts(None, 0).is_none());
    assert_eq!(contacts_cache_key(Some("http://h/api"), "a1"), "http://h/api#a1");
}

#[test]
fn a_failed_fetch_keeps_what_was_there() {
    let kept = CachedIcsEvents {
        events: vec![event("e", "2026-07-06T09:00:00", "PT1H")],
        fetched_at: 100,
        error: None,
    };
    assert!(fresh_ics_events(Some(&kept), 1899).is_some());
    assert!(fresh_ics_events(Some(&kept), 1900).is_none());
    let after = ics_after_fetch(Some(&kept), Err("HTTP 500".to_string()), 2000);
    assert_eq!(after.events.len(), 1);
    assert_eq!(after.error.as_deref(), Some("HTTP 500"));
    let after = ics_after_fetch(Some(&kept), Ok(vec![]), 2000);
    assert!(after.events.is_empty() && after.error.is_none());
}

#[test]
fn holidays_are_shown_where_they_are_asked_for() {
    let mut p = params(ViewKind::Month, day(2026, 12, 10));
    assert!(fetch_holidays(Some(GermanRegion::Bayern), &p).is_empty());
    p.visible = StrSet { items: vec!["holidays".to_string()] };
    let found = fetch_holidays(Some(GermanRegion::Bayern), &p);
    assert!(found.iter().any(|(d, _)| *d == day(2026, 12, 25)));
    assert!(fetch_holidays(None, &p).is_empty());
}
