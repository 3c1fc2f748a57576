//! iCalendar and vCard.

use jscalendar::calendar::NaiveDate;
use jscalendar::collections::StrMap;
use jscalendar::contentline::{escape_text, fold_line, parse_line, unescape_text, unfold};
use jscalendar::ics::{is_ics_pseudo_id, parse_events, parse_rrule, pseudo_calendar_id, rrule_to_ics, to_ics, try_parse_events, try_to_ics, try_to_ics_at};
use jscalendar::jscalendar::{CalendarEvent, Frequency, LocalDateTime, Location, NDay, RecurrenceRule, Weekday};
use jscalendar::jscontact::{Anniversary, AnniversaryDate, Card, EmailAddress, NameProperty};
use jscalendar::vcard::{parse_vcards, to_vcard};

fn event(uid: &str, start: &str) -> CalendarEvent {
    let naive = LocalDateTime(start.to_string()).to_naive().unwrap();
    CalendarEvent::new(uid, LocalDateTime::from_naive(naive))
}

#[test]
fn to_ics_writes_summary_location_and_timed_range() {
    let mut event = event("evt1@example.com", "2026-07-15T09:00:00");
    event.title = Some("Standup".to_string());
    event.description = Some("Daily sync".to_string());
    event.time_zone = Some("Europe/Berlin".to_string());
    event.duration = "PT15M".to_string();
    let mut locations = StrMap::new();
    locations.insert(
        "loc1".to_string(),
        Location { name: Some("Room, 2nd floor".to_string()), ..Default::default() },
    );
    event.locations = Some(locations);

    let ics = to_ics(&event);
    assert!(ics.contains("BEGIN:VCALENDAR"));
    assert!(ics.contains("UID:evt1@example.com"));
    assert!(ics.contains("SUMMARY:Standup"));
    assert!(ics.contains("DESCRIPTION:Daily sync"));
    assert!(ics.contains("LOCATION:Room\\, 2nd floor"));
    assert!(ics.contains("DTSTART;TZID=Europe/Berlin:20260715T090000"));
    assert!(ics.contains("DTEND;TZID=Europe/Berlin:20260715T091500"));
    assert!(ics.ends_with("END:VCALENDAR\r\n"));
}

#[test]
fn to_ics_round_trips_through_parse_events() {
    let mut event = event("roundtrip1", "2026-03-01T14:00:00");
    event.title = Some("Planning".to_string());
    event.duration = "PT30M".to_string();

    let ics = to_ics(&event);
    let parsed = parse_events(&ics, "sub1");
    assert_eq!(parsed.len(), 1);
    assert_eq!(parsed[0].title.as_deref(), Some("Planning"));
    assert_eq!(parsed[0].duration, "PT30M");
}

#[test]
fn to_ics_writes_all_day_and_recurrence() {
    let mut event = event("allday1", "2026-12-25T00:00:00");
    event.title = Some("Holiday".to_string());
    event.show_without_time = true;
    event.duration = "P1D".to_string();
    event.recurrence_rules = Some(vec![RecurrenceRule {
        type_: "RecurrenceRule".to_string(),
        frequency: Frequency::Yearly,
        interval: None,
        count: None,
        until: None,
        by_day: vec![],
        by_month_day: vec![],
        by_month: vec![],
        by_set_position: vec![],
        extra: StrMap::new(),
    }]);

    let ics = to_ics(&event);
    assert!(ics.contains("DTSTART;VALUE=DATE:20261225"));
    // A single-day all-day event still gets an explicit (exclusive)
    // DTEND rather than relying on the implicit one-day default.
    assert!(ics.contains("DTEND;VALUE=DATE:20261226"));
    assert!(ics.contains("RRULE:FREQ=YEARLY"));
}

#[test]
fn escape_text_escapes_special_characters() {
    assert_eq!(escape_text("a, b; c\\d\ne"), "a\\, b\\; c\\\\d\\ne");
}

#[test]
fn fold_line_wraps_long_lines_and_unfolds_cleanly() {
    let long = format!("DESCRIPTION:{}", "x".repeat(200));
    let folded = fold_line(&long);
    assert!(folded.contains("\r\n "));
    let unfolded = unfold(&folded);
    assert_eq!(unfolded, vec![long]);
}

#[test]
fn parses_simple_timed_event() {
    let ics = "BEGIN:VCALENDAR\r\nBEGIN:VEVENT\r\nUID:evt1@example.com\r\nSUMMARY:Standup\r\nDTSTART:20260715T090000Z\r\nDTEND:20260715T091500Z\r\nEND:VEVENT\r\nEND:VCALENDAR\r\n";
    let events = parse_events(ics, "sub1");
    assert_eq!(events.len(), 1);
    let e = &events[0];
    assert_eq!(e.title.as_deref(), Some("Standup"));
    assert!(!e.show_without_time);
    assert_eq!(e.time_zone.as_deref(), Some("UTC"));
    assert_eq!(e.duration, "PT15M");
    assert_eq!(e.calendar_ids.as_ref().unwrap().entries[0].0, "ics:sub1");
}

#[test]
fn parses_all_day_event_with_folded_summary() {
    let ics = "BEGIN:VEVENT\r\nUID:holiday1\r\nSUMMARY:A very long holiday name that \r\n gets folded across lines\r\nDTSTART;VALUE=DATE:20261225\r\nEND:VEVENT\r\n";
    let events = parse_events(ics, "sub1");
    assert_eq!(events.len(), 1);
    let e = &events[0];
    assert!(e.show_without_time);
    assert_eq!(
        e.title.as_deref(),
        Some("A very long holiday name that gets folded across lines")
    );
    assert_eq!(e.duration, "P1D");
}

#[test]
fn parses_weekly_rrule_with_byday() {
    let ics = "BEGIN:VEVENT\r\nUID:recur1\r\nSUMMARY:Weekly sync\r\nDTSTART:20260706T140000\r\nDTEND:20260706T150000\r\nRRULE:FREQ=WEEKLY;INTERVAL=1;BYDAY=MO,WE;COUNT=5\r\nEND:VEVENT\r\n";
    let events = parse_events(ics, "sub1");
    let rules = events[0].recurrence_rules.as_ref().unwrap();
    assert_eq!(rules.len(), 1);
    assert_eq!(rules[0].frequency, Frequency::Weekly);
    assert_eq!(rules[0].count, Some(5));
    assert_eq!(rules[0].by_day.len(), 2);
}

#[test]
fn unsupported_rrule_shape_falls_back_to_single_occurrence() {
    let ics = "BEGIN:VEVENT\r\nUID:complex1\r\nSUMMARY:Odd rule\r\nDTSTART:20260706T140000\r\nRRULE:FREQ=MONTHLY;BYSETPOS=-1;BYDAY=SU\r\nEND:VEVENT\r\n";
    let events = parse_events(ics, "sub1");
    assert!(events[0].recurrence_rules.is_none());
}

#[test]
fn exdate_becomes_an_excluded_override() {
    let ics = "BEGIN:VEVENT\r\nUID:recur2\r\nSUMMARY:Daily\r\nDTSTART:20260706T090000\r\nRRULE:FREQ=DAILY;COUNT=5\r\nEXDATE:20260708T090000\r\nEND:VEVENT\r\n";
    let events = parse_events(ics, "sub1");
    let overrides = events[0].recurrence_overrides.as_ref().unwrap();
    assert_eq!(overrides.len(), 1);
}

#[test]
fn alarms_are_no_part_of_an_event() {
    let ics = "BEGIN:VEVENT\r\nUID:e1\r\nSUMMARY:Standup\r\nDTSTART:20260715T090000Z\r\nDURATION:PT30M\r\nBEGIN:VALARM\r\nACTION:EMAIL\r\nUID:a1\r\nSUMMARY:Reminder\r\nDURATION:PT5M\r\nEND:VALARM\r\nEND:VEVENT\r\n";
    let events = parse_events(ics, "sub1");
    assert_eq!(events.len(), 1);
    assert_eq!(events[0].title.as_deref(), Some("Standup"));
    assert_eq!(events[0].duration, "PT30M");
    assert_eq!(events[0].uid, "ics:sub1:e1");
    let ics = "BEGIN:VEVENT\r\nUID:e1\r\nBEGIN:VALARM\r\nSUMMARY:Reminder\r\nEND:VALARM\r\nSUMMARY:Standup\r\nDTSTART:20260715T090000Z\r\nEND:VEVENT\r\n";
    assert_eq!(parse_events(ics, "sub1")[0].title.as_deref(), Some("Standup"));
}

#[test]
fn changes_to_one_instance_are_left_out() {
    let ics = "BEGIN:VEVENT\r\nUID:e1\r\nSUMMARY:Sync\r\nDTSTART:20260706T140000\r\nRRULE:FREQ=DAILY\r\nEND:VEVENT\r\nBEGIN:VEVENT\r\nUID:e1\r\nRECURRENCE-ID:20260707T140000\r\nSUMMARY:Sync (moved)\r\nDTSTART:20260707T160000\r\nEND:VEVENT\r\n";
    let events = parse_events(ics, "sub1");
    assert_eq!(events.len(), 1);
    assert_eq!(events[0].title.as_deref(), Some("Sync"));
}

#[test]
fn a_rule_reads_back_from_its_text() {
    let rule = RecurrenceRule {
        frequency: Frequency::Yearly,
        interval: Some(3),
        count: Some(9),
        by_day: vec![
            NDay { type_: "NDay".to_string(), day: Weekday::Sunday, nth_of_period: Some(-1) },
            NDay { type_: "NDay".to_string(), day: Weekday::Monday, nth_of_period: None },
        ],
        by_month_day: vec![3, -2],
        by_month: vec!["3".to_string(), "10".to_string()],
        ..Default::default()
    };
    let text = rrule_to_ics(&rule);
    let read = parse_rrule(&text).unwrap();
    assert_eq!(read.frequency, Frequency::Yearly);
    assert_eq!((read.interval, read.count), (Some(3), Some(9)));
    assert!(read.until.is_none());
    assert_eq!(read.by_day.len(), 2);
    assert_eq!((read.by_day[0].day, read.by_day[0].nth_of_period), (Weekday::Sunday, Some(-1)));
    assert_eq!((read.by_day[1].day, read.by_day[1].nth_of_period), (Weekday::Monday, None));
    assert_eq!(read.by_month_day, vec![3, -2]);
    assert_eq!(read.by_month, vec!["3".to_string(), "10".to_string()]);
    assert_eq!(rrule_to_ics(&read), text);
}

#[test]
fn an_exported_event_has_these_lines() {
    let mut event = event("u1", "2026-07-15T09:00:00");
    event.title = Some("Standup".to_string());
    event.duration = "PT15M".to_string();
    let now = LocalDateTime("2026-07-01T08:09:10".to_string()).to_naive().unwrap();
    let lines = unfold(&try_to_ics_at(&event, now).unwrap());
    assert_eq!(lines[0], "BEGIN:VCALENDAR");
    assert_eq!(lines[1], "VERSION:2.0");
    assert!(lines.contains(&"DTSTAMP:20260701T080910Z".to_string()));
    assert!(lines.contains(&"DTSTART:20260715T090000".to_string()));
    assert!(lines.contains(&"DTEND:20260715T091500".to_string()));
    assert_eq!(lines[lines.len() - 1], "END:VCALENDAR");
}

#[test]
fn a_rule_survives_export_and_import() {
    let mut event = event("u1", "2026-01-13T14:00:00");
    event.title = Some("Board".to_string());
    event.duration = "PT1H".to_string();
    event.recurrence_rules = Some(vec![RecurrenceRule {
        frequency: Frequency::Monthly,
        interval: Some(2),
        until: Some(LocalDateTime("2027-01-01T00:00:00".to_string())),
        by_day: vec![NDay {
            type_: "NDay".to_string(),
            day: Weekday::Tuesday,
            nth_of_period: Some(-2),
        }],
        ..Default::default()
    }]);
    let text = to_ics(&event);
    assert!(unfold(&text).contains(&"RRULE:FREQ=MONTHLY;INTERVAL=2;UNTIL=20270101T000000Z;BYDAY=-2TU".to_string()));
    let parsed = parse_events(&text, "s");
    let rule = &parsed[0].recurrence_rules.as_ref().unwrap()[0];
    assert_eq!(rule.frequency, Frequency::Monthly);
    assert_eq!(rule.interval, Some(2));
    assert_eq!(rule.until.as_ref().unwrap().0, "2027-01-01T00:00:00");
    assert_eq!(rule.by_day[0].day, Weekday::Tuesday);
    assert_eq!(rule.by_day[0].nth_of_period, Some(-2));
}

#[test]
fn an_event_that_runs_off_the_calendar_cannot_be_exported_or_imported() {
    let mut late = event("u1", "2026-07-15T09:00:00");
    late.duration = format!("PT{}S", i64::MAX);
    assert!(try_to_ics(&late).is_none());
    let text = format!(
        "BEGIN:VEVENT\r\nUID:x\r\nDTSTART:20260706T140000\r\nDURATION:PT{}S\r\nEND:VEVENT\r\n",
        i64::MAX
    );
    assert!(try_parse_events(&text, "s").is_none());
}

#[test]
fn properties_are_matched_in_any_case() {
    let ics = "begin:vevent\r\nuid:x\r\nsummary:Hi\r\ndtstart;value=date:20260706\r\nend:vevent\r\n";
    let (name, params, value) = parse_line("dtstart;value=date:20260706").unwrap();
    assert_eq!(name, "DTSTART");
    assert_eq!(params, vec![("VALUE".to_string(), "date".to_string())]);
    assert_eq!(value, "20260706");
    assert_eq!(parse_events(ics, "s").len(), 0);
}

#[test]
fn lines_are_taken_apart() {
    assert!(parse_line("no colon here").is_none());
    let (name, params, value) = parse_line("DTSTART;TZID=\"Europe/Berlin\":20260715T090000").unwrap();
    assert_eq!(name, "DTSTART");
    assert_eq!(params, vec![("TZID".to_string(), "Europe/Berlin".to_string())]);
    assert_eq!(value, "20260715T090000");
}

#[test]
fn escaped_text_reads_back() {
    for s in ["", "plain", "a, b; c\\d\ne", "\\n", "ends in \\"] {
        assert_eq!(unescape_text(&escape_text(s)), s);
    }
}

#[test]
fn folded_lines_stay_within_the_limit() {
    let line = format!("SUMMARY:{}", "\u{e4}".repeat(120));
    for piece in fold_line(&line).split("\r\n") {
        assert!(piece.len() <= 76);
    }
    assert_eq!(unfold(&fold_line(&line)), vec![line]);
}

#[test]
fn subscriptions_have_ids_of_their_own() {
    assert_eq!(pseudo_calendar_id("abc"), "ics:abc");
    assert!(is_ics_pseudo_id("ics:abc"));
    assert!(!is_ics_pseudo_id("abc"));
}

// vCard

#[test]
fn to_vcard_writes_name_email_and_full_birthday() {
    let mut card = Card::new("uid1");
    card.name = Some(NameProperty {
        full: Some("Ada Lovelace".to_string()),
        ..Default::default()
    });
    let mut emails = StrMap::new();
    emails.insert(
        "e1".to_string(),
        EmailAddress { address: "ada@example.com".to_string(), ..Default::default() },
    );
    card.emails = Some(emails);
    let mut anniversaries = StrMap::new();
    anniversaries.insert(
        "a1".to_string(),
        Anniversary {
            type_: "Anniversary".to_string(),
            kind: Some("birth".to_string()),
            date: AnniversaryDate::Timestamp { utc: "1815-12-10T00:00:00Z".to_string() },
            extra: StrMap::new(),
        },
    );
    card.anniversaries = Some(anniversaries);

    let vcf = to_vcard(&card);
    assert!(vcf.starts_with("BEGIN:VCARD\r\n"));
    assert!(vcf.contains("FN:Ada Lovelace"));
    assert!(vcf.contains("EMAIL:ada@example.com"));
    assert!(vcf.contains("BDAY:1815-12-10"));
    assert!(vcf.contains("UID:uid1"));
    assert!(vcf.ends_with("END:VCARD\r\n"));
}

#[test]
fn to_vcard_round_trips_through_parse_vcards() {
    let mut card = Card::new("uid2");
    card.name = Some(NameProperty {
        full: Some("Grace Hopper".to_string()),
        ..Default::default()
    });
    let mut anniversaries = StrMap::new();
    anniversaries.insert(
        "a1".to_string(),
        Anniversary {
            type_: "Anniversary".to_string(),
            kind: Some("birth".to_string()),
            date: AnniversaryDate::PartialDate { year: None, month: Some(7), day: Some(20) },
            extra: StrMap::new(),
        },
    );
    card.anniversaries = Some(anniversaries);

    let vcf = to_vcard(&card);
    let parsed = parse_vcards(&vcf);
    assert_eq!(parsed.len(), 1);
    assert_eq!(parsed[0].name, "Grace Hopper");
    let (date, has_year) = parsed[0].birthday.unwrap();
    assert_eq!(date.month, 7);
    assert_eq!(date.day, 20);
    assert!(!has_year);
}

#[test]
fn to_vcard_escapes_commas_in_name() {
    let mut card = Card::new("uid3");
    card.name = Some(NameProperty {
        full: Some("Doe, Jane".to_string()),
        ..Default::default()
    });
    let vcf = to_vcard(&card);
    assert!(vcf.contains("FN:Doe\\, Jane"));
}

#[test]
fn parses_fn_email_and_full_birthday() {
    let vcf = "BEGIN:VCARD\r\nVERSION:3.0\r\nFN:Ada Lovelace\r\nEMAIL;TYPE=pref:ada@example.com\r\nBDAY:1815-12-10\r\nEND:VCARD\r\n";
    let contacts = parse_vcards(vcf);
    assert_eq!(contacts.len(), 1);
    let c = &contacts[0];
    assert_eq!(c.name, "Ada Lovelace");
    assert_eq!(c.email.as_deref(), Some("ada@example.com"));
    let (date, has_year) = c.birthday.unwrap();
    assert_eq!(date, NaiveDate::from_ymd_opt(1815, 12, 10).unwrap());
    assert!(has_year);
}

#[test]
fn falls_back_to_n_when_fn_missing() {
    let vcf = "BEGIN:VCARD\r\nN:Turing;Alan;;;\r\nEND:VCARD\r\n";
    let contacts = parse_vcards(vcf);
    assert_eq!(contacts[0].name, "Alan Turing");
}

#[test]
fn parses_yearless_birthday() {
    let vcf = "BEGIN:VCARD\r\nFN:Grace Hopper\r\nBDAY:--0720\r\nEND:VCARD\r\n";
    let contacts = parse_vcards(vcf);
    let (date, has_year) = contacts[0].birthday.unwrap();
    assert_eq!(date.month, 7);
    assert_eq!(date.day, 20);
    assert!(!has_year);
}

#[test]
fn parses_multiple_cards_and_skips_nameless() {
    let vcf = "BEGIN:VCARD\r\nFN:First Person\r\nEND:VCARD\r\nBEGIN:VCARD\r\nEMAIL:noname@example.com\r\nEND:VCARD\r\nBEGIN:VCARD\r\nFN:Second Person\r\nEND:VCARD\r\n";
    let contacts = parse_vcards(vcf);
    assert_eq!(contacts.len(), 2);
    assert_eq!(contacts[0].name, "First Person");
    assert_eq!(contacts[1].name, "Second Person");
}

#[test]
fn a_leap_day_without_a_year_reads_back() {
    let vcf = "BEGIN:VCARD\r\nFN:Leap\r\nBDAY:--0229\r\nEND:VCARD\r\n";
    let (date, has_year) = parse_vcards(vcf)[0].birthday.unwrap();
    assert_eq!((date.month, date.day), (2, 29));
    assert!(!has_year);
    let bad = "BEGIN:VCARD\r\nFN:Bad\r\nBDAY:--0230\r\nEND:VCARD\r\n";
    assert!(parse_vcards(bad)[0].birthday.is_none());
}

#[test]
fn the_preferred_address_wins() {
    let vcf = "BEGIN:VCARD\r\nFN:A\r\nEMAIL:first@example.com\r\nEMAIL;TYPE=PREF:best@example.com\r\nEND:VCARD\r\n";
    assert_eq!(parse_vcards(vcf)[0].email.as_deref(), Some("best@example.com"));
}
