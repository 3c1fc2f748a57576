//! Durations, time zones, recurrence and birthdays.

use jscalendar::calendar::{NaiveDate, NaiveDateTime};
use jscalendar::collections::StrMap;
use jscalendar::duration::{format_duration, parse_duration, try_parse_duration, Duration, MAX_SECS};
use jscalendar::jscalendar::{CalendarEvent, Frequency, LocalDateTime, NDay, RecurrenceRule, Weekday};
use jscalendar::jscontact::{expand_birthdays, try_expand_birthdays, Anniversary, AnniversaryDate, Card, NameProperty};
use jscalendar::json::{text, Value};
use jscalendar::recurrence::{expand, expand_rule, try_expand, MAX_OCCURRENCES};
use jscalendar::tz::{at_zone, convert, parse_tz, try_convert, Tz};

fn dt(s: &str) -> NaiveDateTime {
    LocalDateTime(s.to_string()).to_naive().unwrap()
}

fn day(y: i32, m: u32, d: u32) -> NaiveDate {
    NaiveDate::from_ymd_opt(y, m, d).unwrap()
}

fn event_at(s: &str) -> CalendarEvent {
    CalendarEvent::new("u1", LocalDateTime::from_naive(dt(s)))
}

fn nday(day: Weekday, nth_of_period: Option<i32>) -> NDay {
    NDay { type_: "NDay".to_string(), day, nth_of_period }
}

// Dates

#[test]
fn dates_that_do_not_exist_are_refused() {
    assert_eq!(NaiveDate::from_ymd_opt(2026, 2, 29), None);
    assert_eq!(NaiveDate::from_ymd_opt(2026, 13, 1), None);
    assert_eq!(NaiveDate::from_ymd_opt(2026, 0, 1), None);
    assert_eq!(NaiveDate::from_ymd_opt(300_000, 1, 1), None);
    assert!(NaiveDate::from_ymd_opt(2024, 2, 29).is_some());
    assert_eq!(NaiveDate::from_ymd_opt(1900, 2, 29), None);
    assert!(NaiveDate::from_ymd_opt(2000, 2, 29).is_some());
}

#[test]
fn days_are_added_over_month_and_year_ends() {
    assert_eq!(day(2026, 12, 31).add_days(1), Some(day(2027, 1, 1)));
    assert_eq!(day(2024, 3, 1).add_days(-1), Some(day(2024, 2, 29)));
    assert_eq!(day(2026, 7, 6).add_days(365), Some(day(2027, 7, 6)));
    assert_eq!(day(262_142, 12, 31).add_days(1), None);
    assert_eq!(day(2026, 7, 6).add_days(i64::MAX), None);
}

#[test]
fn weekdays_count_from_monday() {
    assert_eq!(day(2026, 7, 6).weekday(), 0);
    assert_eq!(day(2026, 7, 12).weekday(), 6);
    assert_eq!(day(1970, 1, 1).weekday(), 3);
}

#[test]
fn times_shift_over_midnight() {
    assert_eq!(dt("2026-07-06T23:30:00").plus(3600), Some(dt("2026-07-07T00:30:00")));
    assert_eq!(dt("2026-07-06T00:30:00").plus(-3600), Some(dt("2026-07-05T23:30:00")));
    assert!(dt("2026-07-06T00:00:00").is_before(dt("2026-07-06T00:00:01")));
    assert!(!dt("2026-07-06T00:00:00").is_before(dt("2026-07-06T00:00:00")));
}

#[test]
fn local_times_are_written_and_read() {
    assert_eq!(LocalDateTime::from_naive(dt("2026-07-06T09:00:00")).0, "2026-07-06T09:00:00");
    assert_eq!(LocalDateTime("not a time".to_string()).to_naive(), None);
    assert_eq!(LocalDateTime("2026-07-06".to_string()).to_naive(), None);
    assert_eq!(LocalDateTime("2026-07-06T09:00:00".to_string()).date(), Some(day(2026, 7, 6)));
}

// Durations

#[test]
fn parses_common_durations() {
    assert_eq!(parse_duration("PT30M"), Some(Duration::minutes(30)));
    assert_eq!(parse_duration("PT1H30M"), Some(Duration::minutes(90)));
    assert_eq!(parse_duration("P1D"), Some(Duration::days(1)));
    assert_eq!(parse_duration("PT0S"), Some(Duration::zero()));
    assert_eq!(parse_duration("P1DT2H"), Some(Duration::hours(26)));
}

#[test]
fn round_trips() {
    for s in ["PT30M", "PT1H30M", "P1D", "PT0S", "P2DT3H4M5S"] {
        let d = parse_duration(s).unwrap();
        assert_eq!(parse_duration(&format_duration(d)), Some(d));
    }
}

#[test]
fn duration_texts_are_exact() {
    assert_eq!(format_duration(Duration::zero()), "PT0S");
    assert_eq!(format_duration(Duration::minutes(90)), "PT1H30M");
    assert_eq!(format_duration(Duration::seconds(2 * 86400 + 3 * 3600 + 4 * 60 + 5)), "P2DT3H4M5S");
    assert_eq!(format_duration(Duration::days(1)), "P1D");
}

#[test]
fn bad_durations_are_refused() {
    assert_eq!(parse_duration(""), None);
    assert_eq!(parse_duration("1D"), None);
    assert_eq!(parse_duration("P1X"), None);
    assert_eq!(parse_duration("PTM"), None);
}

#[test]
fn durations_have_weeks_signs_and_loose_digits() {
    assert_eq!(parse_duration("P1W"), Some(Duration::days(7)));
    assert_eq!(parse_duration("P1Y2M"), Some(Duration::days(425)));
    assert_eq!(parse_duration("-PT30M"), Some(Duration::minutes(-30)));
    assert_eq!(parse_duration("PT5"), Some(Duration::zero()));
    assert_eq!(format_duration(Duration::minutes(-30)), "-PT30M");
}

#[test]
fn durations_that_do_not_fit_are_told_apart() {
    let too_long = format!("PT{}S", MAX_SECS as i128 + 1);
    assert_eq!(try_parse_duration(&too_long), None);
    assert_eq!(try_parse_duration("PT1S"), Some(Some(Duration::seconds(1))));
    assert_eq!(try_parse_duration("nonsense"), Some(None));
}

// Time zones

#[test]
fn converts_across_zones_in_summer() {
    let berlin: Tz = parse_tz("Europe/Berlin").unwrap();
    let ny: Tz = parse_tz("America/New_York").unwrap();
    let naive = NaiveDate::from_ymd_opt(2026, 7, 15).unwrap().and_hms_opt(18, 0, 0).unwrap();
    // Berlin is UTC+2, New York is UTC-4 in July -> 6 hour difference.
    let converted = convert(naive, Some(&berlin), &ny);
    assert_eq!(
        converted,
        NaiveDate::from_ymd_opt(2026, 7, 15).unwrap().and_hms_opt(12, 0, 0).unwrap()
    );
}

#[test]
fn floating_time_is_unchanged() {
    let ny: Tz = parse_tz("America/New_York").unwrap();
    let naive = NaiveDate::from_ymd_opt(2026, 7, 15).unwrap().and_hms_opt(9, 0, 0).unwrap();
    assert_eq!(convert(naive, None, &ny), naive);
}

#[test]
fn zone_names_are_checked() {
    assert!(parse_tz("Nowhere/Atlantis").is_none());
    assert!(parse_tz("").is_none());
    assert_eq!(parse_tz("UTC").unwrap().name(), "UTC");
    assert_eq!(Tz::utc().name(), "UTC");
}

#[test]
fn zones_have_their_offset() {
    let berlin = parse_tz("Europe/Berlin").unwrap();
    assert_eq!(at_zone(dt("2026-01-15T12:00:00"), &berlin), Some(dt("2026-01-15T13:00:00")));
    assert_eq!(at_zone(dt("2026-07-15T23:00:00"), &berlin), Some(dt("2026-07-16T01:00:00")));
}

#[test]
fn times_that_clocks_skip_stay_as_they_are() {
    // Clocks in Berlin go from 02:00 to 03:00 on this day.
    let berlin = parse_tz("Europe/Berlin").unwrap();
    let skipped = dt("2026-03-29T02:30:00");
    assert_eq!(try_convert(skipped, Some(&berlin), &Tz::utc()), Some(skipped));
}

#[test]
fn conversion_within_a_zone_keeps_the_time() {
    let berlin = parse_tz("Europe/Berlin").unwrap();
    let t = dt("2026-07-15T18:00:00");
    assert_eq!(convert(t, Some(&berlin), &berlin), t);
}

// Recurrence

#[test]
fn non_recurring_single_occurrence() {
    let event = CalendarEvent::new("u1", LocalDateTime::from_naive(dt("2026-07-06T09:00:00")));
    let occs = expand(&event, dt("2026-07-01T00:00:00"), dt("2026-08-01T00:00:00"));
    assert_eq!(occs.len(), 1);
    assert_eq!(occs[0].start, dt("2026-07-06T09:00:00"));
}

#[test]
fn daily_interval_two_with_count() {
    let mut event = CalendarEvent::new("u1", LocalDateTime::from_naive(dt("2026-07-01T09:00:00")));
    event.recurrence_rules = Some(vec![RecurrenceRule {
        frequency: Frequency::Daily,
        interval: Some(2),
        count: Some(5),
        ..Default::default()
    }]);
    let occs = expand(&event, dt("2026-07-01T00:00:00"), dt("2026-07-31T00:00:00"));
    let dates: Vec<_> = occs.iter().map(|o| o.start.date).collect();
    assert_eq!(
        dates,
        vec![
            dt("2026-07-01T00:00:00").date,
            dt("2026-07-03T00:00:00").date,
            dt("2026-07-05T00:00:00").date,
            dt("2026-07-07T00:00:00").date,
            dt("2026-07-09T00:00:00").date,
        ]
    );
}

#[test]
fn weekly_by_day() {
    // 2026-07-06 is a Monday.
    let mut event = CalendarEvent::new("u1", LocalDateTime::from_naive(dt("2026-07-06T10:00:00")));
    event.recurrence_rules = Some(vec![RecurrenceRule {
        frequency: Frequency::Weekly,
        by_day: vec![
            NDay { type_: "NDay".into(), day: Weekday::Monday, nth_of_period: None },
            NDay { type_: "NDay".into(), day: Weekday::Wednesday, nth_of_period: None },
            NDay { type_: "NDay".into(), day: Weekday::Friday, nth_of_period: None },
        ],
        ..Default::default()
    }]);
    let occs = expand(&event, dt("2026-07-06T00:00:00"), dt("2026-07-20T00:00:00"));
    assert_eq!(occs.len(), 6);
    assert_eq!(occs[0].start, dt("2026-07-06T10:00:00"));
    assert_eq!(occs[1].start, dt("2026-07-08T10:00:00"));
    assert_eq!(occs[2].start, dt("2026-07-10T10:00:00"));
}

#[test]
fn monthly_nth_weekday() {
    // 2nd Tuesday of each month, starting 2026-01-13 (which is the 2nd Tuesday of Jan 2026).
    let mut event = CalendarEvent::new("u1", LocalDateTime::from_naive(dt("2026-01-13T14:00:00")));
    event.recurrence_rules = Some(vec![RecurrenceRule {
        frequency: Frequency::Monthly,
        by_day: vec![NDay { type_: "NDay".into(), day: Weekday::Tuesday, nth_of_period: Some(2) }],
        count: Some(3),
        ..Default::default()
    }]);
    let occs = expand(&event, dt("2026-01-01T00:00:00"), dt("2026-05-01T00:00:00"));
    let dates: Vec<_> = occs.iter().map(|o| o.start.date).collect();
    assert_eq!(
        dates,
        vec![
            NaiveDate::from_ymd_opt(2026, 1, 13).unwrap(),
            NaiveDate::from_ymd_opt(2026, 2, 10).unwrap(),
            NaiveDate::from_ymd_opt(2026, 3, 10).unwrap(),
        ]
    );
}

#[test]
fn recurrence_override_excludes_and_reschedules() {
    let mut event = CalendarEvent::new("u1", LocalDateTime::from_naive(dt("2026-07-06T09:00:00")));
    event.recurrence_rules = Some(vec![RecurrenceRule {
        frequency: Frequency::Daily,
        count: Some(3),
        ..Default::default()
    }]);
    let mut excluded = StrMap::new();
    excluded.insert("excluded".to_string(), Value::Bool(true));
    let mut moved = StrMap::new();
    moved.insert("start".to_string(), text("2026-07-08T15:00:00"));
    let mut overrides = StrMap::new();
    overrides.insert("2026-07-07T09:00:00".to_string(), excluded);
    overrides.insert("2026-07-08T09:00:00".to_string(), moved);
    event.recurrence_overrides = Some(overrides);

    let occs = expand(&event, dt("2026-07-01T00:00:00"), dt("2026-07-31T00:00:00"));
    let starts: Vec<_> = occs.iter().map(|o| o.start).collect();
    assert_eq!(starts, vec![dt("2026-07-06T09:00:00"), dt("2026-07-08T15:00:00")]);
}

#[test]
fn monthly_on_the_last_day_and_on_days_that_some_months_lack() {
    let mut event = event_at("2026-01-31T08:00:00");
    event.recurrence_rules = Some(vec![RecurrenceRule {
        frequency: Frequency::Monthly,
        by_month_day: vec![31],
        ..Default::default()
    }]);
    let occs = expand(&event, dt("2026-01-01T00:00:00"), dt("2026-06-01T00:00:00"));
    let days: Vec<_> = occs.iter().map(|o| o.start.date).collect();
    assert_eq!(days, vec![day(2026, 1, 31), day(2026, 3, 31), day(2026, 5, 31)]);

    event.recurrence_rules = Some(vec![RecurrenceRule {
        frequency: Frequency::Monthly,
        by_month_day: vec![-1],
        ..Default::default()
    }]);
    let occs = expand(&event, dt("2026-01-01T00:00:00"), dt("2026-04-01T00:00:00"));
    let days: Vec<_> = occs.iter().map(|o| o.start.date).collect();
    assert_eq!(days, vec![day(2026, 1, 31), day(2026, 2, 28), day(2026, 3, 31)]);
}

#[test]
fn last_weekday_of_the_month() {
    let mut event = event_at("2026-01-30T08:00:00");
    event.recurrence_rules = Some(vec![RecurrenceRule {
        frequency: Frequency::Monthly,
        by_day: vec![nday(Weekday::Friday, Some(-1))],
        ..Default::default()
    }]);
    let occs = expand(&event, dt("2026-01-01T00:00:00"), dt("2026-04-01T00:00:00"));
    let days: Vec<_> = occs.iter().map(|o| o.start.date).collect();
    assert_eq!(days, vec![day(2026, 1, 30), day(2026, 2, 27), day(2026, 3, 27)]);
}

#[test]
fn yearly_until_a_time() {
    let mut event = event_at("2024-02-29T08:00:00");
    event.recurrence_rules = Some(vec![RecurrenceRule {
        frequency: Frequency::Yearly,
        until: Some(LocalDateTime("2032-03-01T00:00:00".to_string())),
        ..Default::default()
    }]);
    let occs = expand(&event, dt("2024-01-01T00:00:00"), dt("2040-01-01T00:00:00"));
    let days: Vec<_> = occs.iter().map(|o| o.start.date).collect();
    assert_eq!(days, vec![day(2024, 2, 29), day(2028, 2, 29), day(2032, 2, 29)]);
}

#[test]
fn an_occurrence_that_reaches_into_the_range_counts() {
    let mut event = event_at("2026-06-30T23:00:00");
    event.duration = "PT2H".to_string();
    assert_eq!(expand(&event, dt("2026-07-01T00:00:00"), dt("2026-08-01T00:00:00")).len(), 1);
    event.duration = "PT1H".to_string();
    assert_eq!(expand(&event, dt("2026-07-01T00:00:00"), dt("2026-08-01T00:00:00")).len(), 0);
}

fn starts(event: &CalendarEvent, from: &str, to: &str) -> Vec<NaiveDateTime> {
    expand(event, dt(from), dt(to)).iter().map(|o| o.start).collect()
}

#[test]
fn a_repeated_event_that_reaches_into_the_range_counts() {
    let mut event = event_at("2026-07-01T23:00:00");
    event.duration = "PT2H".to_string();
    event.recurrence_rules =
        Some(vec![RecurrenceRule { frequency: Frequency::Daily, ..Default::default() }]);
    let (from, to) = ("2026-07-02T00:00:00", "2026-07-02T12:00:00");
    assert_eq!(starts(&event, from, to), vec![dt("2026-07-01T23:00:00")]);
    let (from, to) = ("2026-07-03T00:30:00", "2026-07-04T00:00:00");
    assert_eq!(starts(&event, from, to), vec![dt("2026-07-02T23:00:00"), dt("2026-07-03T23:00:00")]);
    event.duration = "PT1H".to_string();
    assert_eq!(starts(&event, "2026-07-02T00:00:00", "2026-07-02T12:00:00"), vec![]);
}

#[test]
fn an_override_that_reaches_into_the_range_counts() {
    let mut event = event_at("2026-07-01T09:00:00");
    event.duration = "PT2H".to_string();
    event.recurrence_rules = Some(vec![RecurrenceRule {
        frequency: Frequency::Weekly,
        count: Some(2),
        ..Default::default()
    }]);
    let mut longer = StrMap::new();
    longer.insert("duration".to_string(), text("PT5H"));
    let mut moved = StrMap::new();
    moved.insert("start".to_string(), text("2026-07-20T10:00:00"));
    let mut overrides = StrMap::new();
    overrides.insert("2026-07-05T22:00:00".to_string(), StrMap::new());
    overrides.insert("2026-07-06T20:00:00".to_string(), longer);
    overrides.insert("2026-07-08T09:00:00".to_string(), moved);
    event.recurrence_overrides = Some(overrides);
    let (from, to) = ("2026-07-05T23:00:00", "2026-07-06T12:00:00");
    assert_eq!(starts(&event, from, to), vec![dt("2026-07-05T22:00:00")]);
    let (from, to) = ("2026-07-07T00:00:00", "2026-07-07T12:00:00");
    assert_eq!(starts(&event, from, to), vec![dt("2026-07-06T20:00:00")]);
    let (from, to) = ("2026-07-20T00:00:00", "2026-07-21T00:00:00");
    let occs = expand(&event, dt(from), dt(to));
    assert_eq!(occs.len(), 1);
    assert_eq!(occs[0].start, dt("2026-07-20T10:00:00"));
    assert_eq!(occs[0].recurrence_id.as_ref().unwrap().0, "2026-07-08T09:00:00");
    assert_eq!(starts(&event, "2026-07-08T00:00:00", "2026-07-09T00:00:00"), vec![]);
}

#[test]
fn a_daily_rule_keeps_to_its_days() {
    let mut event = event_at("2026-07-09T09:00:00");
    let weekdays = [
        Weekday::Monday,
        Weekday::Tuesday,
        Weekday::Wednesday,
        Weekday::Thursday,
        Weekday::Friday,
    ];
    event.recurrence_rules = Some(vec![RecurrenceRule {
        frequency: Frequency::Daily,
        by_day: weekdays.iter().map(|d| nday(*d, None)).collect(),
        count: Some(4),
        ..Default::default()
    }]);
    let found = starts(&event, "2026-07-01T00:00:00", "2026-08-01T00:00:00");
    let days: Vec<_> = found.iter().map(|t| t.date).collect();
    assert_eq!(days, vec![day(2026, 7, 9), day(2026, 7, 10), day(2026, 7, 13), day(2026, 7, 14)]);

    event.recurrence_rules = Some(vec![RecurrenceRule {
        frequency: Frequency::Daily,
        interval: Some(14),
        by_day: vec![nday(Weekday::Monday, None)],
        ..Default::default()
    }]);
    assert_eq!(starts(&event, "2026-07-01T00:00:00", "2026-08-01T00:00:00"), vec![]);
}

#[test]
fn a_weekday_without_a_number_is_every_one_of_the_month() {
    let mut event = event_at("2026-07-06T09:00:00");
    event.recurrence_rules = Some(vec![RecurrenceRule {
        frequency: Frequency::Monthly,
        interval: Some(2),
        by_day: vec![nday(Weekday::Thursday, None), nday(Weekday::Monday, Some(-1))],
        count: Some(8),
        ..Default::default()
    }]);
    let found = starts(&event, "2026-07-01T00:00:00", "2026-12-01T00:00:00");
    let days: Vec<_> = found.iter().map(|t| t.date).collect();
    assert_eq!(
        days,
        vec![
            day(2026, 7, 9),
            day(2026, 7, 16),
            day(2026, 7, 23),
            day(2026, 7, 27),
            day(2026, 7, 30),
            day(2026, 9, 3),
            day(2026, 9, 10),
            day(2026, 9, 17),
        ]
    );
    event.recurrence_rules = Some(vec![RecurrenceRule {
        frequency: Frequency::Yearly,
        by_month: vec!["7".to_string()],
        by_day: vec![nday(Weekday::Monday, None)],
        ..Default::default()
    }]);
    assert_eq!(starts(&event, "2027-01-01T00:00:00", "2028-01-01T00:00:00").len(), 4);
}

#[test]
fn the_days_of_a_month_come_in_order() {
    let mut event = event_at("2026-07-01T09:00:00");
    event.recurrence_rules = Some(vec![RecurrenceRule {
        frequency: Frequency::Monthly,
        by_month_day: vec![15, 1],
        until: Some(LocalDateTime("2026-08-10T00:00:00".to_string())),
        ..Default::default()
    }]);
    let found = starts(&event, "2026-07-01T00:00:00", "2026-12-01T00:00:00");
    let days: Vec<_> = found.iter().map(|t| t.date).collect();
    assert_eq!(days, vec![day(2026, 7, 1), day(2026, 7, 15), day(2026, 8, 1)]);
}

#[test]
fn days_that_a_month_does_not_have_are_skipped() {
    let mut event = event_at("2026-03-01T09:00:00");
    event.recurrence_rules = Some(vec![RecurrenceRule {
        frequency: Frequency::Monthly,
        by_month_day: vec![-31, 0, -366],
        ..Default::default()
    }]);
    let found = starts(&event, "2026-03-01T00:00:00", "2026-07-01T00:00:00");
    let days: Vec<_> = found.iter().map(|t| t.date).collect();
    assert_eq!(days, vec![day(2026, 3, 1), day(2026, 5, 1)]);
    event.recurrence_rules = Some(vec![RecurrenceRule {
        frequency: Frequency::Monthly,
        by_day: vec![nday(Weekday::Sunday, Some(5)), nday(Weekday::Monday, Some(53))],
        ..Default::default()
    }]);
    let found = starts(&event, "2026-03-01T00:00:00", "2026-07-01T00:00:00");
    let days: Vec<_> = found.iter().map(|t| t.date).collect();
    assert_eq!(days, vec![day(2026, 3, 29), day(2026, 5, 31)]);
}

#[test]
fn a_date_that_is_named_twice_counts_once() {
    let mut event = event_at("2026-01-30T09:00:00");
    event.recurrence_rules = Some(vec![RecurrenceRule {
        frequency: Frequency::Monthly,
        by_month_day: vec![31, -1],
        count: Some(3),
        ..Default::default()
    }]);
    let found = starts(&event, "2026-01-01T00:00:00", "2027-01-01T00:00:00");
    let days: Vec<_> = found.iter().map(|t| t.date).collect();
    assert_eq!(days, vec![day(2026, 1, 31), day(2026, 2, 28), day(2026, 3, 31)]);
    event.recurrence_rules = Some(vec![RecurrenceRule {
        frequency: Frequency::Weekly,
        by_day: vec![nday(Weekday::Monday, None), nday(Weekday::Monday, None)],
        count: Some(2),
        ..Default::default()
    }]);
    let found = starts(&event, "2026-01-01T00:00:00", "2027-01-01T00:00:00");
    let days: Vec<_> = found.iter().map(|t| t.date).collect();
    assert_eq!(days, vec![day(2026, 2, 2), day(2026, 2, 9)]);
}

#[test]
fn a_long_interval_goes_forward() {
    let mut event = event_at("2026-07-06T09:00:00");
    event.recurrence_rules = Some(vec![RecurrenceRule {
        frequency: Frequency::Daily,
        interval: Some(u32::MAX),
        ..Default::default()
    }]);
    let (from, to) = (dt("2026-07-01T00:00:00"), dt("2026-07-06T09:00:00"));
    assert_eq!(expand(&event, from, to).len(), 0);
    assert!(try_expand(&event, from, dt("2026-08-01T00:00:00")).is_none());
}

#[test]
fn a_range_can_be_expanded_in_parts() {
    let rule = RecurrenceRule {
        frequency: Frequency::Weekly,
        by_day: vec![nday(Weekday::Friday, None), nday(Weekday::Monday, None)],
        count: Some(7),
        ..Default::default()
    };
    let start = dt("2026-07-06T10:00:00");
    let (a, b, c) = (dt("2026-07-08T00:00:00"), dt("2026-07-17T10:00:00"), dt("2026-09-01T00:00:00"));
    let mut parts = expand_rule(&rule, start, a, b).unwrap();
    assert_eq!(parts.len(), 2);
    parts.extend(expand_rule(&rule, start, b, c).unwrap());
    assert_eq!(parts, expand_rule(&rule, start, a, c).unwrap());
    assert_eq!(parts.len(), 6);
    let rule = RecurrenceRule {
        frequency: Frequency::Monthly,
        by_day: vec![nday(Weekday::Friday, None), nday(Weekday::Monday, Some(-1))],
        ..Default::default()
    };
    let mut parts = expand_rule(&rule, start, a, b).unwrap();
    parts.extend(expand_rule(&rule, start, b, c).unwrap());
    assert_eq!(parts, expand_rule(&rule, start, a, c).unwrap());
    assert_eq!(parts.len(), 10);
}

#[test]
fn occurrences_come_in_order_and_within_the_range() {
    let mut event = event_at("2026-07-06T10:00:00");
    event.recurrence_rules = Some(vec![
        RecurrenceRule { frequency: Frequency::Weekly, ..Default::default() },
        RecurrenceRule { frequency: Frequency::Daily, interval: Some(3), ..Default::default() },
    ]);
    let (from, to) = (dt("2026-07-06T00:00:00"), dt("2026-08-01T00:00:00"));
    let occs = expand(&event, from, to);
    assert!(occs.len() > 8);
    for pair in occs.windows(2) {
        assert!(pair[0].start.is_before(pair[1].start));
    }
    for o in &occs {
        assert!(o.start.is_before(to) && !o.start.is_before(from));
    }
}

#[test]
fn expansion_stops_at_its_limit() {
    let mut event = event_at("2000-01-01T10:00:00");
    event.recurrence_rules = Some(vec![RecurrenceRule {
        frequency: Frequency::Daily,
        ..Default::default()
    }]);
    let occs = expand(&event, dt("2000-01-01T00:00:00"), dt("2020-01-01T00:00:00"));
    assert_eq!(occs.len(), MAX_OCCURRENCES);
}

#[test]
fn an_event_without_a_time_has_no_occurrences() {
    let event = CalendarEvent::new("u1", LocalDateTime("soon".to_string()));
    assert_eq!(expand(&event, dt("2026-07-01T00:00:00"), dt("2026-08-01T00:00:00")).len(), 0);
}

#[test]
fn a_length_that_does_not_fit_stops_the_expansion() {
    let mut event = event_at("2026-07-06T10:00:00");
    event.duration = format!("PT{}S", i64::MAX);
    assert!(try_expand(&event, dt("2026-07-01T00:00:00"), dt("2026-08-01T00:00:00")).is_none());
}

// Contacts and birthdays

fn card_with_birthday(date: AnniversaryDate) -> Card {
    let mut anniversaries = StrMap::new();
    anniversaries.insert(
        "a1".to_string(),
        Anniversary {
            type_: "Anniversary".to_string(),
            kind: Some("birth".to_string()),
            date,
            extra: StrMap::new(),
        },
    );
    let mut card = Card::new("c1-uid");
    card.id = Some("c1".to_string());
    card.name = Some(NameProperty {
        full: Some("Ada Lovelace".to_string()),
        ..Default::default()
    });
    card.anniversaries = Some(anniversaries);
    card
}

#[test]
fn expands_partial_date_without_year() {
    let card = card_with_birthday(AnniversaryDate::PartialDate {
        year: None,
        month: Some(12),
        day: Some(10),
    });
    let occs = expand_birthdays(
        &vec![card],
        NaiveDate::from_ymd_opt(2026, 12, 1).unwrap(),
        NaiveDate::from_ymd_opt(2027, 1, 1).unwrap(),
    );
    assert_eq!(occs.len(), 1);
    assert_eq!(occs[0].date, NaiveDate::from_ymd_opt(2026, 12, 10).unwrap());
    assert_eq!(occs[0].name, "Ada Lovelace");
    assert_eq!(occs[0].turns, None);
}

#[test]
fn expands_full_timestamp_with_age() {
    let card = card_with_birthday(AnniversaryDate::Timestamp {
        utc: "1815-12-10T00:00:00Z".to_string(),
    });
    let occs = expand_birthdays(
        &vec![card],
        NaiveDate::from_ymd_opt(2026, 12, 1).unwrap(),
        NaiveDate::from_ymd_opt(2027, 1, 1).unwrap(),
    );
    assert_eq!(occs.len(), 1);
    assert_eq!(occs[0].turns, Some(211));
}

#[test]
fn ignores_non_birth_anniversaries() {
    let mut card = card_with_birthday(AnniversaryDate::PartialDate {
        year: None,
        month: Some(6),
        day: Some(1),
    });
    card.anniversaries.as_mut().unwrap().entries[0].1.kind = Some("wedding".to_string());
    let occs = expand_birthdays(
        &vec![card],
        NaiveDate::from_ymd_opt(2026, 1, 1).unwrap(),
        NaiveDate::from_ymd_opt(2027, 1, 1).unwrap(),
    );
    assert!(occs.is_empty());
}

#[test]
fn range_spanning_year_boundary_still_matches() {
    let card = card_with_birthday(AnniversaryDate::PartialDate {
        year: None,
        month: Some(1),
        day: Some(2),
    });
    let occs = expand_birthdays(
        &vec![card],
        NaiveDate::from_ymd_opt(2026, 12, 28).unwrap(),
        NaiveDate::from_ymd_opt(2027, 1, 4).unwrap(),
    );
    assert_eq!(occs.len(), 1);
    assert_eq!(occs[0].date, NaiveDate::from_ymd_opt(2027, 1, 2).unwrap());
}

#[test]
fn birthdays_come_by_date_and_leap_days_only_in_leap_years() {
    let leap = card_with_birthday(AnniversaryDate::PartialDate {
        year: Some(2000),
        month: Some(2),
        day: Some(29),
    });
    let early = card_with_birthday(AnniversaryDate::PartialDate {
        year: None,
        month: Some(1),
        day: Some(3),
    });
    let cards = vec![leap, early];
    assert_eq!(expand_birthdays(&cards, day(2026, 2, 1), day(2026, 4, 1)).len(), 0);
    let occs = expand_birthdays(&cards, day(2028, 1, 1), day(2028, 12, 31));
    let days: Vec<_> = occs.iter().map(|o| o.date).collect();
    assert_eq!(days, vec![day(2028, 1, 3), day(2028, 2, 29)]);
    assert_eq!(occs[1].turns, Some(28));
}

#[test]
fn an_age_that_does_not_fit_stops_the_expansion() {
    let card = card_with_birthday(AnniversaryDate::PartialDate {
        year: Some(i32::MIN),
        month: Some(2),
        day: Some(3),
    });
    assert!(try_expand_birthdays(&vec![card], day(2026, 1, 1), day(2026, 12, 31)).is_none());
}

#[test]
fn a_card_without_a_name_goes_by_its_uid() {
    let mut card = Card::new("u7");
    assert_eq!(card.display_name(), "u7");
    card.name = Some(NameProperty { full: Some(String::new()), ..Default::default() });
    assert_eq!(card.display_name(), "u7");
    card.name = Some(NameProperty { full: Some("Grace Hopper".to_string()), ..Default::default() });
    assert_eq!(card.display_name(), "Grace Hopper");
    assert_eq!(card.primary_email(), None);
}
