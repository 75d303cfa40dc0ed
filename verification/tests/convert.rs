use callux::calendar::{
    all_day_span, build_event, convert_event, convert_records, default_end, timed_end, timed_span,
    EventTime, RawEvent, Span,
};
use callux::config::CalendarConfig;
use callux::error::ErrorKind;
use callux::time::{CivilDate, LocalTime, UtcInstant};
use chrono::{Local, TimeZone};

fn calendar() -> CalendarConfig {
    CalendarConfig {
        id: "work".to_string(),
        name: "Work".to_string(),
        color: "#ff0000".to_string(),
        enabled: true,
    }
}

fn timed(secs: i64) -> Option<EventTime> {
    Some(EventTime { date: None, date_time: Some(UtcInstant { secs, nanos: 0 }) })
}

fn dated(year: i32, month: u32, day: u32) -> Option<EventTime> {
    Some(EventTime { date: Some(CivilDate { year, month, day }), date_time: None })
}

fn record(title: Option<&str>, start: Option<EventTime>, end: Option<EventTime>) -> RawEvent {
    RawEvent {
        id: Some("evt-1".to_string()),
        summary: title.map(|t| t.to_string()),
        description: Some("notes".to_string()),
        start,
        end,
    }
}

fn local_offset_at(secs: i64) -> i32 {
    Local.timestamp_opt(secs, 0).unwrap().offset().local_minus_utc()
}

#[test]
fn all_day_record_runs_from_local_midnight_to_local_midnight() {
    let raw = record(Some("Holiday"), dated(2024, 6, 1), dated(2024, 6, 2));
    let event = convert_event(raw, &calendar()).unwrap().unwrap();
    let start = Local.with_ymd_and_hms(2024, 6, 1, 0, 0, 0).unwrap();
    let end = Local.with_ymd_and_hms(2024, 6, 2, 0, 0, 0).unwrap();
    assert!(event.all_day);
    assert_eq!(event.start_time.utc_secs, start.timestamp());
    assert_eq!(event.start_time.offset_secs, start.offset().local_minus_utc());
    assert_eq!(event.start_time.nanos, 0);
    assert_eq!(event.end_time.utc_secs, end.timestamp());
    assert_eq!(event.end_time.offset_secs, end.offset().local_minus_utc());
    assert_eq!(event.end_time.nanos, 0);
    assert_eq!(
        (event.start_time.utc_secs + event.start_time.offset_secs as i64).rem_euclid(86_400),
        0
    );
    assert_eq!(event.title, "Holiday");
    assert_eq!(event.id, "evt-1");
    assert_eq!(event.description, Some("notes".to_string()));
    assert_eq!(event.calendar_name, "Work");
    assert_eq!(event.calendar_color, "#ff0000");
}

#[test]
fn all_day_record_ignores_the_date_of_its_end() {
    let raw = record(Some("Trip"), dated(2024, 6, 1), dated(2024, 6, 9));
    let event = convert_event(raw, &calendar()).unwrap().unwrap();
    let wall_start = event.start_time.utc_secs + event.start_time.offset_secs as i64;
    let wall_end = event.end_time.utc_secs + event.end_time.offset_secs as i64;
    assert_eq!(wall_end - wall_start, 86_400);
}

#[test]
fn timed_record_without_end_lasts_one_hour() {
    let raw = record(Some("Standup"), timed(1_717_232_400), None);
    let event = convert_event(raw, &calendar()).unwrap().unwrap();
    assert!(!event.all_day);
    assert_eq!(event.start_time.utc_secs, 1_717_232_400);
    assert_eq!(event.end_time.utc_secs, 1_717_232_400 + 3_600);
    assert_eq!(event.start_time.offset_secs, local_offset_at(1_717_232_400));
    assert_eq!(event.end_time.offset_secs, local_offset_at(1_717_236_000));
}

#[test]
fn timed_record_with_untimed_end_lasts_one_hour() {
    let raw = record(Some("Standup"), timed(1_717_232_400), dated(2024, 6, 1));
    let event = convert_event(raw, &calendar()).unwrap().unwrap();
    assert_eq!(event.end_time.utc_secs, 1_717_232_400 + 3_600);
}

#[test]
fn timed_record_keeps_its_own_end() {
    let raw = record(Some("Workshop"), timed(1_717_232_400), timed(1_717_250_000));
    let event = convert_event(raw, &calendar()).unwrap().unwrap();
    assert_eq!(event.start_time.utc_secs, 1_717_232_400);
    assert_eq!(event.end_time.utc_secs, 1_717_250_000);
    assert_eq!(event.end_time.offset_secs, local_offset_at(1_717_250_000));
    assert!(!event.all_day);
}

#[test]
fn timed_start_takes_precedence_over_a_date() {
    let start = Some(EventTime {
        date: Some(CivilDate { year: 2024, month: 6, day: 1 }),
        date_time: Some(UtcInstant { secs: 1_717_232_400, nanos: 500 }),
    });
    let event = convert_event(record(Some("Both"), start, None), &calendar()).unwrap().unwrap();
    assert!(!event.all_day);
    assert_eq!(event.start_time.utc_secs, 1_717_232_400);
    assert_eq!(event.start_time.nanos, 500);
    assert_eq!(event.end_time.nanos, 500);
}

#[test]
fn record_without_start_is_dropped() {
    let no_start = record(Some("Nothing"), None, timed(1_717_232_400));
    assert!(convert_event(no_start, &calendar()).unwrap().is_none());
    let empty_start = record(Some("Nothing"), Some(EventTime { date: None, date_time: None }), None);
    assert!(convert_event(empty_start, &calendar()).unwrap().is_none());
}

#[test]
fn missing_title_and_id_get_their_defaults() {
    let raw = RawEvent {
        id: None,
        summary: None,
        description: None,
        start: timed(1_717_232_400),
        end: None,
    };
    let event = convert_event(raw, &calendar()).unwrap().unwrap();
    assert_eq!(event.title, "Untitled Event");
    assert_eq!(event.id, "");
    assert_eq!(event.description, None);
}

#[test]
fn date_that_does_not_exist_is_a_parse_error() {
    let raw = record(Some("Never"), dated(2024, 2, 30), None);
    let error = convert_event(raw, &calendar()).unwrap_err();
    assert_eq!(error.error_kind(), ErrorKind::Parse);
    assert_eq!(
        error.message(),
        "Parse error: Event time cannot be placed in the local time zone"
    );
}

#[test]
fn instant_beyond_the_calendar_is_a_parse_error() {
    let raw = record(Some("Far"), timed(i64::MAX), None);
    let error = convert_event(raw, &calendar()).unwrap_err();
    assert_eq!(error.error_kind(), ErrorKind::Parse);
}

#[test]
fn default_end_is_one_hour_later() {
    assert_eq!(
        default_end(UtcInstant { secs: 1_000, nanos: 42 }),
        Some(UtcInstant { secs: 4_600, nanos: 42 })
    );
    assert_eq!(
        default_end(UtcInstant { secs: -3_600, nanos: 0 }),
        Some(UtcInstant { secs: 0, nanos: 0 })
    );
}

#[test]
fn default_end_leaves_a_leap_second() {
    assert_eq!(
        default_end(UtcInstant { secs: 59, nanos: 1_300_000_000 }),
        Some(UtcInstant { secs: 3_659, nanos: 300_000_000 })
    );
}

fn last_second() -> i64 {
    chrono::DateTime::<chrono::Utc>::MAX_UTC.timestamp()
}

fn first_second() -> i64 {
    chrono::DateTime::<chrono::Utc>::MIN_UTC.timestamp()
}

#[test]
fn default_end_at_the_end_of_the_calendar() {
    assert_eq!(
        default_end(UtcInstant { secs: last_second() - 3_600, nanos: 0 }),
        Some(UtcInstant { secs: last_second(), nanos: 0 })
    );
    assert_eq!(default_end(UtcInstant { secs: last_second() - 3_599, nanos: 0 }), None);
    assert_eq!(default_end(UtcInstant { secs: last_second() + 1, nanos: 0 }), None);
    assert_eq!(default_end(UtcInstant { secs: i64::MAX - 3_600, nanos: 0 }), None);
    assert_eq!(default_end(UtcInstant { secs: i64::MAX, nanos: 0 }), None);
    assert_eq!(
        default_end(UtcInstant { secs: first_second(), nanos: 0 }),
        Some(UtcInstant { secs: first_second() + 3_600, nanos: 0 })
    );
    assert_eq!(default_end(UtcInstant { secs: first_second() - 1, nanos: 0 }), None);
}

#[test]
fn default_end_of_what_is_no_instant() {
    assert_eq!(default_end(UtcInstant { secs: 0, nanos: 1_000_000_000 }), None);
    assert_eq!(default_end(UtcInstant { secs: 59, nanos: 2_000_000_000 }), None);
    assert_eq!(default_end(UtcInstant { secs: 0, nanos: u32::MAX }), None);
}

#[test]
fn timed_end_keeps_an_end_that_is_not_before_the_start() {
    let start = UtcInstant { secs: 1_000, nanos: 5 };
    let later = UtcInstant { secs: 1_000, nanos: 6 };
    let earlier = UtcInstant { secs: 1_000, nanos: 4 };
    let hour = Some(UtcInstant { secs: 4_600, nanos: 5 });
    assert_eq!(timed_end(start, Some(later)), Some(later));
    assert_eq!(timed_end(start, Some(start)), Some(start));
    assert_eq!(timed_end(start, Some(earlier)), hour);
    assert_eq!(timed_end(start, Some(UtcInstant { secs: 999, nanos: 900 })), hour);
    assert_eq!(timed_end(start, None), hour);
    let far = UtcInstant { secs: i64::MAX, nanos: 0 };
    assert_eq!(timed_end(start, Some(far)), Some(far));
    assert_eq!(timed_end(far, None), None);
}

#[test]
fn timed_record_that_ends_before_it_starts_lasts_one_hour() {
    let raw = record(Some("Backwards"), timed(1_717_232_400), timed(1_717_232_399));
    let event = convert_event(raw, &calendar()).unwrap().unwrap();
    assert_eq!(event.start_time.utc_secs, 1_717_232_400);
    assert_eq!(event.end_time.utc_secs, 1_717_232_400 + 3_600);
    assert_eq!(event.end_time.offset_secs, local_offset_at(1_717_236_000));
}

#[test]
fn timed_record_may_end_when_it_starts() {
    let raw = record(Some("Moment"), timed(1_717_232_400), timed(1_717_232_400));
    let event = convert_event(raw, &calendar()).unwrap().unwrap();
    assert_eq!(event.start_time, event.end_time);
}

#[test]
fn timed_record_converts_wherever_its_ends_are_instants() {
    let at_the_end = record(Some("Last"), timed(last_second() - 3_600), None);
    let event = convert_event(at_the_end, &calendar()).unwrap().unwrap();
    assert_eq!(event.end_time.utc_secs, last_second());
    let at_the_start = record(Some("First"), timed(first_second()), timed(last_second()));
    let event = convert_event(at_the_start, &calendar()).unwrap().unwrap();
    assert_eq!(event.start_time.utc_secs, first_second());
    assert_eq!(event.end_time.utc_secs, last_second());
    let too_late = record(Some("Late"), timed(last_second() - 3_599), None);
    assert!(convert_event(too_late, &calendar()).is_err());
    let end_too_late = record(Some("Late"), timed(0), timed(last_second() + 1));
    assert!(convert_event(end_too_late, &calendar()).is_err());
    let too_early = record(Some("Early"), timed(first_second() - 1), timed(0));
    assert!(convert_event(too_early, &calendar()).is_err());
    let no_instant = Some(EventTime {
        date: None,
        date_time: Some(UtcInstant { secs: 0, nanos: 1_500_000_000 }),
    });
    assert!(convert_event(record(Some("Odd"), no_instant, None), &calendar()).is_err());
}

#[test]
fn timed_span_refuses_an_end_before_the_start() {
    let start = UtcInstant { secs: 100, nanos: 7 };
    let before = UtcInstant { secs: 100, nanos: 6 };
    let error = timed_span(start, Some(before), Some(0), Some(0)).unwrap_err();
    assert_eq!(error.error_kind(), ErrorKind::Parse);
    assert!(timed_span(start, Some(start), Some(0), Some(0)).is_ok());
}

#[test]
fn all_day_span_refuses_a_next_midnight_before_this_one() {
    let midnight = 1_717_200_000;
    assert!(all_day_span(Some(midnight), Some(-86_399), Some(86_399)).is_err());
    assert!(all_day_span(Some(midnight), Some(-1), Some(86_399)).is_ok());
    let same = all_day_span(Some(midnight), Some(0), Some(86_399)).unwrap();
    assert_eq!(same.end.utc_secs - same.start.utc_secs, 1);
    assert!(all_day_span(Some(midnight), Some(-1), Some(86_400)).is_err());
}

#[test]
fn timed_span_pairs_instants_with_offsets() {
    let start = UtcInstant { secs: 100, nanos: 7 };
    let end = UtcInstant { secs: 200, nanos: 9 };
    let span = timed_span(start, Some(end), Some(3_600), Some(7_200)).unwrap();
    assert_eq!(
        span,
        Span {
            start: LocalTime { utc_secs: 100, nanos: 7, offset_secs: 3_600 },
            end: LocalTime { utc_secs: 200, nanos: 9, offset_secs: 7_200 },
        }
    );
}

#[test]
fn timed_span_needs_every_part() {
    let start = UtcInstant { secs: 100, nanos: 0 };
    let end = UtcInstant { secs: 200, nanos: 0 };
    assert!(timed_span(start, None, Some(0), Some(0)).is_err());
    assert!(timed_span(start, Some(end), None, Some(0)).is_err());
    let error = timed_span(start, Some(end), Some(0), None).unwrap_err();
    assert_eq!(error.error_kind(), ErrorKind::Parse);
}

#[test]
fn all_day_span_subtracts_the_offsets() {
    let midnight = 1_717_200_000;
    let span = all_day_span(Some(midnight), Some(7_200), Some(3_600)).unwrap();
    assert_eq!(
        span,
        Span {
            start: LocalTime { utc_secs: midnight - 7_200, nanos: 0, offset_secs: 7_200 },
            end: LocalTime { utc_secs: midnight + 86_400 - 3_600, nanos: 0, offset_secs: 3_600 },
        }
    );
}

#[test]
fn all_day_span_needs_every_part_and_room_on_the_clock() {
    assert!(all_day_span(None, Some(0), Some(0)).is_err());
    assert!(all_day_span(Some(0), None, Some(0)).is_err());
    assert!(all_day_span(Some(0), Some(0), None).is_err());
    assert!(all_day_span(Some(i64::MAX - 86_399), Some(0), Some(0)).is_err());
    assert!(all_day_span(Some(i64::MIN), Some(1), Some(0)).is_err());
    assert!(all_day_span(Some(i64::MAX - 86_400), Some(0), Some(0)).is_ok());
}

#[test]
fn build_event_copies_calendar_name_and_colour() {
    let span = Span {
        start: LocalTime { utc_secs: 10, nanos: 0, offset_secs: 0 },
        end: LocalTime { utc_secs: 20, nanos: 0, offset_secs: 0 },
    };
    let event = build_event(record(Some("Lunch"), None, None), &calendar(), span, true);
    assert_eq!(event.title, "Lunch");
    assert_eq!(event.calendar_name, "Work");
    assert_eq!(event.calendar_color, "#ff0000");
    assert_eq!(event.start_time, span.start);
    assert_eq!(event.end_time, span.end);
    assert!(event.all_day);
}

#[test]
fn records_convert_in_order_and_drop_the_unusable() {
    let records = vec![
        record(Some("first"), timed(300), None),
        record(Some("nowhere"), None, None),
        record(Some("second"), timed(100), None),
        record(Some("third"), dated(2024, 6, 1), None),
    ];
    let events = convert_records(records, &calendar()).unwrap();
    let titles: Vec<&str> = events.iter().map(|e| e.title.as_str()).collect();
    assert_eq!(titles, vec!["first", "second", "third"]);
}

#[test]
fn one_unplaceable_record_fails_its_list() {
    let records = vec![
        record(Some("fine"), timed(300), None),
        record(Some("broken"), dated(2023, 13, 1), None),
    ];
    let error = convert_records(records, &calendar()).unwrap_err();
    assert_eq!(error.error_kind(), ErrorKind::Parse);
}

#[test]
fn no_records_convert_to_no_events() {
    assert!(convert_records(Vec::new(), &calendar()).unwrap().is_empty());
}
